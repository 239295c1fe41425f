//! Which log files are old rotated logs that may be pruned.
use vstd::prelude::*;
use crate::text::{chars_eq, chars_of};

verus! {

/// Days rotated log files are kept.
pub const LOG_RETENTION_DAYS: u64 = 14;

/// Position of the last `.` in a file name, or -1.
pub open spec fn last_dot(name: Seq<char>) -> int
    decreases name.len(),
{
    if name.len() == 0 {
        -1
    } else if name.last() == '.' {
        name.len() - 1
    } else {
        last_dot(name.drop_last())
    }
}

/// The extension of a file name as `Path::extension` gives it: the text
/// after the last `.`, unless there is no `.` or the only one starts the
/// name.
pub open spec fn extension(name: Seq<char>) -> Option<Seq<char>> {
    let k = last_dot(name);
    if k <= 0 {
        None
    } else {
        Some(name.skip(k + 1))
    }
}

/// A rotated log (such as `jabberwok.log.2026-03-17`) may be pruned; the
/// active `.log` file and files without an extension are kept.
pub open spec fn prunable(name: Seq<char>) -> bool {
    match extension(name) {
        None => false,
        Some(e) => e != "log"@,
    }
}

/// Whether the file named `file_name` in the log directory is a rotated
/// log that may be pruned once old enough.
pub fn is_prune_candidate(file_name: &str) -> (r: bool)
    ensures
        r == prunable(file_name@),
{
    let n = chars_of(file_name);
    let mut i = n.len();
    assert(n@.take(i as int) =~= n@);
    while i > 0 && n[i - 1] != '.'
        invariant
            i <= n@.len(),
            last_dot(n@) == last_dot(n@.take(i as int)),
        decreases i,
    {
        assert(n@.take(i as int).drop_last() =~= n@.take(i as int - 1));
        i = i - 1;
    }
    assert(i > 0 ==> n@.take(i as int).last() == '.');
    assert(i == 0 ==> n@.take(i as int).len() == 0);
    if i <= 1 {
        return false;
    }
    let ext = crate::text::sub_vec(n.as_slice(), i, n.len());
    assert(ext@ =~= n@.skip(i as int));
    !chars_eq(ext.as_slice(), chars_of("log").as_slice())
}

/// A file is pruned when it is a rotated log last modified before the
/// cutoff.
pub fn should_prune(file_name: &str, modified_before_cutoff: bool) -> (r: bool)
    ensures
        r == (prunable(file_name@) && modified_before_cutoff),
{
    is_prune_candidate(file_name) && modified_before_cutoff
}

/// How far back the pruning cutoff lies, in seconds.
pub fn retention_seconds(keep_days: u64) -> (r: u64)
    requires
        keep_days * 86400 <= u64::MAX,
    ensures
        r == keep_days * 86400,
{
    86400u64 * keep_days
}


/// Whether the extension of a file name is `ext`.
pub fn extension_is(file_name: &str, ext: &str) -> (r: bool)
    ensures
        r == (extension(file_name@) == Some(ext@)),
{
    let n = chars_of(file_name);
    let mut i = n.len();
    assert(n@.take(i as int) =~= n@);
    while i > 0 && n[i - 1] != '.'
        invariant
            i <= n@.len(),
            last_dot(n@) == last_dot(n@.take(i as int)),
        decreases i,
    {
        assert(n@.take(i as int).drop_last() =~= n@.take(i as int - 1));
        i = i - 1;
    }
    assert(i > 0 ==> n@.take(i as int).last() == '.');
    assert(i == 0 ==> n@.take(i as int).len() == 0);
    if i <= 1 {
        return false;
    }
    let e = crate::text::sub_vec(n.as_slice(), i, n.len());
    assert(e@ =~= n@.skip(i as int));
    chars_eq(e.as_slice(), chars_of(ext).as_slice())
}


/// A file of the log directory, and whether it was last modified before
/// the pruning cutoff.
#[derive(Debug, Clone)]
pub struct LogFile {
    pub name: String,
    pub modified_before_cutoff: bool,
}

/// The names of the files to delete, in order.
pub open spec fn to_prune(files: Seq<LogFile>) -> Seq<Seq<char>>
    decreases files.len(),
{
    if files.len() == 0 {
        Seq::empty()
    } else {
        let init = to_prune(files.drop_last());
        let f = files.last();
        if prunable(f.name@) && f.modified_before_cutoff {
            init.push(f.name@)
        } else {
            init
        }
    }
}

/// Which files of the log directory are old rotated logs to delete.
pub fn prune_old_logs(files: &[LogFile]) -> (r: Vec<String>)
    ensures
        crate::text::string_views(r@) == to_prune(files@),
{
    let mut r: Vec<String> = Vec::new();
    let mut i: usize = 0;
    assert(files@.take(0) =~= Seq::<LogFile>::empty());
    while i < files.len()
        invariant
            i <= files@.len(),
            crate::text::string_views(r@) == to_prune(files@.take(i as int)),
        decreases files@.len() - i,
    {
        assert(files@.take(i as int + 1).drop_last() =~= files@.take(i as int));
        assert(files@.take(i as int + 1).last() == files@[i as int]);
        if should_prune(files[i].name.as_str(), files[i].modified_before_cutoff) {
            let ghost before = r@;
            r.push(files[i].name.clone());
            assert(crate::text::string_views(r@) =~= crate::text::string_views(before).push(
                files@[i as int].name@,
            ));
        }
        i = i + 1;
    }
    assert(files@.take(files@.len() as int) =~= files@);
    r
}


/// A rotated log last modified before the cutoff.
pub open spec fn old_rotated(f: LogFile) -> bool {
    f.modified_before_cutoff && prunable(f.name@)
}

/// Only old rotated logs are deleted, and all of them: every name returned
/// is that of a rotated log modified before the cutoff, every such file's
/// name is returned, and one name is returned per such file.
pub proof fn lemma_prune_only_old_rotated(files: Seq<LogFile>)
    ensures
        forall|j: int|
            0 <= j < to_prune(files).len() ==> exists|i: int|
                0 <= i < files.len() && files[i].name@ == #[trigger] to_prune(files)[j]
                    && old_rotated(files[i]),
        forall|i: int|
            0 <= i < files.len() && old_rotated(#[trigger] files[i]) ==> to_prune(files).contains(
                files[i].name@,
            ),
        to_prune(files).len() == files.filter(|f: LogFile| old_rotated(f)).len(),
    decreases files.len(),
{
    if files.len() > 0 {
        let init = files.drop_last();
        let f = files.last();
        lemma_prune_only_old_rotated(init);
        assert(init.push(f) =~= files);
        init.lemma_filter_push(f, |g: LogFile| old_rotated(g));
        let r = to_prune(files);
        let ri = to_prune(init);
        assert forall|j: int| 0 <= j < r.len() implies exists|i: int|
            0 <= i < files.len() && files[i].name@ == #[trigger] r[j] && old_rotated(files[i]) by {
            if j < ri.len() {
                assert(r[j] == ri[j]);
                let i = choose|i: int|
                    0 <= i < init.len() && init[i].name@ == ri[j] && old_rotated(init[i]);
                assert(files[i] == init[i]);
            } else {
                assert(files[files.len() - 1] == f);
            }
        }
        assert forall|i: int| 0 <= i < files.len() && old_rotated(#[trigger] files[i]) implies r.contains(
            files[i].name@,
        ) by {
            if i < init.len() {
                assert(files[i] == init[i]);
                assert(ri.contains(init[i].name@));
                let w = choose|w: int| 0 <= w < ri.len() && ri[w] == init[i].name@;
                assert(r[w] == ri[w]);
            } else {
                assert(r[r.len() - 1] == f.name@);
            }
        }
    }
}

} // verus!
