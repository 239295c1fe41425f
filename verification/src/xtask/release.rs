//! Release version rules and `Cargo.toml` package-version editing.
use vstd::prelude::*;
use crate::text::{
    chars_of, ends_with, ends_with_chars, first_index, indent_chars, indent_of, is_ws, join,
    join_chars, lemma_first_index, lemma_indent_ws, lemma_lines_no_newline, lemma_lines_of_join,
    lemma_lines_of_join_exact, lemma_lines_last_nonempty, strip_cr,
    lemma_split_chars,
    lemma_trim_start_suffix, lemma_trim_start_ws_prefix, lines, lines_of, no_newline, push_all,
    split, split_chars, split_once, split_once_chars, starts_with, starts_with_chars, string_of,
    trim, trim_char_end, trim_char_start, trim_chars, trim_end, trim_matches, trim_matches_chars,
    trim_start, views,
};

verus! {

/// Why a release step was refused.
#[derive(Debug, Clone, Copy, PartialEq, Eq)]
pub enum ReleaseError {
    /// The requested version is not `MAJOR.MINOR.PATCH[-PRERELEASE]`.
    InvalidVersion,
    /// No `version = ` line inside `[package]`.
    MissingPackageVersion,
    /// The version line has no `=`.
    InvalidVersionLine,
    /// The version line holds an empty value.
    EmptyPackageVersion,
    /// No `[package]` version line could be rewritten.
    VersionNotReplaced,
}

/// The message shown for each refusal.
pub open spec fn release_message(e: ReleaseError) -> Seq<char> {
    match e {
        ReleaseError::InvalidVersion => "version must look like 0.1.1 or 0.1.1-rc.1"@,
        ReleaseError::MissingPackageVersion => "failed to find package version in Cargo.toml"@,
        ReleaseError::InvalidVersionLine => "invalid version line in Cargo.toml"@,
        ReleaseError::EmptyPackageVersion => "package version in Cargo.toml is empty"@,
        ReleaseError::VersionNotReplaced => "failed to update package version in Cargo.toml"@,
    }
}

impl ReleaseError {
    /// The message shown to the user.
    pub fn message(&self) -> (r: String)
        ensures
            r@ == release_message(*self),
    {
        match self {
            ReleaseError::InvalidVersion => "version must look like 0.1.1 or 0.1.1-rc.1".to_string(),
            ReleaseError::MissingPackageVersion => "failed to find package version in Cargo.toml".to_string(),
            ReleaseError::InvalidVersionLine => "invalid version line in Cargo.toml".to_string(),
            ReleaseError::EmptyPackageVersion => "package version in Cargo.toml is empty".to_string(),
            ReleaseError::VersionNotReplaced => "failed to update package version in Cargo.toml".to_string(),
        }
    }
}

pub open spec fn is_digit(c: char) -> bool {
    '0' <= c && c <= '9'
}

pub open spec fn is_ascii_alnum(c: char) -> bool {
    is_digit(c) || ('a' <= c && c <= 'z') || ('A' <= c && c <= 'Z')
}

pub open spec fn all_digits(s: Seq<char>) -> bool {
    forall|i: int| 0 <= i < s.len() ==> is_digit(#[trigger] s[i])
}

/// Exactly three non-empty dot-separated parts, each made of ASCII digits.
pub open spec fn valid_core_version(core: Seq<char>) -> bool {
    let parts = split(core, '.');
    &&& parts.len() == 3
    &&& forall|i: int| 0 <= i < 3 ==> (#[trigger] parts[i]).len() > 0 && all_digits(parts[i])
}

/// ASCII letters, digits and hyphens only.
pub open spec fn valid_prerelease_identifier(id: Seq<char>) -> bool {
    forall|i: int| 0 <= i < id.len() ==> is_ascii_alnum(#[trigger] id[i]) || id[i] == '-'
}

/// Non-empty dot-separated identifiers, each non-empty and valid.
pub open spec fn valid_prerelease(p: Seq<char>) -> bool {
    let parts = split(p, '.');
    &&& p.len() > 0
    &&& forall|i: int|
        0 <= i < parts.len() ==> (#[trigger] parts[i]).len() > 0
            && valid_prerelease_identifier(parts[i])
}

/// `MAJOR.MINOR.PATCH`, optionally followed by `-` and a pre-release; the
/// first `-` separates the two.
pub open spec fn valid_version(v: Seq<char>) -> bool {
    match split_once(v, '-') {
        Some((core, pre)) => valid_core_version(core) && valid_prerelease(pre),
        None => valid_core_version(v),
    }
}

fn all_digits_chars(v: &[char]) -> (r: bool)
    ensures
        r == all_digits(v@),
{
    let mut i: usize = 0;
    while i < v.len()
        invariant
            i <= v@.len(),
            forall|k: int| 0 <= k < i ==> is_digit(v@[k]),
        decreases v@.len() - i,
    {
        if !(v[i] >= '0' && v[i] <= '9') {
            return false;
        }
        i = i + 1;
    }
    true
}

pub fn is_valid_prerelease_identifier(identifier: &[char]) -> (r: bool)
    ensures
        r == valid_prerelease_identifier(identifier@),
{
    let mut i: usize = 0;
    while i < identifier.len()
        invariant
            i <= identifier@.len(),
            forall|k: int|
                0 <= k < i ==> is_ascii_alnum(identifier@[k]) || identifier@[k] == '-',
        decreases identifier@.len() - i,
    {
        let c = identifier[i];
        if !((c >= '0' && c <= '9') || (c >= 'a' && c <= 'z') || (c >= 'A' && c <= 'Z') || c
            == '-') {
            return false;
        }
        i = i + 1;
    }
    true
}

pub fn validate_core_version(core: &[char]) -> (r: Result<(), ReleaseError>)
    ensures
        r is Ok <==> valid_core_version(core@),
        r is Err ==> r == Err::<(), ReleaseError>(ReleaseError::InvalidVersion),
{
    let parts = split_chars(core, '.');
    if parts.len() != 3 {
        return Err(ReleaseError::InvalidVersion);
    }
    let mut i: usize = 0;
    while i < 3
        invariant
            i <= 3,
            parts@.len() == 3,
            views(parts@) == split(core@, '.'),
            forall|k: int|
                0 <= k < i ==> (#[trigger] views(parts@)[k]).len() > 0 && all_digits(
                    views(parts@)[k],
                ),
        decreases 3 - i,
    {
        assert(views(parts@)[i as int] == parts@[i as int]@);
        if parts[i].len() == 0 || !all_digits_chars(parts[i].as_slice()) {
            return Err(ReleaseError::InvalidVersion);
        }
        i = i + 1;
    }
    Ok(())
}

pub fn validate_prerelease(prerelease: &[char]) -> (r: Result<(), ReleaseError>)
    ensures
        r is Ok <==> valid_prerelease(prerelease@),
        r is Err ==> r == Err::<(), ReleaseError>(ReleaseError::InvalidVersion),
{
    if prerelease.len() == 0 {
        return Err(ReleaseError::InvalidVersion);
    }
    let parts = split_chars(prerelease, '.');
    let mut i: usize = 0;
    while i < parts.len()
        invariant
            i <= parts@.len(),
            views(parts@) == split(prerelease@, '.'),
            forall|k: int|
                0 <= k < i ==> (#[trigger] views(parts@)[k]).len() > 0
                    && valid_prerelease_identifier(views(parts@)[k]),
        decreases parts@.len() - i,
    {
        assert(views(parts@)[i as int] == parts@[i as int]@);
        if parts[i].len() == 0 || !is_valid_prerelease_identifier(parts[i].as_slice()) {
            return Err(ReleaseError::InvalidVersion);
        }
        i = i + 1;
    }
    Ok(())
}

/// Accepts exactly the versions described by `valid_version`.
pub fn validate_version(version: &str) -> (r: Result<(), ReleaseError>)
    ensures
        r is Ok <==> valid_version(version@),
        r is Err ==> r == Err::<(), ReleaseError>(ReleaseError::InvalidVersion),
{
    let v = chars_of(version);
    match split_once_chars(v.as_slice(), '-') {
        Some((core, pre)) => {
            validate_core_version(core.as_slice())?;
            validate_prerelease(pre.as_slice())
        },
        None => validate_core_version(v.as_slice()),
    }
}


/// The value of a `version = "..."` line: the text after the first `=`,
/// trimmed of whitespace and then of surrounding double quotes.
pub open spec fn version_line_value(line: Seq<char>) -> Result<Seq<char>, ReleaseError> {
    match split_once(line, '=') {
        None => Err(ReleaseError::InvalidVersionLine),
        Some((_, value)) => {
            let v = trim_matches(trim(value), '"');
            if v.len() == 0 {
                Err(ReleaseError::EmptyPackageVersion)
            } else {
                Ok(v)
            }
        },
    }
}

pub fn parse_version_line(line: &str) -> (r: Result<String, ReleaseError>)
    ensures
        match r {
            Ok(v) => version_line_value(line@) == Ok::<Seq<char>, ReleaseError>(v@),
            Err(e) => version_line_value(line@) == Err::<Seq<char>, ReleaseError>(e),
        },
{
    let l = chars_of(line);
    parse_version_chars(l.as_slice())
}

fn parse_version_chars(line: &[char]) -> (r: Result<String, ReleaseError>)
    ensures
        match r {
            Ok(v) => version_line_value(line@) == Ok::<Seq<char>, ReleaseError>(v@),
            Err(e) => version_line_value(line@) == Err::<Seq<char>, ReleaseError>(e),
        },
{
    match split_once_chars(line, '=') {
        None => Err(ReleaseError::InvalidVersionLine),
        Some((_, value)) => {
            let t = trim_chars(value.as_slice());
            let v = trim_matches_chars(t.as_slice(), '"');
            if v.len() == 0 {
                Err(ReleaseError::EmptyPackageVersion)
            } else {
                Ok(string_of(v.as_slice()))
            }
        },
    }
}

/// A section header line (after trimming) starts with `[`.
pub open spec fn is_header(t: Seq<char>) -> bool {
    t.len() > 0 && t[0] == '['
}

/// Scans manifest lines for the first `version = ` line inside `[package]`.
pub open spec fn package_version_in(ls: Seq<Seq<char>>, in_package: bool) -> Result<
    Seq<char>,
    ReleaseError,
>
    decreases ls.len(),
{
    if ls.len() == 0 {
        Err(ReleaseError::MissingPackageVersion)
    } else {
        let t = trim(ls[0]);
        if is_header(t) {
            package_version_in(ls.drop_first(), t == "[package]"@)
        } else if in_package && starts_with(t, "version = "@) {
            version_line_value(t)
        } else {
            package_version_in(ls.drop_first(), in_package)
        }
    }
}

/// The package version declared by a `Cargo.toml` text.
pub fn package_version(contents: &str) -> (r: Result<String, ReleaseError>)
    ensures
        match r {
            Ok(v) => package_version_in(lines(contents@), false) == Ok::<
                Seq<char>,
                ReleaseError,
            >(v@),
            Err(e) => package_version_in(lines(contents@), false) == Err::<
                Seq<char>,
                ReleaseError,
            >(e),
        },
{
    let c = chars_of(contents);
    let ls = lines_of(c.as_slice());
    let package_header = chars_of("[package]");
    let version_prefix = chars_of("version = ");
    let mut in_package = false;
    let mut i: usize = 0;
    assert(views(ls@).skip(0) =~= views(ls@));
    while i < ls.len()
        invariant
            i <= ls@.len(),
            package_header@ == "[package]"@,
            version_prefix@ == "version = "@,
            package_version_in(lines(contents@), false) == package_version_in(
                views(ls@).skip(i as int),
                in_package,
            ),
            views(ls@) == lines(contents@),
        decreases ls@.len() - i,
    {
        let ghost rest = views(ls@).skip(i as int);
        assert(rest[0] == ls@[i as int]@);
        assert(rest.drop_first() =~= views(ls@).skip(i as int + 1));
        let t = trim_chars(ls[i].as_slice());
        if t.len() > 0 && t[0] == '[' {
            in_package = chars_eq_vec(&t, &package_header);
            i = i + 1;
            continue ;
        }
        if in_package && starts_with_chars(t.as_slice(), version_prefix.as_slice()) {
            return parse_version_chars(t.as_slice());
        }
        i = i + 1;
    }
    Err(ReleaseError::MissingPackageVersion)
}

fn chars_eq_vec(a: &Vec<char>, b: &Vec<char>) -> (r: bool)
    ensures
        r == (a@ == b@),
{
    crate::text::chars_eq(a.as_slice(), b.as_slice())
}

/// The replacement line: the line's own indentation, then `version = "<version>"`.
pub open spec fn version_line(line: Seq<char>, version: Seq<char>) -> Seq<char> {
    indent_of(line) + "version = \""@ + version + "\""@
}

/// Rewrites the first `version = ` line inside `[package]`; returns the new
/// lines and whether a line was rewritten.
pub open spec fn replace_in(
    ls: Seq<Seq<char>>,
    in_package: bool,
    replaced: bool,
    version: Seq<char>,
) -> (Seq<Seq<char>>, bool)
    decreases ls.len(),
{
    if ls.len() == 0 {
        (Seq::empty(), replaced)
    } else {
        let line = ls[0];
        let t = trim(line);
        let in2 = if is_header(t) {
            t == "[package]"@
        } else {
            in_package
        };
        if in2 && starts_with(t, "version = "@) && !replaced {
            let rest = replace_in(ls.drop_first(), in2, true, version);
            (seq![version_line(line, version)] + rest.0, rest.1)
        } else {
            let rest = replace_in(ls.drop_first(), in2, replaced, version);
            (seq![line] + rest.0, rest.1)
        }
    }
}

/// The manifest text with its package version set to `version`.
pub open spec fn replaced_manifest(contents: Seq<char>, version: Seq<char>) -> Result<
    Seq<char>,
    ReleaseError,
> {
    let (out, replaced) = replace_in(lines(contents), false, false, version);
    if !replaced {
        Err(ReleaseError::VersionNotReplaced)
    } else if ends_with(contents, seq!['\n']) {
        Ok(join(out, seq!['\n']) + seq!['\n'])
    } else {
        Ok(join(out, seq!['\n']))
    }
}

pub fn replace_package_version(contents: &str, version: &str) -> (r: Result<
    String,
    ReleaseError,
>)
    ensures
        match r {
            Ok(v) => replaced_manifest(contents@, version@) == Ok::<Seq<char>, ReleaseError>(
                v@,
            ),
            Err(e) => replaced_manifest(contents@, version@) == Err::<Seq<char>, ReleaseError>(
                e,
            ),
        },
{
    let c = chars_of(contents);
    let ver = chars_of(version);
    let ls = lines_of(c.as_slice());
    let package_header = chars_of("[package]");
    let version_prefix = chars_of("version = ");
    let quote_open = chars_of("version = \"");
    let quote_close = chars_of("\"");
    let mut in_package = false;
    let mut replaced = false;
    let mut output: Vec<Vec<char>> = Vec::new();
    let mut i: usize = 0;
    let ghost all = views(ls@);
    assert(all.skip(0) =~= all);
    assert(views(output@) + replace_in(all.skip(0), false, false, ver@).0 =~= replace_in(
        all,
        false,
        false,
        ver@,
    ).0);
    while i < ls.len()
        invariant
            i <= ls@.len(),
            all == views(ls@),
            all == lines(contents@),
            package_header@ == "[package]"@,
            version_prefix@ == "version = "@,
            quote_open@ == "version = \""@,
            quote_close@ == "\""@,
            ver@ == version@,
            views(output@) + replace_in(all.skip(i as int), in_package, replaced, ver@).0
                == replace_in(all, false, false, ver@).0,
            replace_in(all.skip(i as int), in_package, replaced, ver@).1 == replace_in(
                all,
                false,
                false,
                ver@,
            ).1,
        decreases ls@.len() - i,
    {
        let ghost rest = all.skip(i as int);
        let ghost old_out = views(output@);
        assert(rest[0] == ls@[i as int]@);
        assert(rest.drop_first() =~= all.skip(i as int + 1));
        let line = &ls[i];
        let t = trim_chars(line.as_slice());
        if t.len() > 0 && t[0] == '[' {
            in_package = chars_eq_vec(&t, &package_header);
        }
        if in_package && starts_with_chars(t.as_slice(), version_prefix.as_slice()) && !replaced {
            let mut nl = indent_chars(line.as_slice());
            push_all(&mut nl, quote_open.as_slice());
            push_all(&mut nl, ver.as_slice());
            push_all(&mut nl, quote_close.as_slice());
            assert(nl@ == version_line(line@, ver@));
            output.push(nl);
            replaced = true;
        } else {
            output.push(line.clone());
            assert(output@[output@.len() - 1]@ == line@);
        }
        assert(views(output@) =~= old_out + seq![views(output@).last()]);
        i = i + 1;
    }
    assert(all.skip(ls@.len() as int) =~= Seq::<Seq<char>>::empty());
    assert(views(output@) =~= replace_in(all, false, false, ver@).0);
    if !replaced {
        return Err(ReleaseError::VersionNotReplaced);
    }
    let mut nl: Vec<char> = Vec::new();
    nl.push('\n');
    assert(nl@ =~= seq!['\n']);
    let mut updated = join_chars(&output, nl.as_slice());
    if ends_with_chars(c.as_slice(), nl.as_slice()) {
        updated.push('\n');
        assert(updated@ =~= join(views(output@), seq!['\n']) + seq!['\n']);
    }
    Ok(string_of(updated.as_slice()))
}



/// A version value that reads back as written from between double quotes:
/// non-empty, neither starting nor ending with a double quote, on one line.
pub open spec fn plain_version(v: Seq<char>) -> bool {
    &&& v.len() > 0
    &&& v[0] != '"'
    &&& v.last() != '"'
    &&& no_newline(v)
}

proof fn lemma_version_line_text(line: Seq<char>, v: Seq<char>)
    requires
        plain_version(v),
        no_newline(line),
    ensures
        trim(version_line(line, v)) == "version = \""@ + v + "\""@,
        no_newline(version_line(line, v)),
        version_line(line, v).len() > 0,
{
    reveal_strlit("version = \"");
    reveal_strlit("\"");
    let core = "version = \""@ + v + "\""@;
    let ind = indent_of(line);
    lemma_indent_ws(line);
    lemma_trim_start_suffix(line);
    assert(version_line(line, v) =~= ind + core);
    lemma_trim_start_ws_prefix(ind, core);
    assert(core[0] == 'v');
    assert(trim_start(core) == core);
    assert(core.last() == '"');
    assert(trim_end(core) == core);
    assert forall|i: int| 0 <= i < (ind + core).len() implies (ind + core)[i] != '\n' by {
        if i < ind.len() {
            assert((ind + core)[i] == line[i]);
        } else if i < ind.len() + 11 {
            assert((ind + core)[i] == "version = \""@[i - ind.len()]);
        } else if i < ind.len() + 11 + v.len() {
            assert((ind + core)[i] == v[i - ind.len() - 11]);
        } else {
            assert((ind + core)[i] == '"');
        }
    }
}

proof fn lemma_read_version_line(v: Seq<char>)
    requires
        plain_version(v),
    ensures
        version_line_value("version = \""@ + v + "\""@) == Ok::<Seq<char>, ReleaseError>(v),
        starts_with("version = \""@ + v + "\""@, "version = "@),
        !is_header("version = \""@ + v + "\""@),
{
    reveal_strlit("version = \"");
    reveal_strlit("\"");
    reveal_strlit("version = ");
    let core = "version = \""@ + v + "\""@;
    lemma_first_index(core, '=');
    assert(core[8] == '=');
    assert(core[0] == 'v' && core[1] == 'e' && core[2] == 'r' && core[3] == 's' && core[4] == 'i'
        && core[5] == 'o' && core[6] == 'n' && core[7] == ' ');
    assert(first_index(core, '=') == 8);
    let value = core.skip(9);
    let w = seq!['"'] + v + seq!['"'];
    assert(value =~= seq![' '] + w);
    assert(value.drop_first() =~= w);
    assert(is_ws(' '));
    assert(!is_ws('"'));
    assert(trim_start(value) == trim_start(w));
    assert(trim_start(w) == w);
    assert(trim_end(w) == w);
    let u = v + seq!['"'];
    assert(w.drop_first() =~= u);
    assert(trim_char_start(w, '"') == trim_char_start(u, '"'));
    assert(trim_char_start(u, '"') == u);
    assert(u.drop_last() =~= v);
    assert(trim_char_end(u, '"') == trim_char_end(v, '"'));
    assert(trim_char_end(v, '"') == v);
    assert(core.take(10) =~= "version = "@);
}

proof fn lemma_replace_in_shape(ls: Seq<Seq<char>>, inp: bool, rep: bool, v: Seq<char>)
    ensures
        replace_in(ls, inp, rep, v).0.len() == ls.len(),
        forall|i: int|
            0 <= i < ls.len() ==> (#[trigger] replace_in(ls, inp, rep, v).0[i] == ls[i]
                || replace_in(ls, inp, rep, v).0[i] == version_line(ls[i], v)),
    decreases ls.len(),
{
    if ls.len() > 0 {
        let t = trim(ls[0]);
        let in2 = if is_header(t) {
            t == "[package]"@
        } else {
            inp
        };
        let here = in2 && starts_with(t, "version = "@) && !rep;
        let rep2 = rep || here;
        lemma_replace_in_shape(ls.drop_first(), in2, rep2, v);
        let o = replace_in(ls, inp, rep, v).0;
        let rest = replace_in(ls.drop_first(), in2, rep2, v).0;
        assert forall|i: int| 0 <= i < ls.len() implies (#[trigger] o[i] == ls[i] || o[i]
            == version_line(ls[i], v)) by {
            if i > 0 {
                assert(o[i] == rest[i - 1]);
                assert(ls[i] == ls.drop_first()[i - 1]);
            }
        }
    }
}

proof fn lemma_scan_replaced(ls: Seq<Seq<char>>, inp: bool, v: Seq<char>, m: Seq<Seq<char>>)
    requires
        plain_version(v),
        forall|i: int| 0 <= i < ls.len() ==> no_newline(#[trigger] ls[i]),
        replace_in(ls, inp, false, v).1,
        m.len() == replace_in(ls, inp, false, v).0.len() || (m.len() + 1 == replace_in(
            ls,
            inp,
            false,
            v,
        ).0.len() && replace_in(ls, inp, false, v).0.last().len() == 0),
        forall|i: int|
            0 <= i < m.len() ==> trim(#[trigger] m[i]) == trim(replace_in(ls, inp, false, v).0[i]),
    ensures
        package_version_in(m, inp) == Ok::<Seq<char>, ReleaseError>(v),
    decreases ls.len(),
{
    let o = replace_in(ls, inp, false, v).0;
    lemma_replace_in_shape(ls, inp, false, v);
    let line = ls[0];
    let t = trim(line);
    let in2 = if is_header(t) {
        t == "[package]"@
    } else {
        inp
    };
    reveal_strlit("version = ");
    if in2 && starts_with(t, "version = "@) {
        lemma_version_line_text(line, v);
        lemma_read_version_line(v);
        assert(t[0] == t.take(10)[0]);
        assert(t[0] == 'v');
        assert(!is_header(t));
        assert(o[0] == version_line(line, v));
        assert(m.len() >= 1);
        assert(trim(m[0]) == trim(o[0]));
    } else {
        let rest = replace_in(ls.drop_first(), in2, false, v);
        lemma_replace_in_shape(ls.drop_first(), in2, false, v);
        assert(o =~= seq![line] + rest.0);
        assert(m.len() >= 1);
        assert(trim(m[0]) == t);
        let m2 = m.drop_first();
        assert(rest.0 =~= o.drop_first());
        assert forall|i: int| 0 <= i < m2.len() implies trim(#[trigger] m2[i]) == trim(
            rest.0[i],
        ) by {
            assert(m2[i] == m[i + 1]);
            assert(rest.0[i] == o[i + 1]);
        }
        if o.len() >= 2 {
            assert(rest.0.last() == o.last());
        }
        assert forall|i: int| 0 <= i < ls.drop_first().len() implies no_newline(
            #[trigger] ls.drop_first()[i],
        ) by {
            assert(ls.drop_first()[i] == ls[i + 1]);
        }
        lemma_scan_replaced(ls.drop_first(), in2, v, m2);
    }
}

/// Reading the package version back from a manifest whose package version
/// was just set gives the version that was set, for any value that can
/// stand between double quotes on one line.
pub proof fn lemma_version_read_back(contents: Seq<char>, version: Seq<char>)
    requires
        plain_version(version),
        replaced_manifest(contents, version) is Ok,
    ensures
        package_version_in(lines(replaced_manifest(contents, version)->Ok_0), false) == Ok::<
            Seq<char>,
            ReleaseError,
        >(version),
{
    let ls = lines(contents);
    let o = replace_in(ls, false, false, version).0;
    lemma_lines_no_newline(contents);
    lemma_replace_in_shape(ls, false, false, version);
    assert forall|i: int| 0 <= i < o.len() implies no_newline(#[trigger] o[i]) by {
        if o[i] != ls[i] {
            lemma_version_line_text(ls[i], version);
        }
    }
    let end_nl = ends_with(contents, seq!['\n']);
    let out = replaced_manifest(contents, version)->Ok_0;
    lemma_lines_of_join(o, end_nl, out);
    lemma_scan_replaced(ls, false, version, lines(out));
}


proof fn lemma_core_chars(core: Seq<char>)
    requires
        valid_core_version(core),
    ensures
        core.len() > 0,
        forall|k: int| 0 <= k < core.len() ==> is_digit(#[trigger] core[k]) || core[k] == '.',
{
    let parts = split(core, '.');
    assert forall|j: int, m: int| 0 <= j < parts.len() && 0 <= m < parts[j].len() implies is_digit(
        #[trigger] parts[j][m],
    ) by {
        assert(all_digits(parts[j]));
    }
    lemma_split_chars(core, '.', |c: char| is_digit(c));
    if core.len() == 0 {
        assert(parts.len() == 1);
    }
}

proof fn lemma_prerelease_chars(pre: Seq<char>)
    requires
        valid_prerelease(pre),
    ensures
        pre.len() > 0,
        forall|k: int|
            0 <= k < pre.len() ==> is_ascii_alnum(#[trigger] pre[k]) || pre[k] == '-' || pre[k]
                == '.',
{
    let parts = split(pre, '.');
    assert forall|j: int, m: int| 0 <= j < parts.len() && 0 <= m < parts[j].len() implies (
    is_ascii_alnum(#[trigger] parts[j][m]) || parts[j][m] == '-') by {
        assert(valid_prerelease_identifier(parts[j]));
    }
    lemma_split_chars(pre, '.', |c: char| is_ascii_alnum(c) || c == '-');
}

/// Every version that validation accepts reads back as written.
pub proof fn lemma_valid_version_plain(v: Seq<char>)
    requires
        valid_version(v),
    ensures
        plain_version(v),
{
    match split_once(v, '-') {
        Some((core, pre)) => {
            let k = first_index(v, '-');
            lemma_first_index(v, '-');
            lemma_core_chars(core);
            lemma_prerelease_chars(pre);
            assert(core =~= v.take(k));
            assert(pre =~= v.skip(k + 1));
            assert(v[0] == core[0]);
            assert(v.last() == pre.last());
            assert forall|i: int| 0 <= i < v.len() implies v[i] != '\n' by {
                if i < k {
                    assert(v[i] == core[i]);
                } else if i > k {
                    assert(v[i] == pre[i - k - 1]);
                }
            }
        },
        None => {
            lemma_core_chars(v);
        },
    }
}


proof fn lemma_replace_in_done(ls: Seq<Seq<char>>, inp: bool, v: Seq<char>)
    ensures
        replace_in(ls, inp, true, v).0 == ls,
        replace_in(ls, inp, true, v).1,
    decreases ls.len(),
{
    if ls.len() > 0 {
        let t = trim(ls[0]);
        let in2 = if is_header(t) {
            t == "[package]"@
        } else {
            inp
        };
        lemma_replace_in_done(ls.drop_first(), in2, v);
        assert(seq![ls[0]] + ls.drop_first() =~= ls);
    } else {
        assert(ls =~= Seq::<Seq<char>>::empty());
    }
}

/// Index of the line a rewrite replaces: the first `version = ` line
/// (after trimming) inside `[package]`, or -1 when there is none.
pub open spec fn package_version_line(ls: Seq<Seq<char>>, in_package: bool) -> int
    decreases ls.len(),
{
    if ls.len() == 0 {
        -1
    } else {
        let t = trim(ls[0]);
        let in2 = if is_header(t) {
            t == "[package]"@
        } else {
            in_package
        };
        if in2 && starts_with(t, "version = "@) {
            0
        } else {
            let r = package_version_line(ls.drop_first(), in2);
            if r < 0 {
                -1
            } else {
                r + 1
            }
        }
    }
}

proof fn lemma_package_version_line(ls: Seq<Seq<char>>, inp: bool, v: Seq<char>)
    ensures
        -1 <= package_version_line(ls, inp) < ls.len(),
        replace_in(ls, inp, false, v).1 <==> package_version_line(ls, inp) >= 0,
        package_version_in(ls, inp) is Ok ==> package_version_line(ls, inp) >= 0,
    decreases ls.len(),
{
    if ls.len() > 0 {
        let t = trim(ls[0]);
        let in2 = if is_header(t) {
            t == "[package]"@
        } else {
            inp
        };
        reveal_strlit("version = ");
        if starts_with(t, "version = "@) {
            assert(t[0] == t.take(10)[0]);
            assert(!is_header(t));
        }
        if in2 && starts_with(t, "version = "@) {
            lemma_replace_in_done(ls.drop_first(), in2, v);
        } else {
            lemma_package_version_line(ls.drop_first(), in2, v);
        }
    }
}

/// The one line a successful rewrite replaces.
proof fn lemma_replace_in_index(ls: Seq<Seq<char>>, inp: bool, v: Seq<char>) -> (k: int)
    requires
        replace_in(ls, inp, false, v).1,
    ensures
        0 <= k < ls.len(),
        replace_in(ls, inp, false, v).0.len() == ls.len(),
        replace_in(ls, inp, false, v).0[k] == version_line(ls[k], v),
        starts_with(trim(ls[k]), "version = "@),
        k == package_version_line(ls, inp),
        forall|i: int|
            0 <= i < ls.len() && i != k ==> #[trigger] replace_in(ls, inp, false, v).0[i] == ls[i],
    decreases ls.len(),
{
    let o = replace_in(ls, inp, false, v).0;
    lemma_replace_in_shape(ls, inp, false, v);
    lemma_package_version_line(ls, inp, v);
    let t = trim(ls[0]);
    let in2 = if is_header(t) {
        t == "[package]"@
    } else {
        inp
    };
    if in2 && starts_with(t, "version = "@) {
        lemma_replace_in_done(ls.drop_first(), in2, v);
        assert forall|i: int| 0 <= i < ls.len() && i != 0 implies #[trigger] o[i] == ls[i] by {
            assert(o[i] == replace_in(ls.drop_first(), in2, true, v).0[i - 1]);
        }
        0
    } else {
        let rest = replace_in(ls.drop_first(), in2, false, v).0;
        let k = lemma_replace_in_index(ls.drop_first(), in2, v);
        assert forall|i: int| 0 <= i < ls.len() && i != k + 1 implies #[trigger] o[i] == ls[i] by {
            if i > 0 {
                assert(o[i] == rest[i - 1]);
            }
        }
        assert(o[k + 1] == rest[k]);
        k + 1
    }
}

/// The same line, up to a carriage return at its end.
pub open spec fn same_line(before: Seq<char>, after: Seq<char>) -> bool {
    after == before || (before.len() > 0 && before.last() == '\r' && after == before.drop_last())
}

/// Setting the package version keeps the number of lines, replaces the
/// first `version = ` line of `[package]` by the new version line, keeps
/// every other line (up to a carriage return at its end) and keeps whether
/// the text ends with a newline.
pub proof fn lemma_rewrite_keeps_other_lines(contents: Seq<char>, version: Seq<char>)
    requires
        no_newline(version),
        replaced_manifest(contents, version) is Ok,
    ensures
        ({
            let out = replaced_manifest(contents, version)->Ok_0;
            let before = lines(contents);
            let after = lines(out);
            let k = package_version_line(before, false);
            &&& after.len() == before.len()
            &&& 0 <= k < before.len()
            &&& starts_with(trim(before[k]), "version = "@)
            &&& after[k] == version_line(before[k], version)
            &&& forall|i: int|
                0 <= i < before.len() && i != k ==> same_line(before[i], #[trigger] after[i])
            &&& ends_with(out, seq!['\n']) == ends_with(contents, seq!['\n'])
        }),
{
    reveal_strlit("version = \"");
    reveal_strlit("\"");
    let ls = lines(contents);
    let o = replace_in(ls, false, false, version).0;
    let k = lemma_replace_in_index(ls, false, version);
    lemma_lines_no_newline(contents);
    let vl = version_line(ls[k], version);
    assert(no_newline(ls[k]));
    assert(vl.len() > 0 && vl.last() == '"');
    assert forall|i: int| 0 <= i < o.len() implies no_newline(#[trigger] o[i]) by {
        if i == k {
            assert forall|x: int| 0 <= x < vl.len() implies vl[x] != '\n' by {
                let ind = indent_of(ls[k]);
                lemma_trim_start_suffix(ls[k]);
                if x < ind.len() {
                    assert(vl[x] == ls[k][x]);
                } else if x < ind.len() + 11 {
                    assert(vl[x] == "version = \""@[x - ind.len()]);
                } else if x < ind.len() + 11 + version.len() {
                    assert(vl[x] == version[x - ind.len() - 11]);
                }
            }
        } else {
            assert(o[i] == ls[i]);
        }
    }
    let end_nl = ends_with(contents, seq!['\n']);
    if !end_nl {
        assert(contents.len() > 0);
        if contents.last() == '\n' {
            assert(contents.skip(contents.len() - 1) =~= seq!['\n']);
        }
        lemma_lines_last_nonempty(contents);
        assert(o.last().len() > 0) by {
            if k == o.len() - 1 {
            } else {
                assert(o[o.len() - 1] == ls[ls.len() - 1]);
            }
        }
    }
    let out = replaced_manifest(contents, version)->Ok_0;
    lemma_lines_of_join_exact(o, end_nl, out);
    let after = lines(out);
    assert(after[k] == vl);
    assert forall|i: int| 0 <= i < ls.len() && i != k implies same_line(ls[i], #[trigger] after[i]) by {
        assert(o[i] == ls[i]);
    }
}


/// A rewrite succeeds exactly when `[package]` has a `version = ` line.
pub proof fn lemma_rewrite_succeeds(contents: Seq<char>, version: Seq<char>)
    ensures
        replaced_manifest(contents, version) is Ok <==> package_version_line(lines(contents), false)
            >= 0,
{
    lemma_package_version_line(lines(contents), false, version);
}

/// When the package version of a manifest can be read, setting it to a
/// plain version succeeds; the new version reads back; the number of lines,
/// every line but the first `version = ` line of `[package]` (up to a
/// carriage return at its end) and a final newline are kept.
pub proof fn lemma_rewrite_after_read(contents: Seq<char>, version: Seq<char>)
    requires
        plain_version(version),
        package_version_in(lines(contents), false) is Ok,
    ensures
        replaced_manifest(contents, version) is Ok,
        ({
            let out = replaced_manifest(contents, version)->Ok_0;
            let before = lines(contents);
            let after = lines(out);
            let k = package_version_line(before, false);
            &&& package_version_in(after, false) == Ok::<Seq<char>, ReleaseError>(version)
            &&& after.len() == before.len()
            &&& 0 <= k < before.len()
            &&& after[k] == version_line(before[k], version)
            &&& forall|i: int|
                0 <= i < before.len() && i != k ==> same_line(before[i], #[trigger] after[i])
            &&& ends_with(out, seq!['\n']) == ends_with(contents, seq!['\n'])
        }),
{
    lemma_package_version_line(lines(contents), false, version);
    lemma_version_read_back(contents, version);
    lemma_rewrite_keeps_other_lines(contents, version);
}

/// A release must change the version: refused when the manifest already
/// holds the requested one.
pub fn check_version_changes(current: &str, version: &str) -> (r: Result<(), String>)
    ensures
        match r {
            Ok(()) => current@ != version@,
            Err(m) => current@ == version@ && m@ == "Cargo.toml is already at version "@
                + version@,
        },
{
    if crate::text::chars_eq(chars_of(current).as_slice(), chars_of(version).as_slice()) {
        let mut m = chars_of("Cargo.toml is already at version ");
        push_all(&mut m, chars_of(version).as_slice());
        Err(string_of(m.as_slice()))
    } else {
        Ok(())
    }
}

/// What is printed once a release is prepared, pushed or not.
pub open spec fn release_summary(version: Seq<char>, branch: Seq<char>, pushed: bool) -> Seq<
    Seq<char>,
> {
    seq![
        "prepared release v"@ + version,
        if pushed {
            "pushed "@ + branch + " and v"@ + version + " to origin"@
        } else {
            "next: git push origin "@ + branch + " && git push origin v"@ + version
        },
    ]
}

pub fn release_summary_lines(version: &str, branch: &str, pushed: bool) -> (r: Vec<String>)
    ensures
        crate::text::string_views(r@) == release_summary(version@, branch@, pushed),
{
    let v = chars_of(version);
    let b = chars_of(branch);
    let mut first = chars_of("prepared release v");
    push_all(&mut first, v.as_slice());
    let mut second: Vec<char>;
    if pushed {
        second = chars_of("pushed ");
        push_all(&mut second, b.as_slice());
        push_all(&mut second, chars_of(" and v").as_slice());
        push_all(&mut second, v.as_slice());
        push_all(&mut second, chars_of(" to origin").as_slice());
    } else {
        second = chars_of("next: git push origin ");
        push_all(&mut second, b.as_slice());
        push_all(&mut second, chars_of(" && git push origin v").as_slice());
        push_all(&mut second, v.as_slice());
    }
    let mut r: Vec<String> = Vec::new();
    r.push(string_of(first.as_slice()));
    r.push(string_of(second.as_slice()));
    assert(crate::text::string_views(r@) =~= release_summary(version@, branch@, pushed));
    r
}

} // verus!
