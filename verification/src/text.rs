//! Character-sequence utilities shared by the rest of the crate, each stated
//! over `Seq<char>` (the view of `str` and `String`).
use vstd::prelude::*;

verus! {

/// The characters of a string slice, in order.
pub fn chars_of(s: &str) -> (r: Vec<char>)
    ensures
        r@ == s@,
{
    broadcast use vstd::string::axiom_spec_iter;
    let mut r: Vec<char> = Vec::new();
    for c in it: s.chars()
        invariant
            it.seq() == s@,
            r@ == it.seq().take(it.index()),
    {
        r.push(c);
    }
    r
}

/// A `String` holding exactly the given characters.
/// Trusted: `Iterator::collect` into `String`, which appends every character
/// in order.
#[verifier::external_body]
pub(crate) fn string_of(v: &[char]) -> (r: String)
    ensures
        r@ == v@,
{
    v.iter().collect()
}

/// Copy of `v[i..j]`.
pub fn sub_vec(v: &[char], i: usize, j: usize) -> (r: Vec<char>)
    requires
        i <= j <= v@.len(),
    ensures
        r@ == v@.subrange(i as int, j as int),
{
    let mut r: Vec<char> = Vec::new();
    let mut k = i;
    while k < j
        invariant
            i <= k <= j <= v@.len(),
            r@ == v@.subrange(i as int, k as int),
        decreases j - k,
    {
        r.push(v[k]);
        k = k + 1;
        assert(r@ =~= v@.subrange(i as int, k as int));
    }
    r
}

/// Unicode `White_Space` property, as used by `char::is_whitespace`.
pub open spec fn is_ws(c: char) -> bool {
    ||| ('\u{9}' <= c && c <= '\u{d}')
    ||| c == ' '
    ||| c == '\u{85}'
    ||| c == '\u{a0}'
    ||| c == '\u{1680}'
    ||| ('\u{2000}' <= c && c <= '\u{200a}')
    ||| c == '\u{2028}'
    ||| c == '\u{2029}'
    ||| c == '\u{202f}'
    ||| c == '\u{205f}'
    ||| c == '\u{3000}'
}

pub fn is_whitespace(c: char) -> (b: bool)
    ensures
        b == is_ws(c),
{
    ('\u{9}' <= c && c <= '\u{d}') || c == ' ' || c == '\u{85}' || c == '\u{a0}' || c
        == '\u{1680}' || ('\u{2000}' <= c && c <= '\u{200a}') || c == '\u{2028}' || c
        == '\u{2029}' || c == '\u{202f}' || c == '\u{205f}' || c == '\u{3000}'
}

/// `s` without its leading whitespace.
pub open spec fn trim_start(s: Seq<char>) -> Seq<char>
    decreases s.len(),
{
    if s.len() > 0 && is_ws(s[0]) {
        trim_start(s.drop_first())
    } else {
        s
    }
}

/// `s` without its trailing whitespace.
pub open spec fn trim_end(s: Seq<char>) -> Seq<char>
    decreases s.len(),
{
    if s.len() > 0 && is_ws(s.last()) {
        trim_end(s.drop_last())
    } else {
        s
    }
}

/// `s` without leading and trailing whitespace (`str::trim`).
pub open spec fn trim(s: Seq<char>) -> Seq<char> {
    trim_end(trim_start(s))
}

pub fn trim_chars(v: &[char]) -> (r: Vec<char>)
    ensures
        r@ == trim(v@),
{
    let mut i: usize = 0;
    assert(v@.skip(0) =~= v@);
    while i < v.len() && is_whitespace(v[i])
        invariant
            i <= v@.len(),
            trim_start(v@) == trim_start(v@.skip(i as int)),
        decreases v@.len() - i,
    {
        assert(v@.skip(i as int).drop_first() =~= v@.skip(i as int + 1));
        i = i + 1;
    }
    let ghost t = v@.skip(i as int);
    assert(trim_start(v@) == t);
    let mut j: usize = v.len();
    while j > i && is_whitespace(v[j - 1])
        invariant
            i <= j <= v@.len(),
            t == v@.skip(i as int),
            trim_end(t) == trim_end(v@.subrange(i as int, j as int)),
        decreases j,
    {
        assert(v@.subrange(i as int, j as int).drop_last() =~= v@.subrange(
            i as int,
            j as int - 1,
        ));
        j = j - 1;
    }
    proof {
        if j > i {
            assert(v@.subrange(i as int, j as int).last() == v@[j as int - 1]);
        } else {
            assert(v@.subrange(i as int, j as int).len() == 0);
        }
    }
    assert(t =~= v@.subrange(i as int, v@.len() as int));
    sub_vec(v, i, j)
}


/// Pieces of `s` between occurrences of `sep` (`str::split` with a char).
pub open spec fn split(s: Seq<char>, sep: char) -> Seq<Seq<char>>
    decreases s.len(),
{
    if s.len() == 0 {
        seq![Seq::empty()]
    } else {
        let init = split(s.drop_last(), sep);
        if s.last() == sep {
            init.push(Seq::empty())
        } else {
            init.update(init.len() - 1, init.last().push(s.last()))
        }
    }
}

pub proof fn lemma_split_len(s: Seq<char>, sep: char)
    ensures
        split(s, sep).len() >= 1,
    decreases s.len(),
{
    if s.len() > 0 {
        lemma_split_len(s.drop_last(), sep);
    }
}

/// Views of a sequence of character vectors.
pub open spec fn views(v: Seq<Vec<char>>) -> Seq<Seq<char>> {
    v.map_values(|p: Vec<char>| p@)
}

pub fn split_chars(v: &[char], sep: char) -> (r: Vec<Vec<char>>)
    ensures
        views(r@) == split(v@, sep),
{
    let mut parts: Vec<Vec<char>> = Vec::new();
    let mut cur: Vec<char> = Vec::new();
    let mut i: usize = 0;
    assert(v@.take(0) =~= Seq::<char>::empty());
    assert(views(parts@).push(cur@) =~= split(v@.take(0), sep));
    while i < v.len()
        invariant
            i <= v@.len(),
            views(parts@).push(cur@) == split(v@.take(i as int), sep),
        decreases v@.len() - i,
    {
        let ghost before = views(parts@).push(cur@);
        assert(v@.take(i as int + 1).drop_last() =~= v@.take(i as int));
        assert(v@.take(i as int + 1).last() == v@[i as int]);
        let c = v[i];
        if c == sep {
            let ghost old_parts = parts@;
            parts.push(cur);
            cur = Vec::new();
            assert(views(parts@) =~= views(old_parts).push(before.last()));
            assert(views(parts@).push(cur@) =~= before.push(Seq::empty()));
        } else {
            cur.push(c);
            assert(views(parts@).push(cur@) =~= before.update(
                before.len() - 1,
                before.last().push(c),
            ));
        }
        i = i + 1;
    }
    assert(v@.take(v@.len() as int) =~= v@);
    let ghost old_parts = parts@;
    let ghost last = cur@;
    parts.push(cur);
    assert(views(parts@) =~= views(old_parts).push(last));
    parts
}

/// Position of the first `c` in `s`, or -1.
pub open spec fn first_index(s: Seq<char>, c: char) -> int
    decreases s.len(),
{
    if s.len() == 0 {
        -1
    } else if s[0] == c {
        0
    } else {
        let r = first_index(s.drop_first(), c);
        if r < 0 {
            -1
        } else {
            r + 1
        }
    }
}

pub proof fn lemma_first_index(s: Seq<char>, c: char)
    ensures
        -1 <= first_index(s, c) < s.len(),
        first_index(s, c) >= 0 ==> s[first_index(s, c)] == c,
        forall|k: int| 0 <= k < s.len() && (first_index(s, c) < 0 || k < first_index(s, c)) ==> s[k]
            != c,
    decreases s.len(),
{
    if s.len() > 0 {
        lemma_first_index(s.drop_first(), c);
        assert forall|k: int|
            0 <= k < s.len() && (first_index(s, c) < 0 || k < first_index(s, c)) implies s[k]
            != c by {
            if k > 0 {
                assert(s[k] == s.drop_first()[k - 1]);
            }
        }
    }
}

pub fn find_char(v: &[char], c: char) -> (r: Option<usize>)
    ensures
        match r {
            Some(k) => k as int == first_index(v@, c),
            None => first_index(v@, c) == -1,
        },
{
    proof {
        lemma_first_index(v@, c);
    }
    let mut i: usize = 0;
    while i < v.len()
        invariant
            i <= v@.len(),
            forall|k: int| 0 <= k < i ==> v@[k] != c,
            -1 <= first_index(v@, c) < v@.len(),
            first_index(v@, c) >= 0 ==> v@[first_index(v@, c)] == c,
            forall|k: int|
                0 <= k < v@.len() && (first_index(v@, c) < 0 || k < first_index(v@, c)) ==> v@[k]
                    != c,
        decreases v@.len() - i,
    {
        if v[i] == c {
            return Some(i);
        }
        i = i + 1;
    }
    None
}

/// `str::split_once` with a char separator.
pub open spec fn split_once(s: Seq<char>, c: char) -> Option<(Seq<char>, Seq<char>)> {
    let k = first_index(s, c);
    if k < 0 {
        None
    } else {
        Some((s.take(k), s.skip(k + 1)))
    }
}

pub fn split_once_chars(v: &[char], c: char) -> (r: Option<(Vec<char>, Vec<char>)>)
    ensures
        match r {
            Some((a, b)) => split_once(v@, c) == Some((a@, b@)),
            None => split_once(v@, c) is None,
        },
{
    proof {
        lemma_first_index(v@, c);
    }
    match find_char(v, c) {
        Some(k) => {
            let n = v.len();
            assert(k < n);
            let a = sub_vec(v, 0, k);
            let b = sub_vec(v, k + 1, n);
            assert(a@ =~= v@.take(k as int));
            assert(b@ =~= v@.skip(k as int + 1));
            Some((a, b))
        },
        None => None,
    }
}

/// Equality of character sequences.
pub fn chars_eq(a: &[char], b: &[char]) -> (r: bool)
    ensures
        r == (a@ == b@),
{
    if a.len() != b.len() {
        return false;
    }
    let mut i: usize = 0;
    while i < a.len()
        invariant
            i <= a@.len(),
            a@.len() == b@.len(),
            forall|k: int| 0 <= k < i ==> a@[k] == b@[k],
        decreases a@.len() - i,
    {
        if a[i] != b[i] {
            return false;
        }
        i = i + 1;
    }
    assert(a@ =~= b@);
    true
}

pub open spec fn starts_with(s: Seq<char>, p: Seq<char>) -> bool {
    p.len() <= s.len() && s.take(p.len() as int) == p
}

pub fn starts_with_chars(s: &[char], p: &[char]) -> (r: bool)
    ensures
        r == starts_with(s@, p@),
{
    if p.len() > s.len() {
        return false;
    }
    let mut i: usize = 0;
    while i < p.len()
        invariant
            i <= p@.len() <= s@.len(),
            forall|k: int| 0 <= k < i ==> s@[k] == p@[k],
        decreases p@.len() - i,
    {
        if s[i] != p[i] {
            assert(s@.take(p@.len() as int)[i as int] != p@[i as int]);
            return false;
        }
        i = i + 1;
    }
    assert(s@.take(p@.len() as int) =~= p@);
    true
}

pub open spec fn ends_with(s: Seq<char>, p: Seq<char>) -> bool {
    p.len() <= s.len() && s.skip(s.len() - p.len()) == p
}

pub fn ends_with_chars(s: &[char], p: &[char]) -> (r: bool)
    ensures
        r == ends_with(s@, p@),
{
    if p.len() > s.len() {
        return false;
    }
    let sn = s.len();
    let off = sn - p.len();
    let mut i: usize = 0;
    while i < p.len()
        invariant
            i <= p@.len() <= s@.len(),
            off == s@.len() - p@.len(),
            sn == s@.len(),
            forall|k: int| 0 <= k < i ==> s@[off + k] == p@[k],
        decreases p@.len() - i,
    {
        assert(off + i < sn);
        if s[off + i] != p[i] {
            assert(s@.skip(off as int)[i as int] != p@[i as int]);
            return false;
        }
        i = i + 1;
    }
    assert(s@.skip(off as int) =~= p@);
    true
}


/// A line of `str::lines` loses one trailing carriage return when it was
/// ended by a newline.
pub open spec fn strip_cr(p: Seq<char>) -> Seq<char> {
    if p.len() > 0 && p.last() == '\r' {
        p.drop_last()
    } else {
        p
    }
}

/// `str::lines`: pieces between newlines, a carriage return before each
/// newline removed, and no empty piece after a final newline.
pub open spec fn lines(s: Seq<char>) -> Seq<Seq<char>> {
    let parts = split(s, '\n');
    let body = parts.drop_last().map_values(|p: Seq<char>| strip_cr(p));
    if parts.last().len() == 0 {
        body
    } else {
        body.push(parts.last())
    }
}

pub fn strip_cr_chars(v: Vec<char>) -> (r: Vec<char>)
    ensures
        r@ == strip_cr(v@),
{
    let n = v.len();
    if n > 0 && v[n - 1] == '\r' {
        let ghost orig = v@;
        let mut w = v;
        w.pop();
        assert(w@ =~= strip_cr(orig));
        w
    } else {
        v
    }
}

pub fn lines_of(v: &[char]) -> (r: Vec<Vec<char>>)
    ensures
        views(r@) == lines(v@),
{
    let mut out: Vec<Vec<char>> = Vec::new();
    let mut cur: Vec<char> = Vec::new();
    let mut i: usize = 0;
    assert(v@.take(0) =~= Seq::<char>::empty());
    assert(views(out@) =~= split(v@.take(0), '\n').drop_last().map_values(
        |p: Seq<char>| strip_cr(p),
    ));
    while i < v.len()
        invariant
            i <= v@.len(),
            views(out@) == split(v@.take(i as int), '\n').drop_last().map_values(
                |p: Seq<char>| strip_cr(p),
            ),
            cur@ == split(v@.take(i as int), '\n').last(),
        decreases v@.len() - i,
    {
        let ghost sp = split(v@.take(i as int), '\n');
        proof {
            lemma_split_len(v@.take(i as int), '\n');
        }
        assert(v@.take(i as int + 1).drop_last() =~= v@.take(i as int));
        assert(v@.take(i as int + 1).last() == v@[i as int]);
        let c = v[i];
        if c == '\n' {
            let ghost old_out = out@;
            let done = strip_cr_chars(cur);
            out.push(done);
            cur = Vec::new();
            assert(split(v@.take(i as int + 1), '\n') == sp.push(Seq::empty()));
            assert(sp.push(Seq::<char>::empty()).drop_last() =~= sp);
            assert(sp =~= sp.drop_last().push(sp.last()));
            assert(views(out@) =~= views(old_out).push(strip_cr(sp.last())));
            assert(views(out@) =~= sp.map_values(|p: Seq<char>| strip_cr(p)));
        } else {
            cur.push(c);
            assert(split(v@.take(i as int + 1), '\n') == sp.update(
                sp.len() - 1,
                sp.last().push(c),
            ));
            assert(sp.update(sp.len() - 1, sp.last().push(c)).drop_last() =~= sp.drop_last());
        }
        i = i + 1;
    }
    assert(v@.take(v@.len() as int) =~= v@);
    if cur.len() > 0 {
        let ghost old_out = out@;
        let ghost last = cur@;
        out.push(cur);
        assert(views(out@) =~= views(old_out).push(last));
    }
    out
}

/// `s` without leading and trailing copies of `c` (`str::trim_matches`).
pub open spec fn trim_char_start(s: Seq<char>, c: char) -> Seq<char>
    decreases s.len(),
{
    if s.len() > 0 && s[0] == c {
        trim_char_start(s.drop_first(), c)
    } else {
        s
    }
}

pub open spec fn trim_char_end(s: Seq<char>, c: char) -> Seq<char>
    decreases s.len(),
{
    if s.len() > 0 && s.last() == c {
        trim_char_end(s.drop_last(), c)
    } else {
        s
    }
}

pub open spec fn trim_matches(s: Seq<char>, c: char) -> Seq<char> {
    trim_char_end(trim_char_start(s, c), c)
}

pub fn trim_matches_chars(v: &[char], c: char) -> (r: Vec<char>)
    ensures
        r@ == trim_matches(v@, c),
{
    let mut i: usize = 0;
    assert(v@.skip(0) =~= v@);
    while i < v.len() && v[i] == c
        invariant
            i <= v@.len(),
            trim_char_start(v@, c) == trim_char_start(v@.skip(i as int), c),
        decreases v@.len() - i,
    {
        assert(v@.skip(i as int).drop_first() =~= v@.skip(i as int + 1));
        i = i + 1;
    }
    let ghost t = v@.skip(i as int);
    assert(trim_char_start(v@, c) == t);
    let mut j: usize = v.len();
    while j > i && v[j - 1] == c
        invariant
            i <= j <= v@.len(),
            t == v@.skip(i as int),
            trim_char_end(t, c) == trim_char_end(v@.subrange(i as int, j as int), c),
        decreases j,
    {
        assert(v@.subrange(i as int, j as int).drop_last() =~= v@.subrange(
            i as int,
            j as int - 1,
        ));
        j = j - 1;
    }
    proof {
        if j > i {
            assert(v@.subrange(i as int, j as int).last() == v@[j as int - 1]);
        }
    }
    assert(t =~= v@.subrange(i as int, v@.len() as int));
    sub_vec(v, i, j)
}

/// Appends all of `src` to `dst`.
pub fn push_all(dst: &mut Vec<char>, src: &[char])
    ensures
        final(dst)@ == old(dst)@ + src@,
{
    let mut i: usize = 0;
    while i < src.len()
        invariant
            i <= src@.len(),
            dst@ == old(dst)@ + src@.take(i as int),
        decreases src@.len() - i,
    {
        dst.push(src[i]);
        i = i + 1;
        assert(dst@ =~= old(dst)@ + src@.take(i as int));
    }
    assert(src@.take(src@.len() as int) =~= src@);
}

/// Pieces joined by a separator (`[T]::join`).
pub open spec fn join(parts: Seq<Seq<char>>, sep: Seq<char>) -> Seq<char>
    decreases parts.len(),
{
    if parts.len() == 0 {
        Seq::empty()
    } else if parts.len() == 1 {
        parts[0]
    } else {
        join(parts.drop_last(), sep) + sep + parts.last()
    }
}

pub fn join_chars(parts: &Vec<Vec<char>>, sep: &[char]) -> (r: Vec<char>)
    ensures
        r@ == join(views(parts@), sep@),
{
    let mut r: Vec<char> = Vec::new();
    let mut i: usize = 0;
    assert(views(parts@).take(0) =~= Seq::<Seq<char>>::empty());
    while i < parts.len()
        invariant
            i <= parts@.len(),
            r@ == join(views(parts@).take(i as int), sep@),
        decreases parts@.len() - i,
    {
        let ghost pre = views(parts@).take(i as int);
        let ghost next = views(parts@).take(i as int + 1);
        assert(next.drop_last() =~= pre);
        assert(next.last() == parts@[i as int]@);
        if i > 0 {
            push_all(&mut r, sep);
        } else {
            assert(pre.len() == 0);
        }
        push_all(&mut r, parts[i].as_slice());
        i = i + 1;
    }
    assert(views(parts@).take(parts@.len() as int) =~= views(parts@));
    r
}

/// Leading whitespace of `s`.
pub open spec fn indent_of(s: Seq<char>) -> Seq<char> {
    s.take(s.len() - trim_start(s).len())
}

pub proof fn lemma_trim_start_suffix(s: Seq<char>)
    ensures
        trim_start(s).len() <= s.len(),
        trim_start(s) == s.skip(s.len() - trim_start(s).len()),
    decreases s.len(),
{
    if s.len() > 0 && is_ws(s[0]) {
        lemma_trim_start_suffix(s.drop_first());
        assert(s.drop_first().skip(s.drop_first().len() - trim_start(s.drop_first()).len())
            =~= s.skip(s.len() - trim_start(s).len()));
    } else {
        assert(s.skip(0) =~= s);
    }
}

pub fn indent_chars(v: &[char]) -> (r: Vec<char>)
    ensures
        r@ == indent_of(v@),
{
    let mut i: usize = 0;
    assert(v@.skip(0) =~= v@);
    while i < v.len() && is_whitespace(v[i])
        invariant
            i <= v@.len(),
            trim_start(v@) == trim_start(v@.skip(i as int)),
        decreases v@.len() - i,
    {
        assert(v@.skip(i as int).drop_first() =~= v@.skip(i as int + 1));
        i = i + 1;
    }
    assert(trim_start(v@) == v@.skip(i as int));
    assert(v@.len() - trim_start(v@).len() == i);
    sub_vec(v, 0, i)
}


/// ASCII lower-casing of one character (`char::to_ascii_lowercase`).
pub open spec fn lower_char(c: char) -> char {
    if 'A' <= c && c <= 'Z' {
        ((c as int) + 32) as char
    } else {
        c
    }
}

pub fn to_lower_char(c: char) -> (r: char)
    ensures
        r == lower_char(c),
{
    if 'A' <= c && c <= 'Z' {
        let b = c as u8;
        assert(b as int == c as int);
        ((b + 32) as char)
    } else {
        c
    }
}

/// ASCII lower-casing of a sequence (`str::to_ascii_lowercase`).
pub open spec fn lower(s: Seq<char>) -> Seq<char> {
    s.map_values(|c: char| lower_char(c))
}

pub fn to_lower_chars(v: &[char]) -> (r: Vec<char>)
    ensures
        r@ == lower(v@),
{
    let mut r: Vec<char> = Vec::new();
    let mut i: usize = 0;
    while i < v.len()
        invariant
            i <= v@.len(),
            r@ == lower(v@.take(i as int)),
        decreases v@.len() - i,
    {
        r.push(to_lower_char(v[i]));
        i = i + 1;
        assert(r@ =~= lower(v@.take(i as int)));
    }
    assert(v@.take(v@.len() as int) =~= v@);
    r
}

/// ASCII case-insensitive equality (`str::eq_ignore_ascii_case`).
pub open spec fn eq_ignore_case(a: Seq<char>, b: Seq<char>) -> bool {
    lower(a) == lower(b)
}

pub fn eq_ignore_case_chars(a: &[char], b: &[char]) -> (r: bool)
    ensures
        r == eq_ignore_case(a@, b@),
{
    let la = to_lower_chars(a);
    let lb = to_lower_chars(b);
    chars_eq(la.as_slice(), lb.as_slice())
}

/// `needle` occurs as a contiguous piece of `hay` (`str::contains`).
pub open spec fn contains_at(hay: Seq<char>, needle: Seq<char>, i: int) -> bool {
    0 <= i && i + needle.len() <= hay.len() && hay.subrange(i, i + needle.len()) == needle
}

pub open spec fn contains(hay: Seq<char>, needle: Seq<char>) -> bool {
    exists|i: int| contains_at(hay, needle, i)
}

pub fn contains_chars(hay: &[char], needle: &[char]) -> (r: bool)
    ensures
        r == contains(hay@, needle@),
{
    if needle.len() > hay.len() {
        assert forall|i: int| !contains_at(hay@, needle@, i) by {
        }
        return false;
    }
    let last = hay.len() - needle.len();
    let mut i: usize = 0;
    while i <= last
        invariant
            last == hay@.len() - needle@.len(),
            i <= last + 1,
            forall|k: int| 0 <= k < i ==> !contains_at(hay@, needle@, k),
        decreases last + 1 - i,
    {
        let mut j: usize = 0;
        let mut ok = true;
        while j < needle.len()
            invariant
                i <= last,
                last == hay@.len() - needle@.len(),
                j <= needle@.len(),
                ok ==> forall|k: int| 0 <= k < j ==> hay@[i + k] == needle@[k],
                !ok ==> !contains_at(hay@, needle@, i as int),
            decreases needle@.len() - j,
        {
            assert(i + j < hay.len());
            if ok && hay[i + j] != needle[j] {
                assert(hay@.subrange(i as int, i + needle@.len())[j as int] != needle@[j as int]);
                ok = false;
            }
            j = j + 1;
        }
        if ok {
            assert(hay@.subrange(i as int, i + needle@.len()) =~= needle@);
            assert(contains_at(hay@, needle@, i as int));
            return true;
        }
        if i == last {
            assert forall|k: int| !contains_at(hay@, needle@, k) by {
                if 0 <= k && k <= last {
                }
            }
            return false;
        }
        i = i + 1;
    }
    false
}

pub open spec fn is_digit_char(c: char) -> bool {
    '0' <= c && c <= '9'
}

pub open spec fn digit_value(c: char) -> nat {
    ((c as int) - ('0' as int)) as nat
}

/// Decimal value of a digit string.
pub open spec fn digits_value(s: Seq<char>) -> nat
    decreases s.len(),
{
    if s.len() == 0 {
        0
    } else {
        digits_value(s.drop_last()) * 10 + digit_value(s.last())
    }
}

pub open spec fn all_digit_chars(s: Seq<char>) -> bool {
    forall|i: int| 0 <= i < s.len() ==> is_digit_char(#[trigger] s[i])
}

/// `usize::from_str`: an optional `+`, then one or more ASCII digits whose
/// value fits in `usize`.
pub open spec fn parse_usize(s: Seq<char>) -> Option<nat> {
    let d = if s.len() > 0 && s[0] == '+' {
        s.drop_first()
    } else {
        s
    };
    if d.len() > 0 && all_digit_chars(d) && digits_value(d) <= usize::MAX {
        Some(digits_value(d))
    } else {
        None
    }
}

/// `u64::from_str` over the same grammar.
pub open spec fn parse_u64(s: Seq<char>) -> Option<nat> {
    let d = if s.len() > 0 && s[0] == '+' {
        s.drop_first()
    } else {
        s
    };
    if d.len() > 0 && all_digit_chars(d) && digits_value(d) <= u64::MAX {
        Some(digits_value(d))
    } else {
        None
    }
}

pub proof fn lemma_digits_value_prefix(s: Seq<char>, i: int)
    requires
        0 <= i <= s.len(),
    ensures
        digits_value(s.take(i)) <= digits_value(s),
    decreases s.len() - i,
{
    if i < s.len() {
        lemma_digits_value_prefix(s, i + 1);
        assert(s.take(i + 1).drop_last() =~= s.take(i));
    } else {
        assert(s.take(i) =~= s);
    }
}

/// Value of an all-digit sequence when it is at most `bound`.
fn digits_up_to(d: &[char], bound: u64) -> (r: Option<u64>)
    requires
        all_digit_chars(d@),
        bound >= 9,
    ensures
        match r {
            Some(v) => v as nat == digits_value(d@) && digits_value(d@) <= bound,
            None => digits_value(d@) > bound,
        },
{
    let mut v: u64 = 0;
    let mut i: usize = 0;
    assert(d@.take(0) =~= Seq::<char>::empty());
    while i < d.len()
        invariant
            i <= d@.len(),
            all_digit_chars(d@),
            v as nat == digits_value(d@.take(i as int)),
            v <= bound,
            bound >= 9,
        decreases d@.len() - i,
    {
        assert(d@.take(i as int + 1).drop_last() =~= d@.take(i as int));
        assert(is_digit_char(d@[i as int]));
        let c = d[i];
        let dv = (c as u32 - '0' as u32) as u64;
        assert(dv as nat == digit_value(d@[i as int]));
        proof {
            lemma_digits_value_prefix(d@, i as int + 1);
        }
        if v > (bound - dv) / 10 {
            assert(v * 10 + dv > bound) by (nonlinear_arith)
                requires
                    v > (bound - dv) / 10,
                    dv <= 9,
                    bound >= 9,
            ;
            return None;
        }
        assert(v * 10 + dv <= bound) by (nonlinear_arith)
            requires
                v <= (bound - dv) / 10,
        ;
        v = v * 10 + dv;
        i = i + 1;
    }
    assert(d@.take(d@.len() as int) =~= d@);
    Some(v)
}


fn all_digit_chars_exec(d: &[char]) -> (r: bool)
    ensures
        r == all_digit_chars(d@),
{
    let mut i: usize = 0;
    while i < d.len()
        invariant
            i <= d@.len(),
            forall|k: int| 0 <= k < i ==> is_digit_char(d@[k]),
        decreases d@.len() - i,
    {
        if !('0' <= d[i] && d[i] <= '9') {
            return false;
        }
        i = i + 1;
    }
    true
}

fn unsigned_digits(s: &[char]) -> (r: Vec<char>)
    ensures
        r@ == (if s@.len() > 0 && s@[0] == '+' {
            s@.drop_first()
        } else {
            s@
        }),
{
    if s.len() > 0 && s[0] == '+' {
        let r = sub_vec(s, 1, s.len());
        assert(r@ =~= s@.drop_first());
        r
    } else {
        let r = sub_vec(s, 0, s.len());
        assert(r@ =~= s@);
        r
    }
}

pub fn parse_usize_chars(s: &[char]) -> (r: Option<usize>)
    ensures
        match r {
            Some(v) => parse_usize(s@) == Some(v as nat),
            None => parse_usize(s@) is None,
        },
{
    let d = unsigned_digits(s);
    if d.len() == 0 || !all_digit_chars_exec(d.as_slice()) {
        return None;
    }
    match digits_up_to(d.as_slice(), usize::MAX as u64) {
        Some(v) => Some(v as usize),
        None => None,
    }
}

pub fn parse_u64_chars(s: &[char]) -> (r: Option<u64>)
    ensures
        match r {
            Some(v) => parse_u64(s@) == Some(v as nat),
            None => parse_u64(s@) is None,
        },
{
    let d = unsigned_digits(s);
    if d.len() == 0 || !all_digit_chars_exec(d.as_slice()) {
        return None;
    }
    digits_up_to(d.as_slice(), u64::MAX)
}

pub open spec fn digit_char(d: nat) -> char {
    ((d as int) + ('0' as int)) as char
}

/// Decimal notation of a natural number, without leading zeros.
pub open spec fn decimal(n: nat) -> Seq<char>
    decreases n,
{
    if n < 10 {
        seq![digit_char(n)]
    } else {
        decimal(n / 10).push(digit_char(n % 10))
    }
}

pub fn decimal_chars(n: u64) -> (r: Vec<char>)
    ensures
        r@ == decimal(n as nat),
    decreases n,
{
    let d = (n % 10) as u8;
    let c = (48u8 + d) as char;
    assert(c == digit_char((n % 10) as nat));
    if n < 10 {
        let mut r = Vec::new();
        r.push(c);
        assert(r@ =~= seq![c]);
        r
    } else {
        let mut r = decimal_chars(n / 10);
        r.push(c);
        r
    }
}


/// Views of a sequence of strings.
pub open spec fn string_views(v: Seq<String>) -> Seq<Seq<char>> {
    v.map_values(|s: String| s@)
}

pub proof fn lemma_decimal_digits(n: nat)
    ensures
        decimal(n).len() > 0,
        all_digit_chars(decimal(n)),
        digits_value(decimal(n)) == n,
        decimal(n)[0] != '+',
    decreases n,
{
    if n >= 10 {
        lemma_decimal_digits(n / 10);
        assert(decimal(n).drop_last() =~= decimal(n / 10));
        assert(decimal(n)[0] == decimal(n / 10)[0]);
        assert(digit_value(digit_char(n % 10)) == n % 10);
        assert(decimal(n).last() == digit_char(n % 10));
        assert(digits_value(decimal(n)) == digits_value(decimal(n / 10)) * 10 + digit_value(
            digit_char(n % 10),
        ));
        assert((n / 10) * 10 + n % 10 == n) by (nonlinear_arith);
    } else {
        assert(digit_value(digit_char(n)) == n);
        assert(decimal(n).drop_last() =~= Seq::<char>::empty());
        assert(decimal(n).last() == digit_char(n));
        assert(digits_value(decimal(n)) == digits_value(Seq::<char>::empty()) * 10 + digit_value(
            digit_char(n),
        ));
    }
}


/// One character as written inside a Rust debug-quoted string.
pub open spec fn escape_char(c: char) -> Seq<char> {
    if c == '"' {
        seq!['\\', '"']
    } else if c == '\\' {
        seq!['\\', '\\']
    } else if c == '\n' {
        seq!['\\', 'n']
    } else if c == '\r' {
        seq!['\\', 'r']
    } else if c == '\t' {
        seq!['\\', 't']
    } else if c == '\0' {
        seq!['\\', '0']
    } else {
        seq![c]
    }
}

pub open spec fn escaped(s: Seq<char>) -> Seq<char>
    decreases s.len(),
{
    if s.len() == 0 {
        Seq::empty()
    } else {
        escaped(s.drop_last()) + escape_char(s.last())
    }
}

/// `s` in double quotes with quotes, backslashes and control characters
/// escaped.
pub open spec fn quoted(s: Seq<char>) -> Seq<char> {
    seq!['"'] + escaped(s) + seq!['"']
}

pub fn quoted_chars(v: &[char]) -> (r: Vec<char>)
    ensures
        r@ == quoted(v@),
{
    let mut r: Vec<char> = Vec::new();
    r.push('"');
    let mut i: usize = 0;
    assert(v@.take(0) =~= Seq::<char>::empty());
    while i < v.len()
        invariant
            i <= v@.len(),
            r@ == seq!['"'] + escaped(v@.take(i as int)),
        decreases v@.len() - i,
    {
        assert(v@.take(i as int + 1).drop_last() =~= v@.take(i as int));
        assert(v@.take(i as int + 1).last() == v@[i as int]);
        let c = v[i];
        let ghost before = r@;
        if c == '"' {
            r.push('\\');
            r.push('"');
        } else if c == '\\' {
            r.push('\\');
            r.push('\\');
        } else if c == '\n' {
            r.push('\\');
            r.push('n');
        } else if c == '\r' {
            r.push('\\');
            r.push('r');
        } else if c == '\t' {
            r.push('\\');
            r.push('t');
        } else if c == '\0' {
            r.push('\\');
            r.push('0');
        } else {
            r.push(c);
        }
        assert(r@ =~= before + escape_char(c));
        i = i + 1;
    }
    assert(v@.take(v@.len() as int) =~= v@);
    r.push('"');
    r
}

/// Characters of several strings joined by a separator.
pub fn join_strings(parts: &[String], sep: &str) -> (r: Vec<char>)
    ensures
        r@ == join(string_views(parts@), sep@),
{
    let s = chars_of(sep);
    let mut r: Vec<char> = Vec::new();
    let mut i: usize = 0;
    assert(string_views(parts@).take(0) =~= Seq::<Seq<char>>::empty());
    while i < parts.len()
        invariant
            i <= parts@.len(),
            s@ == sep@,
            r@ == join(string_views(parts@).take(i as int), sep@),
        decreases parts@.len() - i,
    {
        let ghost pre = string_views(parts@).take(i as int);
        let ghost next = string_views(parts@).take(i as int + 1);
        assert(next.drop_last() =~= pre);
        assert(next.last() == parts@[i as int]@);
        if i > 0 {
            push_all(&mut r, s.as_slice());
        }
        let p = chars_of(parts[i].as_str());
        push_all(&mut r, p.as_slice());
        i = i + 1;
    }
    assert(string_views(parts@).take(parts@.len() as int) =~= string_views(parts@));
    r
}

/// `s` with every non-overlapping occurrence of `pat`, left to right,
/// replaced by `with` (`str::replace` for a non-empty pattern).
pub open spec fn replace_all(s: Seq<char>, pat: Seq<char>, with: Seq<char>) -> Seq<char>
    decreases s.len(),
{
    if pat.len() == 0 || s.len() < pat.len() {
        s
    } else if s.take(pat.len() as int) == pat {
        with + replace_all(s.skip(pat.len() as int), pat, with)
    } else {
        seq![s[0]] + replace_all(s.skip(1), pat, with)
    }
}

pub fn replace_chars(s: &[char], pat: &[char], with: &[char]) -> (r: Vec<char>)
    requires
        pat@.len() > 0,
    ensures
        r@ == replace_all(s@, pat@, with@),
{
    let mut out: Vec<char> = Vec::new();
    let mut i: usize = 0;
    assert(s@.skip(0) =~= s@);
    while i < s.len()
        invariant
            i <= s@.len(),
            pat@.len() > 0,
            out@ + replace_all(s@.skip(i as int), pat@, with@) == replace_all(s@, pat@, with@),
        decreases s@.len() - i,
    {
        let ghost rest = s@.skip(i as int);
        let ghost before = out@;
        if s.len() - i < pat.len() {
            assert(replace_all(rest, pat@, with@) == rest);
            push_all(&mut out, sub_vec(s, i, s.len()).as_slice());
            assert(s@.subrange(i as int, s@.len() as int) =~= rest);
            assert(s@.skip(s@.len() as int) =~= Seq::<char>::empty());
            assert(out@ + replace_all(s@.skip(s@.len() as int), pat@, with@) =~= out@);
            i = s.len();
        } else {
            let window = sub_vec(s, i, i + pat.len());
            assert(window@ =~= rest.take(pat@.len() as int));
            if chars_eq(window.as_slice(), pat) {
                push_all(&mut out, with);
                assert(rest.skip(pat@.len() as int) =~= s@.skip(i + pat@.len()));
                assert(before + replace_all(rest, pat@, with@) =~= out@ + replace_all(
                    s@.skip(i + pat@.len()),
                    pat@,
                    with@,
                ));
                i = i + pat.len();
            } else {
                out.push(s[i]);
                assert(rest.skip(1) =~= s@.skip(i + 1));
                assert(rest[0] == s@[i as int]);
                assert(before + replace_all(rest, pat@, with@) =~= out@ + replace_all(
                    s@.skip(i + 1),
                    pat@,
                    with@,
                ));
                i = i + 1;
            }
        }
    }
    assert(s@.skip(s@.len() as int) =~= Seq::<char>::empty());
    assert(replace_all(Seq::<char>::empty(), pat@, with@) =~= Seq::<char>::empty());
    assert(out@ =~= out@ + replace_all(Seq::<char>::empty(), pat@, with@));
    out
}


/// `s` holds no line break.
pub open spec fn no_newline(s: Seq<char>) -> bool {
    forall|i: int| 0 <= i < s.len() ==> s[i] != '\n'
}

pub proof fn lemma_split_single(t: Seq<char>)
    requires
        no_newline(t),
    ensures
        split(t, '\n') == seq![t],
    decreases t.len(),
{
    if t.len() > 0 {
        lemma_split_single(t.drop_last());
        assert(t.drop_last().push(t.last()) =~= t);
        assert(split(t, '\n') =~= seq![t]);
    } else {
        assert(t =~= Seq::<char>::empty());
    }
}

/// Splitting text that continues after a newline adds one piece.
pub proof fn lemma_split_after_newline(p: Seq<char>, t: Seq<char>)
    requires
        no_newline(t),
    ensures
        split(p + seq!['\n'] + t, '\n') == split(p, '\n').push(t),
    decreases t.len(),
{
    let s = p + seq!['\n'] + t;
    if t.len() == 0 {
        assert(s.drop_last() =~= p);
        assert(t =~= Seq::<char>::empty());
    } else {
        lemma_split_after_newline(p, t.drop_last());
        assert(s.drop_last() =~= p + seq!['\n'] + t.drop_last());
        assert(s.last() == t.last());
        assert(t.drop_last().push(t.last()) =~= t);
        assert(split(s, '\n') =~= split(p, '\n').push(t));
    }
}

/// Splitting pieces joined by newlines gives the pieces back.
pub proof fn lemma_split_join(ls: Seq<Seq<char>>)
    requires
        ls.len() > 0,
        forall|i: int| 0 <= i < ls.len() ==> no_newline(#[trigger] ls[i]),
    ensures
        split(join(ls, seq!['\n']), '\n') == ls,
    decreases ls.len(),
{
    if ls.len() == 1 {
        lemma_split_single(ls[0]);
        assert(seq![ls[0]] =~= ls);
    } else {
        lemma_split_join(ls.drop_last());
        lemma_split_after_newline(join(ls.drop_last(), seq!['\n']), ls.last());
        assert(ls.drop_last().push(ls.last()) =~= ls);
    }
}

/// No piece of a split on newlines holds a newline.
pub proof fn lemma_split_no_newline(s: Seq<char>)
    ensures
        forall|i: int|
            0 <= i < split(s, '\n').len() ==> no_newline(#[trigger] split(s, '\n')[i]),
    decreases s.len(),
{
    if s.len() > 0 {
        let init = split(s.drop_last(), '\n');
        lemma_split_no_newline(s.drop_last());
        lemma_split_len(s.drop_last(), '\n');
        if s.last() != '\n' {
            let l = init.last().push(s.last());
            assert(no_newline(init[init.len() - 1]));
            assert(no_newline(l));
            assert forall|i: int|
                0 <= i < split(s, '\n').len() implies no_newline(#[trigger] split(s, '\n')[i]) by {
                if i < init.len() - 1 {
                    assert(split(s, '\n')[i] == init[i]);
                }
            }
        } else {
            assert forall|i: int|
                0 <= i < split(s, '\n').len() implies no_newline(#[trigger] split(s, '\n')[i]) by {
                if i < init.len() {
                    assert(split(s, '\n')[i] == init[i]);
                } else {
                    assert(split(s, '\n')[i] =~= Seq::<char>::empty());
                }
            }
        }
    }
}

/// No line of `str::lines` holds a newline.
pub proof fn lemma_lines_no_newline(s: Seq<char>)
    ensures
        forall|i: int| 0 <= i < lines(s).len() ==> no_newline(#[trigger] lines(s)[i]),
{
    let parts = split(s, '\n');
    lemma_split_no_newline(s);
    lemma_split_len(s, '\n');
    assert forall|i: int| 0 <= i < lines(s).len() implies no_newline(#[trigger] lines(s)[i]) by {
        if i < parts.len() - 1 {
            assert(no_newline(parts[i]));
            assert(lines(s)[i] == strip_cr(parts[i]));
        } else {
            assert(lines(s)[i] == parts.last());
        }
    }
}

pub proof fn lemma_trim_start_push(y: Seq<char>, c: char)
    ensures
        trim_start(y.push(c)) == (if trim_start(y).len() == 0 {
            trim_start(seq![c])
        } else {
            trim_start(y).push(c)
        }),
    decreases y.len(),
{
    if y.len() == 0 {
        assert(y.push(c) =~= seq![c]);
    } else if is_ws(y[0]) {
        assert(y.push(c).drop_first() =~= y.drop_first().push(c));
        lemma_trim_start_push(y.drop_first(), c);
    }
}

/// Dropping a carriage return at the end does not change the trimmed text.
pub proof fn lemma_trim_strip_cr(x: Seq<char>)
    ensures
        trim(strip_cr(x)) == trim(x),
{
    if x.len() > 0 && x.last() == '\r' {
        let y = x.drop_last();
        assert(y.push('\r') =~= x);
        lemma_trim_start_push(y, '\r');
        assert(seq!['\r'].drop_first() =~= Seq::<char>::empty());
        assert(is_ws('\r'));
        if trim_start(y).len() > 0 {
            let z = trim_start(y);
            assert(trim_start(x) == z.push('\r'));
            assert(z.push('\r').drop_last() =~= z);
            assert(trim_end(z.push('\r')) == trim_end(z));
        } else {
            assert(trim_start(seq!['\r']) == trim_start(Seq::<char>::empty()));
            assert(trim_start(x).len() == 0);
            assert(trim(x).len() == 0);
            assert(trim(y).len() == 0);
            assert(trim(y) =~= trim(x));
        }
    }
}

/// Leading whitespace does not survive `trim_start`.
pub proof fn lemma_trim_start_ws_prefix(a: Seq<char>, b: Seq<char>)
    requires
        forall|i: int| 0 <= i < a.len() ==> is_ws(#[trigger] a[i]),
    ensures
        trim_start(a + b) == trim_start(b),
    decreases a.len(),
{
    if a.len() > 0 {
        assert((a + b)[0] == a[0]);
        assert((a + b).drop_first() =~= a.drop_first() + b);
        lemma_trim_start_ws_prefix(a.drop_first(), b);
    } else {
        assert(a + b =~= b);
    }
}

/// The indentation of a line is whitespace.
pub proof fn lemma_indent_ws(s: Seq<char>)
    ensures
        forall|k: int| 0 <= k < indent_of(s).len() ==> is_ws(#[trigger] indent_of(s)[k]),
    decreases s.len(),
{
    lemma_trim_start_suffix(s);
    if s.len() > 0 && is_ws(s[0]) {
        lemma_indent_ws(s.drop_first());
        lemma_trim_start_suffix(s.drop_first());
        assert forall|k: int| 0 <= k < indent_of(s).len() implies is_ws(
            #[trigger] indent_of(s)[k],
        ) by {
            if k > 0 {
                assert(indent_of(s)[k] == indent_of(s.drop_first())[k - 1]);
            }
        }
    }
}


/// Lines of newline-joined pieces: each piece again, up to a carriage return
/// at its end, with an empty last piece dropped when no newline follows it.
pub proof fn lemma_lines_of_join(o: Seq<Seq<char>>, end_nl: bool, s: Seq<char>)
    requires
        o.len() > 0,
        forall|i: int| 0 <= i < o.len() ==> no_newline(#[trigger] o[i]),
        s == (if end_nl {
            join(o, seq!['\n']) + seq!['\n']
        } else {
            join(o, seq!['\n'])
        }),
    ensures
        lines(s).len() == o.len() || (lines(s).len() + 1 == o.len() && o.last().len() == 0),
        forall|i: int| 0 <= i < lines(s).len() ==> trim(#[trigger] lines(s)[i]) == trim(o[i]),
{
    lemma_split_join(o);
    let j = join(o, seq!['\n']);
    if end_nl {
        lemma_split_after_newline(j, Seq::<char>::empty());
        assert(j + seq!['\n'] + Seq::<char>::empty() =~= j + seq!['\n']);
        let parts = o.push(Seq::<char>::empty());
        assert(split(j + seq!['\n'], '\n') == parts);
        assert(parts.drop_last() =~= o);
        let m = lines(j + seq!['\n']);
        assert forall|i: int| 0 <= i < m.len() implies trim(#[trigger] m[i]) == trim(o[i]) by {
            assert(m[i] == strip_cr(o[i]));
            lemma_trim_strip_cr(o[i]);
        }
    } else {
        let m = lines(j);
        assert forall|i: int| 0 <= i < m.len() implies trim(#[trigger] m[i]) == trim(o[i]) by {
            if i < o.len() - 1 {
                assert(m[i] == strip_cr(o[i]));
                lemma_trim_strip_cr(o[i]);
            } else {
                assert(m[i] == o.last());
            }
        }
    }
}


/// Each character of `s` is a separator or lies in a piece of the split, so
/// what holds of every character of every piece holds of every character of
/// `s` other than the separators.
pub proof fn lemma_split_chars(s: Seq<char>, sep: char, p: spec_fn(char) -> bool)
    requires
        forall|j: int, m: int|
            0 <= j < split(s, sep).len() && 0 <= m < split(s, sep)[j].len() ==> p(
                #[trigger] split(s, sep)[j][m],
            ),
    ensures
        forall|k: int| 0 <= k < s.len() ==> s[k] == sep || p(#[trigger] s[k]),
    decreases s.len(),
{
    if s.len() > 0 {
        let init = split(s.drop_last(), sep);
        let whole = split(s, sep);
        lemma_split_len(s.drop_last(), sep);
        assert forall|j: int, m: int|
            0 <= j < init.len() && 0 <= m < init[j].len() implies p(#[trigger] init[j][m]) by {
            if s.last() == sep {
                assert(whole[j] == init[j]);
            } else if j < init.len() - 1 {
                assert(whole[j] == init[j]);
            } else {
                assert(whole[j] == init[j].push(s.last()));
                assert(whole[j][m] == init[j][m]);
            }
        }
        lemma_split_chars(s.drop_last(), sep, p);
        assert forall|k: int| 0 <= k < s.len() implies s[k] == sep || p(#[trigger] s[k]) by {
            if k < s.len() - 1 {
                assert(s[k] == s.drop_last()[k]);
            } else if s.last() != sep {
                let l = init.len() - 1;
                assert(whole[l] == init[l].push(s.last()));
                assert(whole[l][init[l].len() as int] == s.last());
            }
        }
    }
}


/// The last character of pieces joined by a separator is the last
/// character of the last piece, when that piece is not empty.
pub proof fn lemma_join_last(o: Seq<Seq<char>>, sep: Seq<char>)
    requires
        o.len() > 0,
        o.last().len() > 0,
    ensures
        join(o, sep).len() > 0,
        join(o, sep).last() == o.last().last(),
{
    if o.len() > 1 {
        let j = join(o.drop_last(), sep) + sep + o.last();
        assert(j.last() == o.last().last());
    }
}

/// Text that does not end with a newline has a non-empty last line.
pub proof fn lemma_lines_last_nonempty(s: Seq<char>)
    requires
        s.len() > 0,
        s.last() != '\n',
    ensures
        lines(s).len() > 0,
        lines(s).last().len() > 0,
        lines(s).last() == split(s, '\n').last(),
{
    lemma_split_len(s.drop_last(), '\n');
    let parts = split(s, '\n');
    assert(parts.last().len() > 0);
}

/// Lines of newline-joined pieces, exactly: each piece, a carriage return
/// at its end dropped unless it is the last piece and no newline follows;
/// and the text ends with a newline exactly when one was appended.
pub proof fn lemma_lines_of_join_exact(o: Seq<Seq<char>>, end_nl: bool, s: Seq<char>)
    requires
        o.len() > 0,
        end_nl || o.last().len() > 0,
        forall|i: int| 0 <= i < o.len() ==> no_newline(#[trigger] o[i]),
        s == (if end_nl {
            join(o, seq!['\n']) + seq!['\n']
        } else {
            join(o, seq!['\n'])
        }),
    ensures
        lines(s).len() == o.len(),
        forall|i: int|
            0 <= i < o.len() ==> #[trigger] lines(s)[i] == if end_nl || i < o.len() - 1 {
                strip_cr(o[i])
            } else {
                o[i]
            },
        ends_with(s, seq!['\n']) == end_nl,
{
    lemma_split_join(o);
    let j = join(o, seq!['\n']);
    if end_nl {
        lemma_split_after_newline(j, Seq::<char>::empty());
        assert(j + seq!['\n'] + Seq::<char>::empty() =~= j + seq!['\n']);
        let parts = o.push(Seq::<char>::empty());
        assert(split(j + seq!['\n'], '\n') == parts);
        assert(parts.drop_last() =~= o);
        assert(s.skip(s.len() - 1) =~= seq!['\n']);
    } else {
        lemma_join_last(o, seq!['\n']);
        assert(o.last().last() != '\n') by {
            assert(no_newline(o[o.len() - 1]));
        }
        if ends_with(s, seq!['\n']) {
            assert(s.skip(s.len() - 1)[0] == s.last());
        }
    }
}

} // verus!
