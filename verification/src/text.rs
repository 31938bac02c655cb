//! Character-level text operations on `Seq<char>` (the model) and on `&[char]`
//! (the code), in the form the output parsers of the backends need them:
//! line splitting, trimming, searching, splitting into fields and words.
use vstd::prelude::*;
use vstd::string::*;
use vstd::slice::slice_subrange;

verus! {

broadcast use vstd::string::group_string_axioms;

// ---------------------------------------------------------------------------
// Model
// ---------------------------------------------------------------------------

/// Unicode `White_Space`, the set that `char::is_whitespace` tests.
pub open spec fn is_ws(c: char) -> bool {
    let u = c as u32;
    ||| (0x9 <= u && u <= 0xd)
    ||| u == 0x20
    ||| u == 0x85
    ||| u == 0xa0
    ||| u == 0x1680
    ||| (0x2000 <= u && u <= 0x200a)
    ||| u == 0x2028
    ||| u == 0x2029
    ||| u == 0x202f
    ||| u == 0x205f
    ||| u == 0x3000
}

/// `s` without its leading white space.
pub open spec fn trim_start(s: Seq<char>) -> Seq<char>
    decreases s.len(),
{
    if s.len() > 0 && is_ws(s[0]) {
        trim_start(s.drop_first())
    } else {
        s
    }
}

/// `s` without its trailing white space.
pub open spec fn trim_end(s: Seq<char>) -> Seq<char>
    decreases s.len(),
{
    if s.len() > 0 && is_ws(s.last()) {
        trim_end(s.drop_last())
    } else {
        s
    }
}

/// `s` without leading and trailing white space (`str::trim`).
pub open spec fn trim(s: Seq<char>) -> Seq<char> {
    trim_end(trim_start(s))
}

/// `p` occurs in `s` at position `i`.
pub open spec fn matches_at(s: Seq<char>, p: Seq<char>, i: int) -> bool {
    &&& 0 <= i
    &&& i + p.len() <= s.len()
    &&& s.subrange(i, i + p.len()) =~= p
}

/// The first position at or after `i` where `p` occurs in `s`.
pub open spec fn find_from(s: Seq<char>, p: Seq<char>, i: int) -> Option<int>
    decreases s.len() + 1 - i,
{
    if i < 0 || i + p.len() > s.len() {
        None
    } else if matches_at(s, p, i) {
        Some(i)
    } else {
        find_from(s, p, i + 1)
    }
}

/// The first position where `p` occurs in `s` (`str::find`, counted in characters).
pub open spec fn find(s: Seq<char>, p: Seq<char>) -> Option<int> {
    find_from(s, p, 0)
}

/// `p` occurs somewhere in `s` (`str::contains`).
pub open spec fn contains(s: Seq<char>, p: Seq<char>) -> bool {
    find(s, p) is Some
}

/// `str::split_once`: the parts before and after the first occurrence of `p`.
pub open spec fn split_once(s: Seq<char>, p: Seq<char>) -> Option<(Seq<char>, Seq<char>)> {
    match find(s, p) {
        Some(i) => Some((s.take(i), s.skip(i + p.len()))),
        None => None,
    }
}

/// The last position of `c` in `s` (`str::rfind` with a character).
pub open spec fn rfind_char(s: Seq<char>, c: char) -> Option<int>
    decreases s.len(),
{
    if s.len() == 0 {
        None
    } else if s.last() == c {
        Some(s.len() - 1)
    } else {
        rfind_char(s.drop_last(), c)
    }
}

/// `s` begins with `p`.
pub open spec fn starts_with(s: Seq<char>, p: Seq<char>) -> bool {
    p.len() <= s.len() && s.take(p.len() as int) =~= p
}

/// `s` ends with `p`.
pub open spec fn ends_with(s: Seq<char>, p: Seq<char>) -> bool {
    p.len() <= s.len() && s.skip(s.len() - p.len()) =~= p
}

/// `str::strip_prefix`.
pub open spec fn strip_prefix(s: Seq<char>, p: Seq<char>) -> Option<Seq<char>> {
    if starts_with(s, p) {
        Some(s.skip(p.len() as int))
    } else {
        None
    }
}

/// `str::strip_suffix`.
pub open spec fn strip_suffix(s: Seq<char>, p: Seq<char>) -> Option<Seq<char>> {
    if ends_with(s, p) {
        Some(s.take(s.len() - p.len()))
    } else {
        None
    }
}

/// The pieces of `s` between occurrences of `c` (`str::split` with a character):
/// there is always at least one piece.
pub open spec fn split_char(s: Seq<char>, c: char) -> Seq<Seq<char>>
    decreases s.len(),
{
    if s.len() == 0 {
        seq![Seq::<char>::empty()]
    } else {
        let p = split_char(s.drop_last(), c);
        if s.last() == c {
            p.push(Seq::<char>::empty())
        } else {
            p.update(p.len() - 1, p.last().push(s.last()))
        }
    }
}

/// A line's trailing carriage return, removed.
pub open spec fn strip_cr(l: Seq<char>) -> Seq<char> {
    if l.len() > 0 && l.last() == '\r' {
        l.drop_last()
    } else {
        l
    }
}

/// The lines of `s` (`str::lines`): split at `\n`; a line that ended with
/// `\n` loses a trailing `\r`; a final `\n` starts no further line.
pub open spec fn lines(s: Seq<char>) -> Seq<Seq<char>> {
    let p = split_char(s, '\n');
    let n: int = if s.len() == 0 {
        0
    } else if s.last() == '\n' {
        p.len() - 1
    } else {
        p.len() as int
    };
    Seq::new(
        n as nat,
        |i: int|
            if i < p.len() - 1 {
                strip_cr(p[i])
            } else {
                p[i]
            },
    )
}

/// The white-space separated words of `s` (`str::split_whitespace`).
pub open spec fn words(s: Seq<char>) -> Seq<Seq<char>>
    decreases s.len(),
{
    if s.len() == 0 {
        Seq::empty()
    } else {
        let w = words(s.drop_last());
        let c = s.last();
        if is_ws(c) {
            w
        } else if s.len() == 1 || is_ws(s[s.len() - 2]) {
            w.push(seq![c])
        } else {
            w.update(w.len() - 1, w.last().push(c))
        }
    }
}

/// ASCII lower case of one character.
pub open spec fn ascii_lower(c: char) -> char {
    if 'A' <= c && c <= 'Z' {
        ((c as u32) + 32) as char
    } else {
        c
    }
}

/// `str::eq_ignore_ascii_case`.
pub open spec fn eq_ignore_ascii_case(a: Seq<char>, b: Seq<char>) -> bool {
    a.len() == b.len() && forall|i: int| 0 <= i < a.len() ==> ascii_lower(#[trigger] a[i]) == ascii_lower(b[i])
}

/// The parts of `parts` joined with `sep` in between (`[&str]::join`).
pub open spec fn join(parts: Seq<Seq<char>>, sep: Seq<char>) -> Seq<char>
    decreases parts.len(),
{
    if parts.len() == 0 {
        Seq::empty()
    } else if parts.len() == 1 {
        parts[0]
    } else {
        join(parts.drop_last(), sep) + sep + parts.last()
    }
}

/// `s` without the leading characters that are in `cs`.
pub open spec fn trim_start_matching(s: Seq<char>, cs: Seq<char>) -> Seq<char>
    decreases s.len(),
{
    if s.len() > 0 && cs.contains(s[0]) {
        trim_start_matching(s.drop_first(), cs)
    } else {
        s
    }
}

/// `s` without the trailing characters that are in `cs`.
pub open spec fn trim_end_matching(s: Seq<char>, cs: Seq<char>) -> Seq<char>
    decreases s.len(),
{
    if s.len() > 0 && cs.contains(s.last()) {
        trim_end_matching(s.drop_last(), cs)
    } else {
        s
    }
}

/// `str::trim_matches` with the characters `cs`.
pub open spec fn trim_matching(s: Seq<char>, cs: Seq<char>) -> Seq<char> {
    trim_end_matching(trim_start_matching(s, cs), cs)
}

/// `str::replace`: every occurrence of the (non-empty) pattern `pat`, from
/// left to right and not overlapping, replaced by `rep`.
pub open spec fn replace_all(s: Seq<char>, pat: Seq<char>, rep: Seq<char>) -> Seq<char>
    decreases s.len(),
{
    if pat.len() == 0 {
        s
    } else {
        match find(s, pat) {
            Some(i) => {
                proof {
                    lemma_find_bounds(s, pat, 0);
                }
                s.take(i) + rep + replace_all(s.skip(i + pat.len()), pat, rep)
            },
            None => s,
        }
    }
}

/// The views of a vector of character vectors.
pub open spec fn views(v: Seq<Vec<char>>) -> Seq<Seq<char>> {
    v.map_values(|x: Vec<char>| x@)
}

// ---------------------------------------------------------------------------
// Lemmas
// ---------------------------------------------------------------------------

pub proof fn lemma_split_char_nonempty(s: Seq<char>, c: char)
    ensures
        split_char(s, c).len() >= 1,
    decreases s.len(),
{
    if s.len() > 0 {
        lemma_split_char_nonempty(s.drop_last(), c);
    }
}

/// A text without `c` is one part.
pub proof fn lemma_split_char_none(s: Seq<char>, c: char)
    requires
        !s.contains(c),
    ensures
        split_char(s, c) == seq![s],
    decreases s.len(),
{
    if s.len() > 0 {
        let d = s.drop_last();
        assert(!d.contains(c)) by {
            if d.contains(c) {
                let i = choose|i: int| 0 <= i < d.len() && d[i] == c;
                assert(s[i] == c);
            }
        }
        lemma_split_char_nonempty(d, c);
        lemma_split_char_none(d, c);
        assert(s[s.len() - 1] == s.last());
        assert(s.last() != c);
        assert(d.push(s.last()) =~= s);
        assert(split_char(s, c) =~= seq![s]);
    } else {
        assert(s =~= Seq::<char>::empty());
    }
}

/// Splitting at `c` a text made of `a`, `c` and `b` gives the parts of `a`
/// followed by those of `b`.
pub proof fn lemma_split_char_concat(a: Seq<char>, c: char, b: Seq<char>)
    ensures
        split_char(a + seq![c] + b, c) == split_char(a, c) + split_char(b, c),
    decreases b.len(),
{
    let s = a + seq![c] + b;
    lemma_split_char_nonempty(a, c);
    if b.len() == 0 {
        assert(s.drop_last() =~= a);
        assert(s.last() == c);
        assert(split_char(b, c) == seq![Seq::<char>::empty()]);
        assert(split_char(s, c) =~= split_char(a, c) + split_char(b, c));
    } else {
        let b2 = b.drop_last();
        lemma_split_char_concat(a, c, b2);
        lemma_split_char_nonempty(b2, c);
        assert(s.drop_last() =~= a + seq![c] + b2);
        assert(s.last() == b.last());
        let pa = split_char(a, c);
        let pb = split_char(b2, c);
        if b.last() == c {
            assert(split_char(s, c) =~= (pa + pb).push(Seq::<char>::empty()));
            assert(split_char(b, c) == pb.push(Seq::<char>::empty()));
            assert(split_char(s, c) =~= pa + split_char(b, c));
        } else {
            let q = pa + pb;
            assert(q.last() == pb.last());
            assert(split_char(b, c) == pb.update(pb.len() - 1, pb.last().push(b.last())));
            assert(split_char(s, c) =~= pa + split_char(b, c));
        }
    }
}

/// The first part of a text that does not begin with `c` begins with the
/// text's first character.
pub proof fn lemma_split_char_first(s: Seq<char>, c: char)
    requires
        s.len() > 0,
        s[0] != c,
    ensures
        split_char(s, c)[0].len() > 0,
        split_char(s, c)[0][0] == s[0],
    decreases s.len(),
{
    let d = s.drop_last();
    lemma_split_char_nonempty(d, c);
    if d.len() == 0 {
        assert(split_char(d, c) == seq![Seq::<char>::empty()]);
        assert(s.last() == s[0]);
        assert(split_char(s, c)[0] =~= seq![s[0]]);
    } else {
        assert(d[0] == s[0]);
        lemma_split_char_first(d, c);
        let p = split_char(d, c);
        if s.last() == c {
            assert(split_char(s, c)[0] == p[0]);
        } else {
            if p.len() == 1 {
                assert(split_char(s, c)[0] == p[0].push(s.last()));
            } else {
                assert(split_char(s, c)[0] == p[0]);
            }
        }
    }
}

proof fn lemma_join_push_last(p: Seq<Seq<char>>, sep: Seq<char>, x: char)
    requires
        p.len() > 0,
    ensures
        join(p.update(p.len() - 1, p.last().push(x)), sep) == join(p, sep).push(x),
{
    let q = p.update(p.len() - 1, p.last().push(x));
    if p.len() > 1 {
        assert(q.drop_last() =~= p.drop_last());
        assert(q.last() == p.last().push(x));
        assert(join(q, sep) =~= join(p, sep).push(x));
    } else {
        assert(q[0] == p[0].push(x));
    }
}

/// Joining the parts of a text, split at `c`, with `c` gives the text back.
pub proof fn lemma_join_split_char(s: Seq<char>, c: char)
    ensures
        join(split_char(s, c), seq![c]) == s,
    decreases s.len(),
{
    if s.len() == 0 {
        assert(split_char(s, c) == seq![Seq::<char>::empty()]);
        assert(s =~= Seq::<char>::empty());
    } else {
        let d = s.drop_last();
        lemma_join_split_char(d, c);
        lemma_split_char_nonempty(d, c);
        let p = split_char(d, c);
        if s.last() == c {
            let q = p.push(Seq::<char>::empty());
            assert(q.drop_last() =~= p);
            assert(join(q, seq![c]) =~= d + seq![c] + Seq::<char>::empty());
            assert(s =~= d + seq![c]);
        } else {
            lemma_join_push_last(p, seq![c], s.last());
            assert(s =~= d.push(s.last()));
        }
    }
}

proof fn lemma_views_push(v: Seq<Vec<char>>, x: Vec<char>)
    ensures
        views(v.push(x)) =~= views(v).push(x@),
{
}

// ---------------------------------------------------------------------------
// Code
// ---------------------------------------------------------------------------

/// The Unicode lower case of `s`, as `str::to_lowercase` computes it.
pub uninterp spec fn lowercase(s: Seq<char>) -> Seq<char>;

/// `str::to_lowercase`: the text's Unicode lower-case mapping.
#[verifier::external_body]
pub(crate) fn to_lowercase(s: &str) -> (r: String)
    ensures
        r@ == lowercase(s@),
{
    s.to_lowercase()
}

/// Appends `c` to `s` (`String::push`).
#[verifier::external_body]
pub(crate) fn push_char(s: &mut String, c: char)
    ensures
        final(s)@ == old(s)@.push(c),
{
    s.push(c);
}

/// The characters of `s`, in order.
pub fn chars_of(s: &str) -> (v: Vec<char>)
    ensures
        v@ == s@,
{
    let mut v: Vec<char> = Vec::new();
    for c in it: s.chars()
        invariant
            v@ == it.seq().take(it.index() as int),
    {
        v.push(c);
    }
    v
}

/// The string made of the characters `s`.
pub fn string_of(s: &[char]) -> (r: String)
    ensures
        r@ == s@,
{
    let mut r = String::new();
    let mut i: usize = 0;
    while i < s.len()
        invariant
            i <= s@.len(),
            r@ == s@.take(i as int),
        decreases s@.len() - i,
    {
        push_char(&mut r, s[i]);
        assert(s@.take(i + 1) =~= s@.take(i as int).push(s@[i as int]));
        i = i + 1;
    }
    assert(s@.take(s@.len() as int) =~= s@);
    r
}

/// `is_ws` in code.
pub fn is_ws_char(c: char) -> (b: bool)
    ensures
        b == is_ws(c),
{
    let u = c as u32;
    (0x9 <= u && u <= 0xd) || u == 0x20 || u == 0x85 || u == 0xa0 || u == 0x1680 || (0x2000
        <= u && u <= 0x200a) || u == 0x2028 || u == 0x2029 || u == 0x202f || u == 0x205f || u
        == 0x3000
}


/// `trim` in code: the sub-slice of `s` without leading and trailing white space.
pub fn trim_slice(s: &[char]) -> (r: &[char])
    ensures
        r@ == trim(s@),
{
    let mut i: usize = 0;
    assert(s@.skip(0) =~= s@);
    while i < s.len() && is_ws_char(s[i])
        invariant
            i <= s@.len(),
            trim_start(s@.skip(i as int)) == trim_start(s@),
        decreases s@.len() - i,
    {
        assert(s@.skip(i as int).drop_first() =~= s@.skip(i + 1));
        i = i + 1;
    }
    assert(trim_start(s@) == s@.skip(i as int));
    let mut j: usize = s.len();
    assert(s@.subrange(i as int, j as int) =~= s@.skip(i as int));
    while j > i && is_ws_char(s[j - 1])
        invariant
            i <= j <= s@.len(),
            trim_end(s@.subrange(i as int, j as int)) == trim_end(s@.skip(i as int)),
        decreases j,
    {
        assert(s@.subrange(i as int, j as int).drop_last() =~= s@.subrange(i as int, j - 1));
        j = j - 1;
    }
    slice_subrange(s, i, j)
}

/// `trim_matching` in code.
pub fn trim_matching_slice<'a>(s: &'a [char], cs: &[char]) -> (r: &'a [char])
    ensures
        r@ == trim_matching(s@, cs@),
{
    let mut i: usize = 0;
    assert(s@.skip(0) =~= s@);
    while i < s.len() && contains_char(cs, s[i])
        invariant
            i <= s@.len(),
            trim_start_matching(s@.skip(i as int), cs@) == trim_start_matching(s@, cs@),
        decreases s@.len() - i,
    {
        assert(s@.skip(i as int).drop_first() =~= s@.skip(i + 1));
        i = i + 1;
    }
    assert(trim_start_matching(s@, cs@) == s@.skip(i as int));
    let mut j: usize = s.len();
    assert(s@.subrange(i as int, j as int) =~= s@.skip(i as int));
    while j > i && contains_char(cs, s[j - 1])
        invariant
            i <= j <= s@.len(),
            trim_end_matching(s@.subrange(i as int, j as int), cs@) == trim_end_matching(
                s@.skip(i as int),
                cs@,
            ),
        decreases j,
    {
        assert(s@.subrange(i as int, j as int).drop_last() =~= s@.subrange(i as int, j - 1));
        j = j - 1;
    }
    slice_subrange(s, i, j)
}

/// `c` is one of `cs`.
pub fn contains_char(cs: &[char], c: char) -> (b: bool)
    ensures
        b == cs@.contains(c),
{
    let mut i: usize = 0;
    while i < cs.len()
        invariant
            i <= cs@.len(),
            forall|t: int| 0 <= t < i ==> cs@[t] != c,
        decreases cs@.len() - i,
    {
        if cs[i] == c {
            assert(cs@[i as int] == c);
            return true;
        }
        i = i + 1;
    }
    false
}

/// `replace_all` in code.
pub fn replace_all_slice(s: &[char], pat: &[char], rep: &[char]) -> (r: Vec<char>)
    requires
        pat@.len() > 0,
    ensures
        r@ == replace_all(s@, pat@, rep@),
{
    let mut r: Vec<char> = Vec::new();
    let mut pos: usize = 0;
    assert(s@.skip(0) =~= s@);
    loop
        invariant
            pos <= s@.len(),
            pat@.len() > 0,
            replace_all(s@, pat@, rep@) == r@ + replace_all(s@.skip(pos as int), pat@, rep@),
        decreases s@.len() - pos,
    {
        let rest = slice_subrange(s, pos, s.len());
        assert(rest@ == s@.skip(pos as int));
        proof {
            lemma_find_bounds(rest@, pat@, 0);
        }
        match find_slice(rest, pat) {
            Some(i) => {
                let ghost r0 = r@;
                append_chars(&mut r, slice_subrange(rest, 0, i));
                append_chars(&mut r, rep);
                assert(rest@.skip(i + pat@.len()) =~= s@.skip(pos + i + pat@.len()));
                assert(r@ =~= r0 + rest@.take(i as int) + rep@);
                pos = pos + i + pat.len();
            },
            None => {
                append_chars(&mut r, rest);
                return r;
            },
        }
    }
}

/// `matches_at` in code.
fn matches_at_exec(s: &[char], p: &[char], i: usize) -> (b: bool)
    requires
        i + p@.len() <= s@.len(),
    ensures
        b == matches_at(s@, p@, i as int),
{
    let mut k: usize = 0;
    assert(s@.len() == s.len());
    while k < p.len()
        invariant
            k <= p@.len(),
            s@.len() == s.len(),
            i + p@.len() <= s@.len(),
            forall|t: int| 0 <= t < k ==> s@[i + t] == p@[t],
        decreases p@.len() - k,
    {
        if s[i + k] != p[k] {
            assert(s@.subrange(i as int, i + p@.len())[k as int] != p@[k as int]);
            return false;
        }
        k = k + 1;
    }
    assert(s@.subrange(i as int, i + p@.len()) =~= p@);
    true
}

/// `find` in code.
pub fn find_slice(s: &[char], p: &[char]) -> (r: Option<usize>)
    ensures
        r matches Some(i) ==> find(s@, p@) == Some(i as int),
        r is None ==> find(s@, p@) is None,
{
    if p.len() > s.len() {
        return None;
    }
    let mut i: usize = 0;
    while i <= s.len() - p.len()
        invariant
            p@.len() <= s@.len(),
            i <= s@.len() - p@.len() + 1,
            find(s@, p@) == find_from(s@, p@, i as int),
        decreases s@.len() - p@.len() + 1 - i,
    {
        if matches_at_exec(s, p, i) {
            return Some(i);
        }
        i = i + 1;
    }
    None
}

/// `split_once` in code.
pub fn split_once_slice<'a>(s: &'a [char], p: &[char]) -> (r: Option<(&'a [char], &'a [char])>)
    ensures
        r matches Some(parts) ==> split_once(s@, p@) == Some((parts.0@, parts.1@)),
        r is None ==> split_once(s@, p@) is None,
{
    match find_slice(s, p) {
        Some(i) => {
            proof {
                lemma_find_bounds(s@, p@, 0);
            }
            assert(i + p@.len() <= s@.len());
            assert(s@.len() == s.len());
            Some((slice_subrange(s, 0, i), slice_subrange(s, i + p.len(), s.len())))
        },
        None => None,
    }
}

/// `rfind_char` in code.
pub fn rfind_char_slice(s: &[char], c: char) -> (r: Option<usize>)
    ensures
        r matches Some(i) ==> rfind_char(s@, c) == Some(i as int),
        r is None ==> rfind_char(s@, c) is None,
{
    let mut i: usize = s.len();
    assert(s@.take(i as int) =~= s@);
    while i > 0
        invariant
            i <= s@.len(),
            rfind_char(s@, c) == rfind_char(s@.take(i as int), c),
        decreases i,
    {
        if s[i - 1] == c {
            return Some(i - 1);
        }
        assert(s@.take(i as int).drop_last() =~= s@.take(i - 1));
        i = i - 1;
    }
    None
}

/// `starts_with` in code.
pub fn starts_with_slice(s: &[char], p: &[char]) -> (b: bool)
    ensures
        b == starts_with(s@, p@),
{
    p.len() <= s.len() && matches_at_exec(s, p, 0)
}

/// `ends_with` in code.
pub fn ends_with_slice(s: &[char], p: &[char]) -> (b: bool)
    ensures
        b == ends_with(s@, p@),
{
    p.len() <= s.len() && matches_at_exec(s, p, s.len() - p.len())
}

/// `contains` in code.
pub fn contains_slice(s: &[char], p: &[char]) -> (b: bool)
    ensures
        b == contains(s@, p@),
{
    find_slice(s, p).is_some()
}

/// Equality of two character sequences.
pub fn eq_slice(a: &[char], b: &[char]) -> (r: bool)
    ensures
        r == (a@ == b@),
{
    if a.len() != b.len() {
        return false;
    }
    let r = matches_at_exec(a, b, 0);
    if r {
        assert(a@ =~= a@.subrange(0, b@.len() as int));
    }
    r
}

/// Equality of a character sequence and a string.
pub fn eq_str(a: &[char], b: &str) -> (r: bool)
    ensures
        r == (a@ == b@),
{
    let bv = chars_of(b);
    eq_slice(a, bv.as_slice())
}

/// `ascii_lower` in code.
pub fn ascii_lower_char(c: char) -> (r: char)
    ensures
        r == ascii_lower(c),
{
    if 'A' <= c && c <= 'Z' {
        let u = c as u8;
        assert(u == c as u32);
        ((u + 32) as char)
    } else {
        c
    }
}

/// `eq_ignore_ascii_case` in code.
pub fn eq_ignore_ascii_case_slice(a: &[char], b: &[char]) -> (r: bool)
    ensures
        r == eq_ignore_ascii_case(a@, b@),
{
    if a.len() != b.len() {
        return false;
    }
    let mut i: usize = 0;
    while i < a.len()
        invariant
            i <= a@.len(),
            a@.len() == b@.len(),
            forall|t: int| 0 <= t < i ==> ascii_lower(#[trigger] a@[t]) == ascii_lower(b@[t]),
        decreases a@.len() - i,
    {
        if ascii_lower_char(a[i]) != ascii_lower_char(b[i]) {
            return false;
        }
        i = i + 1;
    }
    true
}

/// `eq_ignore_ascii_case` of a character sequence and a string.
pub fn eq_ignore_ascii_case_str(a: &[char], b: &str) -> (r: bool)
    ensures
        r == eq_ignore_ascii_case(a@, b@),
{
    let bv = chars_of(b);
    eq_ignore_ascii_case_slice(a, bv.as_slice())
}

/// `split_char` in code.
pub fn split_char_slice(s: &[char], c: char) -> (r: Vec<Vec<char>>)
    ensures
        views(r@) == split_char(s@, c),
{
    let mut done: Vec<Vec<char>> = Vec::new();
    let mut cur: Vec<char> = Vec::new();
    let mut i: usize = 0;
    assert(s@.take(0) =~= Seq::<char>::empty());
    assert(views(done@).push(cur@) =~= split_char(s@.take(0), c));
    while i < s.len()
        invariant
            i <= s@.len(),
            views(done@).push(cur@) == split_char(s@.take(i as int), c),
        decreases s@.len() - i,
    {
        let ch = s[i];
        assert(s@.take(i + 1).drop_last() =~= s@.take(i as int));
        if ch == c {
            proof {
                lemma_views_push(done@, cur);
            }
            done.push(cur);
            cur = Vec::new();
            assert(views(done@).push(cur@) =~= split_char(s@.take(i + 1), c));
        } else {
            let ghost old_cur = cur@;
            cur.push(ch);
            assert(views(done@).push(cur@) =~= split_char(s@.take(i + 1), c));
        }
        i = i + 1;
    }
    assert(s@.take(s@.len() as int) =~= s@);
    proof {
        lemma_views_push(done@, cur);
    }
    done.push(cur);
    done
}

/// `lines` in code.
pub fn lines_slice(s: &[char]) -> (r: Vec<Vec<char>>)
    ensures
        views(r@) == lines(s@),
{
    let mut done: Vec<Vec<char>> = Vec::new();
    let mut cur: Vec<char> = Vec::new();
    let mut i: usize = 0;
    assert(s@.take(0) =~= Seq::<char>::empty());
    while i < s.len()
        invariant
            i <= s@.len(),
            done@.len() + 1 == split_char(s@.take(i as int), '\n').len(),
            forall|j: int|
                0 <= j < done@.len() ==> (#[trigger] done@[j])@ == strip_cr(
                    split_char(s@.take(i as int), '\n')[j],
                ),
            cur@ == split_char(s@.take(i as int), '\n').last(),
        decreases s@.len() - i,
    {
        let ch = s[i];
        let ghost p = split_char(s@.take(i as int), '\n');
        assert(s@.take(i + 1).drop_last() =~= s@.take(i as int));
        assert(s@.take(i + 1).last() == ch);
        if ch == '\n' {
            let mut line = cur;
            if line.len() > 0 && line[line.len() - 1] == '\r' {
                line.pop();
            }
            assert(line@ == strip_cr(p.last()));
            done.push(line);
            cur = Vec::new();
        } else {
            cur.push(ch);
        }
        i = i + 1;
    }
    assert(s@.take(s@.len() as int) =~= s@);
    let ghost p = split_char(s@, '\n');
    proof {
        lemma_split_char_nonempty(s@, '\n');
        if s@.len() > 0 {
            let q = split_char(s@.drop_last(), '\n');
            lemma_split_char_nonempty(s@.drop_last(), '\n');
            if s@.last() == '\n' {
                assert(p == q.push(Seq::<char>::empty()));
                assert(p.last().len() == 0);
            } else {
                assert(p.last() == q.last().push(s@.last()));
                assert(p.last().len() > 0);
            }
        } else {
            assert(p == seq![Seq::<char>::empty()]);
        }
    }
    let ghost done_before = done@;
    if cur.len() > 0 {
        done.push(cur);
    }
    assert(views(done@).len() == lines(s@).len());
    assert forall|j: int| 0 <= j < views(done@).len() implies views(done@)[j] == lines(s@)[j] by {
        if j < done_before.len() {
            assert(done@[j] == done_before[j]);
        }
    }
    assert(views(done@) =~= lines(s@));
    done
}

/// `words` in code.
pub fn words_slice(s: &[char]) -> (r: Vec<Vec<char>>)
    ensures
        views(r@) == words(s@),
{
    let mut done: Vec<Vec<char>> = Vec::new();
    let mut cur: Vec<char> = Vec::new();
    let mut in_word = false;
    let mut i: usize = 0;
    assert(s@.take(0) =~= Seq::<char>::empty());
    while i < s.len()
        invariant
            i <= s@.len(),
            in_word == (i > 0 && !is_ws(s@[i - 1])),
            in_word ==> views(done@).push(cur@) == words(s@.take(i as int)),
            !in_word ==> views(done@) == words(s@.take(i as int)),
        decreases s@.len() - i,
    {
        let ch = s[i];
        assert(s@.take(i + 1).drop_last() =~= s@.take(i as int));
        assert(s@.take(i + 1).last() == ch);
        if is_ws_char(ch) {
            if in_word {
                proof {
                    lemma_views_push(done@, cur);
                }
                done.push(cur);
                cur = Vec::new();
            }
            in_word = false;
        } else {
            if in_word {
                assert(s@.take(i + 1)[i - 1] == s@[i - 1]);
                cur.push(ch);
                assert(views(done@).push(cur@) =~= words(s@.take(i + 1)));
            } else {
                assert(i > 0 ==> s@.take(i + 1)[i - 1] == s@[i - 1]);
                cur = Vec::new();
                cur.push(ch);
                assert(views(done@).push(cur@) =~= words(s@.take(i + 1)));
            }
            in_word = true;
        }
        i = i + 1;
    }
    assert(s@.take(s@.len() as int) =~= s@);
    if in_word {
        proof {
            lemma_views_push(done@, cur);
        }
        done.push(cur);
    }
    done
}

/// `join` in code, of the parts from index `start` up to `end`.
pub fn join_slices(parts: &Vec<Vec<char>>, start: usize, end: usize, sep: &[char]) -> (r: Vec<char>)
    requires
        start <= end <= parts@.len(),
    ensures
        r@ == join(views(parts@).subrange(start as int, end as int), sep@),
{
    let mut r: Vec<char> = Vec::new();
    let mut i: usize = start;
    let ghost all = views(parts@).subrange(start as int, end as int);
    assert(all.take(0) =~= Seq::<Seq<char>>::empty());
    while i < end
        invariant
            start <= i <= end <= parts@.len(),
            all == views(parts@).subrange(start as int, end as int),
            r@ == join(all.take(i - start), sep@),
        decreases end - i,
    {
        if i > start {
            append_chars(&mut r, sep);
        }
        append_chars(&mut r, parts[i].as_slice());
        assert(all.take(i - start + 1).drop_last() =~= all.take(i - start));
        assert(all[i - start] == parts@[i as int]@);
        assert(r@ =~= join(all.take(i - start + 1), sep@));
        i = i + 1;
    }
    assert(all.take(all.len() as int) =~= all);
    r
}

/// Appends the characters `s` to `v`.
pub fn append_chars(v: &mut Vec<char>, s: &[char])
    ensures
        final(v)@ == old(v)@ + s@,
{
    let mut i: usize = 0;
    while i < s.len()
        invariant
            i <= s@.len(),
            v@ == old(v)@ + s@.take(i as int),
        decreases s@.len() - i,
    {
        v.push(s[i]);
        assert(s@.take(i + 1) =~= s@.take(i as int).push(s@[i as int]));
        i = i + 1;
    }
    assert(s@.take(s@.len() as int) =~= s@);
}

/// `find_from` stops at the first match at or after `i`.
pub proof fn lemma_find_first(s: Seq<char>, p: Seq<char>, i: int)
    requires
        0 <= i,
    ensures
        find_from(s, p, i) matches Some(k) ==> matches_at(s, p, k) && forall|j: int|
            i <= j < k ==> !matches_at(s, p, j),
        find_from(s, p, i) is None ==> forall|j: int| i <= j ==> !matches_at(s, p, j),
    decreases s.len() + 1 - i,
{
    if i + p.len() > s.len() {
    } else if matches_at(s, p, i) {
    } else {
        lemma_find_first(s, p, i + 1);
    }
}

/// The part before the first `c` holds no `c`, so it splits no further at `c`.
pub proof fn lemma_split_once_char_prefix(s: Seq<char>, c: char)
    ensures
        split_once(s, seq![c]) matches Some((a, _)) ==> !a.contains(c) && split_once(a, seq![c]) is None,
{
    let p = seq![c];
    lemma_find_first(s, p, 0);
    match find(s, p) {
        Some(k) => {
            let a = s.take(k);
            lemma_find_bounds(s, p, 0);
            assert forall|j: int| 0 <= j < a.len() implies a[j] != c by {
                assert(!matches_at(s, p, j));
                if a[j] == c {
                    assert(s.subrange(j, j + 1) =~= p);
                }
            }
            lemma_find_first(a, p, 0);
            if find(a, p) is Some {
                let m = find(a, p)->0;
                assert(a.subrange(m, m + 1)[0] == c);
                assert(a[m] == c);
            }
        },
        None => {},
    }
}

pub proof fn lemma_find_bounds(s: Seq<char>, p: Seq<char>, i: int)
    ensures
        find_from(s, p, i) matches Some(k) ==> i <= k && k + p.len() <= s.len(),
    decreases s.len() + 1 - i,
{
    if i < 0 || i + p.len() > s.len() {
    } else if matches_at(s, p, i) {
    } else {
        lemma_find_bounds(s, p, i + 1);
    }
}

} // verus!
