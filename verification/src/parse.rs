//! Shared shapes of the output parsers: a fold over lines, `key: value`
//! lines, and the per-record state of a package's details.
use vstd::prelude::*;
use vstd::string::*;
use crate::text::{
    rfind_char, rfind_char_slice, chars_of, lines, lines_slice, split_once, split_once_slice, string_of, trim, trim_slice,
    views,
};

verus! {

/// Applies `f` to the lines `ls`, from the first to the last, starting from `init`.
pub open spec fn fold<S>(ls: Seq<Seq<char>>, init: S, f: spec_fn(S, Seq<char>) -> S) -> S
    decreases ls.len(),
{
    if ls.len() == 0 {
        init
    } else {
        f(fold(ls.drop_last(), init, f), ls.last())
    }
}

/// One more line of a fold.
pub proof fn lemma_fold_step<S>(ls: Seq<Seq<char>>, init: S, f: spec_fn(S, Seq<char>) -> S, i: int)
    requires
        0 <= i < ls.len(),
    ensures
        fold(ls.take(i + 1), init, f) == f(fold(ls.take(i), init, f), ls[i]),
{
    assert(ls.take(i + 1).drop_last() =~= ls.take(i));
}

/// One more element of a `filter_map`.
pub proof fn lemma_filter_map_step<A, B>(s: Seq<A>, f: spec_fn(A) -> Option<B>, i: int)
    requires
        0 <= i < s.len(),
    ensures
        s.take(i + 1).filter_map(f) == (match f(s[i]) {
            Some(b) => s.take(i).filter_map(f).push(b),
            None => s.take(i).filter_map(f),
        }),
{
    assert(s.take(i + 1).drop_last() =~= s.take(i));
    assert(s.take(i + 1).last() == s[i]);
    match f(s[i]) {
        Some(b) => {
            assert(s.take(i).filter_map(f) + seq![b] =~= s.take(i).filter_map(f).push(b));
        },
        None => {},
    }
}

/// Every element of a `filter_map` is what `f` makes of some element of the sequence.
pub proof fn lemma_filter_map_origin<A, B>(s: Seq<A>, f: spec_fn(A) -> Option<B>, i: int)
    requires
        0 <= i < s.filter_map(f).len(),
    ensures
        exists|t: int| 0 <= t < s.len() && f(#[trigger] s[t]) == Some(s.filter_map(f)[i]),
    decreases s.len(),
{
    let rest = s.drop_last();
    let r = rest.filter_map(f);
    match f(s.last()) {
        Some(x) => {
            if i < r.len() {
                lemma_filter_map_origin(rest, f, i);
                let t = choose|t: int| 0 <= t < rest.len() && f(#[trigger] rest[t]) == Some(r[i]);
                assert(s[t] == rest[t]);
                assert((r + seq![x])[i] == r[i]);
            } else {
                assert(s[s.len() - 1] == s.last());
            }
        },
        None => {
            lemma_filter_map_origin(rest, f, i);
            let t = choose|t: int| 0 <= t < rest.len() && f(#[trigger] rest[t]) == Some(r[i]);
            assert(s[t] == rest[t]);
        },
    }
}

/// What `f` guarantees of each element it makes holds of every element of a `filter_map`.
pub proof fn lemma_filter_map_all<A, B>(s: Seq<A>, f: spec_fn(A) -> Option<B>, p: spec_fn(B) -> bool)
    requires
        forall|a: A| #[trigger] f(a) is Some ==> p(f(a)->0),
    ensures
        forall|i: int| 0 <= i < s.filter_map(f).len() ==> p(#[trigger] s.filter_map(f)[i]),
{
    assert forall|i: int| 0 <= i < s.filter_map(f).len() implies p(#[trigger] s.filter_map(f)[i]) by {
        lemma_filter_map_origin(s, f, i);
        let t = choose|t: int| 0 <= t < s.len() && f(#[trigger] s[t]) == Some(s.filter_map(f)[i]);
        assert(f(s[t]) is Some);
    }
}

/// A property that `f` keeps holds after a fold that starts where it holds.
pub proof fn lemma_fold_keeps<S>(ls: Seq<Seq<char>>, init: S, f: spec_fn(S, Seq<char>) -> S, inv: spec_fn(S) -> bool)
    requires
        inv(init),
        forall|st: S, l: Seq<char>| inv(st) ==> #[trigger] inv(f(st, l)),
    ensures
        inv(fold(ls, init, f)),
    decreases ls.len(),
{
    if ls.len() > 0 {
        lemma_fold_keeps(ls.drop_last(), init, f, inv);
    }
}

/// The whole of a sequence, taken.
pub proof fn lemma_take_all<A>(s: Seq<A>)
    ensures
        s.take(s.len() as int) == s,
{
    assert(s.take(s.len() as int) =~= s);
}

/// The lines of a command's output.
pub fn lines_of(s: &str) -> (r: Vec<Vec<char>>)
    ensures
        views(r@) == lines(s@),
{
    let v = chars_of(s);
    lines_slice(v.as_slice())
}

/// A `key: value` line, both parts trimmed.
pub open spec fn key_val(line: Seq<char>) -> Option<(Seq<char>, Seq<char>)> {
    match split_once(line, ":"@) {
        Some((k, v)) => Some((trim(k), trim(v))),
        None => None,
    }
}

/// `key_val` in code.
pub fn key_val_slice(line: &[char]) -> (r: Option<(&[char], &[char])>)
    ensures
        r matches Some(kv) ==> key_val(line@) == Some((kv.0@, kv.1@)),
        r is None ==> key_val(line@) is None,
{
    let colon = chars_of(":");
    match split_once_slice(line, colon.as_slice()) {
        Some((k, v)) => Some((trim_slice(k), trim_slice(v))),
        None => None,
    }
}

/// The details of a package gathered so far while reading a report.
pub struct InfoState {
    pub version: Seq<char>,
    pub description: Seq<char>,
    pub homepage: Option<Seq<char>>,
    pub size: Option<Seq<char>>,
    pub installed: bool,
    pub in_desc: bool,
}

/// `InfoState` in code.
pub struct InfoFields {
    pub version: String,
    pub description: String,
    pub homepage: Option<String>,
    pub size: Option<String>,
    pub installed: bool,
    pub in_desc: bool,
}

impl View for InfoFields {
    type V = InfoState;

    open spec fn view(&self) -> InfoState {
        InfoState {
            version: self.version@,
            description: self.description@,
            homepage: self.homepage.deep_view(),
            size: self.size.deep_view(),
            installed: self.installed,
            in_desc: self.in_desc,
        }
    }
}

/// Nothing read yet: version `unknown`, no description, homepage or size.
pub open spec fn info_init() -> InfoState {
    InfoState {
        version: "unknown"@,
        description: Seq::empty(),
        homepage: None,
        size: None,
        installed: false,
        in_desc: false,
    }
}

/// `info_init` in code.
pub fn info_fields_new() -> (r: InfoFields)
    ensures
        r@ == info_init(),
{
    InfoFields {
        version: "unknown".to_owned(),
        description: String::new(),
        homepage: None,
        size: None,
        installed: false,
        in_desc: false,
    }
}

/// A string of the characters `s`, trimmed.
pub fn trimmed_string(s: &[char]) -> (r: String)
    ensures
        r@ == trim(s@),
{
    string_of(trim_slice(s))
}


/// `name-version` split at its last `-`; without a `-`, the whole text and `fallback`.
pub open spec fn name_version(s: Seq<char>, fallback: Seq<char>) -> (Seq<char>, Seq<char>) {
    match rfind_char(s, '-') {
        Some(i) => (s.take(i), s.skip(i + 1)),
        None => (s, fallback),
    }
}

proof fn lemma_rfind_bounds(s: Seq<char>, c: char)
    ensures
        rfind_char(s, c) matches Some(i) ==> 0 <= i < s.len(),
    decreases s.len(),
{
    if s.len() > 0 && s.last() != c {
        lemma_rfind_bounds(s.drop_last(), c);
    }
}

/// `rfind_char` finds the last occurrence of `c`, and only when there is one.
proof fn lemma_rfind_last(s: Seq<char>, c: char)
    ensures
        match rfind_char(s, c) {
            Some(i) => 0 <= i < s.len() && s[i] == c && forall|j: int| i < j < s.len() ==> s[j] != c,
            None => !s.contains(c),
        },
    decreases s.len(),
{
    if s.len() > 0 && s.last() != c {
        lemma_rfind_last(s.drop_last(), c);
        match rfind_char(s, c) {
            Some(i) => {
                assert(s[i] == s.drop_last()[i]);
                assert forall|j: int| i < j < s.len() implies s[j] != c by {
                    if j < s.len() - 1 {
                        assert(s[j] == s.drop_last()[j]);
                    }
                }
            },
            None => {
                assert forall|j: int| 0 <= j < s.len() implies s[j] != c by {
                    if j < s.len() - 1 {
                        assert(s[j] == s.drop_last()[j]);
                    }
                }
            },
        }
    }
}

/// Law: splitting `name-version` loses nothing. With a `-`, the name, a `-`
/// and the version give the text back, and the version holds no `-`; without
/// a `-`, the name is the whole text and the version is the fallback.
pub proof fn law_name_version_rejoins(s: Seq<char>, fallback: Seq<char>)
    ensures
        s.contains('-') ==> name_version(s, fallback).0 + seq!['-'] + name_version(s, fallback).1 == s
            && !name_version(s, fallback).1.contains('-'),
        !s.contains('-') ==> name_version(s, fallback) == (s, fallback),
{
    lemma_rfind_last(s, '-');
    match rfind_char(s, '-') {
        Some(i) => {
            assert(s.take(i) + seq!['-'] + s.skip(i + 1) =~= s);
            assert forall|j: int| 0 <= j < s.skip(i + 1).len() implies #[trigger] s.skip(i + 1)[j] != '-' by {
                assert(s.skip(i + 1)[j] == s[i + 1 + j]);
            }
        },
        None => {},
    }
}

/// `name_version` in code.
pub fn name_version_slice(s: &[char], fallback: &str) -> (r: (String, String))
    ensures
        (r.0@, r.1@) == name_version(s@, fallback@),
{
    proof {
        lemma_rfind_bounds(s@, '-');
    }
    match rfind_char_slice(s, '-') {
        Some(i) => {
            assert(i < s@.len());
            assert(s@.len() == s.len());
            (
            string_of(vstd::slice::slice_subrange(s, 0, i)),
            string_of(vstd::slice::slice_subrange(s, i + 1, s.len())),
        )
        },
        None => (string_of(s), fallback.to_owned()),
    }
}


/// The position of the first element of `s`, from `i` on, that satisfies `p`.
pub open spec fn first_from<A>(s: Seq<A>, p: spec_fn(A) -> bool, i: int) -> Option<int>
    decreases s.len() - i,
{
    if i < 0 || i >= s.len() {
        None
    } else if p(s[i]) {
        Some(i)
    } else {
        first_from(s, p, i + 1)
    }
}

/// What `first_from` finds is in range and satisfies `p`.
pub proof fn lemma_first_from_found<A>(s: Seq<A>, p: spec_fn(A) -> bool, i: int)
    ensures
        first_from(s, p, i) matches Some(k) ==> i <= k < s.len() && p(s[k]),
    decreases s.len() - i,
{
    if 0 <= i < s.len() && !p(s[i]) {
        lemma_first_from_found(s, p, i + 1);
    }
}


/// What `rfind_char` finds is a position of the text.
pub proof fn lemma_rfind_bounds_pub(s: Seq<char>, c: char)
    ensures
        rfind_char(s, c) matches Some(i) ==> 0 <= i < s.len(),
{
    lemma_rfind_bounds(s, c);
}

/// When an element from `i` on satisfies `p`, `first_from` finds one, no later than it.
pub proof fn lemma_first_from_reaches<A>(s: Seq<A>, p: spec_fn(A) -> bool, i: int, k: int)
    requires
        0 <= i <= k < s.len(),
        p(s[k]),
    ensures
        first_from(s, p, i) matches Some(j) && i <= j <= k && p(s[j]),
    decreases k - i,
{
    if !p(s[i]) {
        lemma_first_from_reaches(s, p, i + 1, k);
    }
}

/// When `f` marks its results by `h` exactly as `g` marks their sources, and
/// no element unmarked by `g` follows a marked one, the same holds of the
/// `filter_map`: no unmarked result follows a marked one.
pub proof fn lemma_filter_map_keeps_order<A, B>(
    s: Seq<A>,
    f: spec_fn(A) -> Option<B>,
    g: spec_fn(A) -> bool,
    h: spec_fn(B) -> bool,
)
    requires
        forall|a: A| #[trigger] f(a) is Some ==> h(f(a)->0) == g(a),
        forall|t: int, u: int| 0 <= t < u < s.len() && g(#[trigger] s[t]) ==> g(#[trigger] s[u]),
    ensures
        forall|i: int, j: int|
            0 <= i < j < s.filter_map(f).len() && h(#[trigger] s.filter_map(f)[i]) ==> h(
                #[trigger] s.filter_map(f)[j],
            ),
    decreases s.len(),
{
    if s.len() > 0 {
        let rest = s.drop_last();
        assert forall|t: int, u: int| 0 <= t < u < rest.len() && g(#[trigger] rest[t]) implies g(#[trigger] rest[u]) by {
            assert(rest[t] == s[t]);
            assert(rest[u] == s[u]);
        }
        lemma_filter_map_keeps_order(rest, f, g, h);
        let r = rest.filter_map(f);
        match f(s.last()) {
            Some(x) => {
                let all = s.filter_map(f);
                assert(all == r + seq![x]);
                assert forall|i: int, j: int| 0 <= i < j < all.len() && h(#[trigger] all[i]) implies h(#[trigger] all[j]) by {
                    assert(all[i] == r[i]);
                    if j < r.len() {
                        assert(all[j] == r[j]);
                    } else {
                        assert(all[j] == x);
                        lemma_filter_map_origin(rest, f, i);
                        let t = choose|t: int| 0 <= t < rest.len() && f(#[trigger] rest[t]) == Some(r[i]);
                        assert(f(rest[t]) is Some);
                        assert(g(rest[t]));
                        assert(s[t] == rest[t]);
                        assert(s[s.len() - 1] == s.last());
                        assert(g(s[s.len() - 1]));
                        assert(f(s.last()) is Some);
                    }
                }
            },
            None => {
                assert(s.filter_map(f) == r);
            },
        }
    }
}

/// `first_from` finds the first element from `i` on that satisfies `p`, and
/// none when there is none.
pub proof fn lemma_first_from_first<A>(s: Seq<A>, p: spec_fn(A) -> bool, i: int)
    requires
        0 <= i,
    ensures
        first_from(s, p, i) matches Some(k) ==> i <= k < s.len() && p(s[k]) && forall|j: int|
            i <= j < k ==> !p(#[trigger] s[j]),
        first_from(s, p, i) is None ==> forall|j: int| i <= j < s.len() ==> !p(#[trigger] s[j]),
    decreases s.len() - i,
{
    if i < s.len() && !p(s[i]) {
        lemma_first_from_first(s, p, i + 1);
    }
}

} // verus!
