//! Edit distance between two texts, by the row-by-row dynamic programme.
use vstd::prelude::*;
use vstd::string::*;
use crate::text::chars_of;

verus! {

/// The edit distance between the first `i` characters of `a` and the first
/// `j` characters of `b` (insertions, deletions and substitutions, each of cost 1).
pub open spec fn ed(a: Seq<char>, b: Seq<char>, i: nat, j: nat) -> nat
    decreases i + j,
{
    if i == 0 {
        j
    } else if j == 0 {
        i
    } else if a[i - 1] == b[j - 1] {
        ed(a, b, (i - 1) as nat, (j - 1) as nat)
    } else {
        let d = ed(a, b, (i - 1) as nat, (j - 1) as nat);
        let l = ed(a, b, i, (j - 1) as nat);
        let u = ed(a, b, (i - 1) as nat, j);
        1 + if d <= l && d <= u {
            d
        } else if l <= u {
            l
        } else {
            u
        }
    }
}

/// The edit distance of `a` and `b`.
pub open spec fn edit_distance(a: Seq<char>, b: Seq<char>) -> nat {
    ed(a, b, a.len(), b.len())
}

/// What the catalogue's distance gives for `a` and `b`, where `b` takes
/// `b_bytes` bytes in UTF-8: the edit distance when `b` is ASCII (one byte per
/// character); otherwise the table it fills is longer than `b` and the entry it
/// returns is never written, so the answer is `b_bytes`.
pub open spec fn catalog_distance(a: Seq<char>, b: Seq<char>, b_bytes: nat) -> nat {
    if b_bytes == b.len() {
        edit_distance(a, b)
    } else {
        b_bytes
    }
}

proof fn lemma_ed_bound(a: Seq<char>, b: Seq<char>, i: nat, j: nat)
    ensures
        ed(a, b, i, j) <= if i <= j { j } else { i },
    decreases i + j,
{
    if i > 0 && j > 0 {
        lemma_ed_bound(a, b, (i - 1) as nat, (j - 1) as nat);
        lemma_ed_bound(a, b, i, (j - 1) as nat);
        lemma_ed_bound(a, b, (i - 1) as nat, j);
    }
}

proof fn lemma_ed_self(a: Seq<char>, i: nat)
    ensures
        ed(a, a, i, i) == 0,
    decreases i,
{
    if i > 0 {
        lemma_ed_self(a, (i - 1) as nat);
    }
}

proof fn lemma_ed_symmetric(a: Seq<char>, b: Seq<char>, i: nat, j: nat)
    ensures
        ed(a, b, i, j) == ed(b, a, j, i),
    decreases i + j,
{
    if i > 0 && j > 0 {
        lemma_ed_symmetric(a, b, (i - 1) as nat, (j - 1) as nat);
        lemma_ed_symmetric(a, b, i, (j - 1) as nat);
        lemma_ed_symmetric(a, b, (i - 1) as nat, j);
    }
}

proof fn lemma_ed_lower(a: Seq<char>, b: Seq<char>, i: nat, j: nat)
    ensures
        ed(a, b, i, j) + i >= j,
        ed(a, b, i, j) + j >= i,
    decreases i + j,
{
    if i > 0 && j > 0 {
        lemma_ed_lower(a, b, (i - 1) as nat, (j - 1) as nat);
        lemma_ed_lower(a, b, i, (j - 1) as nat);
        lemma_ed_lower(a, b, (i - 1) as nat, j);
    }
}

proof fn lemma_ed_zero(a: Seq<char>, b: Seq<char>, i: nat, j: nat)
    requires
        i <= a.len(),
        j <= b.len(),
        ed(a, b, i, j) == 0,
    ensures
        i == j,
        a.take(i as int) == b.take(j as int),
    decreases i + j,
{
    if i > 0 && j > 0 {
        if a[i - 1] == b[j - 1] {
            lemma_ed_zero(a, b, (i - 1) as nat, (j - 1) as nat);
            assert(a.take(i as int) =~= a.take(i - 1).push(a[i - 1]));
            assert(b.take(j as int) =~= b.take(j - 1).push(b[j - 1]));
        }
    } else {
        assert(a.take(0) =~= b.take(0));
    }
}

/// Law: the edit distance of two texts is zero exactly when they are equal.
pub proof fn law_zero_distance_iff_equal(a: Seq<char>, b: Seq<char>)
    ensures
        edit_distance(a, b) == 0 <==> a == b,
{
    lemma_ed_self(a, a.len());
    if edit_distance(a, b) == 0 {
        lemma_ed_zero(a, b, a.len(), b.len());
        assert(a.take(a.len() as int) =~= a);
        assert(b.take(b.len() as int) =~= b);
    }
}

/// Law: the edit distance is zero from a text to itself, the same in both
/// directions, at most the length of the longer text and at least the
/// difference of the two lengths.
pub proof fn law_edit_distance(a: Seq<char>, b: Seq<char>)
    ensures
        edit_distance(a, a) == 0,
        edit_distance(a, b) == edit_distance(b, a),
        edit_distance(a, b) <= if a.len() <= b.len() { b.len() } else { a.len() },
        edit_distance(a, b) + a.len() >= b.len(),
        edit_distance(a, b) + b.len() >= a.len(),
{
    lemma_ed_self(a, a.len());
    lemma_ed_symmetric(a, b, a.len(), b.len());
    lemma_ed_bound(a, b, a.len(), b.len());
    lemma_ed_lower(a, b, a.len(), b.len());
}

/// The edit distance of `a` and `b`, computed with one row of the table.
pub fn edit_distance_chars(a: &[char], b: &[char]) -> (r: u128)
    ensures
        r as nat == edit_distance(a@, b@),
{
    let n = b.len();
    let mut cache: Vec<u128> = Vec::new();
    cache.push(0);
    let mut j: usize = 0;
    while j < n
        invariant
            j <= n,
            n == b@.len(),
            cache@.len() == j + 1,
            forall|t: int| 0 <= t <= j ==> cache@[t] == ed(a@, b@, 0, t as nat),
        decreases n - j,
    {
        cache.push(j as u128 + 1);
        j = j + 1;
    }
    let mut i: usize = 0;
    while i < a.len()
        invariant
            i <= a@.len(),
            n == b@.len(),
            cache@.len() == n + 1,
            forall|t: int| 0 <= t <= n ==> cache@[t] == ed(a@, b@, i as nat, t as nat),
        decreases a@.len() - i,
    {
        let ca = a[i];
        let mut temp: u128 = cache[0];
        cache.set(0, (i + 1) as u128);
        let mut j: usize = 0;
        while j < n
            invariant
                i < a@.len(),
                ca == a@[i as int],
                j <= n,
                n == b@.len(),
                cache@.len() == n + 1,
                temp == ed(a@, b@, i as nat, j as nat),
                forall|t: int| 0 <= t <= j ==> cache@[t] == ed(a@, b@, (i + 1) as nat, t as nat),
                forall|t: int| j < t <= n ==> cache@[t] == ed(a@, b@, i as nat, t as nat),
            decreases n - j,
        {
            let next_temp = cache[j + 1];
            proof {
                lemma_ed_bound(a@, b@, i as nat, j as nat);
                lemma_ed_bound(a@, b@, (i + 1) as nat, j as nat);
                lemma_ed_bound(a@, b@, i as nat, (j + 1) as nat);
            }
            if ca == b[j] {
                cache.set(j + 1, temp);
            } else {
                let d = temp + 1;
                let l = cache[j] + 1;
                let u = cache[j + 1] + 1;
                let m = if d <= l && d <= u {
                    d
                } else if l <= u {
                    l
                } else {
                    u
                };
                cache.set(j + 1, m);
            }
            temp = next_temp;
            j = j + 1;
        }
        i = i + 1;
    }
    cache[n]
}

/// The distance that the catalogue search uses between `a` and `b`
/// (`catalog_distance`): the edit distance for an ASCII `b`.
pub fn levenshtein(a: &str, b: &str) -> (r: usize)
    ensures
        r as nat == catalog_distance(a@, b@, b.len() as nat),
{
    let av = chars_of(a);
    let bv = chars_of(b);
    let nbytes = b.len();
    if nbytes != bv.len() {
        return nbytes;
    }
    let d = edit_distance_chars(av.as_slice(), bv.as_slice());
    proof {
        lemma_ed_bound(av@, bv@, av@.len(), bv@.len());
    }
    assert(av@.len() == av.len() && bv@.len() == bv.len());
    assert(d <= usize::MAX);
    d as usize
}

} // verus!
