//! Lexicographic order of strings and insertion sort.

use vstd::prelude::*;

verus! {

/// `a <= b` in lexicographic order of code points (the order `str` uses: UTF-8
/// byte order agrees with code point order).
pub open spec fn lex_le(a: Seq<char>, b: Seq<char>) -> bool
    decreases a.len(),
{
    if a.len() == 0 {
        true
    } else if b.len() == 0 {
        false
    } else if a[0] < b[0] {
        true
    } else if a[0] > b[0] {
        false
    } else {
        lex_le(a.drop_first(), b.drop_first())
    }
}

/// `x` inserted into `s` before the first element greater than it.
pub open spec fn insert_sorted(s: Seq<Seq<char>>, x: Seq<char>) -> Seq<Seq<char>>
    decreases s.len(),
{
    if s.len() == 0 {
        seq![x]
    } else if lex_le(x, s[0]) {
        seq![x] + s
    } else {
        seq![s[0]] + insert_sorted(s.drop_first(), x)
    }
}

/// Insertion sort (stable) in lexicographic order.
pub open spec fn sort_seq(s: Seq<Seq<char>>) -> Seq<Seq<char>>
    decreases s.len(),
{
    if s.len() == 0 {
        Seq::empty()
    } else {
        insert_sorted(sort_seq(s.drop_last()), s.last())
    }
}

/// Elements are in lexicographic order.
pub open spec fn is_sorted(s: Seq<Seq<char>>) -> bool {
    forall|i: int, j: int| 0 <= i < j < s.len() ==> lex_le(#[trigger] s[i], #[trigger] s[j])
}

/// Of two strings, one is at most the other.
pub proof fn lemma_lex_total(a: Seq<char>, b: Seq<char>)
    ensures
        lex_le(a, b) || lex_le(b, a),
    decreases a.len(),
{
    if a.len() > 0 && b.len() > 0 && a[0] == b[0] {
        lemma_lex_total(a.drop_first(), b.drop_first());
    }
}

/// Two strings each at most the other are equal.
pub proof fn lemma_lex_antisym(a: Seq<char>, b: Seq<char>)
    requires
        lex_le(a, b),
        lex_le(b, a),
    ensures
        a == b,
    decreases a.len(),
{
    if a.len() > 0 && b.len() > 0 {
        lemma_lex_antisym(a.drop_first(), b.drop_first());
        assert(a =~= seq![a[0]] + a.drop_first());
        assert(b =~= seq![b[0]] + b.drop_first());
    } else {
        assert(a =~= b);
    }
}

/// The lexicographic order is transitive.
pub proof fn lemma_lex_trans(a: Seq<char>, b: Seq<char>, c: Seq<char>)
    requires
        lex_le(a, b),
        lex_le(b, c),
    ensures
        lex_le(a, c),
    decreases a.len(),
{
    if a.len() > 0 && b.len() > 0 && c.len() > 0 && a[0] == b[0] && b[0] == c[0] {
        lemma_lex_trans(a.drop_first(), b.drop_first(), c.drop_first());
    }
}

proof fn lemma_insert_lower_bound(s: Seq<Seq<char>>, x: Seq<char>, y: Seq<char>)
    requires
        forall|j: int| 0 <= j < s.len() ==> lex_le(y, #[trigger] s[j]),
        lex_le(y, x),
    ensures
        forall|k: int| 0 <= k < insert_sorted(s, x).len() ==> lex_le(y, #[trigger] insert_sorted(s, x)[k]),
    decreases s.len(),
{
    if s.len() > 0 && !lex_le(x, s[0]) {
        let t = s.drop_first();
        lemma_insert_lower_bound(t, x, y);
        let r = insert_sorted(s, x);
        assert forall|k: int| 0 <= k < r.len() implies lex_le(y, #[trigger] r[k]) by {
            if k > 0 {
                assert(r[k] == insert_sorted(t, x)[k - 1]);
            }
        }
    } else if s.len() > 0 {
        let r = insert_sorted(s, x);
        assert forall|k: int| 0 <= k < r.len() implies lex_le(y, #[trigger] r[k]) by {
            if k > 0 {
                assert(r[k] == s[k - 1]);
            }
        }
    }
}

proof fn lemma_insert_sorted_sorted(s: Seq<Seq<char>>, x: Seq<char>)
    requires
        is_sorted(s),
    ensures
        is_sorted(insert_sorted(s, x)),
    decreases s.len(),
{
    if s.len() > 0 {
        let r = insert_sorted(s, x);
        if lex_le(x, s[0]) {
            assert forall|i: int, j: int| 0 <= i < j < r.len() implies lex_le(#[trigger] r[i], #[trigger] r[j]) by {
                if i == 0 {
                    if j > 1 {
                        lemma_lex_trans(x, s[0], s[j - 1]);
                    }
                } else {
                    assert(r[i] == s[i - 1] && r[j] == s[j - 1]);
                }
            }
        } else {
            lemma_lex_total(x, s[0]);
            let t = s.drop_first();
            assert(is_sorted(t)) by {
                assert forall|i: int, j: int| 0 <= i < j < t.len() implies lex_le(#[trigger] t[i], #[trigger] t[j]) by {
                    assert(t[i] == s[i + 1] && t[j] == s[j + 1]);
                }
            }
            lemma_insert_sorted_sorted(t, x);
            assert forall|j: int| 0 <= j < t.len() implies lex_le(s[0], #[trigger] t[j]) by {
                assert(t[j] == s[j + 1]);
            }
            lemma_insert_lower_bound(t, x, s[0]);
            let u = insert_sorted(t, x);
            assert forall|i: int, j: int| 0 <= i < j < r.len() implies lex_le(#[trigger] r[i], #[trigger] r[j]) by {
                assert(r[j] == u[j - 1]);
                if i > 0 {
                    assert(r[i] == u[i - 1]);
                }
            }
        }
    }
}

proof fn lemma_insert_sorted_multiset(s: Seq<Seq<char>>, x: Seq<char>)
    ensures
        insert_sorted(s, x).to_multiset() == s.to_multiset().insert(x),
    decreases s.len(),
{
    broadcast use vstd::seq_lib::to_multiset_build, vstd::seq_lib::lemma_multiset_commutative, vstd::seq_lib::group_to_multiset_ensures, vstd::multiset::group_multiset_axioms;
    assert(seq![x] =~= Seq::<Seq<char>>::empty().push(x));
    assert(Seq::<Seq<char>>::empty().to_multiset() =~= vstd::multiset::Multiset::<Seq<char>>::empty());
    if s.len() > 0 {
        let t = s.drop_first();
        assert(s =~= seq![s[0]] + t);
        assert(seq![s[0]] =~= Seq::<Seq<char>>::empty().push(s[0]));
        if !lex_le(x, s[0]) {
            lemma_insert_sorted_multiset(t, x);
        }
    }
    assert(insert_sorted(s, x).to_multiset() =~= s.to_multiset().insert(x));
}

/// Sorting puts the strings in lexicographic order and keeps each of them
/// as often as it occurs.
pub proof fn lemma_sort_seq_sorted_permutation(s: Seq<Seq<char>>)
    ensures
        is_sorted(sort_seq(s)),
        sort_seq(s).to_multiset() == s.to_multiset(),
    decreases s.len(),
{
    broadcast use vstd::seq_lib::to_multiset_build;
    if s.len() > 0 {
        lemma_sort_seq_sorted_permutation(s.drop_last());
        lemma_insert_sorted_sorted(sort_seq(s.drop_last()), s.last());
        lemma_insert_sorted_multiset(sort_seq(s.drop_last()), s.last());
        assert(s =~= s.drop_last().push(s.last()));
    } else {
        assert(sort_seq(s) =~= s);
    }
}

/// Whether `a <= b` lexicographically.
pub fn lex_le_exec(a: &[char], b: &[char]) -> (r: bool)
    ensures
        r == lex_le(a@, b@),
{
    let mut i: usize = 0;
    proof {
        assert(a@.skip(0) =~= a@);
        assert(b@.skip(0) =~= b@);
    }
    while i < a.len() && i < b.len() && a[i] == b[i]
        invariant
            i <= a@.len(),
            i <= b@.len(),
            lex_le(a@, b@) == lex_le(a@.skip(i as int), b@.skip(i as int)),
        decreases a@.len() - i,
    {
        proof {
            assert(a@.skip(i as int).drop_first() =~= a@.skip(i + 1));
            assert(b@.skip(i as int).drop_first() =~= b@.skip(i + 1));
        }
        i = i + 1;
    }
    proof {
        if i < a@.len() {
            assert(a@.skip(i as int)[0] == a@[i as int]);
        }
        if i < b@.len() {
            assert(b@.skip(i as int)[0] == b@[i as int]);
        }
    }
    if i == a.len() {
        return true;
    }
    if i == b.len() {
        return false;
    }
    a[i] < b[i]
}

/// Sorts strings in lexicographic order (insertion sort, stable).
pub fn sort_strings(v: Vec<String>) -> (r: Vec<String>)
    ensures
        crate::text::strs(r@) == sort_seq(crate::text::strs(v@)),
{
    let ghost vs = crate::text::strs(v@);
    let mut sorted: Vec<String> = Vec::new();
    let mut i: usize = 0;
    let mut rest = v;
    let mut rev: Vec<String> = Vec::new();
    while rest.len() > 0
        invariant
            crate::text::strs(rest@) + crate::text::strs(rev@).reverse() == vs,
        decreases rest@.len(),
    {
        let ghost br = rest@;
        let ghost bv = rev@;
        let x = rest.pop().unwrap();
        rev.push(x);
        proof {
            assert(crate::text::strs(br) =~= crate::text::strs(rest@).push(x@));
            assert(crate::text::strs(rev@).reverse() =~= seq![x@] + crate::text::strs(bv).reverse());
            assert(crate::text::strs(rest@) + crate::text::strs(rev@).reverse() =~= vs);
        }
    }
    let total: usize = rev.len();
    proof {
        assert(crate::text::strs(rest@) =~= Seq::<Seq<char>>::empty());
        assert(crate::text::strs(rev@).reverse() =~= vs);
        assert(crate::text::strs(rev@).reverse().len() == rev@.len());
        assert(vs.len() == rev@.len());
        assert(vs.take(0) =~= Seq::<Seq<char>>::empty());
        assert(vs.skip(0) =~= vs);
    }
    while rev.len() > 0
        invariant
            i + rev@.len() == vs.len(),
            vs.len() == total,
            crate::text::strs(rev@).reverse() == vs.skip(i as int),
            crate::text::strs(sorted@) == sort_seq(vs.take(i as int)),
        decreases rev@.len(),
    {
        let ghost bv = rev@;
        let x = rev.pop().unwrap();
        proof {
            assert(crate::text::strs(bv) =~= crate::text::strs(rev@).push(x@));
            assert(crate::text::strs(bv).reverse() =~= seq![x@] + crate::text::strs(rev@).reverse());
            assert(vs.skip(i as int)[0] == x@);
            assert(vs.skip(i + 1) =~= vs.skip(i as int).drop_first());
            assert((seq![x@] + crate::text::strs(rev@).reverse()).drop_first() =~= crate::text::strs(rev@).reverse());
            assert(vs.take(i + 1).drop_last() =~= vs.take(i as int));
            assert(vs.take(i + 1).last() == x@);
        }
        insert_string(&mut sorted, x);
        i = i + 1;
    }
    proof {
        assert(vs.take(vs.len() as int) =~= vs);
    }
    sorted
}

/// Inserts `x` before the first element greater than it.
fn insert_string(sorted: &mut Vec<String>, x: String)
    ensures
        crate::text::strs(final(sorted)@) == insert_sorted(crate::text::strs(old(sorted)@), x@),
{
    let ghost s0 = crate::text::strs(sorted@);
    let xc = crate::text::string_chars(&x);
    let mut k: usize = 0;
    proof {
        assert(s0.take(0) =~= Seq::<Seq<char>>::empty());
        assert(s0.skip(0) =~= s0);
    }
    while k < sorted.len()
        invariant
            k <= sorted@.len(),
            s0 == crate::text::strs(sorted@),
            xc@ == x@,
            insert_sorted(s0, x@) == s0.take(k as int) + insert_sorted(s0.skip(k as int), x@),
        ensures
            k <= sorted@.len(),
            s0 == crate::text::strs(sorted@),
            insert_sorted(s0, x@) == s0.take(k as int) + insert_sorted(s0.skip(k as int), x@),
            k == sorted@.len() || lex_le(x@, s0[k as int]),
        decreases sorted@.len() - k,
    {
        let ek = crate::text::string_chars(&sorted[k]);
        proof {
            assert(s0.skip(k as int)[0] == sorted@[k as int]@);
        }
        if lex_le_exec(xc.as_slice(), ek.as_slice()) {
            break;
        }
        proof {
            assert(s0.skip(k as int).drop_first() =~= s0.skip(k + 1));
            assert(s0.take(k + 1) =~= s0.take(k as int).push(s0[k as int]));
            assert(s0.take(k as int) + (seq![s0[k as int]] + insert_sorted(s0.skip(k + 1), x@)) =~= s0.take(k + 1) + insert_sorted(s0.skip(k + 1), x@));
        }
        k = k + 1;
    }
    proof {
        if k == sorted@.len() {
            assert(s0.skip(k as int) =~= Seq::<Seq<char>>::empty());
        } else {
            assert(s0.skip(k as int)[0] == s0[k as int]);
        }
    }
    sorted.insert(k, x);
    proof {
        assert(crate::text::strs(sorted@) =~= s0.take(k as int) + insert_sorted(s0.skip(k as int), x@));
    }
}

} // verus!
