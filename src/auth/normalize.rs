use vstd::prelude::*;
use vstd::relations::{sorted_by, total_ordering};
use vstd::seq_lib::{group_to_multiset_ensures, lemma_multiset_commutative, lemma_sorted_unique};
use vstd::multiset::group_multiset_axioms;

verus! {

/// Lexicographic order on byte strings: `a` comes no later than `b`.
pub open spec fn bytes_le(a: Seq<u8>, b: Seq<u8>) -> bool
    decreases a.len(),
{
    if a.len() == 0 {
        true
    } else if b.len() == 0 {
        false
    } else if a[0] != b[0] {
        a[0] < b[0]
    } else {
        bytes_le(a.drop_first(), b.drop_first())
    }
}

/// Order on (name, value) pairs: by name, then by value.
pub open spec fn pair_le(p: (Seq<u8>, Seq<u8>), q: (Seq<u8>, Seq<u8>)) -> bool {
    if p.0 == q.0 {
        bytes_le(p.1, q.1)
    } else {
        bytes_le(p.0, q.0)
    }
}

/// `x` put into `s` before the first pair that it does not come after.
pub open spec fn insert_sorted(x: (Seq<u8>, Seq<u8>), s: Seq<(Seq<u8>, Seq<u8>)>) -> Seq<
    (Seq<u8>, Seq<u8>),
>
    decreases s.len(),
{
    if s.len() == 0 {
        seq![x]
    } else if pair_le(x, s[0]) {
        seq![x] + s
    } else {
        seq![s[0]] + insert_sorted(x, s.drop_first())
    }
}

/// The pairs of `s` in `pair_le` order.
pub open spec fn sort_pairs(s: Seq<(Seq<u8>, Seq<u8>)>) -> Seq<(Seq<u8>, Seq<u8>)>
    decreases s.len(),
{
    if s.len() == 0 {
        seq![]
    } else {
        insert_sorted(s[0], sort_pairs(s.drop_first()))
    }
}

/// `name=value`.
pub open spec fn pair_text(p: (Seq<u8>, Seq<u8>)) -> Seq<u8> {
    p.0 + seq![61u8] + p.1
}

/// The pairs as `name=value`, joined with `&`.
pub open spec fn joined_pairs(s: Seq<(Seq<u8>, Seq<u8>)>) -> Seq<u8>
    decreases s.len(),
{
    if s.len() == 0 {
        seq![]
    } else if s.len() == 1 {
        pair_text(s[0])
    } else {
        joined_pairs(s.drop_last()) + seq![38u8] + pair_text(s.last())
    }
}

/// The byte strings held by a vector of pairs.
pub open spec fn pairs_view(v: Seq<(Vec<u8>, Vec<u8>)>) -> Seq<(Seq<u8>, Seq<u8>)> {
    Seq::new(v.len(), |i: int| (v[i].0@, v[i].1@))
}

/// Appends `s` to `out`.
pub fn push_all(out: &mut Vec<u8>, s: &[u8])
    ensures
        final(out)@ == old(out)@ + s@,
{
    let mut i: usize = 0;
    while i < s.len()
        invariant
            i <= s@.len(),
            out@ == old(out)@ + s@.subrange(0, i as int),
        decreases s@.len() - i,
    {
        out.push(s[i]);
        assert(s@.subrange(0, i + 1) =~= s@.subrange(0, i as int).push(s@[i as int]));
        i = i + 1;
    }
    assert(s@.subrange(0, s@.len() as int) =~= s@);
}

/// Appends the pairs of `s` as `name=value`, joined with `&`, to `out`.
pub fn join_pairs_into(s: &Vec<(Vec<u8>, Vec<u8>)>, out: &mut Vec<u8>)
    ensures
        final(out)@ == old(out)@ + joined_pairs(pairs_view(s@)),
{
    let mut i: usize = 0;
    while i < s.len()
        invariant
            i <= s@.len(),
            out@ == old(out)@ + joined_pairs(pairs_view(s@).take(i as int)),
        decreases s@.len() - i,
    {
        let ghost t = pairs_view(s@).take(i + 1);
        assert(t.drop_last() =~= pairs_view(s@).take(i as int));
        if i > 0 {
            out.push(38);
        }
        push_all(out, s[i].0.as_slice());
        out.push(61);
        push_all(out, s[i].1.as_slice());
        assert(t.last() == (s@[i as int].0@, s@[i as int].1@));
        assert(i == 0 ==> pairs_view(s@).take(0) =~= seq![]);
        assert(out@ =~= old(out)@ + joined_pairs(t));
        i = i + 1;
    }
    assert(pairs_view(s@).take(s@.len() as int) =~= pairs_view(s@));
}

fn bytes_eq(a: &[u8], b: &[u8]) -> (r: bool)
    ensures
        r == (a@ == b@),
{
    if a.len() != b.len() {
        return false;
    }
    let mut i: usize = 0;
    while i < a.len()
        invariant
            i <= a@.len(),
            a@.len() == b@.len(),
            a@.subrange(0, i as int) == b@.subrange(0, i as int),
        decreases a@.len() - i,
    {
        if a[i] != b[i] {
            return false;
        }
        assert(a@.subrange(0, i + 1) =~= a@.subrange(0, i as int).push(a@[i as int]));
        assert(b@.subrange(0, i + 1) =~= b@.subrange(0, i as int).push(b@[i as int]));
        i = i + 1;
    }
    assert(a@.subrange(0, a@.len() as int) =~= a@);
    assert(b@.subrange(0, b@.len() as int) =~= b@);
    true
}

fn bytes_le_exec(a: &[u8], b: &[u8]) -> (r: bool)
    ensures
        r == bytes_le(a@, b@),
{
    let mut i: usize = 0;
    assert(a@.skip(0) =~= a@);
    assert(b@.skip(0) =~= b@);
    while i < a.len() && i < b.len()
        invariant
            i <= a@.len(),
            i <= b@.len(),
            bytes_le(a@, b@) == bytes_le(a@.skip(i as int), b@.skip(i as int)),
        decreases a@.len() - i,
    {
        if a[i] != b[i] {
            return a[i] < b[i];
        }
        assert(a@.skip(i as int).drop_first() =~= a@.skip(i + 1));
        assert(b@.skip(i as int).drop_first() =~= b@.skip(i + 1));
        i = i + 1;
    }
    i == a.len()
}

fn pair_le_exec(p: &(Vec<u8>, Vec<u8>), q: &(Vec<u8>, Vec<u8>)) -> (r: bool)
    ensures
        r == pair_le((p.0@, p.1@), (q.0@, q.1@)),
{
    if bytes_eq(p.0.as_slice(), q.0.as_slice()) {
        bytes_le_exec(p.1.as_slice(), q.1.as_slice())
    } else {
        bytes_le_exec(p.0.as_slice(), q.0.as_slice())
    }
}

proof fn lemma_insert_at(x: (Seq<u8>, Seq<u8>), s: Seq<(Seq<u8>, Seq<u8>)>, i: int)
    requires
        0 <= i <= s.len(),
        forall|j: int| 0 <= j < i ==> !pair_le(x, #[trigger] s[j]),
        i < s.len() ==> pair_le(x, s[i]),
    ensures
        insert_sorted(x, s) == s.take(i) + seq![x] + s.skip(i),
    decreases i,
{
    if i == 0 {
        assert(s.take(0) + seq![x] + s.skip(0) =~= seq![x] + s);
    } else {
        let t = s.drop_first();
        assert forall|j: int| 0 <= j < i - 1 implies !pair_le(x, #[trigger] t[j]) by {
            assert(t[j] == s[j + 1]);
        }
        lemma_insert_at(x, t, i - 1);
        assert(s.take(i) + seq![x] + s.skip(i) =~= seq![s[0]] + (t.take(i - 1) + seq![x] + t.skip(
            i - 1,
        )));
    }
}

/// The pairs of `v`, sorted by name and then by value.
pub fn sort_encoded(v: Vec<(Vec<u8>, Vec<u8>)>) -> (r: Vec<(Vec<u8>, Vec<u8>)>)
    ensures
        pairs_view(r@) == sort_pairs(pairs_view(v@)),
{
    let ghost s = pairs_view(v@);
    let mut v = v;
    let mut r: Vec<(Vec<u8>, Vec<u8>)> = Vec::new();
    assert(s.skip(s.len() as int) =~= seq![]);
    assert(pairs_view(r@) =~= seq![]);
    while v.len() > 0
        invariant
            v@.len() <= s.len(),
            pairs_view(v@) == s.take(v@.len() as int),
            pairs_view(r@) == sort_pairs(s.skip(v@.len() as int)),
        decreases v@.len(),
    {
        let ghost n = v@.len() as int;
        let ghost old_r = pairs_view(r@);
        let ghost before = v@;
        let x = v.pop().unwrap();
        assert(pairs_view(v@) =~= s.take(n - 1)) by {
            assert(v@ == before.drop_last());
            assert forall|k: int| 0 <= k < n - 1 implies pairs_view(v@)[k] == s.take(n - 1)[k] by {
                assert(pairs_view(before)[k] == s.take(n)[k]);
            }
        }
        assert(pairs_view(before)[n - 1] == s[n - 1]);
        let ghost xv = (x.0@, x.1@);
        let mut j: usize = 0;
        loop
            invariant
                j <= r@.len(),
                xv == (x.0@, x.1@),
                pairs_view(r@) == old_r,
                forall|k: int| 0 <= k < j ==> !pair_le(xv, #[trigger] old_r[k]),
            ensures
                j <= r@.len(),
                pairs_view(r@) == old_r,
                forall|k: int| 0 <= k < j ==> !pair_le(xv, #[trigger] old_r[k]),
                j < r@.len() ==> pair_le(xv, old_r[j as int]),
            decreases r@.len() - j,
        {
            if j == r.len() {
                break;
            }
            assert(old_r[j as int] == (r@[j as int].0@, r@[j as int].1@));
            let le = pair_le_exec(&x, &r[j]);
            assert(le == pair_le(xv, old_r[j as int]));
            if le {
                break;
            }
            j = j + 1;
        }
        proof {
            lemma_insert_at(xv, old_r, j as int);
        }
        r.insert(j, x);
        assert(pairs_view(r@) =~= old_r.take(j as int) + seq![xv] + old_r.skip(j as int));
        assert(s.skip(n - 1).drop_first() =~= s.skip(n));
        assert(s.skip(n - 1)[0] == xv);
    }
    assert(s.skip(0) =~= s);
    r
}

proof fn lemma_bytes_le_reflexive(a: Seq<u8>)
    ensures
        bytes_le(a, a),
    decreases a.len(),
{
    if a.len() > 0 {
        lemma_bytes_le_reflexive(a.drop_first());
    }
}

proof fn lemma_bytes_le_total(a: Seq<u8>, b: Seq<u8>)
    ensures
        bytes_le(a, b) || bytes_le(b, a),
    decreases a.len(),
{
    if a.len() > 0 && b.len() > 0 && a[0] == b[0] {
        lemma_bytes_le_total(a.drop_first(), b.drop_first());
    }
}

proof fn lemma_bytes_le_antisymmetric(a: Seq<u8>, b: Seq<u8>)
    requires
        bytes_le(a, b),
        bytes_le(b, a),
    ensures
        a == b,
    decreases a.len(),
{
    if a.len() == 0 {
        assert(a =~= b);
    } else {
        lemma_bytes_le_antisymmetric(a.drop_first(), b.drop_first());
        assert(a =~= seq![a[0]] + a.drop_first());
        assert(b =~= seq![b[0]] + b.drop_first());
    }
}

proof fn lemma_bytes_le_transitive(a: Seq<u8>, b: Seq<u8>, c: Seq<u8>)
    requires
        bytes_le(a, b),
        bytes_le(b, c),
    ensures
        bytes_le(a, c),
    decreases a.len(),
{
    if a.len() > 0 && a[0] == b[0] && b[0] == c[0] {
        lemma_bytes_le_transitive(a.drop_first(), b.drop_first(), c.drop_first());
    }
}

/// The order on pairs as a relation.
pub open spec fn pair_order() -> spec_fn((Seq<u8>, Seq<u8>), (Seq<u8>, Seq<u8>)) -> bool {
    |p: (Seq<u8>, Seq<u8>), q: (Seq<u8>, Seq<u8>)| pair_le(p, q)
}

/// Pairs are totally ordered, by name and then by value.
pub proof fn lemma_pair_order_total()
    ensures
        total_ordering(pair_order()),
{
    let leq = pair_order();
    assert forall|p: (Seq<u8>, Seq<u8>)| #[trigger] leq(p, p) by {
        lemma_bytes_le_reflexive(p.1);
    }
    assert forall|p: (Seq<u8>, Seq<u8>), q: (Seq<u8>, Seq<u8>)| #[trigger]
        leq(p, q) && #[trigger] leq(q, p) implies p == q by {
        if p.0 == q.0 {
            lemma_bytes_le_antisymmetric(p.1, q.1);
        } else {
            lemma_bytes_le_antisymmetric(p.0, q.0);
        }
    }
    assert forall|p: (Seq<u8>, Seq<u8>), q: (Seq<u8>, Seq<u8>), r: (Seq<u8>, Seq<u8>)| #[trigger]
        leq(p, q) && #[trigger] leq(q, r) implies leq(p, r) by {
        if p.0 == q.0 && q.0 == r.0 {
            lemma_bytes_le_transitive(p.1, q.1, r.1);
        } else if p.0 != q.0 && q.0 != r.0 {
            lemma_bytes_le_transitive(p.0, q.0, r.0);
            if p.0 == r.0 {
                lemma_bytes_le_antisymmetric(p.0, q.0);
            }
        }
    }
    assert forall|p: (Seq<u8>, Seq<u8>), q: (Seq<u8>, Seq<u8>)| #[trigger]
        leq(p, q) || #[trigger] leq(q, p) by {
        lemma_bytes_le_total(p.1, q.1);
        lemma_bytes_le_total(p.0, q.0);
    }
}

proof fn lemma_insert_sorted(x: (Seq<u8>, Seq<u8>), s: Seq<(Seq<u8>, Seq<u8>)>)
    requires
        sorted_by(s, pair_order()),
    ensures
        sorted_by(insert_sorted(x, s), pair_order()),
        insert_sorted(x, s).to_multiset() == s.to_multiset().insert(x),
    decreases s.len(),
{
    broadcast use group_to_multiset_ensures, group_multiset_axioms;

    let leq = pair_order();
    lemma_pair_order_total();
    if s.len() == 0 {
        assert(seq![x] =~= Seq::<(Seq<u8>, Seq<u8>)>::empty().push(x));
    } else if pair_le(x, s[0]) {
        vstd::relations::lemma_new_first_element_still_sorted_by(x, s, leq);
        lemma_multiset_commutative(seq![x], s);
        assert(seq![x] =~= Seq::<(Seq<u8>, Seq<u8>)>::empty().push(x));
        assert((seq![x] + s).to_multiset() =~= s.to_multiset().insert(x));
    } else {
        let rest = s.drop_first();
        assert(sorted_by(rest, leq)) by {
            assert forall|i: int, j: int| 0 <= i < j < rest.len() implies #[trigger] leq(
                rest[i],
                rest[j],
            ) by {
                assert(leq(s[i + 1], s[j + 1]));
            }
        }
        lemma_insert_sorted(x, rest);
        let r = insert_sorted(x, rest);
        assert(!leq(x, s[0]));
        assert(leq(s[0], x));
        assert(rest.len() > 0 ==> leq(s[0], rest[0])) by {
            if rest.len() > 0 {
                assert(leq(s[0], s[1]));
            }
        }
        assert(leq(s[0], r[0]));
        vstd::relations::lemma_new_first_element_still_sorted_by(s[0], r, leq);
        lemma_multiset_commutative(seq![s[0]], r);
        lemma_multiset_commutative(seq![s[0]], rest);
        assert(s =~= seq![s[0]] + rest);
        assert((seq![s[0]] + r).to_multiset() =~= s.to_multiset().insert(x));
    }
}

/// `sort_pairs` orders the pairs and keeps each of them, as often as it occurs.
pub proof fn lemma_sort_pairs(s: Seq<(Seq<u8>, Seq<u8>)>)
    ensures
        sorted_by(sort_pairs(s), pair_order()),
        sort_pairs(s).to_multiset() == s.to_multiset(),
    decreases s.len(),
{
    broadcast use group_to_multiset_ensures, group_multiset_axioms;

    if s.len() == 0 {
        assert(sort_pairs(s) =~= s);
    } else {
        let rest = s.drop_first();
        lemma_sort_pairs(rest);
        lemma_insert_sorted(s[0], sort_pairs(rest));
        lemma_multiset_commutative(seq![s[0]], rest);
        assert(seq![s[0]] =~= Seq::<(Seq<u8>, Seq<u8>)>::empty().push(s[0]));
        assert(s =~= seq![s[0]] + rest);
        assert(sort_pairs(s).to_multiset() =~= s.to_multiset());
    }
}

/// Pairs given in any order sort to the same sequence.
pub proof fn lemma_sort_pairs_order_free(s1: Seq<(Seq<u8>, Seq<u8>)>, s2: Seq<(Seq<u8>, Seq<u8>)>)
    requires
        s1.to_multiset() == s2.to_multiset(),
    ensures
        sort_pairs(s1) == sort_pairs(s2),
{
    lemma_sort_pairs(s1);
    lemma_sort_pairs(s2);
    lemma_pair_order_total();
    lemma_sorted_unique(sort_pairs(s1), sort_pairs(s2), pair_order());
}

} // verus!
