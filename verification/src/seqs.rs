//! Sums over sequences and facts about prefixes and filters.
use vstd::prelude::*;

verus! {

/// Sum of a sequence of integers.
pub open spec fn sum(s: Seq<int>) -> int
    decreases s.len(),
{
    if s.len() == 0 {
        0
    } else {
        sum(s.drop_last()) + s.last()
    }
}

/// Every prefix sum of `s` fits in an `i64`, so summing it left to right never overflows.
pub open spec fn prefix_sums_fit(s: Seq<int>) -> bool {
    forall|i: int| 0 <= i <= s.len() ==> i64::MIN <= #[trigger] sum(s.take(i)) <= i64::MAX
}

/// Summing one more element of a prefix.
pub proof fn lemma_sum_take_succ(s: Seq<int>, i: int)
    requires
        0 <= i < s.len(),
    ensures
        sum(s.take(i + 1)) == sum(s.take(i)) + s[i],
{
    assert(s.take(i + 1).drop_last() =~= s.take(i));
}

/// The whole sequence is its longest prefix.
pub proof fn lemma_take_full<A>(s: Seq<A>)
    ensures
        s.take(s.len() as int) == s,
{
    assert(s.take(s.len() as int) =~= s);
}

/// Filtering one more element of a prefix.
pub proof fn lemma_filter_take_succ<A>(s: Seq<A>, p: spec_fn(A) -> bool, i: int)
    requires
        0 <= i < s.len(),
    ensures
        s.take(i + 1).filter(p) == (if p(s[i]) {
            s.take(i).filter(p).push(s[i])
        } else {
            s.take(i).filter(p)
        }),
{
    reveal(Seq::filter);
    assert(s.take(i + 1).drop_last() =~= s.take(i));
    assert(s.take(i + 1).last() == s[i]);
}

/// Mapping commutes with pushing.
pub proof fn lemma_map_push<A, B>(s: Seq<A>, f: spec_fn(A) -> B, x: A)
    ensures
        s.push(x).map_values(f) == s.map_values(f).push(f(x)),
{
    assert(s.push(x).map_values(f) =~= s.map_values(f).push(f(x)));
}

/// Sum of the concatenation of two sequences.
pub proof fn lemma_sum_concat(a: Seq<int>, b: Seq<int>)
    ensures
        sum(a + b) == sum(a) + sum(b),
    decreases b.len(),
{
    if b.len() == 0 {
        assert(a + b =~= a);
    } else {
        assert((a + b).drop_last() =~= a + b.drop_last());
        lemma_sum_concat(a, b.drop_last());
    }
}

/// Replacing one element changes the sum by the difference.
pub proof fn lemma_sum_update(s: Seq<int>, j: int, v: int)
    requires
        0 <= j < s.len(),
    ensures
        sum(s.update(j, v)) == sum(s) - s[j] + v,
{
    let t = s.update(j, v);
    assert(s =~= s.take(j) + seq![s[j]] + s.skip(j + 1));
    assert(t =~= s.take(j) + seq![v] + s.skip(j + 1));
    lemma_sum_concat(s.take(j) + seq![s[j]], s.skip(j + 1));
    lemma_sum_concat(s.take(j), seq![s[j]]);
    lemma_sum_concat(s.take(j) + seq![v], s.skip(j + 1));
    lemma_sum_concat(s.take(j), seq![v]);
    assert(seq![v].drop_last() =~= Seq::<int>::empty());
    assert(seq![s[j]].drop_last() =~= Seq::<int>::empty());
}

/// Inserting an element adds it to the sum.
pub proof fn lemma_sum_insert(s: Seq<int>, j: int, v: int)
    requires
        0 <= j <= s.len(),
    ensures
        sum(s.insert(j, v)) == sum(s) + v,
{
    assert(s =~= s.take(j) + s.skip(j));
    assert(s.insert(j, v) =~= s.take(j) + seq![v] + s.skip(j));
    lemma_sum_concat(s.take(j), s.skip(j));
    lemma_sum_concat(s.take(j) + seq![v], s.skip(j));
    lemma_sum_concat(s.take(j), seq![v]);
    assert(seq![v].drop_last() =~= Seq::<int>::empty());
    assert(sum(Seq::<int>::empty()) == 0);
    assert(sum(seq![v]) == v);
    assert(sum(s.take(j) + seq![v]) == sum(s.take(j)) + v);
    assert(sum(s.take(j) + seq![v] + s.skip(j)) == sum(s.take(j)) + v + sum(s.skip(j)));
}

/// Sum of absolute values.
pub open spec fn abs_sum(s: Seq<int>) -> int
    decreases s.len(),
{
    if s.len() == 0 {
        0
    } else {
        abs_sum(s.drop_last()) + if s.last() >= 0 {
            s.last()
        } else {
            -s.last()
        }
    }
}

/// Sum after pushing one more element.
pub proof fn lemma_sum_push(s: Seq<int>, x: int)
    ensures
        sum(s.push(x)) == sum(s) + x,
        abs_sum(s.push(x)) == abs_sum(s) + if x >= 0 {
            x
        } else {
            -x
        },
{
    assert(s.push(x).drop_last() =~= s);
}

} // verus!
