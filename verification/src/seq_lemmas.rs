use vstd::prelude::*;

verus! {

broadcast use vstd::seq_lib::group_seq_properties;

/// Keeping the items of `s` that satisfy `pred` keeps nothing when none does.
pub proof fn lemma_filter_none<A>(s: Seq<A>, pred: spec_fn(A) -> bool)
    requires
        forall|i: int| 0 <= i < s.len() ==> !pred(#[trigger] s[i]),
    ensures
        s.filter(pred) =~= Seq::<A>::empty(),
    decreases s.len(),
{
    reveal(Seq::filter);
    if s.len() > 0 {
        lemma_filter_none(s.drop_last(), pred);
    }
}

/// Filtering a one-item sequence keeps its item exactly when it satisfies the
/// predicate.
pub proof fn lemma_filter_single<A>(x: A, pred: spec_fn(A) -> bool)
    ensures
        seq![x].filter(pred) =~= (if pred(x) {
            seq![x]
        } else {
            Seq::<A>::empty()
        }),
{
    reveal_with_fuel(Seq::filter, 2);
    assert(seq![x].drop_last() =~= Seq::<A>::empty());
}

/// Filtering a non-empty sequence: its first item, if kept, then the kept
/// items of the rest.
pub proof fn lemma_filter_first<A>(s: Seq<A>, pred: spec_fn(A) -> bool)
    requires
        s.len() > 0,
    ensures
        s.filter(pred) =~= (if pred(s[0]) {
            seq![s[0]] + s.drop_first().filter(pred)
        } else {
            s.drop_first().filter(pred)
        }),
{
    assert(s =~= seq![s[0]] + s.drop_first());
    Seq::filter_distributes_over_add(seq![s[0]], s.drop_first(), pred);
    lemma_filter_single(s[0], pred);
    assert(Seq::<A>::empty() + s.drop_first().filter(pred) =~= s.drop_first().filter(pred));
}

/// Truncating integer division, as Rust's `/` computes it on signed integers.
pub open spec fn trunc_div(a: int, b: int) -> int {
    if a >= 0 {
        if b > 0 {
            a / b
        } else {
            -(a / -b)
        }
    } else {
        if b > 0 {
            -((-a) / b)
        } else {
            (-a) / (-b)
        }
    }
}

/// `a / b` on `i64`, rounding toward zero.
pub fn div_i64(a: i64, b: i64) -> (result: i64)
    requires
        b != 0,
        !(a == i64::MIN && b == -1),
    ensures
        result == trunc_div(a as int, b as int),
{
    if b > 0 {
        let r = a / b;
        assert(a >= 0 ==> r as int == (a as int) / (b as int));
        assert(a < 0 ==> r as int == -((-(a as int)) / (b as int)));
        r
    } else if b == i64::MIN {
        if a == i64::MIN {
            1
        } else {
            0
        }
    } else {
        let q = a / (-b);
        assert(a >= 0 ==> q as int == (a as int) / (-(b as int)));
        assert(a < 0 ==> q as int == -((-(a as int)) / (-(b as int))));
        assert((-(a as int)) / (-(b as int)) < -(a as int) || -(b as int) == 1 || a >= 0)
            by (nonlinear_arith)
            requires
                -(b as int) >= 1,
                a < 0 ==> -(a as int) > 0,
        ;
        -q
    }
}

} // verus!
