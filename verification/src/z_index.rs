use vstd::prelude::*;

use crate::seq_lemmas::{lemma_filter_none, lemma_filter_single};

verus! {

broadcast use vstd::seq_lib::group_seq_properties;

/// How far in front an entity is drawn: entities with a higher value are drawn
/// over those with a lower one.
#[derive(Clone, Copy)]
pub struct ZIndexComponent {
    value: i32,
}

impl ZIndexComponent {
    /// The component's value.
    pub closed spec fn view(&self) -> i32 {
        self.value
    }

    pub fn new(value: i32) -> (result: Self)
        ensures
            result@ == value,
    {
        ZIndexComponent { value }
    }

    /// The component's value.
    pub fn value(&self) -> (result: i32)
        ensures
            result == self@,
    {
        self.value
    }
}

impl Default for ZIndexComponent {
    fn default() -> (result: Self)
        ensures
            result@ == 0,
    {
        ZIndexComponent { value: 0 }
    }
}

/// Whether the pairs `(entity id, z-index)` of `s` come in ascending order of
/// z-index.
pub open spec fn z_sorted(s: Seq<(u64, i32)>) -> bool {
    forall|i: int, j: int| 0 <= i < j < s.len() ==> (#[trigger] s[i]).1 <= (#[trigger] s[j]).1
}

/// The pairs of `s` with z-index `z`, in the order in which they come in `s`.
pub open spec fn with_z_index(s: Seq<(u64, i32)>, z: i32) -> Seq<(u64, i32)> {
    s.filter(has_z_index(z))
}

/// Whether a pair `(entity id, z-index)` has z-index `z`.
pub open spec fn has_z_index(z: i32) -> spec_fn((u64, i32)) -> bool {
    |e: (u64, i32)| e.1 == z
}

/// Sorts `(entity id, z-index)` pairs by z-index, keeping the order of pairs
/// with the same z-index.
pub fn sort_by_z_index(items: &Vec<(u64, i32)>) -> (result: Vec<(u64, i32)>)
    ensures
        result@.len() == items@.len(),
        z_sorted(result@),
        forall|z: i32| #[trigger] with_z_index(result@, z) == with_z_index(items@, z),
{
    let mut result: Vec<(u64, i32)> = Vec::new();
    let n = items.len();
    assert(items@.take(0) =~= Seq::<(u64, i32)>::empty());
    for k in 0..n
        invariant
            n == items@.len(),
            result@.len() == k,
            z_sorted(result@),
            forall|z: i32| #[trigger] with_z_index(result@, z) == with_z_index(items@.take(k as int), z),
    {
        let e = items[k];
        let mut pos: usize = 0;
        while pos < result.len() && result[pos].1 <= e.1
            invariant
                pos <= result@.len(),
                forall|i: int| 0 <= i < pos ==> (#[trigger] result@[i]).1 <= e.1,
            decreases result@.len() - pos,
        {
            pos = pos + 1;
        }
        let ghost old_result = result@;
        let ghost prefix = old_result.take(pos as int);
        let ghost suffix = old_result.skip(pos as int);
        assert forall|i: int| 0 <= i < suffix.len() implies (#[trigger] suffix[i]).1 > e.1 by {
            assert(old_result[pos as int].1 > e.1);
            assert(suffix[i] == old_result[pos + i]);
        }
        result.insert(pos, e);
        assert(result@ =~= prefix + seq![e] + suffix);
        assert(old_result =~= prefix + suffix);
        assert(items@.take(k + 1) =~= items@.take(k as int).push(e));
        assert forall|i: int, j: int| 0 <= i < j < result@.len() implies (#[trigger] result@[i]).1
            <= (#[trigger] result@[j]).1 by {
            if j < pos {
            } else if j == pos {
                assert(result@[i] == old_result[i]);
            } else if i < pos {
                assert(result@[i] == old_result[i]);
                assert(result@[j] == old_result[j - 1]);
            } else if i == pos {
                assert(result@[j] == suffix[j - pos - 1]);
            } else {
                assert(result@[i] == old_result[i - 1]);
                assert(result@[j] == old_result[j - 1]);
            }
        }
        assert forall|z: i32| #[trigger] with_z_index(result@, z) == with_z_index(items@.take(k + 1), z) by {
            let pred = has_z_index(z);
            assert(with_z_index(old_result, z) == with_z_index(items@.take(k as int), z));
            Seq::filter_distributes_over_add(prefix + seq![e], suffix, pred);
            Seq::filter_distributes_over_add(prefix, seq![e], pred);
            Seq::filter_distributes_over_add(prefix, suffix, pred);
            lemma_filter_single(e, pred);
            items@.take(k as int).lemma_filter_push(e, pred);
            if z == e.1 {
                lemma_filter_none(suffix, pred);
                assert(prefix.filter(pred) + Seq::<(u64, i32)>::empty() =~= prefix.filter(pred));
            } else {
                assert(prefix.filter(pred) + Seq::<(u64, i32)>::empty() =~= prefix.filter(pred));
            }
        }
    }
    assert(items@.take(n as int) =~= items@);
    result
}

/// Keeps the order in which entities are drawn: back to front by z-index.
pub struct ZIndexedDrawingSystem {
    entity_z_indices: Vec<(u64, i32)>,
}

impl ZIndexedDrawingSystem {
    /// The pairs `(entity id, z-index)` in drawing order.
    pub closed spec fn view(&self) -> Seq<(u64, i32)> {
        self.entity_z_indices@
    }

    pub fn with_capacity(capacity: usize) -> (result: Self)
        ensures
            result@ == Seq::<(u64, i32)>::empty(),
    {
        ZIndexedDrawingSystem { entity_z_indices: Vec::with_capacity(capacity) }
    }

    /// Replaces the drawing order by the pairs `(entity id, z-index)` of
    /// `entities`, sorted by z-index, pairs with the same z-index keeping
    /// their order.
    pub fn update_entity_z_indices(&mut self, entities: &Vec<(u64, i32)>)
        ensures
            final(self)@.len() == entities@.len(),
            z_sorted(final(self)@),
            forall|z: i32| #[trigger] with_z_index(final(self)@, z) == with_z_index(entities@, z),
    {
        self.entity_z_indices.clear();
        self.entity_z_indices = sort_by_z_index(entities);
    }

    /// The pairs `(entity id, z-index)` in drawing order.
    pub fn entity_z_indices(&self) -> (result: &Vec<(u64, i32)>)
        ensures
            result@ == self@,
    {
        &self.entity_z_indices
    }
}

} // verus!
