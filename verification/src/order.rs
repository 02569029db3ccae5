//! The order in which tiles are stored and handed out.
use vstd::prelude::*;
use crate::coords::TileKey;
use vstd::std_specs::cmp::OrdSpec;

verus! {

/// Tile keys are ordered by zoom level, then column, then row.
pub open spec fn key_lt(a: TileKey, b: TileKey) -> bool {
    ||| a.0 < b.0
    ||| a.0 == b.0 && a.1 < b.1
    ||| a.0 == b.0 && a.1 == b.1 && a.2 < b.2
}

/// A sequence of tile keys in strictly increasing order.
pub open spec fn strictly_increasing(s: Seq<TileKey>) -> bool {
    forall|i: int, j: int| 0 <= i < j < s.len() ==> key_lt(#[trigger] s[i], #[trigger] s[j])
}

/// Tile keys obey vstd's model of `Ord`, on which its tree specifications rest.
pub open spec fn keys_well_ordered() -> bool {
    vstd::laws_cmp::obeys_cmp::<TileKey>()
}

/// Tile keys obey the model of `Ord` that vstd's tree specifications
/// rest on, and their `Less` is `key_lt`.
pub proof fn lemma_key_order()
    ensures
        keys_well_ordered(),
        forall|a: TileKey, b: TileKey| (#[trigger] a.cmp_spec(&b) is Less) <==> key_lt(a, b),
{
    broadcast use vstd::laws_cmp::group_laws_cmp;
}

/// What vstd says of the keys a tree's iterator yields, in terms of `key_lt`.
pub proof fn lemma_increasing_key_refs(s: Seq<&TileKey>)
    requires
        vstd::std_specs::btree::increasing_seq(s),
    ensures
        strictly_increasing(s.unref()),
{
    lemma_key_order();
    broadcast use vstd::laws_cmp::group_laws_cmp;
    broadcast use vstd::std_specs::btree::group_btree_axioms;
    assert(vstd::laws_cmp::obeys_cmp::<&TileKey>());
    vstd::std_specs::btree::axiom_increasing_seq_meaning::<&TileKey>(s);
    assert forall|i: int, j: int| 0 <= i < j < s.unref().len() implies key_lt(
        #[trigger] s.unref()[i],
        #[trigger] s.unref()[j],
    ) by {
        assert(OrdSpec::cmp_spec(&s[i], &s[j]) is Less);
    }
}

} // verus!
