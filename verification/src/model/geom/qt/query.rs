use vstd::prelude::*;

use rust_dense_bitset::DenseBitSet;

use crate::model::dense_bits::{dense_and, dense_any, dense_bits, dense_new};

verus! {

/// A tag that a shape in a spatial index carries.
#[derive(PartialEq, Eq, Structural, Debug, Copy, Clone)]
pub struct Tag(pub usize);

/// The tag of shapes that carry none.
pub fn no_tag() -> (t: Tag)
    ensures
        t == Tag(usize::MAX),
{
    Tag(usize::MAX)
}

/// Which tags a query selects: all, one, or all but one.
#[derive(PartialEq, Eq, Structural, Debug, Copy, Clone)]
pub enum TagQuery {
    All,
    Tag(Tag),
    Except(Tag),
}

/// True iff a shape with tag `tag` is selected by `q`.
pub open spec fn spec_matches_tag_query(tag: Tag, q: TagQuery) -> bool {
    match q {
        TagQuery::All => true,
        TagQuery::Tag(t) => t == tag,
        TagQuery::Except(t) => t != tag,
    }
}

/// Whether a shape with tag `tag` is selected by `q`.
pub fn matches_tag_query(tag: Tag, q: TagQuery) -> (r: bool)
    ensures
        r == spec_matches_tag_query(tag, q),
{
    match q {
        TagQuery::All => true,
        TagQuery::Tag(t) => t == tag,
        TagQuery::Except(t) => t != tag,
    }
}

/// A set of object kinds, as a bit mask: kind `k` is bit `k`.
#[derive(Debug, Copy, Clone)]
pub struct Kinds(pub DenseBitSet);

/// Which kinds a query selects: all, or those that share a kind with a mask.
#[derive(Debug, Copy, Clone)]
pub enum KindsQuery {
    All,
    /// Every shape that has a kind in common with the mask.
    HasCommon(Kinds),
}

/// A query over both tags and kinds.
#[derive(Debug, Copy, Clone)]
pub struct Query(pub TagQuery, pub KindsQuery);

/// The query that selects every shape.
pub fn all_query() -> (q: Query)
    ensures
        q.0 == TagQuery::All,
        q.1 is All,
{
    Query(TagQuery::All, KindsQuery::All)
}

/// The empty set of kinds, which shapes without kinds carry.
pub fn no_kinds() -> (k: Kinds)
    ensures
        dense_bits(k.0) == Set::<nat>::empty(),
{
    Kinds(dense_new())
}

/// True iff a shape of kinds `kinds` is selected by `q`.
pub open spec fn spec_matches_kinds_query(kinds: Kinds, q: KindsQuery) -> bool {
    match q {
        KindsQuery::All => true,
        KindsQuery::HasCommon(k) => dense_bits(k.0).intersect(dense_bits(kinds.0)) != Set::<
            nat,
        >::empty(),
    }
}

/// Whether a shape of kinds `kinds` is selected by `q`.
pub fn matches_kinds_query(kinds: Kinds, q: KindsQuery) -> (r: bool)
    ensures
        r == spec_matches_kinds_query(kinds, q),
{
    match q {
        KindsQuery::All => true,
        KindsQuery::HasCommon(k) => dense_any(dense_and(k.0, kinds.0)),
    }
}

/// Whether a shape with tag `tag` and kinds `kinds` is selected by both
/// parts of `q`.
pub fn matches_query(tag: Tag, kinds: Kinds, q: Query) -> (r: bool)
    ensures
        r == (spec_matches_tag_query(tag, q.0) && spec_matches_kinds_query(kinds, q.1)),
{
    matches_tag_query(tag, q.0) && matches_kinds_query(kinds, q.1)
}

} // verus!
