//! The broad-phase spatial index, carried by the `static_aabb2d_index` crate.
//!
//! The index is a packed static R-tree over axis-aligned boxes, built once
//! from the flower field and queried every tick.  The crate's builder and
//! finished index are held inside two opaque structs below (their generic
//! parameter carries a trait bound Verus cannot name, so the types cannot be
//! declared directly); what they hold is named by the uninterpreted
//! sequences, and the wrappers state over those names what the crate's
//! source shows: `add` appends a box, `build` succeeds exactly when the
//! promised count was added, and `query` returns the add positions of
//! exactly the stored boxes that touch the query box.

use vstd::prelude::*;

use static_aabb2d_index::{
    StaticAABB2DIndex, StaticAABB2DIndexBuildError, StaticAABB2DIndexBuilder,
};

verus! {

/// An under-construction broad-phase index, opaque to Verus.
#[verifier::external_body]
pub struct FlowerIndexBuilder {
    inner: StaticAABB2DIndexBuilder<i64>,
}

/// A finished broad-phase index, opaque to Verus.
#[verifier::external_body]
pub struct FlowerIndex {
    inner: StaticAABB2DIndex<i64>,
}

#[verifier::external_type_specification]
#[verifier::external_body]
pub struct ExStaticAABB2DIndexBuildError(StaticAABB2DIndexBuildError);

/// The boxes added to the builder so far, as (min_x, min_y, max_x, max_y)
/// raw coordinates, in add order.
pub uninterp spec fn builder_boxes(b: FlowerIndexBuilder) -> Seq<(i64, i64, i64, i64)>;

/// The box count the builder was created to hold.
pub uninterp spec fn builder_capacity(b: FlowerIndexBuilder) -> nat;

/// The boxes a finished index holds, in the order they were added.
pub uninterp spec fn index_boxes(i: FlowerIndex) -> Seq<(i64, i64, i64, i64)>;

/// The widest coordinate the index wrappers admit.  The crate's tree build
/// computes the total extents of all boxes and subtracts the axis minima
/// from the maxima on `i64`; within this band (far wider than the world's
/// own coordinate band) that arithmetic cannot overflow, so the build cannot
/// panic under overflow checks.
pub const INDEX_COORD_MAX: i64 = 0x4000_0000_0000;

/// The box's four coordinates lie within the admitted band.
pub open spec fn box_in_band(b: (i64, i64, i64, i64)) -> bool {
    &&& -INDEX_COORD_MAX <= b.0 <= INDEX_COORD_MAX
    &&& -INDEX_COORD_MAX <= b.1 <= INDEX_COORD_MAX
    &&& -INDEX_COORD_MAX <= b.2 <= INDEX_COORD_MAX
    &&& -INDEX_COORD_MAX <= b.3 <= INDEX_COORD_MAX
}

/// Inclusive box overlap, exactly as the crate tests it: two boxes overlap
/// unless one lies strictly beyond the other on some axis; touching edges
/// count.
pub open spec fn spec_box_overlaps(
    b: (i64, i64, i64, i64),
    min_x: i64,
    min_y: i64,
    max_x: i64,
    max_y: i64,
) -> bool {
    !(b.2 < min_x || b.3 < min_y || b.0 > max_x || b.1 > max_y)
}

/// Relies on StaticAABB2DIndexBuilder::new: a fresh builder that expects
/// exactly `count` boxes and holds none yet.
#[verifier::external_body]
pub fn index_builder_new(count: usize) -> (b: FlowerIndexBuilder)
    ensures
        builder_boxes(b) == Seq::<(i64, i64, i64, i64)>::empty(),
        builder_capacity(b) == count,
{
    FlowerIndexBuilder { inner: StaticAABB2DIndexBuilder::new(count) }
}

/// Relies on StaticAABB2DIndexBuilder::add: appends one axis-aligned box.
/// The crate only defines the outcome for a non-inverted box added within
/// the declared capacity, so both are required; the coordinate band keeps
/// the later tree build's extent arithmetic inside `i64`.
#[verifier::external_body]
pub fn index_builder_add(
    b: &mut FlowerIndexBuilder,
    min_x: i64,
    min_y: i64,
    max_x: i64,
    max_y: i64,
)
    requires
        min_x <= max_x,
        min_y <= max_y,
        box_in_band((min_x, min_y, max_x, max_y)),
        builder_boxes(*old(b)).len() < builder_capacity(*old(b)),
    ensures
        builder_boxes(*final(b)) == builder_boxes(*old(b)).push((min_x, min_y, max_x, max_y)),
        builder_capacity(*final(b)) == builder_capacity(*old(b)),
{
    b.inner.add(min_x, min_y, max_x, max_y);
}

/// Relies on StaticAABB2DIndexBuilder::build: packs the tree.  It succeeds
/// exactly when the added count matches the declared capacity (the numeric
/// cast error its source can also report never happens for `i64`), and the
/// finished index holds exactly the added boxes.  The band on every added
/// box is required because the build subtracts the total extents' minima
/// from their maxima on `i64` while sorting; boxes inside the band keep that
/// span from overflowing.
#[verifier::external_body]
pub fn index_build(b: FlowerIndexBuilder) -> (r: Result<
    FlowerIndex,
    StaticAABB2DIndexBuildError,
>)
    requires
        forall|k: int|
            0 <= k < builder_boxes(b).len() ==> box_in_band(#[trigger] builder_boxes(b)[k]),
    ensures
        r is Ok <==> builder_boxes(b).len() == builder_capacity(b),
        r is Ok ==> index_boxes(r->Ok_0) == builder_boxes(b),
{
    match b.inner.build() {
        Ok(inner) => Ok(FlowerIndex { inner }),
        Err(e) => Err(e),
    }
}

/// Relies on StaticAABB2DIndex::query: the add positions of exactly the
/// stored boxes that overlap the query box (inclusively), each reported once,
/// in unspecified order.
#[verifier::external_body]
pub fn index_query(
    idx: &FlowerIndex,
    min_x: i64,
    min_y: i64,
    max_x: i64,
    max_y: i64,
) -> (r: Vec<usize>)
    ensures
        forall|k: int| 0 <= k < r@.len() ==> (#[trigger] r@[k]) < index_boxes(*idx).len(),
        forall|k: int|
            0 <= k < r@.len() ==> spec_box_overlaps(
                index_boxes(*idx)[r@[k] as int],
                min_x,
                min_y,
                max_x,
                max_y,
            ),
        forall|j: int|
            0 <= j < index_boxes(*idx).len() && spec_box_overlaps(
                #[trigger] index_boxes(*idx)[j],
                min_x,
                min_y,
                max_x,
                max_y,
            ) ==> r@.contains(j as usize),
        r@.no_duplicates(),
{
    idx.inner.query(min_x, min_y, max_x, max_y)
}

} // verus!
