//! The spatial index over entity positions, backed by an r-tree of an
//! outside crate. Verified code sees it only through the contracts below,
//! stated over `spatial_map`, the finite map from entity id to coordinates
//! that the tree holds. Every constructor and mutator below keeps one entry
//! per entity, so that map is a faithful view of the tree's contents.

use vstd::prelude::*;
use crate::components::COORD_LIMIT;
use crate::components::sq_dist;

verus! {

/// Wraps `rstar::RTree` over integer points carrying an entity id.
#[verifier::external_body]
pub struct SpatialIndex {
    tree: rstar::RTree<rstar::primitives::GeomWithData<[i64; 2], u64>>,
}

/// The contents of a `SpatialIndex`: entity id to grid coordinates.
pub uninterp spec fn spatial_map(s: SpatialIndex) -> Map<u64, (i64, i64)>;

/// All coordinates in the map lie on the bounded grid, so the tree's
/// internal squared-distance and bounding-box arithmetic cannot overflow.
pub open spec fn spatial_bounded(m: Map<u64, (i64, i64)>) -> bool {
    forall|k: u64|
        m.contains_key(k) ==> -COORD_LIMIT <= (#[trigger] m[k]).0 <= COORD_LIMIT && -COORD_LIMIT
            <= m[k].1 <= COORD_LIMIT
}

/// The entities the map holds exactly at a point.
pub open spec fn entities_at(m: Map<u64, (i64, i64)>, x: i64, y: i64) -> Set<u64> {
    Set::new(|id: u64| m.contains_key(id) && m[id] == (x, y))
}

/// The entities the map holds within squared distance `d` of a point.
pub open spec fn entities_within(m: Map<u64, (i64, i64)>, x: i64, y: i64, d: i64) -> Set<u64> {
    Set::new(|id: u64| m.contains_key(id) && sq_dist(m[id], (x, y)) <= d)
}

impl View for SpatialIndex {
    type V = Map<u64, (i64, i64)>;

    open spec fn view(&self) -> Map<u64, (i64, i64)> {
        spatial_map(*self)
    }
}

impl SpatialIndex {
    /// Relies on `rstar::RTree::new`: an empty tree.
    #[verifier::external_body]
    pub fn new() -> (s: SpatialIndex)
        ensures
            s@ =~= Map::empty(),
    {
        SpatialIndex { tree: rstar::RTree::new() }
    }

    /// Relies on `rstar::RTree::insert`: adds the one given element to the
    /// tree's contents.
    #[verifier::external_body]
    pub fn insert(&mut self, id: u64, x: i64, y: i64)
        requires
            !spatial_map(*old(self)).contains_key(id),
            -COORD_LIMIT <= x <= COORD_LIMIT,
            -COORD_LIMIT <= y <= COORD_LIMIT,
        ensures
            spatial_map(*final(self)) =~= spatial_map(*old(self)).insert(id, (x, y)),
    {
        self.tree.insert(rstar::primitives::GeomWithData::new([x, y], id));
    }

    /// Relies on `rstar::RTree::remove`: removes the one element equal to
    /// the given one, if present.
    #[verifier::external_body]
    pub fn remove(&mut self, id: u64, x: i64, y: i64)
        requires
            spatial_map(*old(self)).contains_key(id),
            spatial_map(*old(self))[id] == (x, y),
        ensures
            spatial_map(*final(self)) =~= spatial_map(*old(self)).remove(id),
    {
        self.tree.remove(&rstar::primitives::GeomWithData::new([x, y], id));
    }

    /// Relies on `rstar::RTree::locate_all_at_point`: yields exactly the
    /// elements whose point equals the query point, each once, in an
    /// unspecified order. The bounds keep its internal `i64` distance
    /// arithmetic exact.
    #[verifier::external_body]
    pub fn at_point(&self, x: i64, y: i64) -> (r: Vec<u64>)
        requires
            spatial_bounded(spatial_map(*self)),
            -COORD_LIMIT <= x <= COORD_LIMIT,
            -COORD_LIMIT <= y <= COORD_LIMIT,
        ensures
            r@.no_duplicates(),
            r@.to_set() =~= entities_at(spatial_map(*self), x, y),
    {
        self.tree.locate_all_at_point([x, y]).map(|g| g.data).collect()
    }

    /// Relies on `rstar::RTree::locate_within_distance`: yields exactly the
    /// elements with squared distance to the query point at most `d`, each
    /// once, in an unspecified order. The bounds keep its internal `i64`
    /// distance arithmetic exact.
    #[verifier::external_body]
    pub fn within_distance(&self, x: i64, y: i64, d: i64) -> (r: Vec<u64>)
        requires
            spatial_bounded(spatial_map(*self)),
            -COORD_LIMIT <= x <= COORD_LIMIT,
            -COORD_LIMIT <= y <= COORD_LIMIT,
            0 <= d,
        ensures
            r@.no_duplicates(),
            r@.to_set() =~= entities_within(spatial_map(*self), x, y, d),
    {
        self.tree.locate_within_distance([x, y], d).map(|g| g.data).collect()
    }

    /// Relies on `rstar::RTree::size`: the number of stored elements.
    #[verifier::external_body]
    pub fn size(&self) -> (n: usize)
        ensures
            n == spatial_map(*self).dom().len(),
    {
        self.tree.size()
    }
}

} // verus!
