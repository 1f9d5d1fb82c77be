//! The table of clickable rectangles that a layout pass builds, and the
//! search that a click runs on it.

use vstd::prelude::*;

verus! {

/// What a click on a region sets off.
#[derive(Clone, Copy, Debug, PartialEq, Eq, Structural)]
pub enum ClickAction {
    /// The region is a line of text.
    Text,
    /// The region is an image.
    Image,
}

/// A clickable rectangle in backend pixels, with the scroll offset of the
/// pass that made it already applied.
#[derive(Clone, Copy, Debug, PartialEq, Eq, Structural)]
pub struct HitRegion {
    pub x: i64,
    pub y: i64,
    pub width: u32,
    pub height: u32,
    pub action: ClickAction,
}

impl HitRegion {
    /// Whether the point lies in the rectangle. All four edges belong to it.
    pub open spec fn covers(self, px: int, py: int) -> bool {
        &&& self.x <= px <= self.x + self.width
        &&& self.y <= py <= self.y + self.height
    }

    /// Tells whether the point lies in the rectangle.
    pub fn contains(&self, px: i64, py: i64) -> (inside: bool)
        ensures
            inside == self.covers(px as int, py as int),
    {
        self.x <= px && px as i128 <= self.x as i128 + self.width as i128 && self.y <= py
            && py as i128 <= self.y as i128 + self.height as i128
    }
}

/// Whether `index` is the first region, in the order of the table, that
/// covers the point.
pub open spec fn is_first_hit(regions: Seq<HitRegion>, px: int, py: int, index: int) -> bool {
    &&& 0 <= index < regions.len()
    &&& regions[index].covers(px, py)
    &&& forall|j: int| 0 <= j < index ==> !(#[trigger] regions[j]).covers(px, py)
}

/// Whether no region covers the point.
pub open spec fn misses_all(regions: Seq<HitRegion>, px: int, py: int) -> bool {
    forall|j: int| 0 <= j < regions.len() ==> !(#[trigger] regions[j]).covers(px, py)
}

/// Finds the region that a click at the given point goes to: the first one
/// in the table that covers the point.
pub fn hit_test(regions: &Vec<HitRegion>, px: i64, py: i64) -> (hit: Option<usize>)
    ensures
        match hit {
            Some(index) => is_first_hit(regions@, px as int, py as int, index as int),
            None => misses_all(regions@, px as int, py as int),
        },
{
    let mut i: usize = 0;
    while i < regions.len()
        invariant
            i <= regions.len(),
            forall|j: int| 0 <= j < i ==> !(#[trigger] regions@[j]).covers(px as int, py as int),
        decreases regions.len() - i,
    {
        if regions[i].contains(px, py) {
            return Some(i);
        }
        i += 1;
    }
    None
}

/// A click goes to one region at most: two indices that are both the first
/// hit are the same.
pub proof fn lemma_first_hit_unique(regions: Seq<HitRegion>, px: int, py: int, a: int, b: int)
    requires
        is_first_hit(regions, px, py, a),
        is_first_hit(regions, px, py, b),
    ensures
        a == b,
{
}

/// A click that exactly one region covers goes to that region.
pub proof fn lemma_sole_cover_is_hit(regions: Seq<HitRegion>, px: int, py: int, index: int)
    requires
        0 <= index < regions.len(),
        regions[index].covers(px, py),
        forall|j: int| 0 <= j < regions.len() && j != index ==> !(#[trigger] regions[j]).covers(px, py),
    ensures
        is_first_hit(regions, px, py, index),
{
}

/// A click goes to a region exactly if some region covers its point.
pub proof fn lemma_hit_or_miss(regions: Seq<HitRegion>, px: int, py: int)
    ensures
        misses_all(regions, px, py) <==> !exists|index: int| is_first_hit(regions, px, py, index),
{
    if !misses_all(regions, px, py) {
        lemma_some_first_hit(regions, px, py, regions.len() as int);
    }
}

/// Where one of the first `upto` regions covers a point, one of them is the
/// first to do so.
proof fn lemma_some_first_hit(regions: Seq<HitRegion>, px: int, py: int, upto: int)
    requires
        0 <= upto <= regions.len(),
        exists|j: int| 0 <= j < upto && (#[trigger] regions[j]).covers(px, py),
    ensures
        exists|index: int| is_first_hit(regions, px, py, index),
    decreases upto,
{
    if exists|j: int| 0 <= j < upto - 1 && (#[trigger] regions[j]).covers(px, py) {
        lemma_some_first_hit(regions, px, py, upto - 1);
    } else {
        assert(is_first_hit(regions, px, py, upto - 1));
    }
}

} // verus!
