//! The layout of the first map: where its platforms are.

use vstd::prelude::*;

verus! {

/// A fixed platform: a box around a centre, in world units.
#[derive(Clone, Copy, Debug, PartialEq, Eq, Structural)]
pub struct Platform {
    pub x: i32,
    pub y: i32,
    pub half_width: i32,
    pub half_height: i32,
}

impl Platform {
    /// Whether the point lies in the box, its border included.
    pub open spec fn covers(self, x: i32, y: i32) -> bool {
        &&& self.x - self.half_width <= x <= self.x + self.half_width
        &&& self.y - self.half_height <= y <= self.y + self.half_height
    }

    /// Whether the point lies in the box, its border included.
    pub fn contains(&self, x: i32, y: i32) -> (inside: bool)
        ensures
            inside == self.covers(x, y),
    {
        let left: i64 = self.x as i64 - self.half_width as i64;
        let right: i64 = self.x as i64 + self.half_width as i64;
        let bottom: i64 = self.y as i64 - self.half_height as i64;
        let top: i64 = self.y as i64 + self.half_height as i64;
        left <= x as i64 && x as i64 <= right && bottom <= y as i64 && y as i64 <= top
    }
}

/// The ground of the first map: as wide as the window and 50 high, far
/// below the platforms.
pub open spec fn ground() -> Platform {
    Platform { x: 0, y: (-700) as i32, half_width: 960, half_height: 25 }
}

/// The platforms of the first map: a wide one in the middle, and three small
/// ones around it.
pub open spec fn map_one() -> Seq<Platform> {
    seq![
        Platform { x: 0, y: (-200) as i32, half_width: 200, half_height: 50 },
        Platform { x: (-300) as i32, y: 80, half_width: 100, half_height: 20 },
        Platform { x: (-300) as i32, y: 230, half_width: 100, half_height: 20 },
        Platform { x: 400, y: (-50) as i32, half_width: 100, half_height: 20 },
    ]
}

/// The fixed bodies of a map: the ground, and the platforms above it.
pub struct MapLayout {
    pub ground: Platform,
    pub platforms: Vec<Platform>,
}

/// Lays out the first map: five fixed bodies, of which four are platforms.
pub fn setup_map() -> (layout: MapLayout)
    ensures
        layout.ground == ground(),
        layout.platforms@ == map_one(),
{
    let mut platforms: Vec<Platform> = Vec::new();
    platforms.push(Platform { x: 0, y: -200, half_width: 200, half_height: 50 });
    platforms.push(Platform { x: -300, y: 80, half_width: 100, half_height: 20 });
    platforms.push(Platform { x: -300, y: 230, half_width: 100, half_height: 20 });
    platforms.push(Platform { x: 400, y: -50, half_width: 100, half_height: 20 });
    assert(platforms@ =~= map_one());
    MapLayout { ground: Platform { x: 0, y: -700, half_width: 960, half_height: 25 }, platforms }
}

} // verus!
