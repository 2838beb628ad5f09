//! Obstacle groups: two pipes with their flanges around a gap, the score
//! zone in the gap, and how a group scrolls and is hit.

use crate::aabb::{collide_aabb, overlaps, Aabb, Vec3, COORD_LIMIT};
use crate::cylinder::{cylinder_indices, cylinder_vertices, Cylinder, CylinderMesh};
use vstd::prelude::*;

verus! {

/// The height of the whole obstacle column, pipes and gap together.
pub const TOTAL_SPAN: i64 = 10_000;

/// The height of the passable gap.
pub const GAP_SIZE: i64 = 2_000;

/// The range from which the bottom of a gap is drawn.
pub const GAP_START_MIN_Y: i64 = 500;

pub const GAP_START_MAX_Y: i64 = 6_700 - GAP_SIZE;

/// Where a new obstacle group is placed along X.
pub const OBSTACLE_SPAWN_X: i64 = 38_000;

/// An obstacle group is removed once it passes below this X.
pub const OBSTACLE_DESPAWN_X: i64 = -30_000;

/// The pipes and their flanges.
pub const PIPE_RADIUS: i64 = 750;

pub const FLANGE_RADIUS: i64 = 800;

pub const FLANGE_HEIGHT: i64 = 400;

pub const PIPE_RESOLUTION: u32 = 16;

/// The score zone's extent along X and Z, relative to its group.
pub const SCORE_ZONE_MIN_X: i64 = -100;

pub const SCORE_ZONE_MAX_X: i64 = 1_000;

pub const SCORE_ZONE_HALF_Z: i64 = 500;

/// One cylinder of an obstacle group, standing on `base_y`.
#[derive(Clone, Copy, Debug, PartialEq, Eq, Structural)]
pub struct ObstaclePiece {
    pub cylinder: Cylinder,
    pub base_y: i64,
}

/// The box around a cylinder that stands on `base_y` on the group's axis,
/// in the group's frame.
pub open spec fn piece_box(p: ObstaclePiece) -> Aabb {
    Aabb {
        min: Vec3 { x: (-p.cylinder.radius) as i64, y: p.base_y, z: (-p.cylinder.radius) as i64 },
        max: Vec3 {
            x: p.cylinder.radius,
            y: (p.base_y + p.cylinder.height) as i64,
            z: p.cylinder.radius,
        },
    }
}

impl ObstaclePiece {
    /// The piece's collision box in the group's frame.
    pub fn collider(&self) -> (r: Aabb)
        requires
            0 <= self.cylinder.radius <= COORD_LIMIT,
            -COORD_LIMIT <= self.base_y <= COORD_LIMIT,
            0 <= self.cylinder.height <= COORD_LIMIT,
        ensures
            r == piece_box(*self),
    {
        let r = self.cylinder.radius;
        Aabb {
            min: Vec3 { x: -r, y: self.base_y, z: -r },
            max: Vec3 { x: r, y: self.base_y + self.cylinder.height, z: r },
        }
    }
}

/// One obstacle: a bottom and a top pipe with a flange each at the gap,
/// and the score zone that spans the gap, all placed at `x`.
#[derive(Clone, Copy, Debug, PartialEq, Eq, Structural)]
pub struct ObstacleGroup {
    pub id: u64,
    pub x: i64,
    /// The bottom of the gap.
    pub gap_start: i64,
    pub bottom_pipe: ObstaclePiece,
    pub bottom_flange: ObstaclePiece,
    pub top_pipe: ObstaclePiece,
    pub top_flange: ObstaclePiece,
    /// The score zone in the group's frame.
    pub score_zone: Aabb,
    /// Whether the zone has already scored.
    pub score_used: bool,
}

pub open spec fn pipe(height: int) -> Cylinder {
    Cylinder { radius: PIPE_RADIUS, height: height as i64, resolution: PIPE_RESOLUTION, segments: 1 }
}

pub open spec fn flange() -> Cylinder {
    Cylinder {
        radius: FLANGE_RADIUS,
        height: FLANGE_HEIGHT,
        resolution: PIPE_RESOLUTION,
        segments: 1,
    }
}

/// The group that a spawn with gap bottom `gap_start` builds: the bottom
/// pipe fills the span up to the gap and the top pipe from the gap's top to
/// `TOTAL_SPAN`; the flanges sit just outside the gap; the score zone
/// spans exactly the gap.
pub open spec fn obstacle_layout(id: u64, x: i64, gap_start: i64) -> ObstacleGroup {
    let gap_end = gap_start + GAP_SIZE;
    ObstacleGroup {
        id,
        x,
        gap_start,
        bottom_pipe: ObstaclePiece { cylinder: pipe(gap_start as int), base_y: 0 },
        bottom_flange: ObstaclePiece {
            cylinder: flange(),
            base_y: (gap_start - FLANGE_HEIGHT) as i64,
        },
        top_pipe: ObstaclePiece {
            cylinder: pipe(TOTAL_SPAN - gap_end),
            base_y: gap_end as i64,
        },
        top_flange: ObstaclePiece { cylinder: flange(), base_y: gap_end as i64 },
        score_zone: Aabb {
            min: Vec3 { x: SCORE_ZONE_MIN_X, y: gap_start, z: (-SCORE_ZONE_HALF_Z) as i64 },
            max: Vec3 { x: SCORE_ZONE_MAX_X, y: gap_end as i64, z: SCORE_ZONE_HALF_Z },
        },
        score_used: false,
    }
}

impl ObstacleGroup {
    /// The group is laid out as a spawn builds it, its gap inside the span
    /// and its position between the spawn and removal lines.
    pub open spec fn wf(self) -> bool {
        &&& GAP_START_MIN_Y <= self.gap_start <= GAP_START_MAX_Y
        &&& OBSTACLE_DESPAWN_X <= self.x <= OBSTACLE_SPAWN_X
        &&& self == (ObstacleGroup {
            score_used: self.score_used,
            ..obstacle_layout(self.id, self.x, self.gap_start)
        })
    }

    /// The four solid pieces.
    pub open spec fn piece(self, i: int) -> ObstaclePiece {
        if i == 0 {
            self.bottom_pipe
        } else if i == 1 {
            self.bottom_flange
        } else if i == 2 {
            self.top_pipe
        } else {
            self.top_flange
        }
    }

    pub open spec fn offset(self) -> Vec3 {
        Vec3 { x: self.x, y: 0, z: 0 }
    }

    /// Piece `i` in world space.
    pub open spec fn piece_world(self, i: int) -> Aabb {
        piece_box(self.piece(i)).spec_translated(self.offset())
    }

    /// The score zone in world space.
    pub open spec fn score_zone_world(self) -> Aabb {
        self.score_zone.spec_translated(self.offset())
    }

    /// The meshes of the bottom pipe, the top pipe, and the flange that
    /// both flanges share.
    pub fn meshes(&self) -> (r: (CylinderMesh, CylinderMesh, CylinderMesh))
        requires
            self.wf(),
        ensures
            r.0.shape == self.bottom_pipe.cylinder,
            r.1.shape == self.top_pipe.cylinder,
            r.2.shape == self.bottom_flange.cylinder,
            r.0.vertices@ == cylinder_vertices(PIPE_RESOLUTION as int, 1),
            r.0.indices@ == cylinder_indices(PIPE_RESOLUTION as int, 1),
            r.1.vertices@ == cylinder_vertices(PIPE_RESOLUTION as int, 1),
            r.1.indices@ == cylinder_indices(PIPE_RESOLUTION as int, 1),
            r.2.vertices@ == cylinder_vertices(PIPE_RESOLUTION as int, 1),
            r.2.indices@ == cylinder_indices(PIPE_RESOLUTION as int, 1),
    {
        proof {
            crate::cylinder::lemma_pipe_vertex_count();
        }
        (self.bottom_pipe.cylinder.mesh(), self.top_pipe.cylinder.mesh(), self.bottom_flange.cylinder.mesh())
    }
}

/// Builds the group with the given id, position and gap.
pub fn build_obstacle_group(id: u64, x: i64, gap_start: i64) -> (g: ObstacleGroup)
    requires
        GAP_START_MIN_Y <= gap_start <= GAP_START_MAX_Y,
        OBSTACLE_DESPAWN_X <= x <= OBSTACLE_SPAWN_X,
    ensures
        g == obstacle_layout(id, x, gap_start),
        g.wf(),
{
    let gap_end = gap_start + GAP_SIZE;
    ObstacleGroup {
        id,
        x,
        gap_start,
        bottom_pipe: ObstaclePiece {
            cylinder: Cylinder {
                radius: PIPE_RADIUS,
                height: gap_start,
                resolution: PIPE_RESOLUTION,
                segments: 1,
            },
            base_y: 0,
        },
        bottom_flange: ObstaclePiece {
            cylinder: Cylinder {
                radius: FLANGE_RADIUS,
                height: FLANGE_HEIGHT,
                resolution: PIPE_RESOLUTION,
                segments: 1,
            },
            base_y: gap_start - FLANGE_HEIGHT,
        },
        top_pipe: ObstaclePiece {
            cylinder: Cylinder {
                radius: PIPE_RADIUS,
                height: TOTAL_SPAN - gap_end,
                resolution: PIPE_RESOLUTION,
                segments: 1,
            },
            base_y: gap_end,
        },
        top_flange: ObstaclePiece {
            cylinder: Cylinder {
                radius: FLANGE_RADIUS,
                height: FLANGE_HEIGHT,
                resolution: PIPE_RESOLUTION,
                segments: 1,
            },
            base_y: gap_end,
        },
        score_zone: Aabb {
            min: Vec3 { x: SCORE_ZONE_MIN_X, y: gap_start, z: -SCORE_ZONE_HALF_Z },
            max: Vec3 { x: SCORE_ZONE_MAX_X, y: gap_end, z: SCORE_ZONE_HALF_Z },
        },
        score_used: false,
    }
}

/// In every well-formed group the bottom pipe, the gap and the top pipe
/// together fill the whole span, and the score zone spans the gap exactly.
pub proof fn lemma_group_fills_span(g: ObstacleGroup)
    requires
        g.wf(),
    ensures
        g.bottom_pipe.cylinder.height + GAP_SIZE + g.top_pipe.cylinder.height == TOTAL_SPAN,
        g.score_zone.min.y == g.gap_start,
        g.score_zone.max.y == g.gap_start + GAP_SIZE,
        g.bottom_pipe.cylinder.height > 0,
        g.top_pipe.cylinder.height > 0,
{
}

/// The obstacle groups after scrolling `delta` toward negative X: each
/// moves, and those that pass below the removal line are dropped, the rest
/// keeping their order.
pub open spec fn scrolled_obstacles(s: Seq<ObstacleGroup>, delta: int) -> Seq<ObstacleGroup>
    decreases s.len(),
{
    if s.len() == 0 {
        s
    } else {
        let rest = scrolled_obstacles(s.drop_last(), delta);
        let g = s.last();
        if g.x - delta >= OBSTACLE_DESPAWN_X {
            rest.push(ObstacleGroup { x: (g.x - delta) as i64, ..g })
        } else {
            rest
        }
    }
}

/// A group placed at `x0` that scrolls `delta` each tick stays through the
/// ticks before `k` and is removed on tick `k`, the first on which its
/// position would fall below the removal line.
pub proof fn lemma_removal_tick(x0: int, delta: int)
    requires
        OBSTACLE_DESPAWN_X <= x0,
        delta > 0,
    ensures
        ({
            let k = (x0 - OBSTACLE_DESPAWN_X) / delta + 1;
            &&& x0 - k * delta < OBSTACLE_DESPAWN_X
            &&& forall|j: int| 0 <= j < k ==> x0 - #[trigger] (j * delta) >= OBSTACLE_DESPAWN_X
        }),
{
    let d = x0 - OBSTACLE_DESPAWN_X;
    let q = d / delta;
    assert(q * delta <= d < (q + 1) * delta) by (nonlinear_arith)
        requires
            q == d / delta,
            d >= 0,
            delta > 0,
    ;
    assert((q + 1) * delta == q * delta + delta) by (nonlinear_arith);
    assert forall|j: int| 0 <= j < q + 1 implies x0 - #[trigger] (j * delta) >= OBSTACLE_DESPAWN_X by {
        assert(j * delta <= q * delta) by (nonlinear_arith)
            requires
                j <= q,
                delta > 0,
        ;
    }
}

/// A lone group is kept, moved by `delta`, exactly while its new position
/// is not below the removal line.
pub proof fn lemma_lone_group_scroll(g: ObstacleGroup, delta: int)
    ensures
        scrolled_obstacles(seq![g], delta) == if g.x - delta >= OBSTACLE_DESPAWN_X {
            seq![ObstacleGroup { x: (g.x - delta) as i64, ..g }]
        } else {
            Seq::empty()
        },
{
    reveal_with_fuel(scrolled_obstacles, 2);
    assert(seq![g].drop_last() =~= Seq::<ObstacleGroup>::empty());
    assert(Seq::<ObstacleGroup>::empty().push(ObstacleGroup { x: (g.x - delta) as i64, ..g })
        =~= seq![ObstacleGroup { x: (g.x - delta) as i64, ..g }]);
}

/// The player's box at `bw` touches one of the group's solid pieces.
pub open spec fn hits_group(g: ObstacleGroup, bw: Aabb) -> bool {
    ||| overlaps(g.piece_world(0), bw)
    ||| overlaps(g.piece_world(1), bw)
    ||| overlaps(g.piece_world(2), bw)
    ||| overlaps(g.piece_world(3), bw)
}

/// The group's zone scores against the player's box at `bw`: it is unused
/// and they overlap.
pub open spec fn scores_on(g: ObstacleGroup, bw: Aabb) -> bool {
    !g.score_used && overlaps(g.score_zone_world(), bw)
}

/// The group after a collision pass against `bw`: a zone that scored is
/// marked used.
pub open spec fn after_scoring(g: ObstacleGroup, bw: Aabb) -> ObstacleGroup {
    ObstacleGroup { score_used: g.score_used || overlaps(g.score_zone_world(), bw), ..g }
}

pub open spec fn scored_groups(s: Seq<ObstacleGroup>, bw: Aabb) -> Seq<ObstacleGroup> {
    Seq::new(s.len(), |i: int| after_scoring(s[i], bw))
}

/// Some group's solid piece touches `bw`.
pub open spec fn crashes(s: Seq<ObstacleGroup>, bw: Aabb) -> bool {
    exists|i: int| 0 <= i < s.len() && hits_group(#[trigger] s[i], bw)
}

/// Whether the player's box `bw` touches a solid piece of `g`.
pub(crate) fn group_collides(g: &ObstacleGroup, bw: &Aabb) -> (r: bool)
    requires
        g.wf(),
        bw.wf(),
    ensures
        r == hits_group(*g, *bw),
{
    let offset = Vec3 { x: g.x, y: 0, z: 0 };
    let pieces = [g.bottom_pipe, g.bottom_flange, g.top_pipe, g.top_flange];
    let mut k: usize = 0;
    while k < 4
        invariant
            g.wf(),
            bw.wf(),
            offset == g.offset(),
            pieces@ == seq![g.piece(0), g.piece(1), g.piece(2), g.piece(3)],
            k <= 4,
            forall|j: int| 0 <= j < k ==> !overlaps(#[trigger] g.piece_world(j), *bw),
        decreases 4 - k,
    {
        let piece = pieces[k];
        let world = piece.collider().translated(offset);
        if collide_aabb(&world, bw) {
            return true;
        }
        k = k + 1;
    }
    false
}

} // verus!
