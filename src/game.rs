//! The simulation: obstacles that spawn, scroll and recycle, terrain that
//! never runs out, the player's movement, collisions, score, and the
//! states of a run.

use crate::aabb::{collide_aabb, Aabb, Vec3};
use crate::obstacle::{
    build_obstacle_group,
    crashes,
    group_collides,
    hits_group,
    obstacle_layout,
    scores_on,
    scored_groups,
    scrolled_obstacles,
    ObstacleGroup,
    GAP_SIZE,
    TOTAL_SPAN,
    GAP_START_MAX_Y,
    GAP_START_MIN_Y,
    OBSTACLE_DESPAWN_X,
    OBSTACLE_SPAWN_X,
};
use crate::player::{
    birb_after_move,
    fresh_birb,
    fresh_rival,
    move_birb,
    step_target,
    Birb,
    Rival,
    actor_bounded,
    BIRB_HALF_X,
    BIRB_HALF_Y,
    BIRB_HALF_Z,
    BIRB_MAX_Y,
    BIRB_MIN_Y,
    BIRB_START_Y,
    BOB_LIMIT,
    RIVAL_BASE_Y,
    RIVAL_SPEED,
    RIVAL_START_X,
    RIVAL_STOP_X,
    RIVAL_Z,
    TARGET_STEP,
};
use crate::ground::{
    Ground,
    GroundBundle,
    GROUND_Y,
    GROUND_LENGTH,
    GROUND_VERTICES_X,
    GROUND_VERTICES_Z,
    GROUND_WIDTH,
};
use crate::luck::{lemma_step_in_range, NextGapBag};
use crate::random::seeded_rng;
use rand::rngs::StdRng;
use vstd::prelude::*;

verus! {

/// Microseconds in a second.
pub const MICROS_PER_SECOND: u64 = 1_000_000;

/// The longest frame that a tick accepts.
pub const MAX_FRAME_MICROS: u64 = 1_000_000_000;

/// The fastest scroll speed that a run may be configured with, per second.
pub const SPEED_LIMIT: i64 = 1_000_000;

/// A terrain chunk is removed once it passes below this X.
pub const GROUND_DESPAWN_X: i64 = -60_000;

/// The scroll distance between two obstacle groups, by default.
pub const DEFAULT_SPACING: i64 = 12_000;

/// The scroll speed at the start of a run, the most it may reach, and how
/// much each new obstacle group adds to it.
pub const DEFAULT_SPEED: i64 = 2_000;

pub const DEFAULT_MAX_SPEED: i64 = 4_400;

pub const SPEED_STEP: i64 = 100;

/// The points that passing one gap earns.
pub const GAP_SCORE: u32 = 2;

/// The states of the game.
#[derive(Clone, Copy, Debug, PartialEq, Eq, Structural)]
pub enum AppState {
    Loading,
    StartScreen,
    Playing,
    EndScreen,
}

/// The commands that the game takes in.
#[derive(Clone, Copy, Debug, PartialEq, Eq, Structural)]
pub enum Action {
    /// A key that matched no word.
    BadFlap,
    BirbUp,
    BirbDown,
    /// The word shown on the given target was completed.
    NewWord(u64),
    IncScore(u32),
    Start,
    Retry,
}

/// What the game reports to the sound and display around it.
#[derive(Clone, Copy, Debug, PartialEq, Eq, Structural)]
pub enum GameEvent {
    BadInput,
    Flap,
    BumpAtBoundary,
    ScoreIncrement(u32),
    CrashDetected,
}

/// The points of the current run.
#[derive(Clone, Copy, Debug, PartialEq, Eq, Structural)]
pub struct Score(pub u32);

impl Default for Score {
    fn default() -> (r: Score)
        ensures
            r.0 == 0,
    {
        Score(0)
    }
}

/// The scroll distance left until the next obstacle group.
#[derive(Clone, Copy, Debug, PartialEq, Eq, Structural)]
pub struct DistanceToSpawn(pub i64);

impl Default for DistanceToSpawn {
    fn default() -> (r: DistanceToSpawn)
        ensures
            r.0 == 0,
    {
        DistanceToSpawn(0)
    }
}

/// The scroll distance between two obstacle groups.
#[derive(Clone, Copy, Debug, PartialEq, Eq, Structural)]
pub struct ObstacleSpacing(pub i64);

impl Default for ObstacleSpacing {
    fn default() -> (r: ObstacleSpacing)
        ensures
            r.0 == DEFAULT_SPACING,
    {
        ObstacleSpacing(DEFAULT_SPACING)
    }
}

/// The scroll speed, per second, and the most it may reach.
#[derive(Clone, Copy, Debug, PartialEq, Eq, Structural)]
pub struct Speed {
    pub current: i64,
    pub max: i64,
}

impl Default for Speed {
    fn default() -> (r: Speed)
        ensures
            r == (Speed { current: DEFAULT_SPEED, max: DEFAULT_MAX_SPEED }),
    {
        Speed { current: DEFAULT_SPEED, max: DEFAULT_MAX_SPEED }
    }
}

impl Speed {
    pub open spec fn wf(self) -> bool {
        0 <= self.current <= self.max <= SPEED_LIMIT
    }

    /// Raises the speed by `amt`, never past the maximum.
    pub fn increase(&mut self, amt: i64)
        requires
            old(self).wf(),
            0 <= amt <= SPEED_LIMIT,
        ensures
            final(self).max == old(self).max,
            final(self).current == if old(self).current + amt <= old(self).max {
                old(self).current + amt
            } else {
                old(self).max as int
            },
            final(self).wf(),
    {
        let raised = self.current + amt;
        self.current = if raised <= self.max {
            raised
        } else {
            self.max
        };
    }
}

/// The scroll distance of a frame of `dt_micros` at `speed` per second,
/// rounded down.
pub open spec fn scroll_delta(dt_micros: int, speed: int) -> int {
    dt_micros * speed / (MICROS_PER_SECOND as int)
}

proof fn lemma_scroll_delta_bound(dt_micros: int, speed: int)
    requires
        0 <= dt_micros <= MAX_FRAME_MICROS,
        0 <= speed <= SPEED_LIMIT,
    ensures
        0 <= scroll_delta(dt_micros, speed) <= SPEED_LIMIT * (MAX_FRAME_MICROS / MICROS_PER_SECOND),
{
    assert(0 <= dt_micros * speed <= MAX_FRAME_MICROS * SPEED_LIMIT) by (nonlinear_arith)
        requires
            0 <= dt_micros <= MAX_FRAME_MICROS,
            0 <= speed <= SPEED_LIMIT,
    ;
    assert(dt_micros * speed / (MICROS_PER_SECOND as int) <= MAX_FRAME_MICROS * SPEED_LIMIT / (
    MICROS_PER_SECOND as int)) by (nonlinear_arith)
        requires
            0 <= dt_micros * speed <= MAX_FRAME_MICROS * SPEED_LIMIT,
    ;
}

pub fn frame_delta(dt_micros: u64, speed: i64) -> (r: i64)
    requires
        dt_micros <= MAX_FRAME_MICROS,
        0 <= speed <= SPEED_LIMIT,
    ensures
        r == scroll_delta(dt_micros as int, speed as int),
        0 <= r <= SPEED_LIMIT * (MAX_FRAME_MICROS / MICROS_PER_SECOND),
{
    proof {
        lemma_scroll_delta_bound(dt_micros as int, speed as int);
        assert(0 <= dt_micros * speed <= MAX_FRAME_MICROS * SPEED_LIMIT) by (nonlinear_arith)
            requires
                0 <= dt_micros <= MAX_FRAME_MICROS,
                0 <= speed <= SPEED_LIMIT,
        ;
    }
    ((dt_micros as i64) * speed) / (MICROS_PER_SECOND as i64)
}

/// The largest magnitude of the spawn countdown and of the spacing.
pub const DISTANCE_LIMIT: i64 = 1_000_000_000_000_000;

/// At most two chunks; a lone chunk has not yet passed the origin's far
/// side, and of two chunks the second continues the first.
pub open spec fn grounds_wf(g: Seq<Ground>) -> bool {
    &&& g.len() <= 2
    &&& forall|i: int| 0 <= i < g.len() ==> GROUND_DESPAWN_X <= #[trigger] g[i].x <= GROUND_LENGTH
    &&& g.len() >= 1 ==> g[0].x <= 0
    &&& g.len() == 2 ==> g[1].x == g[0].x + GROUND_LENGTH
}

/// The whole state of a game.
pub struct Game {
    pub state: AppState,
    pub score: Score,
    pub speed: Speed,
    pub distance: DistanceToSpawn,
    pub spacing: ObstacleSpacing,
    pub bag: NextGapBag,
    pub obstacles: Vec<ObstacleGroup>,
    pub grounds: Vec<Ground>,
    pub birb: Option<Birb>,
    pub rival: Option<Rival>,
    /// The id that the next spawned entity gets.
    pub next_id: u64,
    /// The random source of terrain heights.
    pub terrain_rng: StdRng,
}

impl Game {
    pub open spec fn wf(&self) -> bool {
        &&& self.speed.wf()
        &&& 0 <= self.spacing.0 <= DISTANCE_LIMIT
        &&& -DISTANCE_LIMIT <= self.distance.0 <= DISTANCE_LIMIT
        &&& self.bag.wf()
        &&& self.bag@.start == GAP_START_MIN_Y
        &&& self.bag@.end == GAP_START_MAX_Y
        &&& GAP_START_MIN_Y <= self.bag@.previous <= GAP_START_MAX_Y
        &&& forall|i: int| 0 <= i < self.obstacles@.len() ==> (#[trigger] self.obstacles@[i]).wf()
        &&& grounds_wf(self.grounds@)
        &&& self.birb matches Some(b) ==> b.wf()
        &&& self.rival matches Some(r) ==> actor_bounded(r.translation)
    }

    /// A game on the loading screen, its gap walk drawn from `gap_seed` and
    /// its terrain from `terrain_seed`.
    pub fn new(gap_seed: u64, terrain_seed: u64) -> (g: Game)
        ensures
            g.wf(),
            g.state == AppState::Loading,
            g.score.0 == 0,
            g.speed == (Speed { current: DEFAULT_SPEED, max: DEFAULT_MAX_SPEED }),
            g.distance.0 == 0,
            g.spacing.0 == DEFAULT_SPACING,
            g.bag@.index == 0,
            g.bag@.eases_in(),
            g.bag@.previous == BIRB_START_Y,
            g.obstacles@.len() == 0,
            g.grounds@.len() == 0,
            g.birb is None,
            g.rival is None,
    {
        let bag = NextGapBag::new(GAP_START_MIN_Y..GAP_START_MAX_Y, BIRB_START_Y, seeded_rng(gap_seed));
        Game {
            state: AppState::Loading,
            score: Score::default(),
            speed: Speed::default(),
            distance: DistanceToSpawn::default(),
            spacing: ObstacleSpacing::default(),
            bag,
            obstacles: Vec::new(),
            grounds: Vec::new(),
            birb: None,
            rival: None,
            next_id: 0,
            terrain_rng: seeded_rng(terrain_seed),
        }
    }

    /// Starts a new run's counters afresh and removes the obstacles, the
    /// player and the rival. The gap walk goes on where it stood.
    pub fn reset(&mut self)
        requires
            old(self).wf(),
        ensures
            final(self).wf(),
            final(self).score.0 == 0,
            final(self).speed == (Speed { current: DEFAULT_SPEED, max: DEFAULT_MAX_SPEED }),
            final(self).distance.0 == 0,
            final(self).spacing.0 == DEFAULT_SPACING,
            final(self).obstacles@.len() == 0,
            final(self).birb is None,
            final(self).rival is None,
            final(self).state == old(self).state,
            final(self).bag == old(self).bag,
            final(self).grounds == old(self).grounds,
            final(self).next_id == old(self).next_id,
            final(self).terrain_rng == old(self).terrain_rng,
    {
        self.score = Score::default();
        self.speed = Speed::default();
        self.distance = DistanceToSpawn::default();
        self.spacing = ObstacleSpacing::default();
        self.obstacles = Vec::new();
        self.birb = None;
        self.rival = None;
    }

    /// When the countdown has run out, restarts it, speeds the scroll up a
    /// step, draws the next gap and places a new obstacle group around it
    /// at the spawn line.
    pub fn spawn_obstacle(&mut self) -> (r: Option<ObstacleGroup>)
        requires
            old(self).wf(),
        ensures
            final(self).wf(),
            old(self).distance.0 > 0 ==> r is None && *final(self) == *old(self),
            old(self).distance.0 <= 0 ==> {
                &&& r matches Some(g)
                &&& old(self).bag@.steps_to(final(self).bag@, g.gap_start as int)
                &&& g == obstacle_layout(old(self).next_id, OBSTACLE_SPAWN_X, g.gap_start)
                &&& g.wf()
                &&& final(self).obstacles@ == old(self).obstacles@.push(g)
                &&& final(self).distance.0 == old(self).spacing.0
                &&& final(self).speed.max == old(self).speed.max
                &&& final(self).speed.current == if old(self).speed.current + SPEED_STEP
                    <= old(self).speed.max {
                    old(self).speed.current + SPEED_STEP
                } else {
                    old(self).speed.max as int
                }
                &&& final(self).next_id == old(self).next_id.wrapping_add(1)
                &&& final(self).state == old(self).state
                &&& final(self).score == old(self).score
                &&& final(self).spacing == old(self).spacing
                &&& final(self).grounds == old(self).grounds
                &&& final(self).birb == old(self).birb
                &&& final(self).rival == old(self).rival
                &&& final(self).terrain_rng == old(self).terrain_rng
            },
    {
        if self.distance.0 > 0 {
            return None;
        }
        self.distance.0 = self.spacing.0;
        self.speed.increase(SPEED_STEP);
        let ghost before = self.bag@;
        let gap_start = self.bag.next();
        proof {
            lemma_step_in_range(before, self.bag@, gap_start as int);
        }
        let group = build_obstacle_group(self.next_id, OBSTACLE_SPAWN_X, gap_start);
        self.obstacles.push(group);
        self.next_id = self.next_id.wrapping_add(1);
        Some(group)
    }
}

/// The chunk that tops up `grounds`: placed a chunk's length past the
/// farthest, or at the origin when there is none, at the chunks' height.
pub open spec fn new_chunk(id: u64, grounds: Seq<Ground>) -> Ground {
    Ground {
        id,
        x: if grounds.len() == 0 {
            0
        } else {
            (grounds[0].x + GROUND_LENGTH) as i64
        },
        y: GROUND_Y,
    }
}

/// The terrain chunks after scrolling `delta`, in the same manner.
pub open spec fn scrolled_grounds(s: Seq<Ground>, delta: int) -> Seq<Ground>
    decreases s.len(),
{
    if s.len() == 0 {
        s
    } else {
        let rest = scrolled_grounds(s.drop_last(), delta);
        let g = s.last();
        if g.x - delta >= GROUND_DESPAWN_X {
            rest.push(Ground { x: (g.x - delta) as i64, ..g })
        } else {
            rest
        }
    }
}

proof fn lemma_scrolled_grounds_wf(chunks: Seq<Ground>, delta: int)
    requires
        grounds_wf(chunks),
        delta >= 0,
    ensures
        grounds_wf(scrolled_grounds(chunks, delta)),
{
    reveal_with_fuel(scrolled_grounds, 3);
    if chunks.len() == 1 {
        assert(chunks.drop_last() =~= Seq::<Ground>::empty());
    } else if chunks.len() == 2 {
        assert(chunks.drop_last().drop_last() =~= Seq::<Ground>::empty());
        assert(chunks.drop_last()[0] == chunks[0]);
        assert(chunks[0].x <= 0);
        assert(chunks[1].x == chunks[0].x + GROUND_LENGTH);
    }
}

impl Game {
    /// Scrolls every obstacle group by the frame's distance, drops the
    /// groups that pass the removal line, and counts the distance off the
    /// spawn countdown.
    pub fn obstacle_movement(&mut self, dt_micros: u64)
        requires
            old(self).wf(),
            dt_micros <= MAX_FRAME_MICROS,
            old(self).distance.0 - scroll_delta(dt_micros as int, old(self).speed.current as int)
                >= -DISTANCE_LIMIT,
        ensures
            final(self).wf(),
            final(self).obstacles@ == scrolled_obstacles(
                old(self).obstacles@,
                scroll_delta(dt_micros as int, old(self).speed.current as int),
            ),
            final(self).distance.0 == old(self).distance.0 - scroll_delta(
                dt_micros as int,
                old(self).speed.current as int,
            ),
            final(self).state == old(self).state,
            final(self).score == old(self).score,
            final(self).speed == old(self).speed,
            final(self).spacing == old(self).spacing,
            final(self).bag == old(self).bag,
            final(self).grounds == old(self).grounds,
            final(self).birb == old(self).birb,
            final(self).rival == old(self).rival,
            final(self).next_id == old(self).next_id,
            final(self).terrain_rng == old(self).terrain_rng,
    {
        let delta = frame_delta(dt_micros, self.speed.current);
        self.distance.0 = self.distance.0 - delta;
        let ghost groups = self.obstacles@;
        let mut kept: Vec<ObstacleGroup> = Vec::new();
        let mut i: usize = 0;
        while i < self.obstacles.len()
            invariant
                self.obstacles@ == groups,
                0 <= delta <= SPEED_LIMIT * (MAX_FRAME_MICROS / MICROS_PER_SECOND),
                forall|j: int| 0 <= j < groups.len() ==> (#[trigger] groups[j]).wf(),
                i <= groups.len(),
                kept@ == scrolled_obstacles(groups.take(i as int), delta as int),
                forall|j: int| 0 <= j < kept@.len() ==> (#[trigger] kept@[j]).wf(),
            decreases groups.len() - i,
        {
            let g = self.obstacles[i];
            proof {
                assert(groups.take(i + 1).drop_last() =~= groups.take(i as int));
                assert(groups.take(i + 1).last() == g);
                assert(g.wf());
            }
            if g.x - delta >= OBSTACLE_DESPAWN_X {
                kept.push(ObstacleGroup { x: g.x - delta, ..g });
            }
            i = i + 1;
        }
        proof {
            assert(groups.take(groups.len() as int) =~= groups);
        }
        self.obstacles = kept;
    }

    /// Scrolls every terrain chunk by the frame's distance and drops the
    /// chunks that pass the removal line.
    pub fn ground_movement(&mut self, dt_micros: u64)
        requires
            old(self).wf(),
            dt_micros <= MAX_FRAME_MICROS,
        ensures
            final(self).wf(),
            final(self).grounds@ == scrolled_grounds(
                old(self).grounds@,
                scroll_delta(dt_micros as int, old(self).speed.current as int),
            ),
            final(self).state == old(self).state,
            final(self).score == old(self).score,
            final(self).speed == old(self).speed,
            final(self).distance == old(self).distance,
            final(self).spacing == old(self).spacing,
            final(self).bag == old(self).bag,
            final(self).obstacles == old(self).obstacles,
            final(self).birb == old(self).birb,
            final(self).rival == old(self).rival,
            final(self).next_id == old(self).next_id,
            final(self).terrain_rng == old(self).terrain_rng,
    {
        let delta = frame_delta(dt_micros, self.speed.current);
        let ghost chunks = self.grounds@;
        let mut kept: Vec<Ground> = Vec::new();
        let mut i: usize = 0;
        while i < self.grounds.len()
            invariant
                self.grounds@ == chunks,
                grounds_wf(chunks),
                0 <= delta <= SPEED_LIMIT * (MAX_FRAME_MICROS / MICROS_PER_SECOND),
                i <= chunks.len(),
                kept@ == scrolled_grounds(chunks.take(i as int), delta as int),
            decreases chunks.len() - i,
        {
            let g = self.grounds[i];
            proof {
                assert(chunks.take(i + 1).drop_last() =~= chunks.take(i as int));
                assert(chunks.take(i + 1).last() == g);
            }
            if g.x - delta >= GROUND_DESPAWN_X {
                kept.push(Ground { x: g.x - delta, ..g });
            }
            i = i + 1;
        }
        proof {
            assert(chunks.take(chunks.len() as int) =~= chunks);
            lemma_scrolled_grounds_wf(chunks, delta as int);
        }
        self.grounds = kept;
    }

    /// Keeps two terrain chunks alive: while fewer are placed, places one
    /// more a chunk's length past the farthest (at the origin when there is
    /// none), and hands back its mesh.
    pub fn spawn_ground(&mut self) -> (r: Option<GroundBundle>)
        requires
            old(self).wf(),
        ensures
            final(self).wf(),
            old(self).grounds@.len() >= 2 ==> r is None && *final(self) == *old(self),
            old(self).grounds@.len() < 2 ==> {
                &&& r matches Some(chunk)
                &&& chunk.ground == new_chunk(old(self).next_id, old(self).grounds@)
                &&& chunk.mesh.is_strip(
                    GROUND_LENGTH as int,
                    GROUND_WIDTH as int,
                    GROUND_VERTICES_X as int,
                    GROUND_VERTICES_Z as int,
                )
                &&& final(self).grounds@ == old(self).grounds@.push(chunk.ground)
                &&& final(self).next_id == old(self).next_id.wrapping_add(1)
                &&& final(self).state == old(self).state
                &&& final(self).score == old(self).score
                &&& final(self).speed == old(self).speed
                &&& final(self).distance == old(self).distance
                &&& final(self).spacing == old(self).spacing
                &&& final(self).bag == old(self).bag
                &&& final(self).obstacles == old(self).obstacles
                &&& final(self).birb == old(self).birb
                &&& final(self).rival == old(self).rival
            },
    {
        if self.grounds.len() >= 2 {
            return None;
        }
        let x = if self.grounds.len() == 0 {
            0
        } else {
            self.grounds[0].x + GROUND_LENGTH
        };
        let bundle = GroundBundle::new(self.next_id, x, &mut self.terrain_rng);
        self.grounds.push(bundle.ground);
        self.next_id = self.next_id.wrapping_add(1);
        Some(bundle)
    }
}

/// How many of the groups score against `bw`.
pub open spec fn count_scoring(s: Seq<ObstacleGroup>, bw: Aabb) -> nat
    decreases s.len(),
{
    if s.len() == 0 {
        0
    } else {
        count_scoring(s.drop_last(), bw) + if scores_on(s.last(), bw) {
            1nat
        } else {
            0nat
        }
    }
}

pub open spec fn min_int(a: int, b: int) -> int {
    if a <= b { a } else { b }
}

/// The events of a collision pass: one increment for each zone that
/// scored, then a crash if there was one.
pub open spec fn collision_events(scored: nat, crashed: bool) -> Seq<GameEvent> {
    Seq::new(scored, |i: int| GameEvent::ScoreIncrement(GAP_SCORE)) + if crashed {
        seq![GameEvent::CrashDetected]
    } else {
        Seq::empty()
    }
}

/// Once a collision pass has marked the zones that the player's box
/// overlaps, no further pass with the box where it stands scores again.
pub proof fn lemma_score_at_most_once(s: Seq<ObstacleGroup>, bw: Aabb)
    ensures
        count_scoring(scored_groups(s, bw), bw) == 0,
    decreases s.len(),
{
    if s.len() > 0 {
        lemma_score_at_most_once(s.drop_last(), bw);
        assert(scored_groups(s, bw).drop_last() =~= scored_groups(s.drop_last(), bw));
    }
}

impl Game {
    /// Tests the player's box against the obstacles. Every unused score
    /// zone it overlaps is marked used and earns `GAP_SCORE` points; the
    /// first solid piece it touches ends the run, and no further piece is
    /// tested.
    pub fn collision(&mut self) -> (events: Vec<GameEvent>)
        requires
            old(self).wf(),
            old(self).birb is Some,
        ensures
            final(self).wf(),
            ({
                let bw = old(self).birb.unwrap().world_box();
                let scored = count_scoring(old(self).obstacles@, bw);
                let crashed = crashes(old(self).obstacles@, bw);
                &&& final(self).obstacles@ == scored_groups(old(self).obstacles@, bw)
                &&& final(self).score.0 == min_int(
                    old(self).score.0 + GAP_SCORE * scored,
                    u32::MAX as int,
                )
                &&& events@ == collision_events(scored, crashed)
                &&& final(self).state == if crashed && old(self).state == AppState::Playing {
                    AppState::EndScreen
                } else {
                    old(self).state
                }
            }),
            final(self).speed == old(self).speed,
            final(self).distance == old(self).distance,
            final(self).spacing == old(self).spacing,
            final(self).bag == old(self).bag,
            final(self).grounds == old(self).grounds,
            final(self).birb == old(self).birb,
            final(self).rival == old(self).rival,
            final(self).next_id == old(self).next_id,
            final(self).terrain_rng == old(self).terrain_rng,
    {
        let birb = self.birb.unwrap();
        let bw = birb.hitbox.translated(birb.translation);
        let ghost groups = self.obstacles@;
        let mut events: Vec<GameEvent> = Vec::new();
        let mut updated: Vec<ObstacleGroup> = Vec::new();
        let mut score = self.score.0;
        let mut i: usize = 0;
        while i < self.obstacles.len()
            invariant
                self.obstacles@ == groups,
                bw == birb.world_box(),
                bw.wf(),
                forall|j: int| 0 <= j < groups.len() ==> (#[trigger] groups[j]).wf(),
                i <= groups.len(),
                updated@ =~= scored_groups(groups.take(i as int), bw),
                score == min_int(
                    old(self).score.0 + GAP_SCORE * count_scoring(groups.take(i as int), bw),
                    u32::MAX as int,
                ),
                events@ =~= collision_events(count_scoring(groups.take(i as int), bw), false),
            decreases groups.len() - i,
        {
            let g = self.obstacles[i];
            proof {
                assert(groups.take(i + 1).drop_last() =~= groups.take(i as int));
                assert(groups.take(i + 1).last() == g);
            }
            let zone = g.score_zone.translated(Vec3 { x: g.x, y: 0, z: 0 });
            let hit = collide_aabb(&zone, &bw);
            if !g.score_used && hit {
                score = score.saturating_add(GAP_SCORE);
                events.push(GameEvent::ScoreIncrement(GAP_SCORE));
            }
            updated.push(ObstacleGroup { score_used: g.score_used || hit, ..g });
            i = i + 1;
        }
        proof {
            assert(groups.take(groups.len() as int) =~= groups);
            assert forall|k: int| 0 <= k < updated@.len() implies (#[trigger] updated@[k]).wf() by {
                assert(groups[k].wf());
            }
        }
        self.obstacles = updated;
        self.score.0 = score;

        let mut crashed = false;
        let mut j: usize = 0;
        while j < self.obstacles.len() && !crashed
            invariant
                self.obstacles@ == scored_groups(groups, bw),
                bw.wf(),
                forall|k: int| 0 <= k < groups.len() ==> (#[trigger] groups[k]).wf(),
                j <= groups.len(),
                crashed ==> crashes(groups, bw),
                !crashed ==> forall|k: int| 0 <= k < j ==> !hits_group(#[trigger] groups[k], bw),
            decreases groups.len() - j + if crashed {
                0int
            } else {
                1int
            },
        {
            let g = self.obstacles[j];
            proof {
                assert(groups[j as int].wf());
            }
            if group_collides(&g, &bw) {
                crashed = true;
            } else {
                j = j + 1;
            }
        }
        if crashed {
            events.push(GameEvent::CrashDetected);
            if self.state == AppState::Playing {
                self.state = AppState::EndScreen;
            }
        }
        proof {
            assert(events@ =~= collision_events(count_scoring(groups, bw), crashed));
        }
        events
    }
}

impl Game {
    /// Moves the player's target one step up or down, within the travel
    /// bounds; without a player nothing happens.
    pub fn update_target_position(&mut self, up: bool) -> (event: Option<GameEvent>)
        requires
            old(self).wf(),
        ensures
            final(self).wf(),
            match old(self).birb {
                None => event is None && *final(self) == *old(self),
                Some(b) => {
                    let (y, e) = step_target(b.target.y as int, up);
                    &&& event == Some(e)
                    &&& final(self).birb == Some(Birb { target: Vec3 { y: y as i64, ..b.target }, ..b })
                    &&& final(self).state == old(self).state
                    &&& final(self).score == old(self).score
                    &&& final(self).speed == old(self).speed
                    &&& final(self).distance == old(self).distance
                    &&& final(self).spacing == old(self).spacing
                    &&& final(self).bag == old(self).bag
                    &&& final(self).obstacles == old(self).obstacles
                    &&& final(self).grounds == old(self).grounds
                    &&& final(self).rival == old(self).rival
                    &&& final(self).next_id == old(self).next_id
                    &&& final(self).terrain_rng == old(self).terrain_rng
                },
            },
    {
        match self.birb {
            None => None,
            Some(b) => {
                let (y, event) = if up {
                    if b.target.y + TARGET_STEP > BIRB_MAX_Y {
                        (BIRB_MAX_Y, GameEvent::BumpAtBoundary)
                    } else {
                        (b.target.y + TARGET_STEP, GameEvent::Flap)
                    }
                } else {
                    if b.target.y - TARGET_STEP < BIRB_MIN_Y {
                        (BIRB_MIN_Y, GameEvent::BumpAtBoundary)
                    } else {
                        (b.target.y - TARGET_STEP, GameEvent::Flap)
                    }
                };
                self.birb = Some(Birb { target: Vec3 { y, ..b.target }, ..b });
                Some(event)
            },
        }
    }

    /// Adds points to the score, which stops at its largest value.
    pub fn update_score(&mut self, inc: u32)
        requires
            old(self).wf(),
        ensures
            final(self).wf(),
            final(self).score.0 == min_int(old(self).score.0 + inc, u32::MAX as int),
            final(self).state == old(self).state,
            final(self).speed == old(self).speed,
            final(self).distance == old(self).distance,
            final(self).spacing == old(self).spacing,
            final(self).bag == old(self).bag,
            final(self).obstacles == old(self).obstacles,
            final(self).grounds == old(self).grounds,
            final(self).birb == old(self).birb,
            final(self).rival == old(self).rival,
            final(self).next_id == old(self).next_id,
            final(self).terrain_rng == old(self).terrain_rng,
    {
        self.score.0 = self.score.0.saturating_add(inc);
    }

    /// Moves the player one frame toward its target.
    pub fn movement(&mut self, dt_micros: u64)
        requires
            old(self).wf(),
            dt_micros <= MAX_FRAME_MICROS,
        ensures
            final(self).wf(),
            final(self).birb == match old(self).birb {
                None => None,
                Some(b) => Some(birb_after_move(b, dt_micros as int)),
            },
            final(self).state == old(self).state,
            final(self).score == old(self).score,
            final(self).speed == old(self).speed,
            final(self).distance == old(self).distance,
            final(self).spacing == old(self).spacing,
            final(self).bag == old(self).bag,
            final(self).obstacles == old(self).obstacles,
            final(self).grounds == old(self).grounds,
            final(self).rival == old(self).rival,
            final(self).next_id == old(self).next_id,
            final(self).terrain_rng == old(self).terrain_rng,
    {
        match self.birb {
            None => {},
            Some(b) => {
                self.birb = Some(move_birb(b, dt_micros));
            },
        }
    }
}

/// Whether `action` does anything beyond a report in state `st`: `Start`
/// on the start screen, `Retry` on the end screen, and the player's
/// commands and score increments in play.
pub open spec fn acts_in(st: AppState, action: Action) -> bool {
    match action {
        Action::Start => st == AppState::StartScreen,
        Action::Retry => st == AppState::EndScreen,
        Action::BirbUp | Action::BirbDown | Action::IncScore(_) => st == AppState::Playing,
        _ => false,
    }
}

/// The state that `action` leads to from `st`.
pub open spec fn state_after_action(st: AppState, action: Action) -> AppState {
    if st == AppState::StartScreen && action == Action::Start {
        AppState::Playing
    } else if st == AppState::EndScreen && action == Action::Retry {
        AppState::StartScreen
    } else {
        st
    }
}

/// The state after the commands `actions`, taken in order from `st`.
pub open spec fn state_after_actions(st: AppState, actions: Seq<Action>) -> AppState
    decreases actions.len(),
{
    if actions.len() == 0 {
        st
    } else {
        state_after_action(state_after_actions(st, actions.drop_last()), actions.last())
    }
}

impl Game {
    /// Places the player at its start position, facing level.
    pub fn spawn_birb(&mut self)
        requires
            old(self).wf(),
        ensures
            final(self).wf(),
            *final(self) == (Game { birb: Some(fresh_birb()), ..*old(self) }),
    {
        let pos = Vec3 { x: 0, y: BIRB_START_Y, z: 0 };
        let hitbox = Aabb {
            min: Vec3 { x: -BIRB_HALF_X, y: -BIRB_HALF_Y, z: -BIRB_HALF_Z },
            max: Vec3 { x: BIRB_HALF_X, y: BIRB_HALF_Y, z: BIRB_HALF_Z },
        };
        self.birb = Some(Birb { translation: pos, target: pos, tilt: 0, hitbox });
    }

    /// Places the rival behind the player.
    pub fn spawn_rival(&mut self)
        requires
            old(self).wf(),
        ensures
            final(self).wf(),
            *final(self) == (Game { rival: Some(fresh_rival()), ..*old(self) }),
    {
        self.rival = Some(Rival { translation: Vec3 { x: RIVAL_START_X, y: RIVAL_BASE_Y, z: RIVAL_Z } });
    }

    /// On the start screen the player floats at `bob` above its start
    /// height (the display supplies the wave), and its target follows it.
    pub fn start_screen_movement(&mut self, bob: i64)
        requires
            old(self).wf(),
            -BOB_LIMIT <= bob <= BOB_LIMIT,
        ensures
            final(self).wf(),
            *final(self) == match old(self).birb {
                None => *old(self),
                Some(b) => {
                    let pos = Vec3 { y: (BIRB_START_Y + bob) as i64, ..b.translation };
                    Game { birb: Some(Birb { translation: pos, target: pos, ..b }), ..*old(self) }
                },
            },
    {
        match self.birb {
            None => {},
            Some(b) => {
                let pos = Vec3 { y: BIRB_START_Y + bob, ..b.translation };
                self.birb = Some(Birb { translation: pos, target: pos, ..b });
            },
        }
    }

    /// The rival flies forward at `RIVAL_SPEED` until it reaches
    /// `RIVAL_STOP_X`, floating at `bob` above its base height.
    pub fn rival_movement(&mut self, dt_micros: u64, bob: i64)
        requires
            old(self).wf(),
            dt_micros <= MAX_FRAME_MICROS,
            -BOB_LIMIT <= bob <= BOB_LIMIT,
        ensures
            final(self).wf(),
            *final(self) == (Game { rival: rival_after_move(old(self).rival, dt_micros as int, bob as int), ..*old(self) }),
    {
        match self.rival {
            None => {},
            Some(r) => {
                let x = if r.translation.x < RIVAL_STOP_X {
                    r.translation.x + frame_delta(dt_micros, RIVAL_SPEED)
                } else {
                    r.translation.x
                };
                self.rival = Some(
                    Rival { translation: Vec3 { x, y: RIVAL_BASE_Y + bob, ..r.translation } },
                );
            },
        }
    }

    /// Loading is over: the start screen opens with a first terrain chunk
    /// at the origin and the player in place. In any other state nothing
    /// happens.
    pub fn finish_loading(&mut self) -> (r: Option<GroundBundle>)
        requires
            old(self).wf(),
        ensures
            final(self).wf(),
            old(self).state != AppState::Loading ==> r is None && *final(self) == *old(self),
            old(self).state == AppState::Loading && old(self).grounds@.len() >= 2 ==> r is None
                && *final(self) == (Game {
                state: AppState::StartScreen,
                birb: Some(fresh_birb()),
                ..*old(self)
            }),
            old(self).state == AppState::Loading && old(self).grounds@.len() < 2 ==> {
                &&& r matches Some(chunk)
                &&& chunk.ground == new_chunk(old(self).next_id, old(self).grounds@)
                &&& chunk.mesh.is_strip(
                    GROUND_LENGTH as int,
                    GROUND_WIDTH as int,
                    GROUND_VERTICES_X as int,
                    GROUND_VERTICES_Z as int,
                )
                &&& final(self).grounds@ == old(self).grounds@.push(chunk.ground)
                &&& final(self).next_id == old(self).next_id.wrapping_add(1)
                &&& final(self).state == AppState::StartScreen
                &&& final(self).birb == Some(fresh_birb())
                &&& final(self).score == old(self).score
                &&& final(self).speed == old(self).speed
                &&& final(self).distance == old(self).distance
                &&& final(self).spacing == old(self).spacing
                &&& final(self).bag == old(self).bag
                &&& final(self).obstacles == old(self).obstacles
                &&& final(self).rival == old(self).rival
            },
    {
        if self.state != AppState::Loading {
            return None;
        }
        self.state = AppState::StartScreen;
        let chunk = self.spawn_ground();
        self.spawn_birb();
        chunk
    }

    /// On the start screen, a `Start` command begins play and brings in
    /// the rival. Elsewhere nothing happens.
    pub fn start_game(&mut self)
        requires
            old(self).wf(),
        ensures
            final(self).wf(),
            *final(self) == if old(self).state == AppState::StartScreen {
                Game { state: AppState::Playing, rival: Some(fresh_rival()), ..*old(self) }
            } else {
                *old(self)
            },
    {
        if self.state == AppState::StartScreen {
            self.state = AppState::Playing;
            self.spawn_rival();
        }
    }

    /// On the end screen, a `Retry` command resets the run and returns to
    /// the start screen with a fresh player. Elsewhere nothing happens.
    pub fn retry_game(&mut self)
        requires
            old(self).wf(),
        ensures
            final(self).wf(),
            old(self).state != AppState::EndScreen ==> *final(self) == *old(self),
            old(self).state == AppState::EndScreen ==> {
                &&& final(self).state == AppState::StartScreen
                &&& final(self).score.0 == 0
                &&& final(self).speed == (Speed { current: DEFAULT_SPEED, max: DEFAULT_MAX_SPEED })
                &&& final(self).distance.0 == 0
                &&& final(self).spacing.0 == DEFAULT_SPACING
                &&& final(self).obstacles@.len() == 0
                &&& final(self).birb == Some(fresh_birb())
                &&& final(self).rival is None
                &&& final(self).bag == old(self).bag
                &&& final(self).grounds == old(self).grounds
            },
    {
        if self.state == AppState::EndScreen {
            self.reset();
            self.state = AppState::StartScreen;
            self.spawn_birb();
        }
    }

    /// Takes in one command. On the start screen `Start` begins play; on
    /// the end screen `Retry` starts over; in play, up and down move the
    /// player's target and `IncScore` adds points; a bad key is reported in
    /// every state but loading. Any other command is ignored.
    pub fn handle_action(&mut self, action: Action) -> (event: Option<GameEvent>)
        requires
            old(self).wf(),
        ensures
            final(self).wf(),
            ({
                let st = old(self).state;
                match action {
                    Action::Start => st == AppState::StartScreen ==> final(self).state
                        == AppState::Playing,
                    Action::Retry => st == AppState::EndScreen ==> final(self).state
                        == AppState::StartScreen,
                    Action::BadFlap => event == if st == AppState::Loading {
                        None
                    } else {
                        Some(GameEvent::BadInput)
                    },
                    Action::IncScore(n) => st == AppState::Playing ==> final(self).score.0
                        == min_int(old(self).score.0 + n, u32::MAX as int),
                    Action::BirbUp => st == AppState::Playing ==> (old(self).birb matches Some(b)
                        ==> (event == Some(step_target(b.target.y as int, true).1)
                        && final(self).birb.unwrap().target.y == step_target(
                        b.target.y as int,
                        true,
                    ).0)),
                    Action::BirbDown => st == AppState::Playing ==> (old(self).birb matches Some(b)
                        ==> (event == Some(step_target(b.target.y as int, false).1)
                        && final(self).birb.unwrap().target.y == step_target(
                        b.target.y as int,
                        false,
                    ).0)),
                    Action::NewWord(_) => *final(self) == *old(self) && event is None,
                }
            }),
            final(self).state == state_after_action(old(self).state, action),
            !acts_in(old(self).state, action) ==> *final(self) == *old(self) && event == if action
                == Action::BadFlap && old(self).state != AppState::Loading {
                Some(GameEvent::BadInput)
            } else {
                None
            },
            final(self).state == AppState::Playing && old(self).state == AppState::Playing ==> (
            final(self).score.0 >= old(self).score.0),
    {
        match action {
            Action::Start => {
                if self.state == AppState::StartScreen {
                    self.start_game();
                }
                None
            },
            Action::Retry => {
                if self.state == AppState::EndScreen {
                    self.retry_game();
                }
                None
            },
            Action::BadFlap => {
                if self.state == AppState::Loading {
                    None
                } else {
                    Some(GameEvent::BadInput)
                }
            },
            Action::BirbUp => {
                if self.state == AppState::Playing {
                    self.update_target_position(true)
                } else {
                    None
                }
            },
            Action::BirbDown => {
                if self.state == AppState::Playing {
                    self.update_target_position(false)
                } else {
                    None
                }
            },
            Action::IncScore(n) => {
                if self.state == AppState::Playing {
                    self.update_score(n);
                }
                None
            },
            Action::NewWord(_) => None,
        }
    }
}

/// The rival after a frame of `dt_micros`: it flies forward at
/// `RIVAL_SPEED` until it reaches `RIVAL_STOP_X`, floating at `bob` above
/// its base height.
pub open spec fn rival_after_move(rival: Option<Rival>, dt_micros: int, bob: int) -> Option<Rival> {
    match rival {
        None => None,
        Some(r) => {
            let x = if r.translation.x < RIVAL_STOP_X {
                r.translation.x + scroll_delta(dt_micros, RIVAL_SPEED as int)
            } else {
                r.translation.x as int
            };
            Some(Rival { translation: Vec3 { x: x as i64, y: (RIVAL_BASE_Y + bob) as i64, ..r.translation } })
        },
    }
}

/// The speed after a spawn: one step up, never past the maximum.
pub open spec fn speed_after_spawn(s: Speed) -> Speed {
    Speed {
        current: if s.current + SPEED_STEP <= s.max {
            (s.current + SPEED_STEP) as i64
        } else {
            s.max
        },
        max: s.max,
    }
}

/// `post` is a game that one frame of play of `dt_micros` from `pre` may
/// leave, with `events` reported, `spawned` the obstacle group placed and
/// `ground` the terrain chunk placed. The player moves first and its new
/// hitbox is judged against the groups: zones it enters score, a solid piece
/// it touches ends the run. When the countdown has run out, the speed goes
/// up a step and a group is placed at the spawn line around the walk's next
/// gap. Everything then scrolls at the (new) speed, groups and chunks past
/// the removal lines are dropped, and a chunk is added while fewer than two
/// remain. Only the gap is left open: it is any step of the walk.
pub open spec fn plays_frame(
    pre: Game,
    post: Game,
    dt_micros: int,
    rival_bob: int,
    events: Seq<GameEvent>,
    spawned: Option<ObstacleGroup>,
    ground: Option<Ground>,
) -> bool {
    let birb = match pre.birb {
        Some(b) => Some(birb_after_move(b, dt_micros)),
        None => None,
    };
    let (groups, scored, crashed) = match birb {
        Some(b) => (
            scored_groups(pre.obstacles@, b.world_box()),
            count_scoring(pre.obstacles@, b.world_box()),
            crashes(pre.obstacles@, b.world_box()),
        ),
        None => (pre.obstacles@, 0nat, false),
    };
    let spawning = pre.distance.0 <= 0;
    let speed = if spawning {
        speed_after_spawn(pre.speed)
    } else {
        pre.speed
    };
    let delta = scroll_delta(dt_micros, speed.current as int);
    let chunks = scrolled_grounds(pre.grounds@, delta);
    let id = if spawning {
        pre.next_id.wrapping_add(1)
    } else {
        pre.next_id
    };
    &&& post.birb == birb
    &&& post.rival == rival_after_move(pre.rival, dt_micros, rival_bob)
    &&& post.state == if crashed {
        AppState::EndScreen
    } else {
        AppState::Playing
    }
    &&& post.score.0 == min_int(pre.score.0 + GAP_SCORE * scored, u32::MAX as int)
    &&& events == collision_events(scored, crashed)
    &&& post.speed == speed
    &&& post.spacing == pre.spacing
    &&& (spawned is Some <==> spawning)
    &&& spawning ==> {
        &&& spawned matches Some(g)
        &&& g == obstacle_layout(pre.next_id, OBSTACLE_SPAWN_X, g.gap_start)
        &&& pre.bag@.steps_to(post.bag@, g.gap_start as int)
        &&& post.obstacles@ == scrolled_obstacles(groups.push(g), delta)
        &&& post.distance.0 == pre.spacing.0 - delta
    }
    &&& !spawning ==> {
        &&& post.bag == pre.bag
        &&& post.obstacles@ == scrolled_obstacles(groups, delta)
        &&& post.distance.0 == pre.distance.0 - delta
    }
    &&& if chunks.len() < 2 {
        &&& ground == Some(new_chunk(id, chunks))
        &&& post.grounds@ == chunks.push(new_chunk(id, chunks))
        &&& post.next_id == id.wrapping_add(1)
    } else {
        &&& ground is None
        &&& post.grounds@ == chunks
        &&& post.next_id == id
    }
}

/// A frame of play whose countdown has run out, as at the start of every
/// run, places an obstacle group whose pipes and gap fill the whole span.
pub proof fn lemma_spawning_frame(
    pre: Game,
    post: Game,
    dt_micros: int,
    rival_bob: int,
    events: Seq<GameEvent>,
    spawned: Option<ObstacleGroup>,
    ground: Option<Ground>,
)
    requires
        pre.wf(),
        pre.distance.0 <= 0,
        plays_frame(pre, post, dt_micros, rival_bob, events, spawned, ground),
    ensures
        spawned matches Some(g) && g.bottom_pipe.cylinder.height + GAP_SIZE
            + g.top_pipe.cylinder.height == TOTAL_SPAN && g.wf(),
{
    let g = spawned.unwrap();
    lemma_step_in_range(pre.bag@, post.bag@, g.gap_start as int);
    crate::obstacle::lemma_group_fills_span(g);
}

/// What one frame hands to the display and sound around the game.
pub struct FrameReport {
    pub events: Vec<GameEvent>,
    /// The obstacle group placed in this frame, if any.
    pub spawned_obstacle: Option<ObstacleGroup>,
    /// The terrain chunk placed in this frame, if any, with its mesh.
    pub spawned_ground: Option<GroundBundle>,
}

fn append_events(events: &mut Vec<GameEvent>, more: Vec<GameEvent>)
    ensures
        final(events)@ == old(events)@ + more@,
{
    let mut more = more;
    events.append(&mut more);
}

impl Game {
    /// One frame of play of `dt_micros`, as `plays_frame` describes it:
    /// the player moves, the collisions are judged, a due obstacle group is
    /// spawned, the world scrolls and recycles, the terrain is topped up,
    /// and the rival moves, floating at `rival_bob`.
    pub fn play(&mut self, dt_micros: u64, rival_bob: i64) -> (r: FrameReport)
        requires
            old(self).wf(),
            old(self).state == AppState::Playing,
            dt_micros <= MAX_FRAME_MICROS,
            -BOB_LIMIT <= rival_bob <= BOB_LIMIT,
        ensures
            final(self).wf(),
            plays_frame(
                *old(self),
                *final(self),
                dt_micros as int,
                rival_bob as int,
                r.events@,
                r.spawned_obstacle,
                match r.spawned_ground {
                    Some(b) => Some(b.ground),
                    None => None,
                },
            ),
            r.spawned_ground matches Some(b) ==> b.mesh.is_strip(
                GROUND_LENGTH as int,
                GROUND_WIDTH as int,
                GROUND_VERTICES_X as int,
                GROUND_VERTICES_Z as int,
            ),
    {
        let mut events: Vec<GameEvent> = Vec::new();
        self.movement(dt_micros);
        self.rival_movement(dt_micros, rival_bob);
        if self.birb.is_some() {
            events = self.collision();
        }
        let spawned_obstacle = self.spawn_obstacle();
        proof {
            lemma_scroll_delta_bound(dt_micros as int, self.speed.current as int);
        }
        self.obstacle_movement(dt_micros);
        self.ground_movement(dt_micros);
        let spawned_ground = self.spawn_ground();
        FrameReport { events, spawned_obstacle, spawned_ground }
    }

    /// Runs one frame of `dt_micros`: the commands first, in order, then
    /// what the state they lead to calls for. On the start screen the
    /// player floats at `start_bob`; in play the frame runs as `play` does;
    /// on the end screen the rival moves, floating at `rival_bob`.
    pub fn frame(&mut self, dt_micros: u64, actions: &Vec<Action>, start_bob: i64, rival_bob: i64) -> (r:
        FrameReport)
        requires
            old(self).wf(),
            dt_micros <= MAX_FRAME_MICROS,
            -BOB_LIMIT <= start_bob <= BOB_LIMIT,
            -BOB_LIMIT <= rival_bob <= BOB_LIMIT,
        ensures
            final(self).wf(),
            ({
                let st = state_after_actions(old(self).state, actions@);
                &&& st == AppState::Playing ==> (final(self).state == AppState::Playing
                    || final(self).state == AppState::EndScreen)
                &&& st != AppState::Playing ==> final(self).state == st
                &&& st != AppState::Playing ==> r.spawned_obstacle is None && r.spawned_ground is None
            }),
            actions@.len() == 0 && old(self).state == AppState::Playing ==> plays_frame(
                *old(self),
                *final(self),
                dt_micros as int,
                rival_bob as int,
                r.events@,
                r.spawned_obstacle,
                match r.spawned_ground {
                    Some(b) => Some(b.ground),
                    None => None,
                },
            ),
            actions@.len() == 0 && old(self).state == AppState::EndScreen ==> *final(self) == (Game {
                rival: rival_after_move(old(self).rival, dt_micros as int, rival_bob as int),
                ..*old(self)
            }) && r.events@.len() == 0,
            r.spawned_obstacle matches Some(g) ==> g.wf(),
    {
        let mut events: Vec<GameEvent> = Vec::new();
        let mut i: usize = 0;
        while i < actions.len()
            invariant
                self.wf(),
                i <= actions@.len(),
                self.state == state_after_actions(old(self).state, actions@.take(i as int)),
                actions@.len() == 0 ==> *self == *old(self) && events@.len() == 0,
            decreases actions@.len() - i,
        {
            proof {
                assert(actions@.take(i + 1).drop_last() =~= actions@.take(i as int));
            }
            match self.handle_action(actions[i]) {
                Some(e) => events.push(e),
                None => {},
            }
            i = i + 1;
        }
        proof {
            assert(actions@.take(actions@.len() as int) =~= actions@);
        }
        let mut spawned_obstacle = None;
        let mut spawned_ground = None;
        match self.state {
            AppState::Loading => {},
            AppState::StartScreen => {
                self.start_screen_movement(start_bob);
            },
            AppState::Playing => {
                let played = self.play(dt_micros, rival_bob);
                append_events(&mut events, played.events);
                spawned_obstacle = played.spawned_obstacle;
                spawned_ground = played.spawned_ground;
            },
            AppState::EndScreen => {
                self.rival_movement(dt_micros, rival_bob);
            },
        }
        FrameReport { events, spawned_obstacle, spawned_ground }
    }
}

} // verus!
