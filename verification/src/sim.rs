//! Entities and the per-tick simulation: input intent, kinematics with
//! collision response, and floor transitions.

use vstd::prelude::*;
use crate::coord::{AbsoluteTile, WorldPosition, MAX_NUM_CHUNKS};
use crate::memory::Memory;
use crate::meters::{fixed_mul, isqrt, Meters, FIXED_HALF, FIXED_ONE};
use crate::rng::{rng_seeded, Rng};
use crate::tilemap::{TileMap, TileType};
use crate::vector::Vector2;
use crate::world::{border_expected, border_ok, World};
use crate::{Error, TILE_MAP_COLUMNS, TILE_MAP_ROWS};

verus! {

/// Number of input buttons.
pub const BUTTON_COUNT: usize = 6;

/// Greatest magnitude, in raw fixed-point units, the per-tick acceleration
/// intent handed to the integrator may have on each axis.
pub const ACCEL_LIMIT: i64 = 0x100_0000;

/// Greatest speed, in raw fixed-point units per physical unit of time, an
/// entity can carry on each axis; one tick of integration keeps it.
pub const MAX_AXIS_SPEED: i64 = 1245184;

/// Input intents that drive an entity.
#[derive(Clone, Copy, Debug, PartialEq, Eq, Structural)]
pub enum Button {
    /// Move up.
    Up,
    /// Move down.
    Down,
    /// Move left.
    Left,
    /// Move right.
    Right,
    /// Halve the acceleration.
    DecreaseSpeed,
    /// Multiply the acceleration tenfold.
    IncreaseSpeed,
    /// Number of button kinds; nothing may be added under this value.
    Count,
}

/// The button a dense input index stands for.
pub open spec fn button_of(val: int) -> Button {
    if val == 0 {
        Button::Up
    } else if val == 1 {
        Button::Down
    } else if val == 2 {
        Button::Left
    } else if val == 3 {
        Button::Right
    } else if val == 4 {
        Button::DecreaseSpeed
    } else {
        Button::IncreaseSpeed
    }
}

impl Button {
    /// The button a dense input index stands for.
    pub fn from_usize(val: usize) -> (r: Button)
        requires
            val < BUTTON_COUNT,
        ensures
            r == button_of(val as int),
    {
        if val == 0 {
            Button::Up
        } else if val == 1 {
            Button::Down
        } else if val == 2 {
            Button::Left
        } else if val == 3 {
            Button::Right
        } else if val == 4 {
            Button::DecreaseSpeed
        } else {
            Button::IncreaseSpeed
        }
    }
}

/// The direction an entity faces, for sprite selection.
#[derive(Clone, Copy, Debug, PartialEq, Eq, Structural)]
pub enum PlayerDirection {
    /// Facing the viewer.
    Front,
    /// Facing away from the viewer.
    Back,
    /// Facing left.
    Left,
    /// Facing right.
    Right,
}

/// Collision response policy at a wall, differing only in the reaction
/// constant applied to the velocity component into the wall.
#[derive(Clone, Copy, Debug, PartialEq, Eq, Structural)]
pub enum WallReaction {
    /// Reaction constant one: the component into the wall becomes zero.
    Grind,
    /// Reaction constant two: the component into the wall is reversed.
    Bounce,
}

impl WallReaction {
    /// The reaction constant this policy scales the reflected velocity
    /// component by.
    pub fn reaction(self) -> (r: Meters)
        ensures
            self == WallReaction::Grind ==> r@ == FIXED_ONE,
            self == WallReaction::Bounce ==> r@ == 2 * FIXED_ONE,
    {
        match self {
            WallReaction::Grind => Meters::new(FIXED_ONE),
            WallReaction::Bounce => Meters::new(2 * FIXED_ONE),
        }
    }
}

/// A mobile inhabitant of the world.
#[derive(Clone, Copy, Debug, PartialEq, Eq)]
pub struct Entity {
    /// Where the entity is.
    pub position: WorldPosition,
    /// How fast it moves, per axis.
    pub velocity: Vector2<Meters>,
    /// The direction it faces.
    pub direction: PlayerDirection,
    /// Whether simulation and rendering consider it.
    pub alive: bool,
}

impl Entity {
    /// Well-formed: a canonical position and a speed the integrator keeps.
    pub open spec fn wf(self) -> bool {
        &&& self.position.wf()
        &&& self.position.canonical()
        &&& -MAX_AXIS_SPEED <= self.velocity.x@ <= MAX_AXIS_SPEED
        &&& -MAX_AXIS_SPEED <= self.velocity.y@ <= MAX_AXIS_SPEED
    }
}

/// Simulation state: the entities, the camera, and the random source.
#[derive(Clone, Debug)]
pub struct State {
    /// Entity storage, indexed by entity id; no compaction.
    pub entities: Vec<Entity>,
    /// Index of the next free entity slot.
    pub next_entity: usize,
    /// Camera position: which part of the world is drawn.
    pub camera: WorldPosition,
    /// Random number generator for procedural generation.
    pub rng: Rng,
}

impl State {
    /// Well-formed: entity storage without gaps, every entity well-formed,
    /// and a well-formed camera.
    pub open spec fn wf(self) -> bool {
        &&& self.entities@.len() == self.next_entity
        &&& forall|i: int| 0 <= i < self.entities@.len() ==> (#[trigger] self.entities@[i]).wf()
        &&& self.camera.wf()
    }

    /// The beginning simulation state: one live player resting near the
    /// origin chunk's center, the camera on that chunk, and a random source
    /// seeded and warmed from `seed`.
    pub fn reset(seed: u64) -> (r: State)
        ensures
            r.wf(),
            r.entities@.len() == 1,
            r.entities@[0].position.tile_map_x.chunk_id_spec() == 0,
            r.entities@[0].position.tile_map_x.offset_spec() == 5,
            r.entities@[0].position.tile_map_y.chunk_id_spec() == 0,
            r.entities@[0].position.tile_map_y.offset_spec() == 6,
            r.entities@[0].position.z == 0,
            r.entities@[0].position.tile_rel.x@ == 0,
            r.entities@[0].position.tile_rel.y@ == 0,
            r.entities@[0].velocity.x@ == 0,
            r.entities@[0].velocity.y@ == 0,
            r.entities@[0].direction == PlayerDirection::Front,
            r.entities@[0].alive,
            r.camera.tile_map_x.chunk_id_spec() == 0,
            r.camera.tile_map_x.offset_spec() == TILE_MAP_COLUMNS as int / 2,
            r.camera.tile_map_y.chunk_id_spec() == 0,
            r.camera.tile_map_y.offset_spec() == TILE_MAP_ROWS as int / 2,
            r.camera.z == 0,
            r.camera.tile_rel.x@ == 0,
            r.camera.tile_rel.y@ == 0,
            r.rng == rng_seeded(seed),
    {
        let zero = Meters::new(0);
        let player = Entity {
            position: WorldPosition {
                tile_map_x: AbsoluteTile::from_chunk_offset(
                    0,
                    5,
                    MAX_NUM_CHUNKS,
                    TILE_MAP_COLUMNS as u32,
                ),
                tile_map_y: AbsoluteTile::from_chunk_offset(
                    0,
                    6,
                    MAX_NUM_CHUNKS,
                    TILE_MAP_ROWS as u32,
                ),
                z: 0,
                tile_rel: Vector2 { x: zero, y: zero },
            },
            velocity: Vector2 { x: zero, y: zero },
            direction: PlayerDirection::Front,
            alive: true,
        };
        let camera = WorldPosition {
            tile_map_x: AbsoluteTile::from_chunk_offset(
                0,
                (TILE_MAP_COLUMNS / 2) as u32,
                MAX_NUM_CHUNKS,
                TILE_MAP_COLUMNS as u32,
            ),
            tile_map_y: AbsoluteTile::from_chunk_offset(
                0,
                (TILE_MAP_ROWS / 2) as u32,
                MAX_NUM_CHUNKS,
                TILE_MAP_ROWS as u32,
            ),
            z: 0,
            tile_rel: Vector2 { x: zero, y: zero },
        };
        let mut entities: Vec<Entity> = Vec::new();
        entities.push(player);
        State { entities, next_entity: 1, camera, rng: Rng::new(seed) }
    }
}

/// A recorded input sequence for replay debugging: the button states of
/// each tick, handed out in a loop. The byte snapshot of the arena that
/// accompanies a recording is the platform layer's concern.
#[derive(Clone, Debug)]
pub struct LoopState {
    /// The index of the next input to hand out.
    pub input_index: usize,
    /// The button sequence of the loop.
    pub buttons: Vec<[bool; 6]>,
}

impl LoopState {
    /// Hand out the next recorded input, wrapping at the end of the
    /// recording.
    pub fn next_input(&mut self) -> (r: [bool; 6])
        requires
            old(self).buttons@.len() > 0,
            old(self).input_index < old(self).buttons@.len(),
        ensures
            r == old(self).buttons@[old(self).input_index as int],
            final(self).buttons == old(self).buttons,
            final(self).input_index == (old(self).input_index + 1) as int % (old(self).buttons@.len() as int),
    {
        let index = self.input_index;
        let n = self.buttons.len();
        self.input_index = (self.input_index + 1) % n;
        self.buttons[index]
    }
}

/// The nonnegative integer square root, by the classic recursion on n/4.
pub open spec fn sqrt_nat(n: int) -> int
    decreases n,
{
    if n < 1 {
        0
    } else {
        let s = 2 * sqrt_nat(n / 4);
        if (s + 1) * (s + 1) <= n {
            s + 1
        } else {
            s
        }
    }
}

/// The recursive square root is squeezed between the two neighbouring
/// squares.
pub proof fn lemma_sqrt_nat_bounds(n: int)
    requires
        n >= 0,
    ensures
        0 <= sqrt_nat(n),
        sqrt_nat(n) * sqrt_nat(n) <= n,
        n < (sqrt_nat(n) + 1) * (sqrt_nat(n) + 1),
    decreases n,
{
    if n >= 1 {
        lemma_sqrt_nat_bounds(n / 4);
        let s0 = sqrt_nat(n / 4);
        let s = 2 * s0;
        assert(4 * (n / 4) <= n < 4 * (n / 4) + 4);
        assert(s * s <= n) by (nonlinear_arith)
            requires s == 2 * s0 && s0 * s0 <= n / 4 && 4 * (n / 4) <= n;
        assert((s + 2) * (s + 2) > n) by (nonlinear_arith)
            requires s == 2 * s0 && n / 4 < (s0 + 1) * (s0 + 1) && n < 4 * (n / 4) + 4;
    }
}

/// Two values squeezed between the same neighbouring squares are equal.
pub proof fn lemma_sqrt_unique(n: int, q1: int, q2: int)
    requires
        0 <= q1,
        0 <= q2,
        q1 * q1 <= n,
        n < (q1 + 1) * (q1 + 1),
        q2 * q2 <= n,
        n < (q2 + 1) * (q2 + 1),
    ensures
        q1 == q2,
{
    if q1 < q2 {
        assert(q2 * q2 <= n < (q1 + 1) * (q1 + 1) && q1 + 1 <= q2);
        assert(false) by (nonlinear_arith)
            requires 0 <= q1 + 1 <= q2 && q2 * q2 < (q1 + 1) * (q1 + 1);
    }
    if q2 < q1 {
        assert(false) by (nonlinear_arith)
            requires 0 <= q2 + 1 <= q1 && q1 * q1 < (q2 + 1) * (q2 + 1);
    }
}

/// The acceleration intent after capping its length at one tile side: when
/// the squared length exceeds one, both components are rescaled by the
/// fixed-point reciprocal of the length.
pub open spec fn clamped_accel(a: Vector2<Meters>) -> (int, int) {
    let len2 = fixed_mul(a.x@, a.x@) + fixed_mul(a.y@, a.y@);
    if len2 > FIXED_ONE {
        let q = sqrt_nat(len2 * (FIXED_ONE as int));
        let s = 0x1_0000_0000int / q;
        (fixed_mul(a.x@, s), fixed_mul(a.y@, s))
    } else {
        (a.x@, a.y@)
    }
}

/// The velocity one tick of semi-implicit integration yields on one axis:
/// the clamped intent `ac` is scaled to full speed, damped by the current
/// velocity `v`, and applied over the tick `dt`.
pub open spec fn new_velocity_on_axis(ac: int, v: int, dt: int) -> int {
    v + fixed_mul(18 * ac - v, dt)
}

/// The sub-tile displacement one tick yields on one axis:
/// half the total acceleration times the squared tick, plus the velocity
/// times the tick, each product in fixed point.
pub open spec fn move_delta_on_axis(ac: int, v: int, dt: int) -> int {
    fixed_mul(fixed_mul(18 * ac - v, FIXED_HALF as int), fixed_mul(dt, dt)) + fixed_mul(v, dt)
}

/// The position after integrating one tick and canonicalizing, before any
/// collision test.
pub open spec fn integrated_position(
    pos: WorldPosition,
    ac: (int, int),
    v: Vector2<Meters>,
    dt: int,
) -> WorldPosition {
    let moved = WorldPosition {
        tile_map_x: pos.tile_map_x,
        tile_map_y: pos.tile_map_y,
        z: pos.z,
        tile_rel: Vector2 {
            x: Meters((pos.tile_rel.x@ + move_delta_on_axis(ac.0, v.x@, dt)) as i64),
            y: Meters((pos.tile_rel.y@ + move_delta_on_axis(ac.1, v.y@, dt)) as i64),
        },
    };
    moved.canonicalize_spec()
}

/// The wall-normal reflection axis a rejected move determines: whichever
/// axis changed its in-chunk offset, the vertical axis taking precedence,
/// as a unit-length fixed-point sign vector.
pub open spec fn reflection_of(old_pos: WorldPosition, new_pos: WorldPosition) -> (int, int) {
    let ox = old_pos.tile_map_x.offset_spec();
    let nx = new_pos.tile_map_x.offset_spec();
    let oy = old_pos.tile_map_y.offset_spec();
    let ny = new_pos.tile_map_y.offset_spec();
    if oy < ny {
        (0, -(FIXED_ONE as int))
    } else if oy > ny {
        (0, FIXED_ONE as int)
    } else if ox > nx {
        (-(FIXED_ONE as int), 0)
    } else if ox < nx {
        (FIXED_ONE as int, 0)
    } else {
        (0, 0)
    }
}

/// The velocity after the grind collision response: the component along
/// the reflection axis is removed (reaction constant one).
pub open spec fn reflected_velocity(v: (int, int), refl: (int, int)) -> (int, int) {
    let d = fixed_mul(v.0, refl.0) + fixed_mul(v.1, refl.1);
    (
        v.0 - fixed_mul(fixed_mul(refl.0, d), FIXED_ONE as int),
        v.1 - fixed_mul(fixed_mul(refl.1, d), FIXED_ONE as int),
    )
}

/// Law: collision reflection. Grinding against a wall along a reflection
/// axis zeroes exactly the velocity component along that axis and keeps
/// the other component.
pub proof fn lemma_reflection_grinds(v: (int, int), old_pos: WorldPosition, new_pos: WorldPosition)
    ensures
        reflection_of(old_pos, new_pos).0 != 0 ==> reflected_velocity(
            v,
            reflection_of(old_pos, new_pos),
        ) == (0int, v.1),
        reflection_of(old_pos, new_pos).1 != 0 ==> reflected_velocity(
            v,
            reflection_of(old_pos, new_pos),
        ) == (v.0, 0int),
        reflection_of(old_pos, new_pos) == (0int, 0int) ==> reflected_velocity(
            v,
            reflection_of(old_pos, new_pos),
        ) == v,
{
    let refl = reflection_of(old_pos, new_pos);
    lemma_fixed_mul_one(v.0);
    lemma_fixed_mul_one(v.1);
    lemma_fixed_mul_neg_one(v.0);
    lemma_fixed_mul_neg_one(v.1);
    lemma_fixed_mul_zero(v.0);
    lemma_fixed_mul_zero(v.1);
    let d = fixed_mul(v.0, refl.0) + fixed_mul(v.1, refl.1);
    lemma_fixed_mul_one_left(d);
    lemma_fixed_mul_neg_one_left(d);
    lemma_fixed_mul_one(fixed_mul(refl.0, d));
    lemma_fixed_mul_one(fixed_mul(refl.1, d));
    lemma_fixed_mul_zero_left(d);
}

/// Law: driving into the wall column. Under a well-formed world whose
/// registered maps all hold the generated border pattern, a tick whose
/// integrated position lands in the leftmost column on a row the border
/// walls off (any row outside the centered door rows) is rejected: the
/// entity keeps its position, and the grind zeroes its horizontal
/// velocity. A tick that stays clear of the column keeps the offset at
/// one or more either way — so an entity starting at offset one or more
/// on such a row, moved tick after tick along it, never enters the wall
/// column.
pub proof fn lemma_wall_column_blocks(
    w: World,
    p0: WorldPosition,
    v0: Vector2<Meters>,
    a: Vector2<Meters>,
    dt: int,
    e1: Entity,
)
    requires
        w.wf(),
        p0.wf(),
        tick_outcome(w, p0, v0, a, dt, e1),
        forall|i: int| 0 <= i < w.num_maps() ==> border_ok(#[trigger] w.map_at(i)),
        p0.tile_map_x.offset_spec() >= 1,
        integrated_position(p0, clamped_accel(a), v0, dt).tile_map_y == p0.tile_map_y,
        !(TILE_MAP_ROWS / 2 - 1 <= p0.tile_map_y.offset_spec() <= TILE_MAP_ROWS / 2 + 1),
    ensures
        e1.position.tile_map_x.offset_spec() >= 1,
        integrated_position(p0, clamped_accel(a), v0, dt).tile_map_x.offset_spec() == 0
            ==> e1.position == p0 && e1.velocity.x@ == 0,
{
    let ac = clamped_accel(a);
    let tp = integrated_position(p0, ac, v0, dt);
    let nv = (new_velocity_on_axis(ac.0, v0.x@, dt), new_velocity_on_axis(ac.1, v0.y@, dt));
    let cx = tp.tile_map_x.chunk_id_spec();
    let cy = tp.tile_map_y.chunk_id_spec();
    let yoff = tp.tile_map_y.offset_spec();
    let tile = w.tile_of(cx, cy, tp.z as int, tp.tile_map_x.offset_spec(), yoff);
    if tp.tile_map_x.offset_spec() == 0 {
        // the destination cell sits on the walled border column
        assert(w.has_key(cx, cy, tp.z as int));
        let i = choose|i: int| 0 <= i < w.num_maps() && #[trigger] w.key_is(i, cx, cy, tp.z as int);
        assert(border_ok(w.map_at(i)));
        assert(0 <= yoff < TILE_MAP_ROWS);
        assert(w.map_at(i).tile_at_spec(0, yoff) == border_expected(0, yoff));
        assert(tile == TileType::Wall);
        assert(e1.position == p0);
        // the rejected move's reflection axis is horizontal
        assert(reflection_of(p0, tp) == (-(FIXED_ONE as int), 0int));
        lemma_reflection_grinds(nv, p0, tp);
    } else {
        assert(e1.position.tile_map_x == p0.tile_map_x || e1.position.tile_map_x
            == tp.tile_map_x);
    }
}

/// Multiplying by the fixed-point one on the right is exact.
proof fn lemma_fixed_mul_one(x: int)
    ensures
        fixed_mul(x, FIXED_ONE as int) == x,
{
    vstd::arithmetic::div_mod::lemma_fundamental_div_mod_converse(x * 65536, 65536, x, 0);
}

/// Multiplying by the fixed-point one on the left is exact.
proof fn lemma_fixed_mul_one_left(x: int)
    ensures
        fixed_mul(FIXED_ONE as int, x) == x,
{
    vstd::arithmetic::div_mod::lemma_fundamental_div_mod_converse(65536 * x, 65536, x, 0);
}

/// Multiplying by the fixed-point minus one on the left negates exactly.
proof fn lemma_fixed_mul_neg_one_left(x: int)
    ensures
        fixed_mul(-(FIXED_ONE as int), x) == -x,
{
    assert((-65536) * x == (-x) * 65536) by (nonlinear_arith);
    vstd::arithmetic::div_mod::lemma_fundamental_div_mod_converse((-x) * 65536, 65536, -x, 0);
}

/// Multiplying by the fixed-point minus one on the right negates exactly.
proof fn lemma_fixed_mul_neg_one(x: int)
    ensures
        fixed_mul(x, -(FIXED_ONE as int)) == -x,
{
    assert(x * (-65536) == (-x) * 65536) by (nonlinear_arith);
    vstd::arithmetic::div_mod::lemma_fundamental_div_mod_converse((-x) * 65536, 65536, -x, 0);
}

/// A fixed-point product is bounded by the rescaled product of the
/// factors' bounds.
proof fn lemma_fixed_mul_bound(x: int, y: int, bx: int, by: int)
    requires
        -bx <= x <= bx,
        0 <= y <= by,
        0 <= bx,
    ensures
        -((bx * by) / 65536) - 1 <= fixed_mul(x, y) <= (bx * by) / 65536 + 1,
{
    let p = x * y;
    let top = bx * by;
    assert(-top <= p <= top) by (nonlinear_arith)
        requires p == x * y && top == bx * by && -bx <= x <= bx && 0 <= y <= by && 0 <= bx;
    vstd::arithmetic::div_mod::lemma_div_is_ordered(p, top, 65536);
    vstd::arithmetic::div_mod::lemma_div_is_ordered(-top, p, 65536);
    vstd::arithmetic::div_mod::lemma_fundamental_div_mod(top, 65536);
    vstd::arithmetic::div_mod::lemma_fundamental_div_mod(-top, 65536);
    assert((-top) / 65536 >= -(top / 65536) - 1) by {
        let k = top / 65536;
        let r = top % 65536;
        if r == 0 {
            vstd::arithmetic::div_mod::lemma_fundamental_div_mod_converse(-top, 65536, -k, 0);
        } else {
            vstd::arithmetic::div_mod::lemma_fundamental_div_mod_converse(
                -top,
                65536,
                -k - 1,
                65536 - r,
            );
        }
    }
}

/// Multiplying by a whole multiple of the fixed-point one scales exactly.
proof fn lemma_fixed_mul_int_scale(x: int, k: int)
    ensures
        fixed_mul(x, 65536 * k) == x * k,
{
    assert(x * (65536 * k) == (x * k) * 65536) by (nonlinear_arith);
    vstd::arithmetic::div_mod::lemma_fundamental_div_mod_converse((x * k) * 65536, 65536, x * k, 0);
}

/// After rescaling by the fixed-point reciprocal of its length, each
/// component of the intent is at most a whisker over one tile side.
proof fn lemma_clamp_bound(ax: int, s2: int, q: int, s: int)
    requires
        ax * ax <= s2 + 65535,
        0 <= q,
        q * q <= s2,
        s2 < (q + 1) * (q + 1),
        q >= 65536,
        0 <= s,
        s * q <= 0x1_0000_0000,
        s <= 65536,
    ensures
        -(FIXED_ONE + 258) <= fixed_mul(ax, s) <= FIXED_ONE + 258,
{
    assert(ax * ax < (q + 257) * (q + 257)) by (nonlinear_arith)
        requires ax * ax <= s2 + 65535 && s2 < (q + 1) * (q + 1) && q >= 0;
    assert(-(q + 257) <= ax <= q + 257) by (nonlinear_arith)
        requires ax * ax < (q + 257) * (q + 257) && q >= 0;
    let top: int = 0x1_0000_0000int + 257int * 65536int;
    assert(-top <= ax * s <= top) by (nonlinear_arith)
        requires
            top == 0x1_0000_0000int + 257int * 65536int && -(q + 257) <= ax <= q + 257 && 0 <= s
                <= 65536 && s * q <= 0x1_0000_0000 && q >= 65536;
    vstd::arithmetic::div_mod::lemma_div_is_ordered(ax * s, top, 65536);
    vstd::arithmetic::div_mod::lemma_div_is_ordered(-top, ax * s, 65536);
    assert(top / 65536 == 65536 + 257);
    assert((-top) / 65536 == -(65536 + 257));
}

/// Without the cap, an intent whose squared length is within one tile side
/// is itself within one tile side per component.
proof fn lemma_noclamp_bound(ax: int, len2: int)
    requires
        fixed_mul(ax, ax) <= len2,
        len2 <= FIXED_ONE,
    ensures
        -(FIXED_ONE + 258) <= ax <= FIXED_ONE + 258,
{
    vstd::arithmetic::div_mod::lemma_fundamental_div_mod(ax * ax, 65536);
    assert(ax * ax >= 0) by (nonlinear_arith);
    assert(ax * ax <= 65536 * 65536 + 65535);
    assert(-(65536 + 1) <= ax <= 65536 + 1) by (nonlinear_arith)
        requires ax * ax <= 65536 * 65536 + 65535;
}

/// One integration step keeps the per-axis speed within its bound: the
/// damping term contracts faster than the fixed-point rounding drifts.
proof fn lemma_velocity_step_bounded(ac: int, v: int, dt: int)
    requires
        -(FIXED_ONE + 258) <= ac <= FIXED_ONE + 258,
        -MAX_AXIS_SPEED <= v <= MAX_AXIS_SPEED,
        2 <= dt <= 2184,
    ensures
        -MAX_AXIS_SPEED <= new_velocity_on_axis(ac, v, dt) <= MAX_AXIS_SPEED,
{
    let u = 18 * ac - v;
    let fm = fixed_mul(u, dt);
    vstd::arithmetic::div_mod::lemma_fundamental_div_mod(u * dt, 65536);
    let rr = (u * dt) % 65536;
    assert(u * dt == 65536 * fm + rr);
    assert(0 <= rr < 65536);
    assert(-MAX_AXIS_SPEED <= v + fm <= MAX_AXIS_SPEED) by (nonlinear_arith)
        requires
            u == 18 * ac - v && u * dt == 65536 * fm + rr && 0 <= rr < 65536 && -(FIXED_ONE
                + 258) <= ac <= FIXED_ONE + 258 && -MAX_AXIS_SPEED <= v <= MAX_AXIS_SPEED && 2
                <= dt <= 2184;
}

/// The exact outcome one tick commits for one entity, as a relation between
/// the entity's position `p0` and velocity `v0` before the tick, the
/// acceleration intent `a`, the tick length `dt`, the world after the tick,
/// and the entity `e1` after the tick. The intent is capped, scaled and
/// damped; the position is integrated and canonicalized; then the
/// destination tile decides: a wall rejects the move and grinds the new
/// velocity along the reflection axis, a freshly entered ladder toggles the
/// floor, and anything else commits the integrated position.
pub open spec fn tick_outcome(
    world1: World,
    p0: WorldPosition,
    v0: Vector2<Meters>,
    a: Vector2<Meters>,
    dt: int,
    e1: Entity,
) -> bool {
    let ac = clamped_accel(a);
    let tp = integrated_position(p0, ac, v0, dt);
    let nv = (new_velocity_on_axis(ac.0, v0.x@, dt), new_velocity_on_axis(ac.1, v0.y@, dt));
    let cx = tp.tile_map_x.chunk_id_spec();
    let cy = tp.tile_map_y.chunk_id_spec();
    let tile = world1.tile_of(
        cx,
        cy,
        tp.z as int,
        tp.tile_map_x.offset_spec(),
        tp.tile_map_y.offset_spec(),
    );
    &&& world1.has_key(cx, cy, tp.z as int)
    &&& (tile == TileType::Wall ==> e1.position == p0 && (e1.velocity.x@, e1.velocity.y@)
        == reflected_velocity(nv, reflection_of(p0, tp)))
    &&& (tile != TileType::Wall ==> e1.velocity.x@ == nv.0 && e1.velocity.y@ == nv.1
        && e1.position == (
        if tile == TileType::Ladder && (tp.tile_map_x != p0.tile_map_x || tp.tile_map_y
            != p0.tile_map_y) {
            WorldPosition {
                tile_map_x: tp.tile_map_x,
                tile_map_y: tp.tile_map_y,
                z: crate::world::other_floor(tp.z as int) as u8,
                tile_rel: tp.tile_rel,
            }
        } else {
            tp
        }
    ))
}

/// There is some well-formed view of the world under which the entity's
/// change from (`p0`, `v0`) to `e1` is exactly one tick's outcome: the
/// world each entity of a tick consults is the world as of its turn in
/// index order.
pub open spec fn some_tick_outcome(
    p0: WorldPosition,
    v0: Vector2<Meters>,
    a: Vector2<Meters>,
    dt: int,
    e1: Entity,
) -> bool {
    exists|w: World| (#[trigger] tick_outcome(w, p0, v0, a, dt, e1)) && w.wf()
}

/// The destination key one tick addresses: the chunk pair and floor of the
/// integrated position, before any floor toggle.
pub open spec fn tick_destination(
    p0: WorldPosition,
    v0: Vector2<Meters>,
    a: Vector2<Meters>,
    dt: int,
) -> (int, int, int) {
    let tp = integrated_position(p0, clamped_accel(a), v0, dt);
    (tp.tile_map_x.chunk_id_spec(), tp.tile_map_y.chunk_id_spec(), tp.z as int)
}

/// A fixed-point square is nonnegative and bounded by the rescaled squared
/// bound.
proof fn lemma_fixed_square_bound(x: int, b: int)
    requires
        -b <= x <= b,
        0 <= b,
    ensures
        0 <= fixed_mul(x, x) <= (b * b) / 65536,
{
    assert(0 <= x * x <= b * b) by (nonlinear_arith)
        requires -b <= x <= b && 0 <= b;
    vstd::arithmetic::div_mod::lemma_div_is_ordered(0, x * x, 65536);
    vstd::arithmetic::div_mod::lemma_div_is_ordered(x * x, b * b, 65536);
}

/// Move an entity one tick: cap and scale the acceleration intent, damp it
/// by the current velocity, integrate, canonicalize, and resolve the
/// destination tile against the world — committing the move, toggling the
/// floor on a freshly entered ladder, or rejecting the move at a wall and
/// grinding the velocity along the wall's reflection axis.
///
/// Fails only when the destination chunk's tile map had to be generated
/// and the registry or the arena is exhausted; the entity, the world and
/// the arena are then left unchanged.
pub fn move_entity(
    entity_index: usize,
    world: &mut World,
    memory: &mut Memory,
    state: &mut State,
    acceleration: Vector2<Meters>,
) -> (r: Result<(), Error>)
    requires
        old(state).wf(),
        entity_index < old(state).entities@.len(),
        old(state).entities@[entity_index as int].alive,
        old(world).wf(),
        old(memory).wf(),
        2 <= old(world).delta_t@ <= 2184,
        -ACCEL_LIMIT <= acceleration.x@ <= ACCEL_LIMIT,
        -ACCEL_LIMIT <= acceleration.y@ <= ACCEL_LIMIT,
    ensures
        final(state).wf(),
        final(world).wf(),
        final(memory).wf(),
        final(memory).data_len == old(memory).data_len,
        final(memory).initialized == old(memory).initialized,
        final(world).delta_t == old(world).delta_t,
        final(state).entities@.len() == old(state).entities@.len(),
        final(state).next_entity == old(state).next_entity,
        final(state).camera == old(state).camera,
        forall|j: int|
            0 <= j < old(state).entities@.len() && j != entity_index
                ==> #[trigger] final(state).entities@[j] == old(state).entities@[j],
        final(state).entities@[entity_index as int].direction == old(state).entities@[entity_index as int].direction,
        final(state).entities@[entity_index as int].alive,
        r is Err ==> *final(world) == *old(world) && *final(memory) == *old(memory) && final(state).entities@ == old(state).entities@,
        r is Err ==> r == Err::<(), Error>(Error::OutOfTileMaps) || r == Err::<(), Error>(
            Error::OutOfMemory,
        ),
        old(world).num_maps() + 2 <= crate::world::PREALLOC_TILE_MAPS && old(memory).next_allocation + 2 * crate::world::TILE_MAP_BYTES < old(memory).data_len ==> r is Ok,
        old(world).num_maps() <= final(world).num_maps() <= old(world).num_maps() + 2,
        final(memory).next_allocation == old(memory).next_allocation
            + crate::world::TILE_MAP_BYTES * (final(world).num_maps() - old(world).num_maps()),
        forall|i: int|
            0 <= i < old(world).num_maps() ==> #[trigger] final(world).tile_map_indexes@[i]
                == old(world).tile_map_indexes@[i],
        ({
            let e0 = old(state).entities@[entity_index as int];
            let dest = tick_destination(
                e0.position,
                e0.velocity,
                acceleration,
                old(world).delta_t@,
            );
            &&& (forall|i: int|
                0 <= i < old(world).num_maps() && !old(world).key_is(
                    i,
                    dest.0,
                    dest.1,
                    crate::world::other_floor(dest.2),
                ) ==> #[trigger] final(world).map_at(i) == old(world).map_at(i))
            &&& (forall|i: int, x: int, y: int|
                0 <= i < old(world).num_maps() && TileMap::in_bounds(x, y)
                    ==> #[trigger] final(world).map_at(i).tile_at_spec(x, y) == old(
                    world,
                ).map_at(i).tile_at_spec(x, y) || old(world).key_is(
                    i,
                    dest.0,
                    dest.1,
                    crate::world::other_floor(dest.2),
                ) && Some((x as u16, y as u16)) == crate::world::gen_ladder(old(state).rng)
                    && !crate::world::is_border(x, y) && final(world).map_at(i).tile_at_spec(
                    x,
                    y,
                ) == TileType::Ladder)
        }),
        ({
            let e0 = old(state).entities@[entity_index as int];
            let dest = tick_destination(
                e0.position,
                e0.velocity,
                acceleration,
                old(world).delta_t@,
            );
            old(world).has_key(dest.0, dest.1, dest.2)
        }) ==> r is Ok && *final(world) == *old(world) && *final(memory) == *old(memory)
            && final(state).rng == old(state).rng,
        r is Ok ==> ({
            let e0 = old(state).entities@[entity_index as int];
            let dest = tick_destination(
                e0.position,
                e0.velocity,
                acceleration,
                old(world).delta_t@,
            );
            !old(world).has_key(dest.0, dest.1, dest.2) ==> forall|x: int, y: int|
                TileMap::in_bounds(x, y) ==> #[trigger] final(world).tile_of(
                    dest.0,
                    dest.1,
                    dest.2,
                    x,
                    y,
                ) == crate::world::gen_tile(old(state).rng, x, y) || Some((x as u16, y as u16))
                    == crate::world::gen_ladder(crate::world::gen_end(old(state).rng))
                    && final(world).tile_of(dest.0, dest.1, dest.2, x, y) == TileType::Ladder
        }),
        r is Ok ==> tick_outcome(
            *final(world),
            old(state).entities@[entity_index as int].position,
            old(state).entities@[entity_index as int].velocity,
            acceleration,
            old(world).delta_t@,
            final(state).entities@[entity_index as int],
        ),
{
    let entity_in = &state.entities[entity_index];
    let mut entity = Entity {
        position: entity_in.position,
        velocity: entity_in.velocity,
        direction: entity_in.direction,
        alive: entity_in.alive,
    };
    let old_pos = entity.position;
    let ghost ac = clamped_accel(acceleration);

    // Cap a diagonal intent at a length of one tile side.
    let mut acc = acceleration;
    proof {
        lemma_fixed_square_bound(acceleration.x@, ACCEL_LIMIT as int);
        lemma_fixed_square_bound(acceleration.y@, ACCEL_LIMIT as int);
    }
    let len2 = acceleration.len_squared();
    if len2.raw() > FIXED_ONE {
        let sum: u64 = (len2.raw() as u64) * 65536;
        let q = isqrt(sum);
        proof {
            lemma_sqrt_nat_bounds(sum as int);
            lemma_sqrt_unique(sum as int, q as int, sqrt_nat(sum as int));
            assert(q >= 65536) by (nonlinear_arith)
                requires
                    (q + 1) * (q + 1) > sum as int && sum as int >= 0x1_0000_0000 + 65536 && q
                        >= 0;
        }
        let s = 0x1_0000_0000u64 / q;
        proof {
            vstd::arithmetic::div_mod::lemma_fundamental_div_mod(0x1_0000_0000int, q as int);
            assert((s as int) * (q as int) <= 0x1_0000_0000) by (nonlinear_arith)
                requires
                    0x1_0000_0000int == (q as int) * (s as int) + 0x1_0000_0000int % (q as int)
                        && 0x1_0000_0000int % (q as int) >= 0;
            assert(s <= 65536) by (nonlinear_arith)
                requires (s as int) * (q as int) <= 0x1_0000_0000 && q >= 65536 && s >= 0;
            vstd::arithmetic::div_mod::lemma_fundamental_div_mod(
                acceleration.x@ * acceleration.x@,
                65536,
            );
            vstd::arithmetic::div_mod::lemma_fundamental_div_mod(
                acceleration.y@ * acceleration.y@,
                65536,
            );
            assert(acceleration.y@ * acceleration.y@ >= 0) by (nonlinear_arith);
            assert(acceleration.x@ * acceleration.x@ >= 0) by (nonlinear_arith);
            assert(acceleration.x@ * acceleration.x@ <= sum + 65535);
            assert(acceleration.y@ * acceleration.y@ <= sum + 65535);
            lemma_clamp_bound(acceleration.x@, sum as int, q as int, s as int);
            lemma_clamp_bound(acceleration.y@, sum as int, q as int, s as int);
            assert(acceleration.x@ * (s as int) <= 0x4000_0000_0000_0000
                && acceleration.x@ * (s as int) >= -0x4000_0000_0000_0000) by (nonlinear_arith)
                requires
                    -ACCEL_LIMIT <= acceleration.x@ <= ACCEL_LIMIT && 0 <= s as int <= 65536;
            assert(acceleration.y@ * (s as int) <= 0x4000_0000_0000_0000
                && acceleration.y@ * (s as int) >= -0x4000_0000_0000_0000) by (nonlinear_arith)
                requires
                    -ACCEL_LIMIT <= acceleration.y@ <= ACCEL_LIMIT && 0 <= s as int <= 65536;
        }
        let scale = Meters::new(s as i64);
        acc = Vector2 { x: acceleration.x.mul(scale), y: acceleration.y.mul(scale) };
    } else {
        proof {
            lemma_noclamp_bound(acceleration.x@, len2@);
            lemma_noclamp_bound(acceleration.y@, len2@);
        }
    }
    proof {
        assert(ac == (acc.x@, acc.y@));
        assert(-(FIXED_ONE + 258) <= acc.x@ <= FIXED_ONE + 258);
        assert(-(FIXED_ONE + 258) <= acc.y@ <= FIXED_ONE + 258);
    }

    // Scale to full speed and damp by the current velocity (friction one).
    let speed = Meters::new(18 * FIXED_ONE);
    proof {
        lemma_fixed_mul_int_scale(acc.x@, 18);
        lemma_fixed_mul_int_scale(acc.y@, 18);
        assert(acc.x@ * (18 * FIXED_ONE) == (acc.x@ * 18) * 65536) by (nonlinear_arith);
        assert(acc.y@ * (18 * FIXED_ONE) == (acc.y@ * 18) * 65536) by (nonlinear_arith);
        assert(-0x4000_0000_0000_0000 <= acc.x@ * (18 * FIXED_ONE) <= 0x4000_0000_0000_0000)
            by (nonlinear_arith)
            requires -(FIXED_ONE + 258) <= acc.x@ <= FIXED_ONE + 258;
        assert(-0x4000_0000_0000_0000 <= acc.y@ * (18 * FIXED_ONE) <= 0x4000_0000_0000_0000)
            by (nonlinear_arith)
            requires -(FIXED_ONE + 258) <= acc.y@ <= FIXED_ONE + 258;
    }
    let ghost acx = acc.x@;
    let ghost acy = acc.y@;
    acc = Vector2 { x: acc.x.mul(speed), y: acc.y.mul(speed) };
    let fric = Meters::new(FIXED_ONE);
    proof {
        lemma_fixed_mul_one(-entity.velocity.x@);
        lemma_fixed_mul_one(-entity.velocity.y@);
    }
    acc = Vector2 {
        x: acc.x.add(entity.velocity.x.neg().mul(fric)),
        y: acc.y.add(entity.velocity.y.neg().mul(fric)),
    };
    proof {
        assert(acc.x@ == 18 * ac.0 - entity.velocity.x@);
        assert(acc.y@ == 18 * ac.1 - entity.velocity.y@);
    }

    // Semi-implicit integration over the tick.
    let dt = world.delta_t;
    proof {
        lemma_fixed_mul_bound(dt@, dt@, 2184, 2184);
        assert(0 <= fixed_mul(dt@, dt@)) by {
            lemma_fixed_square_bound(dt@, 2184);
        }
        assert((2184 * 2184) / 65536 + 1 == 73);
    }
    let dt2 = dt.mul(dt);
    let half = Meters::new(FIXED_HALF);
    let ghost u_bound: int = 18 * (FIXED_ONE + 258) + MAX_AXIS_SPEED;
    proof {
        lemma_fixed_mul_bound(acc.x@, FIXED_HALF as int, u_bound, FIXED_HALF as int);
        lemma_fixed_mul_bound(acc.y@, FIXED_HALF as int, u_bound, FIXED_HALF as int);
        assert((u_bound * 32768) / 65536 + 1 == 1214739);
    }
    let half_acc = Vector2 { x: acc.x.mul(half), y: acc.y.mul(half) };
    proof {
        lemma_fixed_mul_bound(half_acc.x@, dt2@, 1214739, 73);
        lemma_fixed_mul_bound(half_acc.y@, dt2@, 1214739, 73);
        lemma_fixed_mul_bound(entity.velocity.x@, dt@, MAX_AXIS_SPEED as int, 2184);
        lemma_fixed_mul_bound(entity.velocity.y@, dt@, MAX_AXIS_SPEED as int, 2184);
        assert((1214739 * 73) / 65536 + 1 == 1354);
        assert(((MAX_AXIS_SPEED as int) * 2184) / 65536 + 1 == 41497);
    }
    let delta = Vector2 {
        x: half_acc.x.mul(dt2).add(entity.velocity.x.mul(dt)),
        y: half_acc.y.mul(dt2).add(entity.velocity.y.mul(dt)),
    };
    proof {
        assert(delta.x@ == move_delta_on_axis(ac.0, entity.velocity.x@, dt@));
        assert(delta.y@ == move_delta_on_axis(ac.1, entity.velocity.y@, dt@));
        assert(-44000 <= delta.x@ <= 44000);
        assert(-44000 <= delta.y@ <= 44000);
    }

    let mut new_pos = entity.position;
    new_pos.tile_rel = Vector2 {
        x: new_pos.tile_rel.x.add(delta.x),
        y: new_pos.tile_rel.y.add(delta.y),
    };
    new_pos.canonicalize();
    proof {
        assert(new_pos == integrated_position(old_pos, ac, entity.velocity, dt@));
    }

    // The velocity is committed whether or not the move is.
    proof {
        lemma_fixed_mul_bound(acc.x@, dt@, u_bound, 2184);
        lemma_fixed_mul_bound(acc.y@, dt@, u_bound, 2184);
        lemma_velocity_step_bounded(ac.0, entity.velocity.x@, dt@);
        lemma_velocity_step_bounded(ac.1, entity.velocity.y@, dt@);
    }
    let mut new_vel = Vector2 {
        x: acc.x.mul(dt).add(entity.velocity.x),
        y: acc.y.mul(dt).add(entity.velocity.y),
    };
    let ghost nv = (new_vel.x@, new_vel.y@);

    // Resolve the destination tile, generating its map on first visit.
    let cv = new_pos.into_chunk();
    proof {
        assert(tick_destination(old_pos, entity.velocity, acceleration, dt@) == (
            new_pos.tile_map_x.chunk_id_spec(),
            new_pos.tile_map_y.chunk_id_spec(),
            new_pos.z as int,
        ));
    }
    let ghost world_before = *world;
    let ghost rng_before = state.rng;
    let got = world.get_tilemap_at(cv.chunk_id, new_pos.z, memory, &mut state.rng);
    let h = match got {
        Ok(h) => h,
        Err(e) => {
            return Err(e);
        },
    };
    let next_tile = world.tilemap(h).get_tile_at(cv.offset);
    proof {
        crate::world::lemma_tile_of(
            *world,
            h as int,
            new_pos.tile_map_x.chunk_id_spec(),
            new_pos.tile_map_y.chunk_id_spec(),
            new_pos.z as int,
            new_pos.tile_map_x.offset_spec(),
            new_pos.tile_map_y.offset_spec(),
        );
        if !world_before.has_key(
            new_pos.tile_map_x.chunk_id_spec(),
            new_pos.tile_map_y.chunk_id_spec(),
            new_pos.z as int,
        ) {
            assert forall|x: int, y: int| TileMap::in_bounds(x, y) implies #[trigger] world
                .tile_of(
                new_pos.tile_map_x.chunk_id_spec(),
                new_pos.tile_map_y.chunk_id_spec(),
                new_pos.z as int,
                x,
                y,
            ) == crate::world::gen_tile(rng_before, x, y) || world.tile_of(
                new_pos.tile_map_x.chunk_id_spec(),
                new_pos.tile_map_y.chunk_id_spec(),
                new_pos.z as int,
                x,
                y,
            ) == TileType::Ladder && !crate::world::is_border(x, y) by {
                crate::world::lemma_tile_of(
                    *world,
                    h as int,
                    new_pos.tile_map_x.chunk_id_spec(),
                    new_pos.tile_map_y.chunk_id_spec(),
                    new_pos.z as int,
                    x,
                    y,
                );
            }
        }
    }

    let mut valid = true;
    if matches!(next_tile, TileType::Wall) {
        valid = false;
    }
    // Ride a ladder only when entering its tile, not while standing on it.
    if matches!(next_tile, TileType::Ladder) && (new_pos.tile_map_x != old_pos.tile_map_x
        || new_pos.tile_map_y != old_pos.tile_map_y) {
        new_pos.z = (new_pos.z + 1) % 2;
    }

    if valid {
        entity.position = new_pos;
    } else {
        // Grind along the wall: zero the velocity component into it.
        let oc = old_pos.into_chunk();
        let zero = Meters::new(0);
        let mut reflection = Vector2 { x: zero, y: zero };
        if oc.offset.x < cv.offset.x {
            reflection = Vector2 { x: Meters::new(FIXED_ONE), y: zero };
        }
        if oc.offset.x > cv.offset.x {
            reflection = Vector2 { x: Meters::new(-FIXED_ONE), y: zero };
        }
        if oc.offset.y > cv.offset.y {
            reflection = Vector2 { x: zero, y: Meters::new(FIXED_ONE) };
        }
        if oc.offset.y < cv.offset.y {
            reflection = Vector2 { x: zero, y: Meters::new(-FIXED_ONE) };
        }
        proof {
            assert((reflection.x@, reflection.y@) == reflection_of(
                old_pos,
                integrated_position(old_pos, ac, entity.velocity, dt@),
            ));
            lemma_reflection_grinds(nv, old_pos, integrated_position(old_pos, ac, entity.velocity, dt@));
            assert(-0x4000_0000_0000_0000 <= new_vel.x@ * reflection.x@ <= 0x4000_0000_0000_0000)
                by (nonlinear_arith)
                requires
                    -MAX_AXIS_SPEED <= new_vel.x@ <= MAX_AXIS_SPEED && -FIXED_ONE
                        <= reflection.x@ <= FIXED_ONE;
            assert(-0x4000_0000_0000_0000 <= new_vel.y@ * reflection.y@ <= 0x4000_0000_0000_0000)
                by (nonlinear_arith)
                requires
                    -MAX_AXIS_SPEED <= new_vel.y@ <= MAX_AXIS_SPEED && -FIXED_ONE
                        <= reflection.y@ <= FIXED_ONE;
            // each dot term is the velocity component, its negation, or zero
            lemma_fixed_mul_one(new_vel.x@);
            lemma_fixed_mul_neg_one(new_vel.x@);
            lemma_fixed_mul_zero(new_vel.x@);
            lemma_fixed_mul_one(new_vel.y@);
            lemma_fixed_mul_neg_one(new_vel.y@);
            lemma_fixed_mul_zero(new_vel.y@);
        }
        let d = new_vel.dot(reflection);
        // grind is the active policy; bounce is the supported alternative
        let reaction = WallReaction::Grind.reaction();
        proof {
            lemma_fixed_mul_one(fixed_mul(reflection.x@, d@));
            lemma_fixed_mul_one(fixed_mul(reflection.y@, d@));
            assert(-0x4000_0000_0000_0000 <= reflection.x@ * d@ <= 0x4000_0000_0000_0000)
                by (nonlinear_arith)
                requires
                    -FIXED_ONE <= reflection.x@ <= FIXED_ONE && -0x1_0000_0000 <= d@
                        <= 0x1_0000_0000;
            assert(-0x4000_0000_0000_0000 <= reflection.y@ * d@ <= 0x4000_0000_0000_0000)
                by (nonlinear_arith)
                requires
                    -FIXED_ONE <= reflection.y@ <= FIXED_ONE && -0x1_0000_0000 <= d@
                        <= 0x1_0000_0000;
            // the axis-and-dot product is the dot, its negation, or zero
            lemma_fixed_mul_one_left(d@);
            lemma_fixed_mul_neg_one_left(d@);
            lemma_fixed_mul_zero_left(d@);
        }
        new_vel = Vector2 {
            x: new_vel.x.sub(reflection.x.mul(d).mul(reaction)),
            y: new_vel.y.sub(reflection.y.mul(d).mul(reaction)),
        };
        proof {
            assert((new_vel.x@, new_vel.y@) == reflected_velocity(
                nv,
                reflection_of(old_pos, integrated_position(old_pos, ac, entity.velocity, dt@)),
            ));
        }
    }
    entity.velocity = new_vel;
    state.entities.set(entity_index, entity);
    Ok(())
}

/// The acceleration intent the pressed buttons encode, per axis, in raw
/// fixed-point units: one tile side per axis, down and right taking
/// precedence over up and left, halved by the slow button and then scaled
/// tenfold by the fast button.
pub open spec fn accel_intent(b: Seq<bool>) -> (int, int) {
    let x0: int = if b[3] {
        FIXED_ONE as int
    } else if b[2] {
        -(FIXED_ONE as int)
    } else {
        0
    };
    let y0: int = if b[1] {
        -(FIXED_ONE as int)
    } else if b[0] {
        FIXED_ONE as int
    } else {
        0
    };
    let x1: int = if b[4] {
        fixed_mul(x0, FIXED_HALF as int)
    } else {
        x0
    };
    let y1: int = if b[4] {
        fixed_mul(y0, FIXED_HALF as int)
    } else {
        y0
    };
    let x2: int = if b[5] {
        fixed_mul(x1, 10 * FIXED_ONE)
    } else {
        x1
    };
    let y2: int = if b[5] {
        fixed_mul(y1, 10 * FIXED_ONE)
    } else {
        y1
    };
    (x2, y2)
}

/// The facing direction the pressed buttons leave an entity with; without
/// a direction button it keeps its old facing.
pub open spec fn facing_intent(b: Seq<bool>, dir: PlayerDirection) -> PlayerDirection {
    if b[3] {
        PlayerDirection::Right
    } else if b[2] {
        PlayerDirection::Left
    } else if b[1] {
        PlayerDirection::Front
    } else if b[0] {
        PlayerDirection::Back
    } else {
        dir
    }
}

/// The acceleration intent of the pressed buttons as a vector of physical
/// units.
pub open spec fn intent_vector(b: Seq<bool>) -> Vector2<Meters> {
    Vector2 { x: Meters(accel_intent(b).0 as i64), y: Meters(accel_intent(b).1 as i64) }
}

/// Turn the pressed buttons into an acceleration intent and a facing
/// direction, processing the buttons in their index order.
pub fn acceleration_from_buttons(buttons: &[bool; 6], direction: PlayerDirection) -> (r: (
    Vector2<Meters>,
    PlayerDirection,
))
    ensures
        r.0.x@ == accel_intent(buttons@).0,
        r.0.y@ == accel_intent(buttons@).1,
        r.1 == facing_intent(buttons@, direction),
        -ACCEL_LIMIT <= r.0.x@ <= ACCEL_LIMIT,
        -ACCEL_LIMIT <= r.0.y@ <= ACCEL_LIMIT,
{
    let mut ax = Meters::new(0);
    let mut ay = Meters::new(0);
    let mut dir = direction;
    if buttons[0] {
        ay = Meters::new(FIXED_ONE);
        dir = PlayerDirection::Back;
    }
    if buttons[1] {
        ay = Meters::new(-FIXED_ONE);
        dir = PlayerDirection::Front;
    }
    if buttons[2] {
        ax = Meters::new(-FIXED_ONE);
        dir = PlayerDirection::Left;
    }
    if buttons[3] {
        ax = Meters::new(FIXED_ONE);
        dir = PlayerDirection::Right;
    }
    proof {
        assert(-FIXED_ONE <= ax@ <= FIXED_ONE);
        assert(-FIXED_ONE <= ay@ <= FIXED_ONE);
    }
    if buttons[4] {
        proof {
            lemma_fixed_mul_bound(ax@, FIXED_HALF as int, FIXED_ONE as int, FIXED_HALF as int);
            lemma_fixed_mul_bound(ay@, FIXED_HALF as int, FIXED_ONE as int, FIXED_HALF as int);
        }
        ax = ax.mul(Meters::new(FIXED_HALF));
        ay = ay.mul(Meters::new(FIXED_HALF));
    }
    proof {
        assert(-FIXED_ONE <= ax@ <= FIXED_ONE);
        assert(-FIXED_ONE <= ay@ <= FIXED_ONE);
    }
    if buttons[5] {
        proof {
            lemma_fixed_mul_bound(ax@, 10 * FIXED_ONE, FIXED_ONE as int, 10 * FIXED_ONE);
            lemma_fixed_mul_bound(ay@, 10 * FIXED_ONE, FIXED_ONE as int, 10 * FIXED_ONE);
        }
        ax = ax.mul(Meters::new(10 * FIXED_ONE));
        ay = ay.mul(Meters::new(10 * FIXED_ONE));
    }
    (Vector2 { x: ax, y: ay }, dir)
}

/// Advance the simulation one tick: for every live entity, in index order,
/// turn the pressed buttons into an acceleration intent and a facing
/// direction and move the entity (see [`move_entity`] for the exact
/// per-entity kinematics). Dead entities are left untouched.
pub fn advance_tick(
    world: &mut World,
    memory: &mut Memory,
    state: &mut State,
    buttons: &[bool; 6],
) -> (r: Result<(), Error>)
    requires
        old(state).wf(),
        old(world).wf(),
        old(memory).wf(),
        2 <= old(world).delta_t@ <= 2184,
    ensures
        final(state).wf(),
        final(world).wf(),
        final(memory).wf(),
        final(memory).data_len == old(memory).data_len,
        final(world).delta_t == old(world).delta_t,
        final(state).entities@.len() == old(state).entities@.len(),
        final(state).next_entity == old(state).next_entity,
        final(state).camera == old(state).camera,
        forall|i: int|
            0 <= i < old(state).entities@.len() && !old(state).entities@[i].alive
                ==> #[trigger] final(state).entities@[i] == old(state).entities@[i],
        forall|i: int|
            0 <= i < old(state).entities@.len() ==> (#[trigger] final(state).entities@[i]).alive
                == old(state).entities@[i].alive,
        old(world).num_maps() <= final(world).num_maps() <= old(world).num_maps() + 2 * old(
            state,
        ).entities@.len(),
        final(memory).next_allocation == old(memory).next_allocation
            + crate::world::TILE_MAP_BYTES * (final(world).num_maps() - old(world).num_maps()),
        old(world).num_maps() + 2 * old(state).entities@.len()
            <= crate::world::PREALLOC_TILE_MAPS && old(memory).next_allocation + 2 * old(
            state,
        ).entities@.len() * crate::world::TILE_MAP_BYTES < old(memory).data_len ==> r is Ok,
        forall|i: int|
            0 <= i < old(world).num_maps() ==> #[trigger] final(world).tile_map_indexes@[i]
                == old(world).tile_map_indexes@[i],
        forall|i: int, x: int, y: int|
            0 <= i < old(world).num_maps() && TileMap::in_bounds(x, y)
                ==> #[trigger] final(world).map_at(i).tile_at_spec(x, y) == old(world).map_at(
                i,
            ).tile_at_spec(x, y) || final(world).map_at(i).tile_at_spec(x, y)
                == TileType::Ladder && !crate::world::is_border(x, y),
        r is Ok ==> forall|i: int|
            0 <= i < old(state).entities@.len() && old(state).entities@[i].alive
                ==> (#[trigger] final(state).entities@[i]).direction == facing_intent(
                buttons@,
                old(state).entities@[i].direction,
            ),
        r is Ok ==> forall|i: int|
            0 <= i < old(state).entities@.len() && old(state).entities@[i].alive
                ==> some_tick_outcome(
                old(state).entities@[i].position,
                old(state).entities@[i].velocity,
                intent_vector(buttons@),
                old(world).delta_t@,
                (#[trigger] final(state).entities@[i]),
            ),
        r is Ok && old(state).entities@.len() == 1 && old(state).entities@[0].alive ==> ({
            let e0 = old(state).entities@[0];
            let dest = tick_destination(
                e0.position,
                e0.velocity,
                intent_vector(buttons@),
                old(world).delta_t@,
            );
            &&& (old(world).has_key(dest.0, dest.1, dest.2) ==> *final(world) == *old(world)
                && *final(memory) == *old(memory))
            &&& (forall|i: int|
                0 <= i < old(world).num_maps() && !old(world).key_is(
                    i,
                    dest.0,
                    dest.1,
                    crate::world::other_floor(dest.2),
                ) ==> #[trigger] final(world).map_at(i) == old(world).map_at(i))
            &&& (forall|i: int, x: int, y: int|
                0 <= i < old(world).num_maps() && TileMap::in_bounds(x, y)
                    ==> #[trigger] final(world).map_at(i).tile_at_spec(x, y) == old(
                    world,
                ).map_at(i).tile_at_spec(x, y) || old(world).key_is(
                    i,
                    dest.0,
                    dest.1,
                    crate::world::other_floor(dest.2),
                ) && Some((x as u16, y as u16)) == crate::world::gen_ladder(old(state).rng)
                    && !crate::world::is_border(x, y) && final(world).map_at(i).tile_at_spec(
                    x,
                    y,
                ) == TileType::Ladder)
        }),
        r is Ok && old(state).entities@.len() == 1 && old(state).entities@[0].alive
            ==> tick_outcome(
            *final(world),
            old(state).entities@[0].position,
            old(state).entities@[0].velocity,
            intent_vector(buttons@),
            old(world).delta_t@,
            final(state).entities@[0],
        ),
        r is Err ==> r == Err::<(), Error>(Error::OutOfTileMaps) || r == Err::<(), Error>(
            Error::OutOfMemory,
        ),
{
    let mut i: usize = 0;
    let n = state.next_entity;
    while i < n
        invariant
            state.wf(),
            world.wf(),
            memory.wf(),
            n == state.next_entity,
            i <= n,
            2 <= world.delta_t@ <= 2184,
            memory.data_len == old(memory).data_len,
            world.delta_t == old(world).delta_t,
            state.entities@.len() == old(state).entities@.len(),
            state.next_entity == old(state).next_entity,
            state.camera == old(state).camera,
            forall|j: int|
                0 <= j < old(state).entities@.len() && !old(state).entities@[j].alive
                    ==> #[trigger] state.entities@[j] == old(state).entities@[j],
            forall|j: int|
                0 <= j < old(state).entities@.len() ==> (#[trigger] state.entities@[j]).alive
                    == old(state).entities@[j].alive,
            forall|j: int|
                i <= j < old(state).entities@.len() ==> #[trigger] state.entities@[j] == old(
                    state,
                ).entities@[j],
            old(world).num_maps() <= world.num_maps() <= old(world).num_maps() + 2 * i,
            memory.next_allocation == old(memory).next_allocation
                + crate::world::TILE_MAP_BYTES * (world.num_maps() - old(world).num_maps()),
            forall|jj: int|
                0 <= jj < old(world).num_maps() ==> #[trigger] world.tile_map_indexes@[jj]
                    == old(world).tile_map_indexes@[jj],
            forall|jj: int, x: int, y: int|
                0 <= jj < old(world).num_maps() && TileMap::in_bounds(x, y)
                    ==> #[trigger] world.map_at(jj).tile_at_spec(x, y) == old(world).map_at(
                    jj,
                ).tile_at_spec(x, y) || world.map_at(jj).tile_at_spec(x, y) == TileType::Ladder
                    && !crate::world::is_border(x, y),
            forall|j: int|
                0 <= j < i && old(state).entities@[j].alive
                    ==> (#[trigger] state.entities@[j]).direction == facing_intent(
                    buttons@,
                    old(state).entities@[j].direction,
                ),
            forall|j: int|
                0 <= j < i && old(state).entities@[j].alive
                    ==> some_tick_outcome(
                    old(state).entities@[j].position,
                    old(state).entities@[j].velocity,
                    intent_vector(buttons@),
                    old(world).delta_t@,
                    (#[trigger] state.entities@[j]),
                ),
            i == 0 ==> *world == *old(world) && *memory == *old(memory) && state.rng == old(
                state,
            ).rng,
            old(state).entities@.len() == 1 && i == 1 && old(state).entities@[0].alive ==> ({
                let e0 = old(state).entities@[0];
                let dest = tick_destination(
                    e0.position,
                    e0.velocity,
                    intent_vector(buttons@),
                    old(world).delta_t@,
                );
                &&& (old(world).has_key(dest.0, dest.1, dest.2) ==> *world == *old(world)
                    && *memory == *old(memory))
                &&& (forall|jj: int|
                    0 <= jj < old(world).num_maps() && !old(world).key_is(
                        jj,
                        dest.0,
                        dest.1,
                        crate::world::other_floor(dest.2),
                    ) ==> #[trigger] world.map_at(jj) == old(world).map_at(jj))
                &&& (forall|jj: int, x: int, y: int|
                    0 <= jj < old(world).num_maps() && TileMap::in_bounds(x, y)
                        ==> #[trigger] world.map_at(jj).tile_at_spec(x, y) == old(world).map_at(
                        jj,
                    ).tile_at_spec(x, y) || old(world).key_is(
                        jj,
                        dest.0,
                        dest.1,
                        crate::world::other_floor(dest.2),
                    ) && Some((x as u16, y as u16)) == crate::world::gen_ladder(old(state).rng)
                        && !crate::world::is_border(x, y) && world.map_at(jj).tile_at_spec(x, y)
                        == TileType::Ladder)
            }),
            old(state).entities@.len() == 1 && i == 1 && old(state).entities@[0].alive
                ==> tick_outcome(
                *world,
                old(state).entities@[0].position,
                old(state).entities@[0].velocity,
                intent_vector(buttons@),
                old(world).delta_t@,
                state.entities@[0],
            ),
        decreases n - i,
    {
        let alive = state.entities[i].alive;
        if alive {
            let current_dir = state.entities[i].direction;
            let (accel, dir) = acceleration_from_buttons(buttons, current_dir);
            let e = &state.entities[i];
            let turned = Entity {
                position: e.position,
                velocity: e.velocity,
                direction: dir,
                alive: e.alive,
            };
            state.entities.set(i, turned);
            proof {
                assert(accel == intent_vector(buttons@));
            }
            match move_entity(i, world, memory, state, accel) {
                Ok(()) => {
                    proof {
                        let wsnap = *world;
                        assert(tick_outcome(
                            wsnap,
                            old(state).entities@[i as int].position,
                            old(state).entities@[i as int].velocity,
                            intent_vector(buttons@),
                            old(world).delta_t@,
                            state.entities@[i as int],
                        ));
                        assert(some_tick_outcome(
                            old(state).entities@[i as int].position,
                            old(state).entities@[i as int].velocity,
                            intent_vector(buttons@),
                            old(world).delta_t@,
                            state.entities@[i as int],
                        ));
                    }
                },
                Err(err) => {
                    proof {
                        // under the capacity premise of the success clause,
                        // this entity's move could not have failed
                        if old(world).num_maps() + 2 * old(state).entities@.len()
                            <= crate::world::PREALLOC_TILE_MAPS && old(memory).next_allocation + 2
                            * old(state).entities@.len() * crate::world::TILE_MAP_BYTES < old(
                            memory,
                        ).data_len {
                            assert(i < old(state).entities@.len());
                            assert(world.num_maps() + 2 <= crate::world::PREALLOC_TILE_MAPS);
                            assert(memory.next_allocation + 2 * crate::world::TILE_MAP_BYTES
                                < memory.data_len);
                            assert(false);
                        }
                    }
                    return Err(err);
                },
            }
        }
        i = i + 1;
    }
    Ok(())
}

/// Multiplying by zero on the right yields zero.
proof fn lemma_fixed_mul_zero(x: int)
    ensures
        fixed_mul(x, 0) == 0,
{
    assert(x * 0 == 0) by (nonlinear_arith);
}

/// Multiplying by zero on the left yields zero.
proof fn lemma_fixed_mul_zero_left(x: int)
    ensures
        fixed_mul(0, x) == 0,
{
    assert(0 * x == 0) by (nonlinear_arith);
}

} // verus!
