//! The arena: a light source among walls, drifting asteroids and bullets,
//! stepped once per frame, and what the light source sees of it.

use crate::consts::TICKS_PER_SECOND;
use crate::consts::UNITS_PER_PIXEL;
use crate::consts::VIRTUAL_HEIGHT;
use crate::consts::VIRTUAL_WIDTH;
use crate::input::Input;
use crate::input::Signals;
use crate::math::floor_sqrt;
use crate::math::is_floor_sqrt;
use crate::math::isqrt;
use crate::math::Ray;
use crate::math::Segment;
use crate::math::Vec2;
use vstd::prelude::*;

verus! {

/// Speed of the player, in pixels per second.
pub const MOVEMENT_SPEED: i32 = 300;

/// Speed of a bullet, in pixels per second.
pub const BULLET_MOVEMENT_SPEED: i32 = 200;

/// Speed of an asteroid, in pixels per second.
pub const ASTEROID_MOVEMENT_SPEED: i32 = 50;

/// Radius of a bullet: 5 pixels.
pub const BULLET_RADIUS: i32 = 5_000;

/// How far ahead of the player a bullet starts: 10 pixels.
pub const BULLET_OFFSET: i32 = 10_000;

/// Radius of the player's disc: 5 pixels.
pub const PLAYER_RADIUS: i32 = 5_000;

/// Width of every asteroid: 30 pixels.
pub const ASTEROID_WIDTH: i32 = 30_000;

/// Height of the lowest asteroid, in pixels.
pub const ASTEROID_MIN_HEIGHT: i32 = 20;

/// An asteroid is up to this many pixels higher than the lowest.
pub const ASTEROID_HEIGHT_RANGE: i32 = 180;

/// Ticks between two asteroids: one second.
pub const SPAWN_INTERVAL: u64 = 1_000_000;

/// The way made at `speed` pixels per second in `delta` ticks, in grid
/// units, rounded down.
pub open spec fn travel(speed: int, delta: int) -> int {
    (speed * delta * (UNITS_PER_PIXEL as int)) / (TICKS_PER_SECOND as int)
}

fn travel_of(speed: i32, delta: u32) -> (way: i32)
    requires
        0 <= speed <= 400,
    ensures
        way == travel(speed as int, delta as int),
        0 <= way <= 1_717_986_918,
        way == (speed * delta) / 1000,
{
    let pace: u64 = speed as u64;
    let ticks: u64 = delta as u64;
    assert(pace * ticks <= 400 * 0xffff_ffff) by (nonlinear_arith)
        requires
            pace <= 400,
            ticks <= 0xffff_ffff,
    ;
    let product: u64 = pace * ticks;
    proof {
        let scaled = product as int * 1000;
        vstd::arithmetic::div_mod::lemma_div_denominator(scaled, 1000, 1000);
        vstd::arithmetic::div_mod::lemma_div_multiples_vanish(product as int, 1000);
        assert(scaled / 1_000_000 == product as int / 1000);
        assert(speed * delta * (UNITS_PER_PIXEL as int) == scaled) by (nonlinear_arith)
            requires
                scaled == (speed * delta) * 1000,
                UNITS_PER_PIXEL == 1000,
        ;
    }
    (product / 1000) as i32
}

/// An axis-aligned rectangle, by its top-left corner and its size.
#[derive(Clone, Copy, Debug, PartialEq, Eq, Structural)]
pub struct Rect {
    pub x: i32,
    pub y: i32,
    pub w: i32,
    pub h: i32,
}

impl Rect {
    /// The sizes are not negative and the far corner is on the grid.
    pub open spec fn wf(self) -> bool {
        &&& 0 <= self.w
        &&& 0 <= self.h
        &&& self.x + self.w <= i32::MAX
        &&& self.y + self.h <= i32::MAX
    }

    pub fn new(x: i32, y: i32, w: i32, h: i32) -> (r: Rect)
        ensures
            r == (Rect { x, y, w, h }),
    {
        Rect { x, y, w, h }
    }
}

/// A disc, by its centre and its radius.
#[derive(Clone, Copy, Debug, PartialEq, Eq, Structural)]
pub struct Circle {
    pub x: i32,
    pub y: i32,
    pub r: i32,
}

/// How far `at` lies outside the interval from `low` to `high`: zero inside.
pub open spec fn gap(at: int, low: int, high: int) -> int {
    if at < low {
        low - at
    } else if at > high {
        at - high
    } else {
        0
    }
}

fn gap_wide(at: i32, low: i32, high: i64) -> (g: i128)
    requires
        low <= high <= i32::MAX,
    ensures
        g == gap(at as int, low as int, high as int),
        0 <= g <= 0x1_0000_0000,
{
    if at < low {
        low as i128 - at as i128
    } else if at as i64 > high {
        at as i128 - high as i128
    } else {
        0
    }
}

impl Circle {
    pub fn new(x: i32, y: i32, r: i32) -> (c: Circle)
        ensures
            c == (Circle { x, y, r }),
    {
        Circle { x, y, r }
    }

    /// The disc and the rectangle share a point: the point of the rectangle
    /// nearest to the centre is no farther from it than the radius.
    pub open spec fn touches(self, rect: Rect) -> bool {
        let dx = gap(self.x as int, rect.x as int, rect.x + rect.w);
        let dy = gap(self.y as int, rect.y as int, rect.y + rect.h);
        dx * dx + dy * dy <= self.r * self.r
    }

    /// Whether the disc overlaps the rectangle, borders included.
    pub fn overlaps_rect(&self, rect: &Rect) -> (overlap: bool)
        requires
            rect.wf(),
            0 <= self.r,
        ensures
            overlap == self.touches(*rect),
    {
        let dx: i128 = gap_wide(self.x, rect.x, rect.x as i64 + rect.w as i64);
        let dy: i128 = gap_wide(self.y, rect.y, rect.y as i64 + rect.h as i64);
        let r: i128 = self.r as i128;
        assert(0 <= dx * dx <= 0x1_0000_0000_0000_0000) by (nonlinear_arith)
            requires
                0 <= dx <= 0x1_0000_0000,
        ;
        assert(0 <= dy * dy <= 0x1_0000_0000_0000_0000) by (nonlinear_arith)
            requires
                0 <= dy <= 0x1_0000_0000,
        ;
        assert(0 <= r * r <= 0x1_0000_0000_0000_0000) by (nonlinear_arith)
            requires
                0 <= r <= 0x1_0000_0000,
        ;
        dx * dx + dy * dy <= r * r
    }
}

/// A rectangular obstacle that drifts across the arena.
#[derive(Clone, Copy, Debug, PartialEq, Eq, Structural)]
pub struct Asteroid {
    pub rect: Rect,
}

impl Asteroid {
    /// The four edges: top, left, bottom, right. The horizontal ones run
    /// from left to right, the vertical ones from top to bottom.
    pub open spec fn segments(self) -> Seq<Segment> {
        let r = self.rect;
        let left = r.x;
        let top = r.y;
        let right = (r.x + r.w) as i32;
        let bottom = (r.y + r.h) as i32;
        seq![
            Segment { src: Vec2 { x: left, y: top }, dst: Vec2 { x: right, y: top } },
            Segment { src: Vec2 { x: left, y: top }, dst: Vec2 { x: left, y: bottom } },
            Segment { src: Vec2 { x: left, y: bottom }, dst: Vec2 { x: right, y: bottom } },
            Segment { src: Vec2 { x: right, y: top }, dst: Vec2 { x: right, y: bottom } },
        ]
    }

    /// The rectangle is well formed.
    pub open spec fn wf(self) -> bool {
        self.rect.wf()
    }

    /// The asteroid after it has gone `way` units to the left: `x` is less
    /// by `way`, and the rest is as it was. Only at the left end of the grid
    /// does it stop: `x` is never less than `i32::MIN`.
    pub open spec fn drifted(self, way: int) -> Asteroid {
        Asteroid { rect: Rect { x: on_grid(self.rect.x - way), ..self.rect } }
    }

    /// The boundary of the rectangle as four segments.
    pub fn to_segments(&self) -> (segs: Vec<Segment>)
        requires
            self.rect.wf(),
        ensures
            segs@ == self.segments(),
            segs@.len() == 4,
    {
        let r = self.rect;
        let right: i32 = r.x + r.w;
        let bottom: i32 = r.y + r.h;
        let segs = vec![
            Segment { src: Vec2::new(r.x, r.y), dst: Vec2::new(right, r.y) },
            Segment { src: Vec2::new(r.x, r.y), dst: Vec2::new(r.x, bottom) },
            Segment { src: Vec2::new(r.x, bottom), dst: Vec2::new(right, bottom) },
            Segment { src: Vec2::new(right, r.y), dst: Vec2::new(right, bottom) },
        ];
        assert(segs@ =~= self.segments());
        segs
    }
}

/// A projectile.
#[derive(Clone, Copy, Debug, PartialEq, Eq, Structural)]
pub struct Bullet {
    pub circle: Circle,
}

impl Bullet {
    /// The bullet after it has gone `way` units to the right: `x` is more
    /// by `way`, and the rest is as it was. Only at the right end of the
    /// grid does it stop: `x` is never more than `i32::MAX`.
    pub open spec fn flown(self, way: int) -> Bullet {
        Bullet { circle: Circle { x: on_grid(self.circle.x + way), ..self.circle } }
    }
}

/// `-1`, `0` or `1`: where two opposite signals pull along one axis.
pub open spec fn axis(back: bool, forth: bool) -> int {
    (if forth { 1int } else { 0int }) - (if back { 1int } else { 0int })
}

/// The way made along each axis in motion, of `way` in all: `way` itself
/// along one axis, `way / sqrt(2)` rounded down along both.
pub open spec fn stride(held: Signals, way: int) -> int {
    if axis(held.left, held.right) != 0 && axis(held.up, held.down) != 0 {
        floor_sqrt((way * way) / 2)
    } else {
        way
    }
}

/// `at` if it lies between `low` and `high`, else the nearer of the two.
pub open spec fn clamped(at: int, low: int, high: int) -> int {
    if at < low {
        low
    } else if at > high {
        high
    } else {
        at
    }
}

/// `at` where it lies on the grid, else the end of the grid nearest to it.
pub open spec fn on_grid(at: int) -> i32 {
    clamped(at, i32::MIN as int, i32::MAX as int) as i32
}

/// One more than the largest random number: the numbers stand for the
/// ratios `number / RANDOM_SPAN`, from 0 up to but not including 1.
pub const RANDOM_SPAN: u64 = 0x1_0000_0000;

/// The asteroid that comes in at the right edge for two random numbers:
/// its top is the ratio of `first` of the arena's height, in whole pixels,
/// and its height the least height and the ratio of `second` of the range,
/// in whole pixels.
pub open spec fn spawned(first: u32, second: u32) -> Asteroid {
    let y = (first * (VIRTUAL_HEIGHT / UNITS_PER_PIXEL)) / (RANDOM_SPAN as int);
    let h = ASTEROID_MIN_HEIGHT + (ASTEROID_HEIGHT_RANGE * second) / (RANDOM_SPAN as int);
    Asteroid {
        rect: Rect {
            x: VIRTUAL_WIDTH,
            y: (y * UNITS_PER_PIXEL) as i32,
            w: ASTEROID_WIDTH,
            h: (h * UNITS_PER_PIXEL) as i32,
        },
    }
}

/// What a frame reports to the one who runs the frames.
#[derive(Clone, Copy, Debug, PartialEq, Eq, Structural)]
pub struct Outcome {
    /// The pause screen was open: the frame is its own, nothing moved.
    pub paused: bool,
    /// The pause screen was opened in this frame.
    pub pause_opened: bool,
    /// The player's disc overlapped an asteroid after the moves.
    pub collision: bool,
    /// An asteroid came in.
    pub spawned: bool,
}

/// The arena as plain values.
pub struct World {
    pub paused: bool,
    pub player: Vec2,
    pub walls: Seq<Segment>,
    pub asteroids: Seq<Asteroid>,
    pub bullets: Seq<Bullet>,
    /// When the last asteroid came in; nothing before the first.
    pub last_spawn: Option<u64>,
}

impl World {
    /// The player is inside the arena, there is a wall, and every asteroid
    /// is well formed.
    pub open spec fn wf(self) -> bool {
        &&& 0 <= self.player.x <= VIRTUAL_WIDTH
        &&& 0 <= self.player.y <= VIRTUAL_HEIGHT
        &&& self.walls.len() > 0
        &&& forall|i: int| 0 <= i < self.asteroids.len() ==> (#[trigger] self.asteroids[i]).wf()
    }

    /// The arena at the start of a game: the player at (300, 300) pixels,
    /// a wall along the top and one along the bottom, one asteroid of 30 by
    /// 30 pixels at (300, 600), no bullet.
    pub open spec fn initial() -> World {
        World {
            paused: false,
            player: Vec2 { x: 300_000, y: 300_000 },
            walls: seq![
                Segment { src: Vec2 { x: 0, y: 0 }, dst: Vec2 { x: VIRTUAL_WIDTH, y: 0 } },
                Segment {
                    src: Vec2 { x: 0, y: VIRTUAL_HEIGHT },
                    dst: Vec2 { x: VIRTUAL_WIDTH, y: VIRTUAL_HEIGHT },
                },
            ],
            asteroids: seq![
                Asteroid { rect: Rect { x: 300_000, y: 600_000, w: 30_000, h: 30_000 } },
            ],
            bullets: Seq::empty(),
            last_spawn: None,
        }
    }

    /// Where the player stands after `delta` ticks with these signals held:
    /// moved by the stride along each axis that is pulled one way, and kept
    /// inside the arena. With no pull there is no move.
    pub open spec fn moved_player(self, held: Signals, delta: u32) -> Vec2 {
        let pull_x = axis(held.left, held.right);
        let pull_y = axis(held.up, held.down);
        let step = stride(held, travel(MOVEMENT_SPEED as int, delta as int));
        if pull_x == 0 && pull_y == 0 {
            self.player
        } else {
            Vec2 {
                x: clamped(self.player.x + pull_x * step, 0, VIRTUAL_WIDTH as int) as i32,
                y: clamped(self.player.y + pull_y * step, 0, VIRTUAL_HEIGHT as int) as i32,
            }
        }
    }

    /// The arena after the player has moved for `delta` ticks.
    pub open spec fn after_movement(self, held: Signals, delta: u32) -> World {
        World { player: self.moved_player(held, delta), ..self }
    }

    /// The bullet that a shot adds: ahead of the player, to the right.
    pub open spec fn fired(self) -> Bullet {
        Bullet {
            circle: Circle {
                x: (self.player.x + BULLET_OFFSET) as i32,
                y: self.player.y,
                r: BULLET_RADIUS,
            },
        }
    }

    /// The bullets after `delta` ticks: each has flown on and stands where
    /// it stood in the list, and a shot adds one at the end, which has not
    /// flown yet.
    pub open spec fn bullets_after(self, fire: bool, delta: u32) -> Seq<Bullet> {
        let way = travel(BULLET_MOVEMENT_SPEED as int, delta as int);
        let flown = self.bullets.map_values(|b: Bullet| b.flown(way));
        if fire {
            flown.push(self.fired())
        } else {
            flown
        }
    }

    /// The arena after the bullets have flown for `delta` ticks and a shot,
    /// if there was one, has added its bullet.
    pub open spec fn after_attack(self, fire: bool, delta: u32) -> World {
        World { bullets: self.bullets_after(fire, delta), ..self }
    }

    /// The asteroids after `delta` ticks: each has drifted on and stands
    /// where it stood in the list.
    pub open spec fn asteroids_after(self, delta: u32) -> Seq<Asteroid> {
        let way = travel(ASTEROID_MOVEMENT_SPEED as int, delta as int);
        self.asteroids.map_values(|a: Asteroid| a.drifted(way))
    }

    /// The arena after the asteroids have drifted for `delta` ticks.
    pub open spec fn after_asteroid_movement(self, delta: u32) -> World {
        World { asteroids: self.asteroids_after(delta), ..self }
    }

    /// The player's disc.
    pub open spec fn player_circle(self) -> Circle {
        Circle { x: self.player.x, y: self.player.y, r: PLAYER_RADIUS }
    }

    /// The player's disc overlaps an asteroid.
    pub open spec fn collides(self) -> bool {
        exists|i: int|
            0 <= i < self.asteroids.len() && self.player_circle().touches(
                (#[trigger] self.asteroids[i]).rect,
            )
    }

    /// An asteroid is due: none has come in yet, or the last one more than
    /// the interval ago.
    pub open spec fn spawn_due(self, elapsed: u64) -> bool {
        match self.last_spawn {
            None => true,
            Some(last) => elapsed > last + SPAWN_INTERVAL,
        }
    }

    /// The arena after an asteroid has come in at `elapsed`.
    pub open spec fn after_spawn(self, first: u32, second: u32, elapsed: u64) -> World {
        World {
            asteroids: self.asteroids.push(spawned(first, second)),
            last_spawn: Some(elapsed),
            ..self
        }
    }

    /// The arena after the pause screen has been opened, if that is asked.
    pub open spec fn after_pause(self, open: bool) -> World {
        World { paused: self.paused || open, ..self }
    }

    /// The arena after everything in it has moved for `delta` ticks: the
    /// player, then the bullets with the shot, then the asteroids.
    pub open spec fn simulated(self, input: Input, delta: u32) -> World {
        self.after_movement(input.held, delta).after_attack(
            input.pressed.confirm,
            delta,
        ).after_asteroid_movement(delta)
    }

    /// The arena after one frame. While the pause screen is open nothing in
    /// it changes. Otherwise a pause that is asked for opens the screen for
    /// the frames to come, everything moves, and an asteroid comes in if
    /// one is due.
    pub open spec fn stepped(
        self,
        input: Input,
        elapsed: u64,
        delta: u32,
        first: u32,
        second: u32,
    ) -> World {
        if self.paused {
            self
        } else {
            let moved = self.after_pause(input.pressed.pause).simulated(input, delta);
            if self.spawn_due(elapsed) {
                moved.after_spawn(first, second, elapsed)
            } else {
                moved
            }
        }
    }

    /// What one frame reports.
    pub open spec fn outcome(self, input: Input, elapsed: u64, delta: u32) -> Outcome {
        if self.paused {
            Outcome { paused: true, pause_opened: false, collision: false, spawned: false }
        } else {
            Outcome {
                paused: false,
                pause_opened: input.pressed.pause,
                collision: self.after_pause(input.pressed.pause).simulated(input, delta).collides(),
                spawned: self.spawn_due(elapsed),
            }
        }
    }

    /// Every segment that stops a ray: the walls, then the four edges of each
    /// asteroid.
    pub open spec fn collidable(self) -> Seq<Segment> {
        self.walls + self.asteroids.map_values(|a: Asteroid| a.segments()).flatten()
    }

    /// What the player sees along the given directions: for each direction
    /// in turn the nearest hit of the ray from the player, where there is
    /// one.
    pub open spec fn visible(self, directions: Seq<Vec2>) -> Seq<Vec2> {
        directions.filter_map(
            |dir: Vec2| (Ray { origin: self.player, dir }).nearest_hit(self.collidable()),
        )
    }
}

/// Asteroids come in one at a time, and no sooner than the interval apart.
///
/// A frame outside the pause in which an asteroid is due leaves the list
/// one longer, however far the clock is past the interval: the old
/// asteroids have drifted and stand where they stood, the new one stands
/// last, at the right edge, and has not drifted. A frame in which none is
/// due leaves the list as long as it was. After a frame that added one at
/// `elapsed`, the next is due only when the clock has gone past `elapsed`
/// by more than the interval.
pub proof fn lemma_one_asteroid_per_interval(
    world: World,
    input: Input,
    elapsed: u64,
    delta: u32,
    first: u32,
    second: u32,
)
    requires
        !world.paused,
    ensures
        ({
            let next = world.stepped(input, elapsed, delta, first, second);
            let drifted = world.asteroids_after(delta);
            let n = world.asteroids.len() as int;
            &&& drifted.len() == n
            &&& world.spawn_due(elapsed) ==> {
                &&& next.asteroids == drifted.push(spawned(first, second))
                &&& next.asteroids.len() == n + 1
                &&& next.asteroids[n] == spawned(first, second)
                &&& next.asteroids[n].rect.x == VIRTUAL_WIDTH
                &&& next.last_spawn == Some(elapsed)
                &&& forall|later: u64|
                    next.spawn_due(later) <==> later > elapsed + SPAWN_INTERVAL
            }
            &&& !world.spawn_due(elapsed) ==> {
                &&& next.asteroids == drifted
                &&& next.asteroids.len() == n
                &&& next.last_spawn == world.last_spawn
            }
        }),
{
}

/// Nothing is ever taken away. Across a frame outside the pause every
/// asteroid and every bullet stands where it stood in its list, with the
/// height, the width and the size it had: an asteroid `x` less by its way,
/// a bullet `x` more by its way, each as far as the grid goes. Each list
/// grows by one at most: an asteroid where one is due, a bullet where a
/// shot was given.
pub proof fn lemma_lists_only_grow(
    world: World,
    input: Input,
    elapsed: u64,
    delta: u32,
    first: u32,
    second: u32,
)
    requires
        !world.paused,
    ensures
        ({
            let next = world.stepped(input, elapsed, delta, first, second);
            let drift = travel(ASTEROID_MOVEMENT_SPEED as int, delta as int);
            let flight = travel(BULLET_MOVEMENT_SPEED as int, delta as int);
            &&& next.walls == world.walls
            &&& next.asteroids.len() == world.asteroids.len() + if world.spawn_due(elapsed) {
                1int
            } else {
                0int
            }
            &&& next.bullets.len() == world.bullets.len() + if input.pressed.confirm {
                1int
            } else {
                0int
            }
            &&& forall|i: int|
                0 <= i < world.asteroids.len() ==> {
                    let before = (#[trigger] world.asteroids[i]).rect;
                    let after = next.asteroids[i].rect;
                    &&& after.x == on_grid(before.x - drift)
                    &&& i32::MIN <= before.x - drift ==> after.x == before.x - drift
                    &&& after.y == before.y
                    &&& after.w == before.w
                    &&& after.h == before.h
                }
            &&& forall|i: int|
                0 <= i < world.bullets.len() ==> {
                    let before = (#[trigger] world.bullets[i]).circle;
                    let after = next.bullets[i].circle;
                    &&& after.x == on_grid(before.x + flight)
                    &&& before.x + flight <= i32::MAX ==> after.x == before.x + flight
                    &&& after.y == before.y
                    &&& after.r == before.r
                }
        }),
{
    lemma_travel_is_not_negative(ASTEROID_MOVEMENT_SPEED as int, delta as int);
    lemma_travel_is_not_negative(BULLET_MOVEMENT_SPEED as int, delta as int);
}

/// The way made is never negative.
proof fn lemma_travel_is_not_negative(speed: int, delta: int)
    requires
        0 <= speed,
        0 <= delta,
    ensures
        0 <= travel(speed, delta),
{
    assert(0 <= speed * delta * (UNITS_PER_PIXEL as int)) by (nonlinear_arith)
        requires
            0 <= speed,
            0 <= delta,
            UNITS_PER_PIXEL == 1000,
    ;
    vstd::arithmetic::div_mod::lemma_div_pos_is_pos(
        speed * delta * (UNITS_PER_PIXEL as int),
        TICKS_PER_SECOND as int,
    );
}

/// Every asteroid comes in inside the arena's height and within the range
/// of heights: its top is at least 0 and less than the arena's height, and
/// its height at least the least height and less than that and the range.
pub proof fn lemma_spawned_is_in_range(first: u32, second: u32)
    ensures
        ({
            let rect = spawned(first, second).rect;
            &&& rect.x == VIRTUAL_WIDTH
            &&& rect.w == ASTEROID_WIDTH
            &&& 0 <= rect.y < VIRTUAL_HEIGHT
            &&& ASTEROID_MIN_HEIGHT * UNITS_PER_PIXEL <= rect.h < (ASTEROID_MIN_HEIGHT
                + ASTEROID_HEIGHT_RANGE) * UNITS_PER_PIXEL
            &&& rect.wf()
        }),
{
    let rows = (VIRTUAL_HEIGHT / UNITS_PER_PIXEL) as int;
    assert(rows == 720);
    let y = (first * rows) / (RANDOM_SPAN as int);
    let extra = (ASTEROID_HEIGHT_RANGE * second) / (RANDOM_SPAN as int);
    assert(0 <= y < 720) by {
        assert(0 <= first * 720 < 720 * 0x1_0000_0000);
    }
    assert(0 <= extra < 180) by {
        assert(0 <= 180 * second < 180 * 0x1_0000_0000);
    }
}

/// A frame in the pause changes nothing, whatever the input and the clock.
pub proof fn lemma_pause_holds_the_arena(
    world: World,
    input: Input,
    elapsed: u64,
    delta: u32,
    first: u32,
    second: u32,
)
    requires
        world.paused,
    ensures
        world.stepped(input, elapsed, delta, first, second) == world,
        world.outcome(input, elapsed, delta).paused,
        !world.outcome(input, elapsed, delta).spawned,
        !world.outcome(input, elapsed, delta).collision,
{
}

/// What the player sees depends on the arena and the directions alone: two
/// answers to the same question are the same points in the same order.
/// There is at most one point for each direction.
pub proof fn lemma_visibility_repeats(
    world: World,
    directions: Seq<Vec2>,
    once: Seq<Vec2>,
    again: Seq<Vec2>,
)
    requires
        once == world.visible(directions),
        again == world.visible(directions),
    ensures
        once == again,
        once.len() <= directions.len(),
{
    lemma_at_most_one_point_each(world, directions);
}

proof fn lemma_at_most_one_point_each(world: World, directions: Seq<Vec2>)
    ensures
        world.visible(directions).len() <= directions.len(),
    decreases directions.len(),
{
    let nearest = |dir: Vec2| (Ray { origin: world.player, dir }).nearest_hit(world.collidable());
    if directions.len() > 0 {
        lemma_at_most_one_point_each(world, directions.drop_last());
        assert(world.visible(directions.drop_last()) == directions.drop_last().filter_map(nearest));
        assert(world.visible(directions) == directions.filter_map(nearest));
    }
}

fn pull(back: bool, forth: bool) -> (p: i32)
    ensures
        p == axis(back, forth),
{
    let ahead: i32 = if forth { 1 } else { 0 };
    let behind: i32 = if back { 1 } else { 0 };
    ahead - behind
}

/// One coordinate of the player after a step, kept between 0 and `high`.
fn shifted(at: i32, pull: i32, step: i32, high: i32) -> (to: i32)
    requires
        -1 <= pull <= 1,
        0 <= step,
        0 <= high,
    ensures
        to == clamped(at + pull * step, 0, high as int),
{
    let moved: i64 = if pull == 1 {
        at as i64 + step as i64
    } else if pull == -1 {
        at as i64 - step as i64
    } else {
        at as i64
    };
    assert(moved == at + pull * step) by (nonlinear_arith)
        requires
            pull == 1 ==> moved == at + step,
            pull == -1 ==> moved == at - step,
            pull == 0 ==> moved == at,
            -1 <= pull <= 1,
    ;
    if moved < 0 {
        0
    } else if moved > high as i64 {
        high
    } else {
        moved as i32
    }
}

/// `way / sqrt(2)`, rounded down.
fn diagonal(way: i32) -> (side: i32)
    requires
        0 <= way,
    ensures
        side == floor_sqrt((way * way) / 2),
        0 <= side <= way,
{
    let wide: u64 = way as u64;
    assert(wide * wide <= 0x7fff_ffff * 0x7fff_ffff) by (nonlinear_arith)
        requires
            0 <= wide <= 0x7fff_ffff,
    ;
    let half: u64 = (wide * wide) / 2;
    let side: u64 = isqrt(half);
    assert(side <= wide) by (nonlinear_arith)
        requires
            side * side <= half,
            half <= wide * wide,
            0 <= side,
            0 <= wide,
    ;
    side as i32
}

/// Calls `macroquad::rand::rand`, which steps the generator that the whole
/// process shares and hands out its next number. Nothing is claimed of the
/// number.
#[verifier::external_body]
fn next_random() -> (number: u32) {
    macroquad::rand::rand()
}

/// The arena and everything in it.
pub struct Gameplay {
    paused: bool,
    player_position: Vec2,
    walls: Vec<Segment>,
    asteroids: Vec<Asteroid>,
    last_spawn_asteroid_time: Option<u64>,
    bullets: Vec<Bullet>,
}

impl View for Gameplay {
    type V = World;

    closed spec fn view(&self) -> World {
        World {
            paused: self.paused,
            player: self.player_position,
            walls: self.walls@,
            asteroids: self.asteroids@,
            bullets: self.bullets@,
            last_spawn: self.last_spawn_asteroid_time,
        }
    }
}

impl Gameplay {
    /// The invariant of the arena.
    pub open spec fn wf(&self) -> bool {
        self@.wf()
    }

    /// The arena at the start of a game.
    pub fn new() -> (game: Gameplay)
        ensures
            game@ == World::initial(),
            game.wf(),
    {
        let walls = vec![
            Segment { src: Vec2::new(0, 0), dst: Vec2::new(VIRTUAL_WIDTH, 0) },
            Segment { src: Vec2::new(0, VIRTUAL_HEIGHT), dst: Vec2::new(VIRTUAL_WIDTH, VIRTUAL_HEIGHT) },
        ];
        let asteroids = vec![Asteroid { rect: Rect::new(300_000, 600_000, 30_000, 30_000) }];
        let game = Gameplay {
            paused: false,
            player_position: Vec2::new(300_000, 300_000),
            walls,
            asteroids,
            last_spawn_asteroid_time: None,
            bullets: Vec::new(),
        };
        assert(game@.walls =~= World::initial().walls);
        assert(game@.asteroids =~= World::initial().asteroids);
        assert(game@.bullets =~= World::initial().bullets);
        game
    }

    /// Where the player stands.
    pub fn player_position(&self) -> (at: Vec2)
        ensures
            at == self@.player,
    {
        self.player_position
    }

    /// The walls, as they were set when the arena was made.
    pub fn walls(&self) -> (walls: &Vec<Segment>)
        ensures
            walls@ == self@.walls,
    {
        &self.walls
    }

    /// The asteroids, oldest first.
    pub fn asteroids(&self) -> (asteroids: &Vec<Asteroid>)
        ensures
            asteroids@ == self@.asteroids,
    {
        &self.asteroids
    }

    /// The bullets, oldest first.
    pub fn bullets(&self) -> (bullets: &Vec<Bullet>)
        ensures
            bullets@ == self@.bullets,
    {
        &self.bullets
    }

    /// Whether the pause screen is open.
    pub fn is_paused(&self) -> (paused: bool)
        ensures
            paused == self@.paused,
    {
        self.paused
    }

    /// Opens or closes the pause screen.
    pub fn set_paused(&mut self, paused: bool)
        ensures
            final(self)@ == (World { paused, ..old(self)@ }),
    {
        self.paused = paused;
    }

    /// Moves the player for `delta` ticks along the directions held.
    pub fn player_movement(&mut self, input: &Input, delta: u32)
        requires
            old(self).wf(),
        ensures
            final(self)@ == old(self)@.after_movement(input.held, delta),
            final(self).wf(),
    {
        let pull_x: i32 = pull(input.held.left, input.held.right);
        let pull_y: i32 = pull(input.held.up, input.held.down);
        if pull_x != 0 || pull_y != 0 {
            let way: i32 = travel_of(MOVEMENT_SPEED, delta);
            let step: i32 = if pull_x != 0 && pull_y != 0 {
                diagonal(way)
            } else {
                way
            };
            self.player_position = Vec2 {
                x: shifted(self.player_position.x, pull_x, step, VIRTUAL_WIDTH),
                y: shifted(self.player_position.y, pull_y, step, VIRTUAL_HEIGHT),
            };
        }
    }

    /// Lets the bullets fly for `delta` ticks, and adds one ahead of the
    /// player if a shot was given in this frame. No bullet is ever taken
    /// away.
    pub fn player_attack(&mut self, input: &Input, delta: u32)
        requires
            old(self).wf(),
        ensures
            final(self)@ == old(self)@.after_attack(input.pressed.confirm, delta),
            final(self)@.bullets.len() == old(self)@.bullets.len() + if input.pressed.confirm {
                1int
            } else {
                0int
            },
            final(self).wf(),
    {
        let way: i32 = travel_of(BULLET_MOVEMENT_SPEED, delta);
        let ghost flight = |b: Bullet| b.flown(way as int);
        let mut flown: Vec<Bullet> = Vec::new();
        let mut i: usize = 0;
        while i < self.bullets.len()
            invariant
                i <= self.bullets@.len(),
                self == old(self),
                0 <= way,
                flight == |b: Bullet| b.flown(way as int),
                flown@.len() == i,
                forall|k: int| 0 <= k < i ==> #[trigger] flown@[k] == flight(self.bullets@[k]),
            decreases self.bullets@.len() - i,
        {
            let b = self.bullets[i];
            let to: i64 = b.circle.x as i64 + way as i64;
            let x: i32 = if to > i32::MAX as i64 {
                i32::MAX
            } else {
                to as i32
            };
            flown.push(Bullet { circle: Circle { x, y: b.circle.y, r: b.circle.r } });
            i += 1;
        }
        assert(flown@ =~= self.bullets@.map_values(flight));
        if input.pressed.confirm {
            flown.push(
                Bullet {
                    circle: Circle {
                        x: self.player_position.x + BULLET_OFFSET,
                        y: self.player_position.y,
                        r: BULLET_RADIUS,
                    },
                },
            );
        }
        self.bullets = flown;
    }

    /// Lets the asteroids drift for `delta` ticks. No asteroid is ever
    /// taken away.
    pub fn asteroid_movement(&mut self, delta: u32)
        requires
            old(self).wf(),
        ensures
            final(self)@ == old(self)@.after_asteroid_movement(delta),
            final(self)@.asteroids.len() == old(self)@.asteroids.len(),
            final(self).wf(),
    {
        let way: i32 = travel_of(ASTEROID_MOVEMENT_SPEED, delta);
        let ghost drift = |a: Asteroid| a.drifted(way as int);
        let mut drifted: Vec<Asteroid> = Vec::new();
        let mut i: usize = 0;
        while i < self.asteroids.len()
            invariant
                i <= self.asteroids@.len(),
                self == old(self),
                self.wf(),
                0 <= way,
                drift == |a: Asteroid| a.drifted(way as int),
                drifted@.len() == i,
                forall|k: int| 0 <= k < i ==> #[trigger] drifted@[k] == drift(self.asteroids@[k]),
                forall|k: int| 0 <= k < i ==> (#[trigger] drifted@[k]).wf(),
            decreases self.asteroids@.len() - i,
        {
            let a = self.asteroids[i];
            assert(self@.asteroids[i as int].wf());
            let to: i64 = a.rect.x as i64 - way as i64;
            let x: i32 = if to < i32::MIN as i64 {
                i32::MIN
            } else {
                to as i32
            };
            drifted.push(Asteroid { rect: Rect { x, y: a.rect.y, w: a.rect.w, h: a.rect.h } });
            i += 1;
        }
        assert(drifted@ =~= self.asteroids@.map_values(drift));
        self.asteroids = drifted;
    }

    /// Whether the player's disc overlaps an asteroid.
    pub fn collision(&self) -> (hit: bool)
        requires
            self.wf(),
        ensures
            hit == self@.collides(),
    {
        let player_circle = Circle::new(self.player_position.x, self.player_position.y, PLAYER_RADIUS);
        let mut i: usize = 0;
        while i < self.asteroids.len()
            invariant
                i <= self.asteroids@.len(),
                self.wf(),
                player_circle == self@.player_circle(),
                forall|k: int|
                    0 <= k < i ==> !player_circle.touches((#[trigger] self.asteroids@[k]).rect),
            decreases self.asteroids@.len() - i,
        {
            assert(self@.asteroids[i as int].wf());
            if player_circle.overlaps_rect(&self.asteroids[i].rect) {
                return true;
            }
            i += 1;
        }
        false
    }

    /// Whether an asteroid is due at `elapsed`.
    pub fn spawn_due(&self, elapsed: u64) -> (due: bool)
        ensures
            due == self@.spawn_due(elapsed),
    {
        match self.last_spawn_asteroid_time {
            None => true,
            Some(last) => elapsed > last && elapsed - last > SPAWN_INTERVAL,
        }
    }

    /// Adds the asteroid that the two numbers give, at the right edge.
    pub fn spawn_asteroid_from(&mut self, first: u32, second: u32)
        requires
            old(self).wf(),
        ensures
            final(self)@ == (World {
                asteroids: old(self)@.asteroids.push(spawned(first, second)),
                ..old(self)@
            }),
            final(self).wf(),
    {
        let rows: u64 = (VIRTUAL_HEIGHT / UNITS_PER_PIXEL) as u64;
        let top: u64 = (first as u64 * rows) / RANDOM_SPAN;
        let extra: u64 = (ASTEROID_HEIGHT_RANGE as u64 * second as u64) / RANDOM_SPAN;
        let height: u64 = ASTEROID_MIN_HEIGHT as u64 + extra;
        let asteroid = Asteroid {
            rect: Rect::new(
                VIRTUAL_WIDTH,
                (top * UNITS_PER_PIXEL as u64) as i32,
                ASTEROID_WIDTH,
                (height * UNITS_PER_PIXEL as u64) as i32,
            ),
        };
        assert(asteroid == spawned(first, second));
        self.asteroids.push(asteroid);
        assert forall|i: int| 0 <= i < self@.asteroids.len() implies (#[trigger] self@.asteroids[i]).wf() by {
            if i < old(self)@.asteroids.len() {
                assert(old(self)@.asteroids[i].wf());
            }
        }
    }

    /// Adds an asteroid at the right edge, of random height and at a random
    /// place along the edge.
    pub fn spawn_asteroid(&mut self)
        requires
            old(self).wf(),
        ensures
            exists|first: u32, second: u32|
                final(self)@ == (World {
                    asteroids: old(self)@.asteroids.push(#[trigger] spawned(first, second)),
                    ..old(self)@
                }),
            final(self).wf(),
    {
        let first: u32 = next_random();
        let second: u32 = next_random();
        self.spawn_asteroid_from(first, second);
    }

    /// Moves everything for `delta` ticks and says whether the player's
    /// disc then overlaps an asteroid.
    fn simulate(&mut self, input: &Input, delta: u32) -> (collision: bool)
        requires
            old(self).wf(),
        ensures
            final(self)@ == old(self)@.simulated(*input, delta),
            collision == final(self)@.collides(),
            final(self).wf(),
    {
        self.player_movement(input, delta);
        self.player_attack(input, delta);
        self.asteroid_movement(delta);
        self.collision()
    }

    /// One frame, with the two numbers that shape an asteroid if one is due.
    ///
    /// While the pause screen is open the frame belongs to it and nothing
    /// here changes. Otherwise: a pause that is asked for opens the screen
    /// for the frames to come; the player moves; the bullets fly and a shot
    /// adds one; the asteroids drift; the player's disc is tested against
    /// them; and if the last asteroid came in more than a second before
    /// `elapsed`, one comes in now.
    pub fn update_with(
        &mut self,
        input: &Input,
        elapsed: u64,
        delta: u32,
        first: u32,
        second: u32,
    ) -> (outcome: Outcome)
        requires
            old(self).wf(),
        ensures
            final(self)@ == old(self)@.stepped(*input, elapsed, delta, first, second),
            outcome == old(self)@.outcome(*input, elapsed, delta),
            final(self)@.asteroids.len() == old(self)@.asteroids.len() + if outcome.spawned {
                1int
            } else {
                0int
            },
            outcome.spawned ==> final(self)@.last_spawn == Some(elapsed),
            !outcome.spawned ==> final(self)@.last_spawn == old(self)@.last_spawn,
            final(self).wf(),
    {
        if self.paused {
            return Outcome { paused: true, pause_opened: false, collision: false, spawned: false };
        }
        let pause_opened = input.pressed.pause;
        if pause_opened {
            self.paused = true;
        }
        let collision = self.simulate(input, delta);
        let due = self.spawn_due(elapsed);
        if due {
            self.spawn_asteroid_from(first, second);
            self.last_spawn_asteroid_time = Some(elapsed);
        }
        Outcome { paused: false, pause_opened, collision, spawned: due }
    }

    /// One frame, as `update_with` describes it, with an asteroid of random
    /// shape where one is due. Only the top and the height of that asteroid
    /// depend on chance; where none is due, nothing does.
    pub fn update(&mut self, input: &Input, elapsed: u64, delta: u32) -> (outcome: Outcome)
        requires
            old(self).wf(),
        ensures
            exists|first: u32, second: u32|
                final(self)@ == #[trigger] old(self)@.stepped(
                    *input,
                    elapsed,
                    delta,
                    first,
                    second,
                ),
            outcome == old(self)@.outcome(*input, elapsed, delta),
            !outcome.spawned ==> final(self)@ == old(self)@.stepped(*input, elapsed, delta, 0, 0),
            final(self)@.asteroids.len() == old(self)@.asteroids.len() + if outcome.spawned {
                1int
            } else {
                0int
            },
            outcome.spawned ==> final(self)@.last_spawn == Some(elapsed),
            !outcome.spawned ==> final(self)@.last_spawn == old(self)@.last_spawn,
            final(self).wf(),
    {
        if self.paused {
            assert(self@ == old(self)@.stepped(*input, elapsed, delta, 0, 0));
            return Outcome { paused: true, pause_opened: false, collision: false, spawned: false };
        }
        let pause_opened = input.pressed.pause;
        if pause_opened {
            self.paused = true;
        }
        let collision = self.simulate(input, delta);
        let due = self.spawn_due(elapsed);
        if due {
            let ghost before = self@;
            self.spawn_asteroid();
            self.last_spawn_asteroid_time = Some(elapsed);
            proof {
                let (first, second) = choose|first: u32, second: u32|
                    self@.asteroids == before.asteroids.push(#[trigger] spawned(first, second));
                assert(self@ == old(self)@.stepped(*input, elapsed, delta, first, second));
            }
        } else {
            assert(self@ == old(self)@.stepped(*input, elapsed, delta, 0, 0));
        }
        Outcome { paused: false, pause_opened, collision, spawned: due }
    }

    /// Every segment that stops a ray: the walls, then the four edges of
    /// each asteroid.
    pub fn collidable(&self) -> (segments: Vec<Segment>)
        requires
            self.wf(),
        ensures
            segments@ == self@.collidable(),
    {
        let mut segments: Vec<Segment> = Vec::new();
        let mut i: usize = 0;
        while i < self.walls.len()
            invariant
                i <= self.walls@.len(),
                segments@ == self.walls@.take(i as int),
            decreases self.walls@.len() - i,
        {
            segments.push(self.walls[i]);
            assert(self.walls@.take(i as int + 1) =~= self.walls@.take(i as int).push(
                self.walls@[i as int],
            ));
            i += 1;
        }
        assert(self.walls@.take(i as int) =~= self.walls@);
        let ghost edges = |a: Asteroid| a.segments();
        let mut j: usize = 0;
        assert(self.asteroids@.take(0).map_values(edges) =~= Seq::<Seq<Segment>>::empty());
        while j < self.asteroids.len()
            invariant
                j <= self.asteroids@.len(),
                self.wf(),
                edges == |a: Asteroid| a.segments(),
                segments@ == self.walls@ + self.asteroids@.take(j as int).map_values(
                    edges,
                ).flatten(),
            decreases self.asteroids@.len() - j,
        {
            assert(self@.asteroids[j as int].wf());
            let four = self.asteroids[j].to_segments();
            proof {
                let done = self.asteroids@.take(j as int).map_values(edges);
                assert(self.asteroids@.take(j as int + 1).map_values(edges) =~= done.push(
                    four@,
                ));
                done.lemma_flatten_push(four@);
            }
            let mut k: usize = 0;
            let ghost start = segments@;
            while k < four.len()
                invariant
                    k <= four@.len(),
                    segments@ == start + four@.take(k as int),
                decreases four@.len() - k,
            {
                segments.push(four[k]);
                assert(four@.take(k as int + 1) =~= four@.take(k as int).push(four@[k as int]));
                k += 1;
            }
            assert(four@.take(k as int) =~= four@);
            assert(segments@ =~= self.walls@ + (self.asteroids@.take(j as int).map_values(
                edges,
            ).flatten() + four@));
            j += 1;
        }
        assert(self.asteroids@.take(j as int) =~= self.asteroids@);
        segments
    }

    /// What the player sees along the given directions.
    ///
    /// A ray goes out from the player along each direction in turn and stops
    /// at the nearest point where it meets a wall or an edge of an asteroid;
    /// of two such points at the same distance, the one on the later
    /// segment. The points come in the order of their directions; a
    /// direction whose ray meets nothing gives none. Each call tests every
    /// ray against every segment.
    pub fn compute_visibility(&self, directions: &Vec<Vec2>) -> (points: Vec<Vec2>)
        requires
            self.wf(),
        ensures
            points@ == self@.visible(directions@),
    {
        let collidable = self.collidable();
        let ghost nearest = |dir: Vec2|
            (Ray { origin: self@.player, dir }).nearest_hit(self@.collidable());
        let mut points: Vec<Vec2> = Vec::new();
        let mut i: usize = 0;
        while i < directions.len()
            invariant
                i <= directions@.len(),
                collidable@ == self@.collidable(),
                nearest == |dir: Vec2|
                    (Ray { origin: self@.player, dir }).nearest_hit(self@.collidable()),
                points@ == directions@.take(i as int).filter_map(nearest),
            decreases directions@.len() - i,
        {
            let ray = Ray { origin: self.player_position, dir: directions[i] };
            proof {
                directions@.lemma_filter_map_take_succ(nearest, i as int);
            }
            match ray.nearest_intersection(&collidable) {
                Some(point) => {
                    points.push(point);
                },
                None => {},
            }
            i += 1;
        }
        assert(directions@.take(i as int) =~= directions@);
        points
    }

    /// What there is to draw of the arena: nothing while the pause screen
    /// is open, which is drawn in its place, else what the player sees along
    /// the given directions.
    pub fn draw(&self, directions: &Vec<Vec2>) -> (sight: Option<Vec<Vec2>>)
        requires
            self.wf(),
        ensures
            self@.paused <==> sight.is_none(),
            sight matches Some(points) ==> points@ == self@.visible(directions@),
    {
        if self.paused {
            None
        } else {
            Some(self.compute_visibility(directions))
        }
    }
}

} // verus!
