use crate::object::{Object, OBSTACLE_HEIGHT, OBSTACLE_WIDTH};
use rand::Rng;
use vstd::arithmetic::div_mod::{
    lemma_div_is_ordered,
    lemma_fundamental_div_mod,
    lemma_hoist_over_denominator,
};
use vstd::prelude::*;

verus! {

/// Sub-pixel units in one pixel: `pending_offset` counts billionths of a pixel.
pub const UNITS_PER_PIXEL: u64 = 1_000_000_000;

/// Scroll speed at start: 200 pixels per second, in thousandths of a pixel per second.
pub const START_SPEED: u64 = 200_000;

/// Growth of the speed at each tick: 0.001 pixel per second.
pub const SPEED_STEP: u64 = 1;

/// Least extra gap, in pixels, between the viewport's right edge and a new obstacle.
pub const SPACING_MIN: u32 = 25;

/// Bound (exclusive) of the extra gap between the right edge and a new obstacle.
pub const SPACING_MAX: u32 = 300;

/// The scroll, in sub-pixel units, owed after a tick of `dt` microseconds.
pub open spec fn carried(pending: int, speed: int, dt: int) -> int {
    pending + speed * dt
}

/// Whole pixels that a tick of `dt` microseconds moves the course by.
pub open spec fn shift_of(pending: int, speed: int, dt: int) -> int {
    carried(pending, speed, dt) / (UNITS_PER_PIXEL as int)
}

/// Sub-pixel scroll left over after that tick, carried into the next one.
pub open spec fn residue_of(pending: int, speed: int, dt: int) -> int {
    carried(pending, speed, dt) % (UNITS_PER_PIXEL as int)
}

/// `x` moved left by `shift` pixels; it stops at the least `i32`.
pub open spec fn shifted_x(x: int, shift: int) -> int {
    if x - shift < i32::MIN {
        i32::MIN as int
    } else {
        x - shift
    }
}

/// An obstacle moved left by `shift` pixels.
pub open spec fn advanced(o: Object, shift: int) -> Object {
    Object { pos_x: shifted_x(o.pos_x as int, shift) as i32, ..o }
}

/// Every obstacle moved left by `shift` pixels, order kept.
pub open spec fn advanced_all(s: Seq<Object>, shift: int) -> Seq<Object> {
    s.map_values(|o: Object| advanced(o, shift))
}

/// The sequence with its oldest obstacle dropped when that one is past the left edge.
pub open spec fn culled(s: Seq<Object>) -> Seq<Object> {
    if s.len() > 0 && s[0].pos_x < 0 {
        s.drop_first()
    } else {
        s
    }
}

/// A new obstacle is owed: none is left, or the newest has come left of the right edge.
pub open spec fn wants_spawn(s: Seq<Object>, viewport_width: u32) -> bool {
    s.len() == 0 || s.last().pos_x < viewport_width
}

/// The obstacle spawned in a viewport of the given size, `offset` pixels past
/// the right edge less its width, resting on the ground line at two thirds of
/// the height.
pub open spec fn spawned(viewport_width: u32, viewport_height: u32, offset: u32) -> Object {
    Object {
        width: OBSTACLE_WIDTH,
        height: OBSTACLE_HEIGHT,
        pos_x: (viewport_width - OBSTACLE_WIDTH + offset) as i32,
        pos_y: (viewport_height * 2 / 3 - OBSTACLE_HEIGHT) as i32,
    }
}

/// The sequence after a spawn decision: one obstacle appended at the end when owed.
pub open spec fn after_spawn(
    s: Seq<Object>,
    viewport_width: u32,
    viewport_height: u32,
    offset: u32,
) -> Seq<Object> {
    if wants_spawn(s, viewport_width) {
        s.push(spawned(viewport_width, viewport_height, offset))
    } else {
        s
    }
}

/// The spawned obstacle's corner fits in `i32` for this spacing offset.
pub open spec fn spawn_fits(viewport_width: u32, viewport_height: u32, offset: u32) -> bool {
    &&& viewport_width - OBSTACLE_WIDTH + offset <= i32::MAX
    &&& viewport_height * 2 / 3 - OBSTACLE_HEIGHT <= i32::MAX
}

/// The spawned obstacle's corner fits in `i32` for every spacing offset that can be drawn.
pub open spec fn viewport_fits(viewport_width: u32, viewport_height: u32) -> bool {
    spawn_fits(viewport_width, viewport_height, (SPACING_MAX - 1) as u32)
}

/// The speed after one tick's growth; it stops at the greatest `u64`.
pub open spec fn grown(speed: u64) -> u64 {
    if speed < u64::MAX {
        (speed + SPEED_STEP) as u64
    } else {
        speed
    }
}

/// Whole pixels shifted over `n` ticks of `dt` microseconds each at a fixed
/// `speed`, starting from `pending` sub-pixel units owed.
pub open spec fn total_shift(pending: nat, speed: nat, dt: nat, n: nat) -> int
    decreases n,
{
    if n == 0 {
        0
    } else {
        shift_of(pending as int, speed as int, dt as int) + total_shift(
            residue_of(pending as int, speed as int, dt as int) as nat,
            speed,
            dt,
            (n - 1) as nat,
        )
    }
}

/// Scroll is conserved: the pixel shifts of `n` ticks at a fixed speed and
/// time step add up to exactly the whole pixels in `pending + n * speed * dt`,
/// since every tick carries its sub-pixel rest into the next. It is thus
/// within one pixel of the whole pixels in `n * speed * dt` alone.
pub proof fn lemma_scroll_conservation(pending: nat, speed: nat, dt: nat, n: nat)
    requires
        pending < UNITS_PER_PIXEL,
    ensures
        total_shift(pending, speed, dt, n) == (pending + n * speed * dt) as int / (UNITS_PER_PIXEL as int),
        (n * speed * dt) as int / (UNITS_PER_PIXEL as int) <= total_shift(pending, speed, dt, n)
            <= (n * speed * dt) as int / (UNITS_PER_PIXEL as int) + 1,
    decreases n,
{
    let unit = UNITS_PER_PIXEL as int;
    let x = (n * speed * dt) as int;
    lemma_div_is_ordered(x, pending + x, unit);
    lemma_div_is_ordered(pending + x, x + 1 * unit, unit);
    lemma_hoist_over_denominator(x, 1, unit as nat);
    if n == 0 {
        assert(n * speed * dt == 0) by (nonlinear_arith)
            requires
                n == 0,
        ;
    } else {
        let m = (n - 1) as nat;
        let c = carried(pending as int, speed as int, dt as int);
        let q = c / unit;
        let r = c % unit;
        lemma_fundamental_div_mod(c, unit);
        lemma_scroll_conservation(r as nat, speed, dt, m);
        lemma_hoist_over_denominator(r + m * speed * dt, q, unit as nat);
        assert(n * speed * dt == speed * dt + m * speed * dt) by (nonlinear_arith)
            requires
                m == n - 1,
        ;
        assert(q * unit == unit * q) by (nonlinear_arith);
    }
}

/// What the scroller holds, as values.
pub ghost struct AppView {
    pub obstacles: Seq<Object>,
    pub pending_offset: u64,
    pub speed: u64,
    pub viewport_width: u32,
    pub viewport_height: u32,
}

/// The state after moving the course by the scroll of `dt` microseconds.
pub open spec fn advance_view(v: AppView, dt: u64) -> AppView {
    AppView {
        obstacles: advanced_all(v.obstacles, shift_of(v.pending_offset as int, v.speed as int, dt as int)),
        pending_offset: residue_of(v.pending_offset as int, v.speed as int, dt as int) as u64,
        ..v
    }
}

/// The state after a cull.
pub open spec fn cull_view(v: AppView) -> AppView {
    AppView { obstacles: culled(v.obstacles), ..v }
}

/// The state after a spawn decision in a viewport of the given size.
pub open spec fn spawn_view(v: AppView, viewport_width: u32, viewport_height: u32, offset: u32) -> AppView {
    AppView { obstacles: after_spawn(v.obstacles, viewport_width, viewport_height, offset), ..v }
}

/// The state after a whole tick: the viewport size is recorded, the course
/// advances, the oldest obstacle is culled if it is gone, a new one is spawned
/// if owed, and the speed grows.
pub open spec fn ticked(v: AppView, dt: u64, viewport_width: u32, viewport_height: u32, offset: u32) -> AppView {
    let sized = AppView { viewport_width, viewport_height, ..v };
    let s = spawn_view(cull_view(advance_view(sized, dt)), viewport_width, viewport_height, offset);
    AppView { speed: grown(s.speed), ..s }
}

/// The state after an update in the last recorded viewport: the course
/// advances, a new obstacle is spawned if owed, and the speed grows.
pub open spec fn updated(v: AppView, dt: u64, offset: u32) -> AppView {
    let s = spawn_view(advance_view(v, dt), v.viewport_width, v.viewport_height, offset);
    AppView { speed: grown(s.speed), ..s }
}

/// A tick keeps spawn order: the obstacles already on the course stay in
/// their order, all moved by the same shift and less at most the oldest, and
/// the only obstacle a tick can add comes last, so that at every moment the
/// sequence lists obstacles from the earliest spawned to the latest.
pub proof fn lemma_tick_keeps_spawn_order(
    v: AppView,
    dt: u64,
    viewport_width: u32,
    viewport_height: u32,
    offset: u32,
)
    ensures
        ({
            let shift = shift_of(v.pending_offset as int, v.speed as int, dt as int);
            let kept = culled(advanced_all(v.obstacles, shift));
            let after = ticked(v, dt, viewport_width, viewport_height, offset).obstacles;
            &&& kept.len() + 1 >= v.obstacles.len()
            &&& after.subrange(0, kept.len() as int) == kept
            &&& after.len() <= kept.len() + 1
            &&& after.len() == kept.len() + 1 ==> after.last() == spawned(
                viewport_width,
                viewport_height,
                offset,
            )
        }),
{
    let shift = shift_of(v.pending_offset as int, v.speed as int, dt as int);
    let kept = culled(advanced_all(v.obstacles, shift));
    let after = ticked(v, dt, viewport_width, viewport_height, offset).obstacles;
    assert(after.subrange(0, kept.len() as int) =~= kept);
}

/// The obstacle course and its scroll state.
pub struct App {
    /// Obstacles in spawn order: oldest, and leftmost, first.
    pub obstacles: Vec<Object>,
    /// Scroll owed but not yet applied, in billionths of a pixel.
    pub pending_offset: u64,
    /// Scroll speed, in thousandths of a pixel per second.
    pub speed: u64,
    pub viewport_width: u32,
    pub viewport_height: u32,
}

impl View for App {
    type V = AppView;

    open spec fn view(&self) -> AppView {
        AppView {
            obstacles: self.obstacles@,
            pending_offset: self.pending_offset,
            speed: self.speed,
            viewport_width: self.viewport_width,
            viewport_height: self.viewport_height,
        }
    }
}

fn shift_one(x: i32, shift: u128) -> (r: i32)
    ensures
        r == shifted_x(x as int, shift as int),
{
    let room: i64 = x as i64 - i32::MIN as i64;
    if shift > room as u128 {
        i32::MIN
    } else {
        (x as i64 - shift as i64) as i32
    }
}

/// Relies on rand's `thread_rng().gen_range(low, high)`: a value drawn from
/// `[low, high)`; it panics when `low >= high`.
#[verifier::external_body]
fn random_in(low: u32, high: u32) -> (r: u32)
    requires
        low < high,
    ensures
        low <= r < high,
{
    rand::thread_rng().gen_range(low, high)
}

/// Draws the extra gap before a new obstacle.
fn random_spacing() -> (r: u32)
    ensures
        SPACING_MIN <= r < SPACING_MAX,
{
    random_in(SPACING_MIN, SPACING_MAX)
}

impl App {
    /// An empty course at the starting speed, with nothing scrolled yet and no
    /// viewport size known.
    pub fn new() -> (r: App)
        ensures
            r@ == (AppView {
                obstacles: Seq::empty(),
                pending_offset: 0,
                speed: START_SPEED,
                viewport_width: 0,
                viewport_height: 0,
            }),
    {
        App {
            obstacles: Vec::new(),
            pending_offset: 0,
            speed: START_SPEED,
            viewport_width: 0,
            viewport_height: 0,
        }
    }

    /// Whether a viewport of this size leaves every spawned obstacle's corner within `i32`.
    pub fn fits_viewport(viewport_width: u32, viewport_height: u32) -> (r: bool)
        ensures
            r == viewport_fits(viewport_width, viewport_height),
    {
        (viewport_width as i64) - (OBSTACLE_WIDTH as i64) + (SPACING_MAX as i64 - 1) <= i32::MAX as i64
            && (viewport_height as i64) * 2 / 3 - (OBSTACLE_HEIGHT as i64) <= i32::MAX as i64
    }

    fn add_object(&mut self, o: Object)
        ensures
            final(self)@ == (AppView { obstacles: old(self)@.obstacles.push(o), ..old(self)@ }),
    {
        self.obstacles.push(o);
    }

    /// Drops the oldest obstacle if it has scrolled past the left edge
    /// (`pos_x < 0`); at most one obstacle leaves per call.
    pub fn cull(&mut self)
        ensures
            final(self)@ == cull_view(old(self)@),
    {
        if self.obstacles.len() > 0 && self.obstacles[0].pos_x < 0 {
            self.obstacles.remove(0);
            assert(self.obstacles@ =~= old(self).obstacles@.drop_first());
        }
    }

    /// Appends one new obstacle, `offset` pixels of extra gap past the right
    /// edge, when the course is empty or its newest obstacle has come left of
    /// the right edge; otherwise changes nothing.
    pub fn maybe_spawn_with(&mut self, viewport_width: u32, viewport_height: u32, offset: u32)
        requires
            spawn_fits(viewport_width, viewport_height, offset),
        ensures
            final(self)@ == spawn_view(old(self)@, viewport_width, viewport_height, offset),
            old(self).obstacles@.len() == 0 ==> final(self).obstacles@.len() == 1,
            old(self).obstacles@.len() > 0 && old(self).obstacles@.last().pos_x >= viewport_width
                ==> final(self).obstacles@ == old(self).obstacles@,
            final(self).obstacles@.subrange(0, old(self).obstacles@.len() as int) == old(self).obstacles@,
            final(self).obstacles@.len() <= old(self).obstacles@.len() + 1,
    {
        let n = self.obstacles.len();
        let owed = if n == 0 {
            true
        } else {
            (self.obstacles[n - 1].pos_x as i64) < (viewport_width as i64)
        };
        if owed {
            let mut o = Object::new();
            o.pos_x = (viewport_width as i64 - o.width as i64 + offset as i64) as i32;
            o.pos_y = (viewport_height as i64 * 2 / 3 - o.height as i64) as i32;
            self.add_object(o);
        }
        assert(final(self).obstacles@.subrange(0, n as int) =~= old(self).obstacles@);
    }

    /// Appends one new obstacle, at a randomly drawn extra gap past the right
    /// edge, when the course is empty or its newest obstacle has come left of
    /// the right edge; otherwise changes nothing.
    pub fn maybe_spawn(&mut self, viewport_width: u32, viewport_height: u32)
        requires
            viewport_fits(viewport_width, viewport_height),
        ensures
            exists|offset: u32|
                SPACING_MIN <= offset < SPACING_MAX && final(self)@ == spawn_view(
                    old(self)@,
                    viewport_width,
                    viewport_height,
                    offset,
                ),
            old(self).obstacles@.len() == 0 ==> final(self).obstacles@.len() == 1,
            old(self).obstacles@.len() > 0 && old(self).obstacles@.last().pos_x >= viewport_width
                ==> final(self).obstacles@ == old(self).obstacles@,
            final(self).obstacles@.subrange(0, old(self).obstacles@.len() as int) == old(self).obstacles@,
            final(self).obstacles@.len() <= old(self).obstacles@.len() + 1,
    {
        let offset = random_spacing();
        self.maybe_spawn_with(viewport_width, viewport_height, offset);
    }

    fn grow_speed(&mut self)
        ensures
            final(self)@ == (AppView { speed: grown(old(self).speed), ..old(self)@ }),
    {
        if self.speed < u64::MAX {
            self.speed = self.speed + SPEED_STEP;
        }
    }

    /// One tick of `dt` microseconds in a viewport of the given size, with
    /// `offset` pixels of extra gap for an obstacle spawned in it: records the
    /// size, advances, culls, spawns if owed, and grows the speed.
    pub fn tick_with(&mut self, dt: u64, viewport_width: u32, viewport_height: u32, offset: u32)
        requires
            spawn_fits(viewport_width, viewport_height, offset),
        ensures
            final(self)@ == ticked(old(self)@, dt, viewport_width, viewport_height, offset),
            final(self).pending_offset < UNITS_PER_PIXEL,
    {
        self.viewport_width = viewport_width;
        self.viewport_height = viewport_height;
        self.advance(dt);
        self.cull();
        self.maybe_spawn_with(viewport_width, viewport_height, offset);
        self.grow_speed();
    }

    /// One tick of `dt` microseconds in a viewport of the given size, with a
    /// randomly drawn gap for an obstacle spawned in it.
    pub fn tick(&mut self, dt: u64, viewport_width: u32, viewport_height: u32)
        requires
            viewport_fits(viewport_width, viewport_height),
        ensures
            exists|offset: u32|
                SPACING_MIN <= offset < SPACING_MAX && final(self)@ == ticked(
                    old(self)@,
                    dt,
                    viewport_width,
                    viewport_height,
                    offset,
                ),
            final(self).pending_offset < UNITS_PER_PIXEL,
    {
        let offset = random_spacing();
        self.tick_with(dt, viewport_width, viewport_height, offset);
    }

    /// Records the size of the viewport just drawn and culls the oldest
    /// obstacle if it has scrolled past the left edge.
    pub fn render(&mut self, viewport_width: u32, viewport_height: u32)
        ensures
            final(self)@ == cull_view(AppView { viewport_width, viewport_height, ..old(self)@ }),
    {
        self.viewport_width = viewport_width;
        self.viewport_height = viewport_height;
        self.cull();
    }

    /// One update of `dt` microseconds in the last recorded viewport: advances,
    /// spawns at a randomly drawn gap if owed, and grows the speed.
    pub fn update(&mut self, dt: u64)
        requires
            viewport_fits(old(self).viewport_width, old(self).viewport_height),
        ensures
            exists|offset: u32|
                SPACING_MIN <= offset < SPACING_MAX && final(self)@ == updated(old(self)@, dt, offset),
            final(self).pending_offset < UNITS_PER_PIXEL,
    {
        let offset = random_spacing();
        self.advance(dt);
        let w = self.viewport_width;
        let h = self.viewport_height;
        self.maybe_spawn_with(w, h, offset);
        self.grow_speed();
        assert(self@ == updated(old(self)@, dt, offset));
    }
    /// Moves every obstacle left by the whole pixels of scroll that `dt`
    /// microseconds at the current speed add to the pending scroll, and keeps
    /// the sub-pixel rest for the next tick.
    pub fn advance(&mut self, dt: u64)
        ensures
            final(self)@ == advance_view(old(self)@, dt),
            final(self).pending_offset < UNITS_PER_PIXEL,
    {
        let speed: u128 = self.speed as u128;
        let dt_wide: u128 = dt as u128;
        assert(speed * dt_wide <= (u64::MAX as int) * (u64::MAX as int)) by (nonlinear_arith)
            requires
                speed <= u64::MAX,
                dt_wide <= u64::MAX,
        ;
        let total: u128 = self.pending_offset as u128 + speed * dt_wide;
        let shift: u128 = total / (UNITS_PER_PIXEL as u128);
        let n = self.obstacles.len();
        let mut i: usize = 0;
        while i < n
            invariant
                0 <= i <= n,
                n == old(self).obstacles@.len(),
                self.obstacles@.len() == n,
                shift == shift_of(old(self).pending_offset as int, old(self).speed as int, dt as int),
                self.pending_offset == old(self).pending_offset,
                self.speed == old(self).speed,
                self.viewport_width == old(self).viewport_width,
                self.viewport_height == old(self).viewport_height,
                forall|j: int| 0 <= j < i ==> self.obstacles@[j] == advanced(old(self).obstacles@[j], shift as int),
                forall|j: int| i <= j < n ==> self.obstacles@[j] == old(self).obstacles@[j],
            decreases n - i,
        {
            let mut o = self.obstacles[i];
            o.pos_x = shift_one(o.pos_x, shift);
            self.obstacles.set(i, o);
            i += 1;
        }
        self.pending_offset = (total % (UNITS_PER_PIXEL as u128)) as u64;
        assert(self.obstacles@ =~= advanced_all(old(self).obstacles@, shift as int));
    }
}

} // verus!
