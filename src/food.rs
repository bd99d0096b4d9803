use vstd::prelude::*;

use crate::geom::Vec2;

verus! {

/// World bounds and food rules, read-only once the world is set up.
#[derive(Clone, Copy, Debug, PartialEq, Eq, Structural)]
pub struct GameSettings {
    /// Half the world's extent along x: food lies in `[-width, width]`.
    pub width: u32,
    /// Half the world's extent along y: food lies in `[-height, height]`.
    pub height: u32,
    /// The most food that may be alive at once.
    pub food_cap: usize,
    /// How long a food item lives, in time units.
    pub food_timeout: u64,
}

/// A one-shot countdown: `elapsed` grows by each tick's time, up to `duration`.
#[derive(Clone, Copy, Debug, PartialEq, Eq, Structural)]
pub struct Countdown {
    pub elapsed: u64,
    pub duration: u64,
}

/// A food item: where it lies, and how long it has left.
#[derive(Clone, Copy, Debug, PartialEq, Eq, Structural)]
pub struct Food {
    pub position: Vec2,
    pub countdown: Countdown,
}

impl Countdown {
    pub open spec fn wf(self) -> bool {
        self.elapsed <= self.duration
    }

    pub open spec fn finished_spec(self) -> bool {
        self.elapsed >= self.duration
    }

    /// The countdown after `dt` more time units: elapsed time stops at the duration.
    pub open spec fn ticked(self, dt: u64) -> Countdown {
        Countdown {
            elapsed: if self.elapsed + dt >= self.duration {
                self.duration
            } else {
                (self.elapsed + dt) as u64
            },
            duration: self.duration,
        }
    }

    /// A fresh countdown of `duration` time units.
    pub fn new(duration: u64) -> (r: Countdown)
        ensures
            r.elapsed == 0,
            r.duration == duration,
            r.wf(),
    {
        Countdown { elapsed: 0, duration }
    }

    /// Whether the full duration has gone by.
    pub fn finished(&self) -> (r: bool)
        ensures
            r == self.finished_spec(),
    {
        self.elapsed >= self.duration
    }

    /// Advances the countdown by `dt` time units.
    pub fn tick(&mut self, dt: u64)
        ensures
            *final(self) == old(self).ticked(dt),
    {
        if self.elapsed >= self.duration || dt >= self.duration - self.elapsed {
            self.elapsed = self.duration;
        } else {
            self.elapsed = self.elapsed + dt;
        }
    }
}

/// The number of items that a food table with `n` items holds after a spawn step.
pub open spec fn count_after_spawn(n: nat, cap: nat) -> nat {
    if n < cap {
        n + 1
    } else {
        n
    }
}

/// Where a random draw lands in `[-half, half]`: its remainder modulo the span, shifted.
pub open spec fn coord_of_draw(draw: u64, half: u32) -> int {
    (draw as int % (2 * half + 1)) - half
}

/// The place at which food appears for the random draws `rx` and `ry`.
pub open spec fn spawn_position_spec(settings: GameSettings, rx: u64, ry: u64) -> Vec2 {
    Vec2 {
        x: coord_of_draw(rx, settings.width) as i64,
        y: coord_of_draw(ry, settings.height) as i64,
    }
}

/// Whether `p` lies inside the world bounds.
pub open spec fn in_bounds(settings: GameSettings, p: Vec2) -> bool {
    -settings.width <= p.x <= settings.width && -settings.height <= p.y <= settings.height
}

/// Maps two uniform random draws to a place inside the world bounds.
pub fn spawn_position(settings: &GameSettings, rx: u64, ry: u64) -> (r: Vec2)
    ensures
        r == spawn_position_spec(*settings, rx, ry),
        in_bounds(*settings, r),
{
    let span_x: u64 = 2 * (settings.width as u64) + 1;
    let span_y: u64 = 2 * (settings.height as u64) + 1;
    let x: i64 = (rx % span_x) as i64 - settings.width as i64;
    let y: i64 = (ry % span_y) as i64 - settings.height as i64;
    Vec2 { x, y }
}

/// The food that a new item gets when it appears for draws `rx` and `ry`.
pub open spec fn new_food_spec(settings: GameSettings, rx: u64, ry: u64) -> Food {
    Food {
        position: spawn_position_spec(settings, rx, ry),
        countdown: Countdown { elapsed: 0, duration: settings.food_timeout },
    }
}

/// The food table after a spawn step.
pub open spec fn spawned(foods: Seq<Food>, settings: GameSettings, rx: u64, ry: u64) -> Seq<Food> {
    if foods.len() < settings.food_cap {
        foods.push(new_food_spec(settings, rx, ry))
    } else {
        foods
    }
}

/// One spawn step: while fewer than `food_cap` items live, one more appears at the
/// place that the draws `rx` and `ry` pick. Returns whether an item appeared.
pub fn spawn_food(foods: &mut Vec<Food>, settings: &GameSettings, rx: u64, ry: u64) -> (r: bool)
    ensures
        final(foods)@ == spawned(old(foods)@, *settings, rx, ry),
        r == (old(foods)@.len() < settings.food_cap),
        final(foods)@.len() == count_after_spawn(old(foods)@.len(), settings.food_cap as nat),
{
    if foods.len() < settings.food_cap {
        let position = spawn_position(settings, rx, ry);
        foods.push(Food { position, countdown: Countdown::new(settings.food_timeout) });
        true
    } else {
        false
    }
}

/// What remains of `foods` after every countdown runs for `dt` more time units
/// and the finished items leave, in their order.
pub open spec fn survivors(foods: Seq<Food>, dt: u64) -> Seq<Food>
    decreases foods.len(),
{
    if foods.len() == 0 {
        foods
    } else {
        let rest = survivors(foods.drop_last(), dt);
        let f = foods.last();
        let c = f.countdown.ticked(dt);
        if c.finished_spec() {
            rest
        } else {
            rest.push(Food { position: f.position, countdown: c })
        }
    }
}

/// One despawn step: advances every countdown by `dt` and drops the items
/// whose countdown has finished. Returns how many were dropped.
pub fn expire_food(foods: &mut Vec<Food>, dt: u64) -> (r: usize)
    ensures
        final(foods)@ == survivors(old(foods)@, dt),
        r + final(foods)@.len() == old(foods)@.len(),
{
    let ghost start = foods@;
    let mut kept: Vec<Food> = Vec::new();
    let mut i: usize = 0;
    while i < foods.len()
        invariant
            foods@ == start,
            i <= start.len(),
            kept@ == survivors(start.subrange(0, i as int), dt),
            kept@.len() <= i,
        decreases start.len() - i,
    {
        let mut f = foods[i];
        f.countdown.tick(dt);
        assert(start.subrange(0, i + 1).drop_last() == start.subrange(0, i as int));
        if !f.countdown.finished() {
            kept.push(f);
        }
        i = i + 1;
    }
    assert(start.subrange(0, start.len() as int) == start);
    let dropped: usize = foods.len() - kept.len();
    *foods = kept;
    dropped
}

/// The food table after one full tick: the spawn step with draws `rx` and `ry`,
/// then the despawn step for `dt` time units.
pub open spec fn after_tick(foods: Seq<Food>, settings: GameSettings, dt: u64, rx: u64, ry: u64) -> Seq<Food> {
    survivors(spawned(foods, settings, rx, ry), dt)
}

/// One full tick of the food lifecycle: spawn, then expire.
pub fn food_tick(foods: &mut Vec<Food>, settings: &GameSettings, dt: u64, rx: u64, ry: u64)
    ensures
        final(foods)@ == after_tick(old(foods)@, *settings, dt, rx, ry),
{
    spawn_food(foods, settings, rx, ry);
    expire_food(foods, dt);
}

/// The food table after the ticks `ticks`, in order.
pub open spec fn after_ticks(foods: Seq<Food>, settings: GameSettings, ticks: Seq<(u64, u64, u64)>) -> Seq<Food>
    decreases ticks.len(),
{
    if ticks.len() == 0 {
        foods
    } else {
        let t = ticks.last();
        after_tick(after_ticks(foods, settings, ticks.drop_last()), settings, t.0, t.1, t.2)
    }
}

/// Whether every item of `foods` lies inside the world bounds.
pub open spec fn all_placed(foods: Seq<Food>, settings: GameSettings) -> bool {
    forall|i: int| 0 <= i < foods.len() ==> #[trigger] in_bounds(settings, foods[i].position)
}

/// The despawn step keeps no more items than it was given, and each one it keeps
/// was given at the same place and has an unfinished countdown.
pub proof fn lemma_survivors(foods: Seq<Food>, dt: u64)
    ensures
        survivors(foods, dt).len() <= foods.len(),
        forall|k: int| 0 <= k < survivors(foods, dt).len() ==> exists|i: int|
            0 <= i < foods.len() && (#[trigger] survivors(foods, dt)[k]).position == foods[i].position
                && survivors(foods, dt)[k].countdown == foods[i].countdown.ticked(dt)
                && !survivors(foods, dt)[k].countdown.finished_spec(),
    decreases foods.len(),
{
    if foods.len() > 0 {
        lemma_survivors(foods.drop_last(), dt);
        let rest = survivors(foods.drop_last(), dt);
        assert forall|k: int| 0 <= k < survivors(foods, dt).len() implies exists|i: int|
            0 <= i < foods.len() && (#[trigger] survivors(foods, dt)[k]).position == foods[i].position
                && survivors(foods, dt)[k].countdown == foods[i].countdown.ticked(dt)
                && !survivors(foods, dt)[k].countdown.finished_spec() by {
            if k < rest.len() {
                let i = choose|i: int|
                    0 <= i < foods.drop_last().len() && (#[trigger] rest[k]).position == foods.drop_last()[i].position
                        && rest[k].countdown == foods.drop_last()[i].countdown.ticked(dt)
                        && !rest[k].countdown.finished_spec();
                assert(foods.drop_last()[i] == foods[i]);
            } else {
                assert(foods.last() == foods[foods.len() - 1]);
            }
        }
    }
}

/// Over any run of ticks that starts within the cap, the food count after each
/// spawn step, and so after each tick, never exceeds the cap.
pub proof fn lemma_food_cap_kept(foods: Seq<Food>, settings: GameSettings, ticks: Seq<(u64, u64, u64)>)
    requires
        foods.len() <= settings.food_cap,
    ensures
        after_ticks(foods, settings, ticks).len() <= settings.food_cap,
        forall|rx: u64, ry: u64| #[trigger] spawned(after_ticks(foods, settings, ticks), settings, rx, ry).len()
            <= settings.food_cap,
    decreases ticks.len(),
{
    if ticks.len() > 0 {
        lemma_food_cap_kept(foods, settings, ticks.drop_last());
        let t = ticks.last();
        let before = after_ticks(foods, settings, ticks.drop_last());
        lemma_survivors(spawned(before, settings, t.1, t.2), t.0);
    }
}

/// Over any run of ticks, every food item lies within `[-width, width] x [-height, height]`
/// when the run starts with every item there.
pub proof fn lemma_food_in_bounds(foods: Seq<Food>, settings: GameSettings, ticks: Seq<(u64, u64, u64)>)
    requires
        all_placed(foods, settings),
    ensures
        all_placed(after_ticks(foods, settings, ticks), settings),
    decreases ticks.len(),
{
    if ticks.len() > 0 {
        lemma_food_in_bounds(foods, settings, ticks.drop_last());
        let t = ticks.last();
        let before = after_ticks(foods, settings, ticks.drop_last());
        let mid = spawned(before, settings, t.1, t.2);
        assert(all_placed(mid, settings)) by {
            if before.len() < settings.food_cap {
                assert forall|i: int| 0 <= i < mid.len() implies #[trigger] in_bounds(settings, mid[i].position) by {
                    if i < before.len() {
                        assert(mid[i] == before[i]);
                    }
                }
            }
        }
        lemma_survivors(mid, t.0);
        let out = survivors(mid, t.0);
        assert forall|k: int| 0 <= k < out.len() implies #[trigger] in_bounds(settings, out[k].position) by {
            let i = choose|i: int|
                0 <= i < mid.len() && (#[trigger] out[k]).position == mid[i].position
                    && out[k].countdown == mid[i].countdown.ticked(t.0)
                    && !out[k].countdown.finished_spec();
            assert(in_bounds(settings, mid[i].position));
        }
    }
}

/// The sum of a run of tick lengths.
pub open spec fn total_time(dts: Seq<u64>) -> int
    decreases dts.len(),
{
    if dts.len() == 0 {
        0
    } else {
        total_time(dts.drop_last()) + dts.last()
    }
}

/// A countdown after the ticks `dts`, in order.
pub open spec fn ticked_all(c: Countdown, dts: Seq<u64>) -> Countdown
    decreases dts.len(),
{
    if dts.len() == 0 {
        c
    } else {
        ticked_all(c, dts.drop_last()).ticked(dts.last())
    }
}

/// A fresh countdown has finished after a run of ticks exactly when the time
/// accumulated over the run reaches its duration; until then its elapsed time is
/// that sum. So a food item leaves at the first tick that brings its accumulated
/// time to the timeout, and never before.
pub proof fn lemma_countdown_finishes_at_timeout(duration: u64, dts: Seq<u64>)
    ensures
        ticked_all(Countdown { elapsed: 0, duration }, dts).finished_spec() <==> total_time(dts) >= duration,
        total_time(dts) < duration ==> ticked_all(Countdown { elapsed: 0, duration }, dts).elapsed == total_time(dts),
        ticked_all(Countdown { elapsed: 0, duration }, dts).duration == duration,
    decreases dts.len(),
{
    if dts.len() > 0 {
        lemma_countdown_finishes_at_timeout(duration, dts.drop_last());
        lemma_ticked_all_wf(duration, dts.drop_last());
    }
}

proof fn lemma_ticked_all_wf(duration: u64, dts: Seq<u64>)
    ensures
        ticked_all(Countdown { elapsed: 0, duration }, dts).wf(),
        ticked_all(Countdown { elapsed: 0, duration }, dts).duration == duration,
        total_time(dts) >= 0,
    decreases dts.len(),
{
    if dts.len() > 0 {
        lemma_ticked_all_wf(duration, dts.drop_last());
    }
}

/// The food table after a run of despawn steps of lengths `dts`, in order.
pub open spec fn expired_all(foods: Seq<Food>, dts: Seq<u64>) -> Seq<Food>
    decreases dts.len(),
{
    if dts.len() == 0 {
        foods
    } else {
        survivors(expired_all(foods, dts.drop_last()), dts.last())
    }
}

/// A freshly spawned food item stays in the table through a run of despawn steps
/// while the time accumulated over the run is below its timeout, with that time
/// on its countdown, and is gone from the first step that brings the accumulated
/// time to the timeout on.
pub proof fn lemma_food_removed_at_timeout(position: Vec2, timeout: u64, dts: Seq<u64>)
    ensures
        ({
            let f = Food { position, countdown: Countdown { elapsed: 0, duration: timeout } };
            let out = expired_all(seq![f], dts);
            if dts.len() > 0 && total_time(dts) >= timeout {
                out.len() == 0
            } else {
                out == seq![Food { position, countdown: ticked_all(f.countdown, dts) }]
            }
        }),
    decreases dts.len(),
{
    let f = Food { position, countdown: Countdown { elapsed: 0, duration: timeout } };
    if dts.len() > 0 {
        let prev = dts.drop_last();
        lemma_food_removed_at_timeout(position, timeout, prev);
        lemma_countdown_finishes_at_timeout(timeout, prev);
        lemma_countdown_finishes_at_timeout(timeout, dts);
        lemma_ticked_all_wf(timeout, prev);
        let before = expired_all(seq![f], prev);
        let d = dts.last();
        assert(expired_all(seq![f], dts) == survivors(before, d));
        assert(survivors(Seq::<Food>::empty(), d) == Seq::<Food>::empty());
        if prev.len() > 0 && total_time(prev) >= timeout {
            assert(before == Seq::<Food>::empty());
        } else {
            let g = Food { position, countdown: ticked_all(f.countdown, prev) };
            assert(before == seq![g]);
            assert(before.drop_last() == Seq::<Food>::empty());
            assert(before.last() == g);
            assert(ticked_all(f.countdown, dts) == g.countdown.ticked(d));
            if prev.len() == 0 {
                assert(total_time(prev) == 0);
            }
        }
    }
}

} // verus!
