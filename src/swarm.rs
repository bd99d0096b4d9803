use vstd::prelude::*;

use crate::geom::{add_spec, fits, vec_of, Vec2};

verus! {

/// The largest coordinate, in absolute value, at which separation is computed:
/// the sum of the pushes on one bot then fits in an `i64`.
pub const POSITION_LIMIT: i64 = 0x100_0000_0000;

/// The most bots that one group holds when separation is computed.
pub const GROUP_LIMIT: usize = 0x10_0000;

/// One unit of the swarm, placed relative to its group.
#[derive(Clone, Copy, Debug, PartialEq, Eq, Structural)]
pub struct Nanobot {
    pub position: Vec2,
    pub velocity: Vec2,
    pub selected: bool,
}

/// Sibling nanobots under one parent placement: a bot's world position is the
/// group's offset plus its own position.
#[derive(Debug)]
pub struct NanobotGroup {
    pub offset: Vec2,
    pub bots: Vec<Nanobot>,
}

impl Nanobot {
    /// A bot at `position`, at rest and not selected.
    pub fn new(position: Vec2) -> (r: Nanobot)
        ensures
            r.position == position,
            r.velocity == (Vec2 { x: 0, y: 0 }),
            !r.selected,
    {
        Nanobot { position, velocity: Vec2 { x: 0, y: 0 }, selected: false }
    }
}

/// `p + v * dt`, component-wise, over unbounded integers.
pub open spec fn step_spec(p: Vec2, v: Vec2, dt: u64) -> (int, int) {
    (p.x + v.x * dt, p.y + v.y * dt)
}

/// The bot after one integration step of `dt` time units.
pub open spec fn stepped(b: Nanobot, dt: u64) -> Nanobot {
    Nanobot { position: vec_of(step_spec(b.position, b.velocity, dt)), ..b }
}

/// Whether every bot of `bots` can take a step of `dt` without leaving the `i64` range.
pub open spec fn can_step(bots: Seq<Nanobot>, dt: u64) -> bool {
    forall|i: int| 0 <= i < bots.len() ==> fits(#[trigger] step_spec(bots[i].position, bots[i].velocity, dt))
}

fn step_wide(p: i64, v: i64, dt: u64) -> (r: i128)
    ensures
        r == p + v * dt,
{
    assert(-0x8000_0000_0000_0000 * 0xffff_ffff_ffff_ffff <= (v as int) * (dt as int)
        <= 0x7fff_ffff_ffff_ffff * 0xffff_ffff_ffff_ffff) by (nonlinear_arith)
        requires
            -0x8000_0000_0000_0000 <= v <= 0x7fff_ffff_ffff_ffff,
            0 <= dt <= 0xffff_ffff_ffff_ffff,
    ;
    let prod: i128 = (v as i128) * (dt as i128);
    (p as i128) + prod
}

fn step_coord(p: i64, v: i64, dt: u64) -> (r: i64)
    requires
        i64::MIN <= p + v * dt <= i64::MAX,
    ensures
        r == p + v * dt,
{
    step_wide(p, v, dt) as i64
}

fn in_i64(v: i128) -> (r: bool)
    ensures
        r == (i64::MIN <= v <= i64::MAX),
{
    i64::MIN as i128 <= v && v <= i64::MAX as i128
}

/// Advances every bot by its velocity times `dt`: `position += velocity * dt`.
pub fn integrate(bots: &mut Vec<Nanobot>, dt: u64)
    requires
        can_step(old(bots)@, dt),
    ensures
        final(bots)@.len() == old(bots)@.len(),
        forall|i: int| 0 <= i < old(bots)@.len() ==> #[trigger] final(bots)@[i] == stepped(old(bots)@[i], dt),
{
    let ghost start = bots@;
    let mut i: usize = 0;
    while i < bots.len()
        invariant
            bots@.len() == start.len(),
            can_step(start, dt),
            i <= start.len(),
            forall|k: int| 0 <= k < i ==> #[trigger] bots@[k] == stepped(start[k], dt),
            forall|k: int| i <= k < start.len() ==> #[trigger] bots@[k] == start[k],
        decreases start.len() - i,
    {
        let b = bots[i];
        assert(fits(step_spec(start[i as int].position, start[i as int].velocity, dt)));
        let x = step_coord(b.position.x, b.velocity.x, dt);
        let y = step_coord(b.position.y, b.velocity.y, dt);
        bots.set(i, Nanobot { position: Vec2 { x, y }, ..b });
        i = i + 1;
    }
}

/// The bot after the steps `dts`, in order.
pub open spec fn stepped_all(b: Nanobot, dts: Seq<u64>) -> Nanobot
    decreases dts.len(),
{
    if dts.len() == 0 {
        b
    } else {
        stepped(stepped_all(b, dts.drop_last()), dts.last())
    }
}

/// A bot with zero velocity stays where it is over any number of integration steps.
pub proof fn lemma_at_rest_stays(b: Nanobot, dts: Seq<u64>)
    requires
        b.velocity == (Vec2 { x: 0, y: 0 }),
    ensures
        stepped_all(b, dts) == b,
    decreases dts.len(),
{
    if dts.len() > 0 {
        lemma_at_rest_stays(b, dts.drop_last());
        let dt = dts.last();
        assert(b.velocity.x * dt == 0) by (nonlinear_arith)
            requires
                b.velocity.x == 0,
        ;
        assert(b.velocity.y * dt == 0) by (nonlinear_arith)
            requires
                b.velocity.y == 0,
        ;
        assert(stepped(b, dt).position == b.position);
    }
}

/// Whether `a` and `b` lie within `radius` of each other.
pub open spec fn near(a: Vec2, b: Vec2, radius: u32) -> bool {
    (a.x - b.x) * (a.x - b.x) + (a.y - b.y) * (a.y - b.y) <= radius * radius
}

/// The push that a bot at `b` gives one at `a`: `a - b` when they are near, else nothing.
pub open spec fn push_spec(a: Vec2, b: Vec2, radius: u32) -> (int, int) {
    if near(a, b, radius) {
        (a.x - b.x, a.y - b.y)
    } else {
        (0, 0)
    }
}

/// The sum of the pushes that bots `0..n` other than `i` give bot `i`.
pub open spec fn push_sum(bots: Seq<Nanobot>, i: int, radius: u32, n: int) -> (int, int)
    decreases n,
{
    if n <= 0 {
        (0, 0)
    } else {
        let rest = push_sum(bots, i, radius, n - 1);
        let p = if n - 1 == i {
            (0, 0)
        } else {
            push_spec(bots[i].position, bots[n - 1].position, radius)
        };
        (rest.0 + p.0, rest.1 + p.1)
    }
}

/// The separation of bot `i`: the sum of `own - other` over its siblings within `radius`.
pub open spec fn separation_spec(bots: Seq<Nanobot>, i: int, radius: u32) -> (int, int) {
    push_sum(bots, i, radius, bots.len() as int)
}

/// Whether separation can be computed on `bots` in machine integers.
pub open spec fn separable(bots: Seq<Nanobot>) -> bool {
    &&& bots.len() <= GROUP_LIMIT
    &&& forall|i: int| 0 <= i < bots.len() ==> -POSITION_LIMIT <= #[trigger] bots[i].position.x <= POSITION_LIMIT
        && -POSITION_LIMIT <= bots[i].position.y <= POSITION_LIMIT
}

fn is_near(a: Vec2, b: Vec2, radius: u32) -> (r: bool)
    requires
        -POSITION_LIMIT <= a.x <= POSITION_LIMIT,
        -POSITION_LIMIT <= a.y <= POSITION_LIMIT,
        -POSITION_LIMIT <= b.x <= POSITION_LIMIT,
        -POSITION_LIMIT <= b.y <= POSITION_LIMIT,
    ensures
        r == near(a, b, radius),
{
    let dx: i128 = (a.x - b.x) as i128;
    let dy: i128 = (a.y - b.y) as i128;
    assert(0 <= dx * dx <= 0x400_0000_0000 * 0x400_0000_0000) by (nonlinear_arith)
        requires
            -0x200_0000_0000 <= dx <= 0x200_0000_0000,
    ;
    assert(0 <= dy * dy <= 0x400_0000_0000 * 0x400_0000_0000) by (nonlinear_arith)
        requires
            -0x200_0000_0000 <= dy <= 0x200_0000_0000,
    ;
    assert(0 <= (radius as int) * (radius as int) <= 0xffff_ffff * 0xffff_ffff) by (nonlinear_arith)
        requires
            0 <= radius <= 0xffff_ffff,
    ;
    let r2: i128 = (radius as i128) * (radius as i128);
    dx * dx + dy * dy <= r2
}

proof fn lemma_push_sum_bounded(bots: Seq<Nanobot>, i: int, radius: u32, n: int)
    requires
        separable(bots),
        0 <= i < bots.len(),
        0 <= n <= bots.len(),
    ensures
        -n * 0x200_0000_0000 <= push_sum(bots, i, radius, n).0 <= n * 0x200_0000_0000,
        -n * 0x200_0000_0000 <= push_sum(bots, i, radius, n).1 <= n * 0x200_0000_0000,
        fits(push_sum(bots, i, radius, n)),
    decreases n,
{
    if n > 0 {
        lemma_push_sum_bounded(bots, i, radius, n - 1);
        assert(-POSITION_LIMIT <= bots[n - 1].position.x <= POSITION_LIMIT);
        assert(-POSITION_LIMIT <= bots[i].position.x <= POSITION_LIMIT);
    }
}

/// The separation vector of bot `i`: the sum of `own position - sibling position`
/// over every other bot of the group within `radius`.
pub fn separation(bots: &Vec<Nanobot>, i: usize, radius: u32) -> (r: Vec2)
    requires
        i < bots@.len(),
        separable(bots@),
    ensures
        fits(separation_spec(bots@, i as int, radius)),
        r == vec_of(separation_spec(bots@, i as int, radius)),
{
    let me = bots[i].position;
    let mut sx: i64 = 0;
    let mut sy: i64 = 0;
    let mut j: usize = 0;
    while j < bots.len()
        invariant
            separable(bots@),
            i < bots@.len(),
            me == bots@[i as int].position,
            j <= bots@.len(),
            (sx as int, sy as int) == push_sum(bots@, i as int, radius, j as int),
            -(j as int) * 0x200_0000_0000 <= sx <= (j as int) * 0x200_0000_0000,
            -(j as int) * 0x200_0000_0000 <= sy <= (j as int) * 0x200_0000_0000,
        decreases bots@.len() - j,
    {
        let other = bots[j].position;
        if j != i && is_near(me, other, radius) {
            sx = sx + (me.x - other.x);
            sy = sy + (me.y - other.y);
        }
        j = j + 1;
    }
    Vec2 { x: sx, y: sy }
}

/// The bot after its separation `sep` is added to its velocity.
pub open spec fn pushed(b: Nanobot, sep: (int, int)) -> Nanobot {
    Nanobot { velocity: vec_of((b.velocity.x + sep.0, b.velocity.y + sep.1)), ..b }
}

/// Whether every bot of `bots` can take its separation into its velocity without
/// leaving the `i64` range.
pub open spec fn can_push(bots: Seq<Nanobot>, radius: u32) -> bool {
    forall|i: int| 0 <= i < bots.len() ==> fits(
        #[trigger] add_spec(bots[i].velocity, vec_of(separation_spec(bots, i, radius))),
    )
}

/// Adds each bot's separation to its velocity. Every separation is computed from
/// the positions before the call, so the order of the bots does not matter.
pub fn apply_separation(bots: &mut Vec<Nanobot>, radius: u32)
    requires
        separable(old(bots)@),
        can_push(old(bots)@, radius),
    ensures
        final(bots)@.len() == old(bots)@.len(),
        forall|i: int| 0 <= i < old(bots)@.len() ==> #[trigger] final(bots)@[i] == pushed(
            old(bots)@[i],
            separation_spec(old(bots)@, i, radius),
        ),
{
    let mut seps: Vec<Vec2> = Vec::new();
    let mut i: usize = 0;
    while i < bots.len()
        invariant
            separable(bots@),
            i <= bots@.len(),
            seps@.len() == i,
            forall|k: int| 0 <= k < i ==> #[trigger] seps@[k] == vec_of(separation_spec(bots@, k, radius)),
        decreases bots@.len() - i,
    {
        seps.push(separation(bots, i, radius));
        i = i + 1;
    }
    let ghost start = bots@;
    let mut i: usize = 0;
    while i < bots.len()
        invariant
            bots@.len() == start.len(),
            seps@.len() == start.len(),
            separable(start),
            can_push(start, radius),
            i <= start.len(),
            forall|k: int| 0 <= k < start.len() ==> #[trigger] seps@[k] == vec_of(separation_spec(start, k, radius)),
            forall|k: int| 0 <= k < i ==> #[trigger] bots@[k] == pushed(start[k], separation_spec(start, k, radius)),
            forall|k: int| i <= k < start.len() ==> #[trigger] bots@[k] == start[k],
        decreases start.len() - i,
    {
        let b = bots[i];
        let s = seps[i];
        proof {
            lemma_push_sum_bounded(start, i as int, radius, start.len() as int);
        }
        assert(fits(add_spec(start[i as int].velocity, vec_of(separation_spec(start, i as int, radius)))));
        let v = b.velocity.add(s);
        bots.set(i, Nanobot { velocity: v, ..b });
        i = i + 1;
    }
}

/// The bots after each one's separation is added to its velocity.
pub open spec fn pushed_all(bots: Seq<Nanobot>, radius: u32) -> Seq<Nanobot> {
    Seq::new(bots.len(), |i: int| pushed(bots[i], separation_spec(bots, i, radius)))
}

/// One frame of swarm motion: separation is added to every velocity, then every
/// bot moves by its new velocity times `dt`.
pub fn swarm_step(bots: &mut Vec<Nanobot>, radius: u32, dt: u64)
    requires
        separable(old(bots)@),
        can_push(old(bots)@, radius),
        can_step(pushed_all(old(bots)@, radius), dt),
    ensures
        final(bots)@.len() == old(bots)@.len(),
        forall|i: int| 0 <= i < old(bots)@.len() ==> #[trigger] final(bots)@[i] == stepped(
            pushed(old(bots)@[i], separation_spec(old(bots)@, i, radius)),
            dt,
        ),
{
    apply_separation(bots, radius);
    assert(bots@ == pushed_all(old(bots)@, radius));
    integrate(bots, dt);
}

fn all_separable(bots: &Vec<Nanobot>) -> (r: bool)
    ensures
        r == separable(bots@),
{
    if bots.len() > GROUP_LIMIT {
        return false;
    }
    let mut i: usize = 0;
    while i < bots.len()
        invariant
            i <= bots@.len(),
            forall|k: int| 0 <= k < i ==> -POSITION_LIMIT <= #[trigger] bots@[k].position.x <= POSITION_LIMIT
                && -POSITION_LIMIT <= bots@[k].position.y <= POSITION_LIMIT,
        decreases bots@.len() - i,
    {
        let p = bots[i].position;
        if p.x < -POSITION_LIMIT || p.x > POSITION_LIMIT || p.y < -POSITION_LIMIT || p.y > POSITION_LIMIT {
            return false;
        }
        i = i + 1;
    }
    true
}

/// One frame of swarm motion where the machine allows it: when separation can be
/// computed, added to every velocity and integrated without leaving the `i64`
/// range, does what `swarm_step` does and returns `true`; otherwise leaves the
/// bots as they are and returns `false`.
pub fn try_swarm_step(bots: &mut Vec<Nanobot>, radius: u32, dt: u64) -> (r: bool)
    ensures
        r == (separable(old(bots)@) && can_push(old(bots)@, radius) && can_step(pushed_all(old(bots)@, radius), dt)),
        !r ==> final(bots)@ == old(bots)@,
        final(bots)@.len() == old(bots)@.len(),
        r ==> forall|i: int| 0 <= i < old(bots)@.len() ==> #[trigger] final(bots)@[i] == stepped(
            pushed(old(bots)@[i], separation_spec(old(bots)@, i, radius)),
            dt,
        ),
{
    if !all_separable(bots) {
        return false;
    }
    let ghost start = bots@;
    let mut i: usize = 0;
    while i < bots.len()
        invariant
            bots@ == start,
            separable(start),
            i <= start.len(),
            forall|k: int| 0 <= k < i ==> fits(
                #[trigger] add_spec(start[k].velocity, vec_of(separation_spec(start, k, radius))),
            ),
            forall|k: int| 0 <= k < i ==> fits(
                #[trigger] step_spec(pushed_all(start, radius)[k].position, pushed_all(start, radius)[k].velocity, dt),
            ),
        decreases start.len() - i,
    {
        let b = bots[i];
        let s = separation(bots, i, radius);
        let vx: i128 = b.velocity.x as i128 + s.x as i128;
        let vy: i128 = b.velocity.y as i128 + s.y as i128;
        if !in_i64(vx) || !in_i64(vy) {
            assert(!fits(add_spec(start[i as int].velocity, vec_of(separation_spec(start, i as int, radius)))));
            return false;
        }
        let x = step_wide(b.position.x, vx as i64, dt);
        let y = step_wide(b.position.y, vy as i64, dt);
        assert(pushed_all(start, radius)[i as int] == pushed(start[i as int], separation_spec(start, i as int, radius)));
        if !in_i64(x) || !in_i64(y) {
            assert(!fits(step_spec(pushed_all(start, radius)[i as int].position, pushed_all(start, radius)[i as int].velocity, dt)));
            return false;
        }
        i = i + 1;
    }
    swarm_step(bots, radius, dt);
    true
}

/// A pair of bots push each other with opposite vectors of the same size.
pub proof fn lemma_push_opposite(a: Vec2, b: Vec2, radius: u32)
    ensures
        push_spec(a, b, radius).0 == -push_spec(b, a, radius).0,
        push_spec(a, b, radius).1 == -push_spec(b, a, radius).1,
{
    assert((a.x - b.x) * (a.x - b.x) == (b.x - a.x) * (b.x - a.x)) by (nonlinear_arith);
    assert((a.y - b.y) * (a.y - b.y) == (b.y - a.y) * (b.y - a.y)) by (nonlinear_arith);
}

/// In a group of two, the separation of the first bot is the negation of that of
/// the second: each is pushed away from the other by the same amount.
pub proof fn lemma_pair_separation_opposite(bots: Seq<Nanobot>, radius: u32)
    requires
        bots.len() == 2,
    ensures
        separation_spec(bots, 0, radius).0 == -separation_spec(bots, 1, radius).0,
        separation_spec(bots, 0, radius).1 == -separation_spec(bots, 1, radius).1,
{
    lemma_push_opposite(bots[0].position, bots[1].position, radius);
    let p = push_spec(bots[0].position, bots[1].position, radius);
    let q = push_spec(bots[1].position, bots[0].position, radius);
    assert(push_sum(bots, 0, radius, 0) == (0int, 0int));
    assert(push_sum(bots, 1, radius, 0) == (0int, 0int));
    assert(push_sum(bots, 0, radius, 1) == (0int, 0int));
    assert(push_sum(bots, 0, radius, 2) == (p.0, p.1));
    assert(push_sum(bots, 1, radius, 1) == (q.0, q.1));
    assert(push_sum(bots, 1, radius, 2) == (q.0, q.1));
}

} // verus!
