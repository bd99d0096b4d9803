use vstd::prelude::*;

use crate::geom::{add_spec, fits, vec_of, Vec2};
use crate::swarm::{Nanobot, NanobotGroup};

verus! {

/// An axis-aligned rectangle with `min` at or below `max` on both axes.
#[derive(Clone, Copy, Debug, PartialEq, Eq, Structural)]
pub struct DragRect {
    pub min: Vec2,
    pub max: Vec2,
}

pub open spec fn min_spec(a: i64, b: i64) -> i64 {
    if a <= b {
        a
    } else {
        b
    }
}

pub open spec fn max_spec(a: i64, b: i64) -> i64 {
    if a <= b {
        b
    } else {
        a
    }
}

/// The rectangle spanned by two corners, normalized so that `min <= max`.
pub open spec fn rect_spec(a: Vec2, b: Vec2) -> DragRect {
    DragRect {
        min: Vec2 { x: min_spec(a.x, b.x), y: min_spec(a.y, b.y) },
        max: Vec2 { x: max_spec(a.x, b.x), y: max_spec(a.y, b.y) },
    }
}

/// Whether the point `(x, y)` lies in `r`, borders included.
pub open spec fn contains_spec(r: DragRect, p: (int, int)) -> bool {
    r.min.x <= p.0 <= r.max.x && r.min.y <= p.1 <= r.max.y
}

impl DragRect {
    pub open spec fn wf(self) -> bool {
        self.min.x <= self.max.x && self.min.y <= self.max.y
    }

    /// The rectangle between an anchor and a release point, in either order.
    pub fn from_corners(a: Vec2, b: Vec2) -> (r: DragRect)
        ensures
            r == rect_spec(a, b),
            r.wf(),
    {
        let min = Vec2 {
            x: if a.x <= b.x { a.x } else { b.x },
            y: if a.y <= b.y { a.y } else { b.y },
        };
        let max = Vec2 {
            x: if a.x <= b.x { b.x } else { a.x },
            y: if a.y <= b.y { b.y } else { a.y },
        };
        DragRect { min, max }
    }

    /// Whether `offset + p` lies in the rectangle, borders included.
    pub fn contains_offset(&self, offset: Vec2, p: Vec2) -> (r: bool)
        ensures
            r == contains_spec(*self, add_spec(offset, p)),
    {
        let x: i128 = offset.x as i128 + p.x as i128;
        let y: i128 = offset.y as i128 + p.y as i128;
        self.min.x as i128 <= x && x <= self.max.x as i128 && self.min.y as i128 <= y && y
            <= self.max.y as i128
    }

    /// Whether `p` lies in the rectangle, borders included.
    pub fn contains(&self, p: Vec2) -> (r: bool)
        ensures
            r == contains_spec(*self, (p.x as int, p.y as int)),
    {
        self.min.x <= p.x && p.x <= self.max.x && self.min.y <= p.y && p.y <= self.max.y
    }
}

/// The bot after a drag over `rect` in a group placed at `offset`: selected exactly
/// when its world position lies in the rectangle.
pub open spec fn selected_after(b: Nanobot, offset: Vec2, rect: DragRect) -> Nanobot {
    Nanobot { selected: contains_spec(rect, add_spec(offset, b.position)), ..b }
}

/// Marks each bot of the group selected when its world position lies in `rect`,
/// and unselected otherwise. Nothing else of a bot changes.
pub fn select_in_rect(group: &mut NanobotGroup, rect: &DragRect)
    ensures
        final(group).offset == old(group).offset,
        final(group).bots@.len() == old(group).bots@.len(),
        forall|i: int| 0 <= i < old(group).bots@.len() ==> #[trigger] final(group).bots@[i]
            == selected_after(old(group).bots@[i], old(group).offset, *rect),
{
    let ghost start = group.bots@;
    let mut i: usize = 0;
    while i < group.bots.len()
        invariant
            group.bots@.len() == start.len(),
            group.offset == old(group).offset,
            start == old(group).bots@,
            i <= start.len(),
            forall|k: int| 0 <= k < i ==> #[trigger] group.bots@[k] == selected_after(start[k], group.offset, *rect),
            forall|k: int| i <= k < start.len() ==> #[trigger] group.bots@[k] == start[k],
        decreases start.len() - i,
    {
        let b = group.bots[i];
        let inside = rect.contains_offset(group.offset, b.position);
        group.bots.set(i, Nanobot { selected: inside, ..b });
        i = i + 1;
    }
}

/// The two phases of a selection drag: idle, or dragging from an anchor.
#[derive(Clone, Copy, Debug, PartialEq, Eq, Structural)]
pub enum DragGesture {
    Idle,
    Dragging(Vec2),
}

impl DragGesture {
    /// The gesture after the button goes down at `at`: a drag anchored there.
    pub fn press(&mut self, at: Vec2)
        ensures
            *final(self) == DragGesture::Dragging(at),
    {
        *self = DragGesture::Dragging(at);
    }

    /// The button comes up at `at`. A drag in progress ends, and its rectangle,
    /// anchor to release point, is returned; without one nothing happens.
    pub fn release(&mut self, at: Vec2) -> (r: Option<DragRect>)
        ensures
            *final(self) == DragGesture::Idle,
            match *old(self) {
                DragGesture::Idle => r.is_none(),
                DragGesture::Dragging(anchor) => r == Some(rect_spec(anchor, at)),
            },
    {
        let r = match *self {
            DragGesture::Idle => None,
            DragGesture::Dragging(anchor) => Some(DragRect::from_corners(anchor, at)),
        };
        *self = DragGesture::Idle;
        r
    }
}

/// Ends a selection drag at `at`. When a drag was in progress, every bot of the
/// group is selected exactly when its world position lies in the rectangle
/// between the anchor and `at`; when none was, the group is left as it was.
/// Returns whether a selection took place.
pub fn finish_drag(gesture: &mut DragGesture, group: &mut NanobotGroup, at: Vec2) -> (r: bool)
    ensures
        *final(gesture) == DragGesture::Idle,
        r == (*old(gesture) is Dragging),
        final(group).offset == old(group).offset,
        final(group).bots@.len() == old(group).bots@.len(),
        match *old(gesture) {
            DragGesture::Idle => final(group).bots@ == old(group).bots@,
            DragGesture::Dragging(anchor) => forall|i: int| 0 <= i < old(group).bots@.len() ==> (
                #[trigger] final(group).bots@[i]).selected == contains_spec(
                rect_spec(anchor, at),
                add_spec(old(group).offset, old(group).bots@[i].position),
            ),
        },
{
    match gesture.release(at) {
        Some(rect) => {
            select_in_rect(group, &rect);
            true
        },
        None => false,
    }
}

/// The rectangle of a drag does not depend on which corner was the anchor.
pub proof fn lemma_rect_symmetric(a: Vec2, b: Vec2)
    ensures
        rect_spec(a, b) == rect_spec(b, a),
        rect_spec(a, b).wf(),
{
}

/// A ring drawn around a selected bot.
#[derive(Clone, Copy, Debug, PartialEq, Eq, Structural)]
pub struct Ring {
    pub center: Vec2,
    pub radius: u32,
}

/// The rings for the selected bots among `bots`, in their order, centred on
/// their world positions.
pub open spec fn rings_spec(bots: Seq<Nanobot>, offset: Vec2, radius: u32) -> Seq<Ring>
    decreases bots.len(),
{
    if bots.len() == 0 {
        Seq::empty()
    } else {
        let rest = rings_spec(bots.drop_last(), offset, radius);
        let b = bots.last();
        if b.selected {
            rest.push(Ring { center: vec_of(add_spec(offset, b.position)), radius })
        } else {
            rest
        }
    }
}

/// Whether every selected bot's world position fits in an `i64`.
pub open spec fn selected_placeable(bots: Seq<Nanobot>, offset: Vec2) -> bool {
    forall|i: int| 0 <= i < bots.len() && bots[i].selected ==> fits(#[trigger] add_spec(offset, bots[i].position))
}

/// One ring of `radius` around each selected bot of the group; the bots are only read.
pub fn highlight_rings(group: &NanobotGroup, radius: u32) -> (r: Vec<Ring>)
    requires
        selected_placeable(group.bots@, group.offset),
    ensures
        r@ == rings_spec(group.bots@, group.offset, radius),
{
    let mut rings: Vec<Ring> = Vec::new();
    let mut i: usize = 0;
    while i < group.bots.len()
        invariant
            selected_placeable(group.bots@, group.offset),
            i <= group.bots@.len(),
            rings@ == rings_spec(group.bots@.subrange(0, i as int), group.offset, radius),
        decreases group.bots@.len() - i,
    {
        let b = group.bots[i];
        assert(group.bots@.subrange(0, i + 1).drop_last() == group.bots@.subrange(0, i as int));
        if b.selected {
            assert(fits(add_spec(group.offset, group.bots@[i as int].position)));
            rings.push(Ring { center: group.offset.add(b.position), radius });
        }
        i = i + 1;
    }
    assert(group.bots@.subrange(0, group.bots@.len() as int) == group.bots@);
    rings
}

} // verus!
