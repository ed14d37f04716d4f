//! Touch input router: per-contact focus and fan-out of touch events to the
//! touch objects of the focused client.
use std::collections::HashMap;
use vstd::prelude::*;

use crate::serial::Serial;

verus! {

broadcast use vstd::std_specs::hash::group_hash_axioms;

/// Lowest protocol version of a touch object that carries shape and
/// orientation events.
pub const SHAPE_SINCE_VERSION: u32 = 6;

/// A client-visible touch object: its identity, the client connection that
/// owns it and the protocol version negotiated for it.
#[derive(Clone, Copy, PartialEq, Eq, Structural, Debug)]
pub struct TouchObject {
    pub id: u64,
    pub client: u64,
    pub version: u32,
}

/// A surface that a contact lands on, with the client that owns it.
#[derive(Clone, Copy, PartialEq, Eq, Structural, Debug)]
pub struct Surface {
    pub id: u64,
    pub client: u64,
}

/// A position in whole logical units.
#[derive(Clone, Copy, PartialEq, Eq, Structural, Debug)]
pub struct Offset {
    pub x: i32,
    pub y: i32,
}

/// A position in the wire's 24.8 fixed-point format: each field holds the
/// coordinate multiplied by 256.
#[derive(Clone, Copy, PartialEq, Eq, Structural, Debug)]
pub struct FixedPoint {
    pub x: i32,
    pub y: i32,
}

/// A touch event as sent to one touch object. Coordinates and shape values
/// are 24.8 fixed point; surface-local coordinates are held in 64 bits so
/// that subtracting an offset never overflows.
#[derive(Clone, Copy, PartialEq, Eq, Structural, Debug)]
pub enum TouchEvent {
    Down { serial: u32, time: u32, surface: u64, slot: i32, x: i64, y: i64 },
    Up { serial: u32, time: u32, slot: i32 },
    Motion { time: u32, slot: i32, x: i64, y: i64 },
    Frame,
    Shape { slot: i32, major: i32, minor: i32 },
    Orientation { slot: i32, orientation: i32 },
    Cancel,
}

/// One event addressed to the touch object with identity `target`.
#[derive(Clone, Copy, PartialEq, Eq, Structural, Debug)]
pub struct Delivery {
    pub target: u64,
    pub event: TouchEvent,
}

/// The focus of one contact: the offset of the surface it landed on and the
/// touch objects that receive its events.
pub struct FocusState {
    pub offset: Offset,
    pub handles: Seq<TouchObject>,
}

/// The router's whole state: the registered touch objects, in order of
/// registration, and the focus of each contact slot that went down.
pub struct TouchState {
    pub known: Seq<TouchObject>,
    pub focus: Map<i32, FocusState>,
}

/// An operation on the router.
pub enum TouchOp {
    Register { handle: TouchObject },
    Unregister { id: u64 },
    Down { serial: Serial, time: u32, surface: Surface, offset: Offset, slot: i32, location: FixedPoint },
    Up { serial: Serial, time: u32, slot: i32 },
    Motion { time: u32, slot: i32, location: FixedPoint },
    Shape { slot: i32, major: i32, minor: i32 },
    Orientation { slot: i32, orientation: i32 },
    Cancel,
}

/// The version a touch object needs to receive `ev`.
pub open spec fn min_version(ev: TouchEvent) -> u32 {
    match ev {
        TouchEvent::Shape { .. } => SHAPE_SINCE_VERSION,
        TouchEvent::Orientation { .. } => SHAPE_SINCE_VERSION,
        _ => 0,
    }
}

/// A fixed-point coordinate made relative to a whole-unit offset.
pub open spec fn local_coord(raw: i32, offset: i32) -> i64 {
    (raw - 256 * offset) as i64
}

/// The touch objects of `known` owned by `client`, in order.
pub open spec fn owned_by(known: Seq<TouchObject>, client: u64) -> Seq<TouchObject>
    decreases known.len(),
{
    if known.len() == 0 {
        Seq::empty()
    } else {
        let rest = owned_by(known.drop_last(), client);
        if known.last().client == client {
            rest.push(known.last())
        } else {
            rest
        }
    }
}

/// The touch objects of `known` other than the one with identity `id`.
pub open spec fn without_object(known: Seq<TouchObject>, id: u64) -> Seq<TouchObject>
    decreases known.len(),
{
    if known.len() == 0 {
        Seq::empty()
    } else {
        let rest = without_object(known.drop_last(), id);
        if known.last().id != id {
            rest.push(known.last())
        } else {
            rest
        }
    }
}

/// What one subscriber gets for `ev`: the event and a frame, or nothing if
/// its version does not admit the event.
pub open spec fn framed_for(h: TouchObject, ev: TouchEvent) -> Seq<Delivery> {
    if h.version >= min_version(ev) {
        seq![Delivery { target: h.id, event: ev }, Delivery { target: h.id, event: TouchEvent::Frame }]
    } else {
        Seq::empty()
    }
}

/// `ev` sent to every subscriber in order, each time followed by a frame.
pub open spec fn framed(subs: Seq<TouchObject>, ev: TouchEvent) -> Seq<Delivery>
    decreases subs.len(),
{
    if subs.len() == 0 {
        Seq::empty()
    } else {
        framed(subs.drop_last(), ev) + framed_for(subs.last(), ev)
    }
}

/// `ev` sent to the subscribers of `slot`, or nothing if the slot has no focus.
pub open spec fn to_focus(s: TouchState, slot: i32, ev: TouchEvent) -> Seq<Delivery> {
    if s.focus.contains_key(slot) {
        framed(s.focus[slot].handles, ev)
    } else {
        Seq::empty()
    }
}

/// A cancel event for every registered touch object, with no frame.
pub open spec fn cancel_all(known: Seq<TouchObject>) -> Seq<Delivery> {
    known.map_values(|h: TouchObject| Delivery { target: h.id, event: TouchEvent::Cancel })
}

/// One step of the router: the state after `op` and the events it sends.
pub open spec fn touch_step(s: TouchState, op: TouchOp) -> (TouchState, Seq<Delivery>) {
    match op {
        TouchOp::Register { handle } => (TouchState { known: s.known.push(handle), focus: s.focus }, Seq::empty()),
        TouchOp::Unregister { id } => (TouchState { known: without_object(s.known, id), focus: s.focus }, Seq::empty()),
        TouchOp::Down { serial, time, surface, offset, slot, location } => {
            let subs = owned_by(s.known, surface.client);
            let ev = TouchEvent::Down {
                serial: serial.0,
                time,
                surface: surface.id,
                slot,
                x: local_coord(location.x, offset.x),
                y: local_coord(location.y, offset.y),
            };
            (
                TouchState { known: s.known, focus: s.focus.insert(slot, FocusState { offset, handles: subs }) },
                framed(subs, ev),
            )
        },
        TouchOp::Up { serial, time, slot } => (s, to_focus(s, slot, TouchEvent::Up { serial: serial.0, time, slot })),
        TouchOp::Motion { time, slot, location } => {
            if s.focus.contains_key(slot) {
                let off = s.focus[slot].offset;
                let ev = TouchEvent::Motion {
                    time,
                    slot,
                    x: local_coord(location.x, off.x),
                    y: local_coord(location.y, off.y),
                };
                (s, framed(s.focus[slot].handles, ev))
            } else {
                (s, Seq::empty())
            }
        },
        TouchOp::Shape { slot, major, minor } => (s, to_focus(s, slot, TouchEvent::Shape { slot, major, minor })),
        TouchOp::Orientation { slot, orientation } => (s, to_focus(s, slot, TouchEvent::Orientation { slot, orientation })),
        TouchOp::Cancel => (s, cancel_all(s.known)),
    }
}

#[derive(Debug)]
struct TouchFocus {
    surface_offset: Offset,
    handles: Vec<TouchObject>,
}

/// The touch router of one seat.
#[derive(Debug)]
pub struct TouchHandle {
    known_handles: Vec<TouchObject>,
    focus: HashMap<i32, TouchFocus>,
}

impl View for TouchHandle {
    type V = TouchState;

    closed spec fn view(&self) -> TouchState {
        TouchState {
            known: self.known_handles@,
            focus: self.focus@.map_values(
                |f: TouchFocus| FocusState { offset: f.surface_offset, handles: f.handles@ },
            ),
        }
    }
}

fn required_version(ev: &TouchEvent) -> (r: u32)
    ensures
        r == min_version(*ev),
{
    match ev {
        TouchEvent::Shape { .. } => SHAPE_SINCE_VERSION,
        TouchEvent::Orientation { .. } => SHAPE_SINCE_VERSION,
        _ => 0,
    }
}

fn local(raw: i32, offset: i32) -> (r: i64)
    ensures
        r == local_coord(raw, offset),
{
    raw as i64 - 256 * (offset as i64)
}

/// Sends `event` to each subscriber whose version admits it, each time
/// followed by a frame.
fn deliver_framed(subs: &Vec<TouchObject>, event: TouchEvent) -> (r: Vec<Delivery>)
    ensures
        r@ == framed(subs@, event),
{
    let min = required_version(&event);
    let mut out: Vec<Delivery> = Vec::new();
    let mut i: usize = 0;
    while i < subs.len()
        invariant
            i <= subs.len(),
            min == min_version(event),
            out@ == framed(subs@.take(i as int), event),
        decreases subs.len() - i,
    {
        let h = subs[i];
        proof {
            assert(subs@.take(i + 1).drop_last() =~= subs@.take(i as int));
            assert(subs@.take(i + 1).last() == h);
        }
        if h.version >= min {
            out.push(Delivery { target: h.id, event });
            out.push(Delivery { target: h.id, event: TouchEvent::Frame });
        }
        proof {
            assert(out@ =~= framed(subs@.take(i + 1), event));
        }
        i += 1;
    }
    proof {
        assert(subs@.take(subs.len() as int) =~= subs@);
    }
    out
}

impl TouchHandle {
    /// A router with no touch objects and no focus.
    pub fn new() -> (r: Self)
        ensures
            r@.known == Seq::<TouchObject>::empty(),
            r@.focus == Map::<i32, FocusState>::empty(),
    {
        let r = TouchHandle { known_handles: Vec::new(), focus: HashMap::new() };
        proof {
            assert(r@.focus =~= Map::<i32, FocusState>::empty());
        }
        r
    }

    /// Registers a touch object, before any event can reach its client.
    pub fn new_touch(&mut self, touch: TouchObject)
        ensures
            final(self)@ == touch_step(old(self)@, TouchOp::Register { handle: touch }).0,
    {
        self.known_handles.push(touch);
    }

    /// Forgets the touch object with identity `object_id`, if registered; the
    /// focus of the contacts is left as it is.
    pub fn unregister(&mut self, object_id: u64)
        ensures
            final(self)@ == touch_step(old(self)@, TouchOp::Unregister { id: object_id }).0,
    {
        let mut kept: Vec<TouchObject> = Vec::new();
        let mut i: usize = 0;
        while i < self.known_handles.len()
            invariant
                i <= self.known_handles.len(),
                self.known_handles@ == old(self).known_handles@,
                self.focus@ == old(self).focus@,
                kept@ == without_object(self.known_handles@.take(i as int), object_id),
            decreases self.known_handles.len() - i,
        {
            let h = self.known_handles[i];
            proof {
                assert(self.known_handles@.take(i + 1).drop_last() =~= self.known_handles@.take(i as int));
                assert(self.known_handles@.take(i + 1).last() == h);
            }
            if h.id != object_id {
                kept.push(h);
            }
            i += 1;
        }
        proof {
            assert(self.known_handles@.take(i as int) =~= self.known_handles@);
        }
        self.known_handles = kept;
    }

    fn handles_of_client(&self, client: u64) -> (r: Vec<TouchObject>)
        ensures
            r@ == owned_by(self.known_handles@, client),
    {
        let mut subs: Vec<TouchObject> = Vec::new();
        let mut i: usize = 0;
        while i < self.known_handles.len()
            invariant
                i <= self.known_handles.len(),
                subs@ == owned_by(self.known_handles@.take(i as int), client),
            decreases self.known_handles.len() - i,
        {
            let h = self.known_handles[i];
            proof {
                assert(self.known_handles@.take(i + 1).drop_last() =~= self.known_handles@.take(i as int));
                assert(self.known_handles@.take(i + 1).last() == h);
            }
            if h.client == client {
                subs.push(h);
            }
            i += 1;
        }
        proof {
            assert(self.known_handles@.take(i as int) =~= self.known_handles@);
        }
        subs
    }

    /// A new contact in `slot` on `surface`: the slot's focus becomes the touch
    /// objects of the surface's client, with `surface_offset` kept for later
    /// motion, and each of them gets a down event at `location` made relative
    /// to the surface, followed by a frame.
    pub fn down(
        &mut self,
        serial: Serial,
        time: u32,
        surface: &Surface,
        surface_offset: Offset,
        slot: i32,
        location: FixedPoint,
    ) -> (r: Vec<Delivery>)
        ensures
            (final(self)@, r@) == touch_step(
                old(self)@,
                TouchOp::Down { serial, time, surface: *surface, offset: surface_offset, slot, location },
            ),
    {
        let handles = self.handles_of_client(surface.client);
        let event = TouchEvent::Down {
            serial: serial.0,
            time,
            surface: surface.id,
            slot,
            x: local(location.x, surface_offset.x),
            y: local(location.y, surface_offset.y),
        };
        let r = deliver_framed(&handles, event);
        let ghost subs = handles@;
        self.focus.insert(slot, TouchFocus { surface_offset, handles });
        proof {
            let op = TouchOp::Down { serial, time, surface: *surface, offset: surface_offset, slot, location };
            assert(self@.focus =~= touch_step(old(self)@, op).0.focus);
        }
        r
    }

    /// The contact in `slot` ends: an up event and a frame to its subscribers.
    pub fn up(&self, serial: Serial, time: u32, slot: i32) -> (r: Vec<Delivery>)
        ensures
            (self@, r@) == touch_step(self@, TouchOp::Up { serial, time, slot }),
    {
        self.to_focused(slot, TouchEvent::Up { serial: serial.0, time, slot })
    }

    /// The contact in `slot` moves to `location`, made relative to the offset
    /// stored when it went down.
    pub fn motion(&self, time: u32, slot: i32, location: FixedPoint) -> (r: Vec<Delivery>)
        ensures
            (self@, r@) == touch_step(self@, TouchOp::Motion { time, slot, location }),
    {
        match self.focus.get(&slot) {
            Some(f) => {
                let event = TouchEvent::Motion {
                    time,
                    slot,
                    x: local(location.x, f.surface_offset.x),
                    y: local(location.y, f.surface_offset.y),
                };
                deliver_framed(&f.handles, event)
            },
            None => Vec::new(),
        }
    }

    /// The shape of the contact in `slot` changes; only subscribers at a
    /// version that carries shape events receive it.
    pub fn shape(&self, slot: i32, major: i32, minor: i32) -> (r: Vec<Delivery>)
        ensures
            (self@, r@) == touch_step(self@, TouchOp::Shape { slot, major, minor }),
    {
        self.to_focused(slot, TouchEvent::Shape { slot, major, minor })
    }

    /// The orientation of the contact in `slot` changes; only subscribers at a
    /// version that carries orientation events receive it.
    pub fn orientation(&self, slot: i32, orientation: i32) -> (r: Vec<Delivery>)
        ensures
            (self@, r@) == touch_step(self@, TouchOp::Orientation { slot, orientation }),
    {
        self.to_focused(slot, TouchEvent::Orientation { slot, orientation })
    }

    /// A cancel event, with no frame, for every registered touch object,
    /// whatever the focus.
    pub fn cancel(&self) -> (r: Vec<Delivery>)
        ensures
            (self@, r@) == touch_step(self@, TouchOp::Cancel),
    {
        let mut out: Vec<Delivery> = Vec::new();
        let mut i: usize = 0;
        while i < self.known_handles.len()
            invariant
                i <= self.known_handles.len(),
                out@ == cancel_all(self.known_handles@.take(i as int)),
            decreases self.known_handles.len() - i,
        {
            out.push(Delivery { target: self.known_handles[i].id, event: TouchEvent::Cancel });
            proof {
                assert(out@ =~= cancel_all(self.known_handles@.take(i + 1)));
            }
            i += 1;
        }
        proof {
            assert(self.known_handles@.take(i as int) =~= self.known_handles@);
        }
        out
    }

    fn to_focused(&self, slot: i32, event: TouchEvent) -> (r: Vec<Delivery>)
        ensures
            r@ == to_focus(self@, slot, event),
    {
        match self.focus.get(&slot) {
            Some(f) => deliver_framed(&f.handles, event),
            None => Vec::new(),
        }
    }
}

} // verus!
