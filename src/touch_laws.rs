//! Properties of the touch router, stated over its step function.
use vstd::prelude::*;

use crate::serial::Serial;
use crate::touch::{
    framed, local_coord, min_version, owned_by, touch_step, without_object, Delivery, FixedPoint, Offset, Surface,
    TouchEvent, TouchObject, TouchOp, TouchState,
};

verus! {

/// The state after running `ops` in order from `s`.
pub open spec fn run_state(s: TouchState, ops: Seq<TouchOp>) -> TouchState
    decreases ops.len(),
{
    if ops.len() == 0 {
        s
    } else {
        touch_step(run_state(s, ops.drop_last()), ops.last()).0
    }
}

/// Whether `op` puts a new contact down in `slot`.
pub open spec fn downs_slot(op: TouchOp, slot: i32) -> bool {
    match op {
        TouchOp::Down { slot: s, .. } => s == slot,
        _ => false,
    }
}

proof fn lemma_owned_by(known: Seq<TouchObject>, client: u64)
    ensures
        forall|k: int|
            0 <= k < owned_by(known, client).len() ==> {
                &&& (#[trigger] owned_by(known, client)[k]).client == client
                &&& exists|j: int| 0 <= j < known.len() && known[j] == owned_by(known, client)[k]
            },
    decreases known.len(),
{
    if known.len() > 0 {
        let dl = known.drop_last();
        lemma_owned_by(dl, client);
        assert forall|k: int| 0 <= k < owned_by(known, client).len() implies {
            &&& (#[trigger] owned_by(known, client)[k]).client == client
            &&& exists|j: int| 0 <= j < known.len() && known[j] == owned_by(known, client)[k]
        } by {
            if k < owned_by(dl, client).len() {
                let j = choose|j: int| 0 <= j < dl.len() && dl[j] == owned_by(dl, client)[k];
                assert(known[j] == dl[j]);
            } else {
                assert(known[known.len() - 1] == known.last());
            }
        }
    }
}

proof fn lemma_framed_targets(subs: Seq<TouchObject>, ev: TouchEvent)
    ensures
        forall|i: int|
            0 <= i < framed(subs, ev).len() ==> exists|j: int|
                0 <= j < subs.len() && subs[j].id == (#[trigger] framed(subs, ev)[i]).target
                    && subs[j].version >= min_version(ev),
    decreases subs.len(),
{
    if subs.len() > 0 {
        let dl = subs.drop_last();
        lemma_framed_targets(dl, ev);
        assert forall|i: int| 0 <= i < framed(subs, ev).len() implies exists|j: int|
            0 <= j < subs.len() && subs[j].id == (#[trigger] framed(subs, ev)[i]).target
                && subs[j].version >= min_version(ev) by {
            if i < framed(dl, ev).len() {
                assert(framed(subs, ev)[i] == framed(dl, ev)[i]);
                let j = choose|j: int|
                    0 <= j < dl.len() && dl[j].id == framed(dl, ev)[i].target && dl[j].version
                        >= min_version(ev);
                assert(subs[j] == dl[j]);
            } else {
                assert(subs[subs.len() - 1] == subs.last());
            }
        }
    }
}

proof fn lemma_framed_pairs(subs: Seq<TouchObject>, ev: TouchEvent)
    ensures
        framed(subs, ev).len() % 2 == 0,
        forall|k: int|
            0 <= k && 2 * k + 1 < framed(subs, ev).len() ==> {
                &&& (#[trigger] framed(subs, ev)[2 * k]).event == ev
                &&& framed(subs, ev)[2 * k + 1] == (Delivery { target: framed(subs, ev)[2 * k].target, event: TouchEvent::Frame })
            },
    decreases subs.len(),
{
    if subs.len() > 0 {
        let dl = subs.drop_last();
        lemma_framed_pairs(dl, ev);
        let n = framed(dl, ev).len();
        assert forall|k: int| 0 <= k && 2 * k + 1 < framed(subs, ev).len() implies {
            &&& (#[trigger] framed(subs, ev)[2 * k]).event == ev
            &&& framed(subs, ev)[2 * k + 1] == (Delivery { target: framed(subs, ev)[2 * k].target, event: TouchEvent::Frame })
        } by {
            if 2 * k + 1 < n {
                assert(framed(subs, ev)[2 * k] == framed(dl, ev)[2 * k]);
                assert(framed(subs, ev)[2 * k + 1] == framed(dl, ev)[2 * k + 1]);
            }
        }
    }
}

proof fn lemma_framed_reaches(subs: Seq<TouchObject>, ev: TouchEvent)
    ensures
        forall|j: int|
            0 <= j < subs.len() && (#[trigger] subs[j]).version >= min_version(ev) ==> exists|i: int|
                0 <= i < framed(subs, ev).len() && framed(subs, ev)[i] == (Delivery { target: subs[j].id, event: ev }),
    decreases subs.len(),
{
    if subs.len() > 0 {
        let dl = subs.drop_last();
        lemma_framed_reaches(dl, ev);
        assert forall|j: int| 0 <= j < subs.len() && (#[trigger] subs[j]).version >= min_version(ev) implies exists|i: int|
            0 <= i < framed(subs, ev).len() && framed(subs, ev)[i] == (Delivery { target: subs[j].id, event: ev }) by {
            if j < dl.len() {
                assert(subs[j] == dl[j]);
                let i = choose|i: int|
                    0 <= i < framed(dl, ev).len() && framed(dl, ev)[i] == (Delivery { target: dl[j].id, event: ev });
                assert(framed(subs, ev)[i] == framed(dl, ev)[i]);
            } else {
                assert(framed(subs, ev)[framed(dl, ev).len() as int] == (Delivery { target: subs[j].id, event: ev }));
            }
        }
    }
}

proof fn lemma_focus_kept(s: TouchState, ops: Seq<TouchOp>, slot: i32)
    requires
        s.focus.contains_key(slot),
        forall|i: int| 0 <= i < ops.len() ==> !downs_slot(#[trigger] ops[i], slot),
    ensures
        run_state(s, ops).focus.contains_key(slot),
        run_state(s, ops).focus[slot] == s.focus[slot],
    decreases ops.len(),
{
    if ops.len() > 0 {
        let dl = ops.drop_last();
        assert forall|i: int| 0 <= i < dl.len() implies !downs_slot(#[trigger] dl[i], slot) by {
            assert(dl[i] == ops[i]);
        }
        lemma_focus_kept(s, dl, slot);
        assert(!downs_slot(ops[ops.len() - 1], slot));
    }
}

/// A contact stays bound to what its down established: after a down in
/// `slot`, and any operations that put no new contact down in that slot,
/// motion and up for the slot reach exactly the touch objects that the
/// surface's client had at the down, and motion coordinates are taken
/// relative to the offset given at the down.
pub proof fn lemma_contact_bound_at_down(
    s: TouchState,
    serial: Serial,
    time: u32,
    surface: Surface,
    offset: Offset,
    slot: i32,
    location: FixedPoint,
    ops: Seq<TouchOp>,
)
    requires
        forall|i: int| 0 <= i < ops.len() ==> !downs_slot(#[trigger] ops[i], slot),
    ensures
        ({
            let after = run_state(
                touch_step(s, TouchOp::Down { serial, time, surface, offset, slot, location }).0,
                ops,
            );
            let subs = owned_by(s.known, surface.client);
            &&& after.focus.contains_key(slot)
            &&& after.focus[slot].handles == subs
            &&& forall|t: u32, loc: FixedPoint|
                #[trigger] touch_step(after, TouchOp::Motion { time: t, slot, location: loc }).1
                    == framed(
                    subs,
                    TouchEvent::Motion {
                        time: t,
                        slot,
                        x: local_coord(loc.x, offset.x),
                        y: local_coord(loc.y, offset.y),
                    },
                )
            &&& forall|ser: Serial, t: u32|
                #[trigger] touch_step(after, TouchOp::Up { serial: ser, time: t, slot }).1
                    == framed(subs, TouchEvent::Up { serial: ser.0, time: t, slot })
        }),
{
    let first = touch_step(s, TouchOp::Down { serial, time, surface, offset, slot, location }).0;
    lemma_focus_kept(first, ops, slot);
}

/// A down reaches only the client that owns the surface: every event goes to
/// an identity that a registered touch object of that client carries.
pub proof fn lemma_client_isolation(
    s: TouchState,
    serial: Serial,
    time: u32,
    surface: Surface,
    offset: Offset,
    slot: i32,
    location: FixedPoint,
)
    ensures
        ({
            let out = touch_step(s, TouchOp::Down { serial, time, surface, offset, slot, location }).1;
            forall|i: int|
                0 <= i < out.len() ==> exists|j: int|
                    0 <= j < s.known.len() && s.known[j].id == (#[trigger] out[i]).target
                        && s.known[j].client == surface.client
        }),
{
    let subs = owned_by(s.known, surface.client);
    let ev = TouchEvent::Down {
        serial: serial.0,
        time,
        surface: surface.id,
        slot,
        x: local_coord(location.x, offset.x),
        y: local_coord(location.y, offset.y),
    };
    lemma_owned_by(s.known, surface.client);
    lemma_framed_targets(subs, ev);
    let out = framed(subs, ev);
    assert forall|i: int| 0 <= i < out.len() implies exists|j: int|
        0 <= j < s.known.len() && s.known[j].id == (#[trigger] out[i]).target
            && s.known[j].client == surface.client by {
        let j = choose|j: int|
            0 <= j < subs.len() && subs[j].id == out[i].target && subs[j].version >= min_version(ev);
        let jj = choose|jj: int| 0 <= jj < s.known.len() && s.known[jj] == subs[j];
        assert(subs[j].client == surface.client);
    }
}

/// Every event that goes to a subscriber is immediately followed by one
/// frame to the same subscriber; a cancel carries no frame.
pub proof fn lemma_frame_bracketing(s: TouchState, op: TouchOp)
    ensures
        ({
            let out = touch_step(s, op).1;
            &&& op is Cancel ==> forall|i: int| 0 <= i < out.len() ==> (#[trigger] out[i]).event == TouchEvent::Cancel
            &&& !(op is Cancel) ==> {
                &&& out.len() % 2 == 0
                &&& forall|k: int|
                    0 <= k && 2 * k + 1 < out.len() ==> {
                        &&& (#[trigger] out[2 * k]).event != TouchEvent::Frame
                        &&& out[2 * k + 1] == (Delivery { target: out[2 * k].target, event: TouchEvent::Frame })
                    }
            }
        }),
{
    match op {
        TouchOp::Down { serial, time, surface, offset, slot, location } => {
            let ev = TouchEvent::Down {
                serial: serial.0,
                time,
                surface: surface.id,
                slot,
                x: local_coord(location.x, offset.x),
                y: local_coord(location.y, offset.y),
            };
            lemma_framed_pairs(owned_by(s.known, surface.client), ev);
        },
        TouchOp::Up { serial, time, slot } => {
            if s.focus.contains_key(slot) {
                lemma_framed_pairs(s.focus[slot].handles, TouchEvent::Up { serial: serial.0, time, slot });
            }
        },
        TouchOp::Motion { time, slot, location } => {
            if s.focus.contains_key(slot) {
                let off = s.focus[slot].offset;
                lemma_framed_pairs(
                    s.focus[slot].handles,
                    TouchEvent::Motion {
                        time,
                        slot,
                        x: local_coord(location.x, off.x),
                        y: local_coord(location.y, off.y),
                    },
                );
            }
        },
        TouchOp::Shape { slot, major, minor } => {
            if s.focus.contains_key(slot) {
                lemma_framed_pairs(s.focus[slot].handles, TouchEvent::Shape { slot, major, minor });
            }
        },
        TouchOp::Orientation { slot, orientation } => {
            if s.focus.contains_key(slot) {
                lemma_framed_pairs(s.focus[slot].handles, TouchEvent::Orientation { slot, orientation });
            }
        },
        _ => {},
    }
}

/// Shape and orientation events reach exactly the subscribers of the slot
/// that negotiated a version of at least six: each such subscriber gets the
/// event, and every event sent goes to an identity that one of them carries.
pub proof fn lemma_version_gating(s: TouchState, op: TouchOp, slot: i32)
    requires
        s.focus.contains_key(slot),
        (op is Shape && op->Shape_slot == slot) || (op is Orientation && op->Orientation_slot == slot),
    ensures
        ({
            let subs = s.focus[slot].handles;
            let out = touch_step(s, op).1;
            &&& forall|j: int|
                0 <= j < subs.len() && (#[trigger] subs[j]).version >= 6 ==> exists|i: int|
                    0 <= i < out.len() && out[i].target == subs[j].id && out[i].event != TouchEvent::Frame
            &&& forall|i: int|
                0 <= i < out.len() ==> exists|j: int|
                    0 <= j < subs.len() && subs[j].id == (#[trigger] out[i]).target && subs[j].version >= 6
        }),
{
    let subs = s.focus[slot].handles;
    let ev = match op {
        TouchOp::Shape { slot, major, minor } => TouchEvent::Shape { slot, major, minor },
        TouchOp::Orientation { slot, orientation } => TouchEvent::Orientation { slot, orientation },
        _ => TouchEvent::Frame,
    };
    assert(touch_step(s, op).1 == framed(subs, ev));
    lemma_framed_targets(subs, ev);
    lemma_framed_reaches(subs, ev);
}

/// Removing a touch object is idempotent: a second removal of the same
/// identity changes nothing, and removing an identity that no registered
/// object carries leaves the registry as it is.
pub proof fn lemma_unregister_idempotent(s: TouchState, id: u64)
    ensures
        ({
            let once = touch_step(s, TouchOp::Unregister { id }).0;
            touch_step(once, TouchOp::Unregister { id }).0 == once
        }),
        (forall|j: int| 0 <= j < s.known.len() ==> #[trigger] s.known[j].id != id) ==> touch_step(
            s,
            TouchOp::Unregister { id },
        ).0 == s,
{
    lemma_without_absent(without_object(s.known, id), id);
    lemma_without_removes(s.known, id);
    lemma_without_absent(s.known, id);
}

proof fn lemma_without_removes(known: Seq<TouchObject>, id: u64)
    ensures
        forall|j: int|
            0 <= j < without_object(known, id).len() ==> #[trigger] without_object(known, id)[j].id != id,
    decreases known.len(),
{
    if known.len() > 0 {
        let dl = known.drop_last();
        lemma_without_removes(dl, id);
        let rest = without_object(dl, id);
        assert forall|j: int| 0 <= j < without_object(known, id).len() implies #[trigger] without_object(
            known,
            id,
        )[j].id != id by {
            if j < rest.len() {
                assert(without_object(known, id)[j] == rest[j]);
            }
        }
    }
}

proof fn lemma_without_absent(known: Seq<TouchObject>, id: u64)
    ensures
        (forall|j: int| 0 <= j < known.len() ==> #[trigger] known[j].id != id) ==> without_object(known, id)
            == known,
    decreases known.len(),
{
    if known.len() > 0 {
        let dl = known.drop_last();
        lemma_without_absent(dl, id);
        if forall|j: int| 0 <= j < known.len() ==> #[trigger] known[j].id != id {
            assert forall|j: int| 0 <= j < dl.len() implies #[trigger] dl[j].id != id by {
                assert(dl[j] == known[j]);
            }
            assert(known[known.len() - 1].id != id);
            assert(dl.push(known.last()) =~= known);
        }
    }
}

} // verus!
