use smithay::serial::Serial;
use smithay::touch::{Delivery, FixedPoint, Offset, Surface, TouchEvent, TouchHandle, TouchObject};

fn fixed(v: f64) -> i32 {
    (v * 256.0) as i32
}

fn at(x: f64, y: f64) -> FixedPoint {
    FixedPoint { x: fixed(x), y: fixed(y) }
}

fn object(id: u64, client: u64, version: u32) -> TouchObject {
    TouchObject { id, client, version }
}

fn frame(target: u64) -> Delivery {
    Delivery { target, event: TouchEvent::Frame }
}

#[test]
fn end_to_end_scenario() {
    let mut touch = TouchHandle::new();
    touch.new_touch(object(1, 10, 7));
    touch.new_touch(object(2, 20, 7));
    let surface = Surface { id: 100, client: 10 };
    let out = touch.down(Serial(1), 0, &surface, Offset { x: 10, y: 10 }, 0, at(15.0, 12.0));
    assert_eq!(
        out,
        vec![
            Delivery {
                target: 1,
                event: TouchEvent::Down { serial: 1, time: 0, surface: 100, slot: 0, x: 5 * 256, y: 2 * 256 },
            },
            frame(1),
        ]
    );
    let out = touch.shape(0, fixed(3.0), fixed(1.0));
    assert_eq!(
        out,
        vec![Delivery { target: 1, event: TouchEvent::Shape { slot: 0, major: 768, minor: 256 } }, frame(1)]
    );
}

#[test]
fn focus_is_kept_for_the_whole_contact() {
    let mut touch = TouchHandle::new();
    touch.new_touch(object(1, 10, 7));
    touch.new_touch(object(2, 20, 7));
    let a = Surface { id: 100, client: 10 };
    let b = Surface { id: 200, client: 20 };
    touch.down(Serial(1), 0, &a, Offset { x: 0, y: 0 }, 0, at(1.0, 1.0));
    // Another contact lands on a surface of the other client, and a new
    // touch object of the first client appears: neither changes slot 0.
    touch.down(Serial(2), 1, &b, Offset { x: 0, y: 0 }, 1, at(5.0, 5.0));
    touch.new_touch(object(3, 10, 7));
    let moved = touch.motion(2, 0, at(2.0, 3.0));
    assert_eq!(
        moved,
        vec![Delivery { target: 1, event: TouchEvent::Motion { time: 2, slot: 0, x: 512, y: 768 } }, frame(1)]
    );
    let up = touch.up(Serial(3), 3, 0);
    assert_eq!(up, vec![Delivery { target: 1, event: TouchEvent::Up { serial: 3, time: 3, slot: 0 } }, frame(1)]);
    let up_other = touch.up(Serial(4), 4, 1);
    assert_eq!(up_other, vec![Delivery { target: 2, event: TouchEvent::Up { serial: 4, time: 4, slot: 1 } }, frame(2)]);
}

#[test]
fn down_reaches_only_the_surface_client() {
    let mut touch = TouchHandle::new();
    touch.new_touch(object(1, 10, 7));
    touch.new_touch(object(2, 20, 7));
    touch.new_touch(object(3, 10, 5));
    let out = touch.down(Serial(9), 4, &Surface { id: 7, client: 10 }, Offset { x: 0, y: 0 }, 2, at(0.0, 0.0));
    let targets: Vec<u64> = out.iter().map(|d| d.target).collect();
    assert_eq!(targets, vec![1, 1, 3, 3]);
    assert!(out.iter().all(|d| d.target != 2));
}

#[test]
fn each_event_is_followed_by_one_frame() {
    let mut touch = TouchHandle::new();
    touch.new_touch(object(1, 10, 7));
    touch.new_touch(object(2, 10, 7));
    let out = touch.down(Serial(1), 0, &Surface { id: 5, client: 10 }, Offset { x: 0, y: 0 }, 0, at(1.0, 1.0));
    assert_eq!(out.len(), 4);
    for pair in out.chunks(2) {
        assert_ne!(pair[0].event, TouchEvent::Frame);
        assert_eq!(pair[1], frame(pair[0].target));
    }
    let motion = touch.motion(1, 0, at(2.0, 2.0));
    assert_eq!(motion.len(), 4);
    assert_eq!(motion[1], frame(1));
    assert_eq!(motion[3], frame(2));
}

#[test]
fn cancel_goes_to_every_object_without_frame() {
    let mut touch = TouchHandle::new();
    touch.new_touch(object(1, 10, 7));
    touch.new_touch(object(2, 20, 4));
    let out = touch.cancel();
    assert_eq!(
        out,
        vec![
            Delivery { target: 1, event: TouchEvent::Cancel },
            Delivery { target: 2, event: TouchEvent::Cancel },
        ]
    );
    assert_eq!(TouchHandle::new().cancel(), vec![]);
}

#[test]
fn shape_and_orientation_need_version_six() {
    let mut touch = TouchHandle::new();
    touch.new_touch(object(1, 10, 5));
    touch.new_touch(object(2, 10, 6));
    touch.down(Serial(1), 0, &Surface { id: 5, client: 10 }, Offset { x: 0, y: 0 }, 0, at(1.0, 1.0));
    let shape = touch.shape(0, 512, 256);
    assert_eq!(
        shape,
        vec![Delivery { target: 2, event: TouchEvent::Shape { slot: 0, major: 512, minor: 256 } }, frame(2)]
    );
    let orientation = touch.orientation(0, fixed(45.0));
    assert_eq!(
        orientation,
        vec![Delivery { target: 2, event: TouchEvent::Orientation { slot: 0, orientation: 45 * 256 } }, frame(2)]
    );
}

#[test]
fn motion_uses_offset_of_the_down() {
    let mut touch = TouchHandle::new();
    touch.new_touch(object(1, 10, 7));
    let surface = Surface { id: 5, client: 10 };
    touch.down(Serial(1), 0, &surface, Offset { x: 100, y: 50 }, 3, at(110.5, 60.25));
    let out = touch.motion(1, 3, at(90.0, 40.0));
    assert_eq!(
        out[0],
        Delivery { target: 1, event: TouchEvent::Motion { time: 1, slot: 3, x: -10 * 256, y: -10 * 256 } }
    );
    // A new down in the slot takes the new offset.
    touch.down(Serial(2), 2, &surface, Offset { x: 0, y: 0 }, 3, at(1.0, 1.0));
    let out = touch.motion(3, 3, at(90.0, 40.0));
    assert_eq!(
        out[0],
        Delivery { target: 1, event: TouchEvent::Motion { time: 3, slot: 3, x: 90 * 256, y: 40 * 256 } }
    );
}

#[test]
fn events_for_a_slot_without_focus_are_dropped() {
    let mut touch = TouchHandle::new();
    touch.new_touch(object(1, 10, 7));
    assert_eq!(touch.up(Serial(1), 0, 4), vec![]);
    assert_eq!(touch.motion(0, 4, at(1.0, 1.0)), vec![]);
    assert_eq!(touch.shape(4, 1, 1), vec![]);
    assert_eq!(touch.orientation(4, 1), vec![]);
}

#[test]
fn down_without_objects_of_the_client_sends_nothing() {
    let mut touch = TouchHandle::new();
    touch.new_touch(object(1, 20, 7));
    let out = touch.down(Serial(1), 0, &Surface { id: 5, client: 10 }, Offset { x: 0, y: 0 }, 0, at(1.0, 1.0));
    assert_eq!(out, vec![]);
    assert_eq!(touch.motion(1, 0, at(2.0, 2.0)), vec![]);
}

#[test]
fn unregister_removes_the_object_and_is_idempotent() {
    let mut touch = TouchHandle::new();
    touch.new_touch(object(1, 10, 7));
    touch.new_touch(object(2, 10, 7));
    touch.down(Serial(1), 0, &Surface { id: 5, client: 10 }, Offset { x: 0, y: 0 }, 0, at(1.0, 1.0));
    touch.unregister(1);
    touch.unregister(1);
    touch.unregister(42);
    assert_eq!(touch.cancel(), vec![Delivery { target: 2, event: TouchEvent::Cancel }]);
    // The focus computed at the down is not touched by the removal.
    let out = touch.up(Serial(2), 1, 0);
    let targets: Vec<u64> = out.iter().map(|d| d.target).collect();
    assert_eq!(targets, vec![1, 1, 2, 2]);
    // A new down no longer finds the removed object.
    let out = touch.down(Serial(3), 2, &Surface { id: 5, client: 10 }, Offset { x: 0, y: 0 }, 0, at(1.0, 1.0));
    let targets: Vec<u64> = out.iter().map(|d| d.target).collect();
    assert_eq!(targets, vec![2, 2]);
}

#[test]
fn coordinates_keep_their_fraction() {
    let mut touch = TouchHandle::new();
    touch.new_touch(object(1, 10, 7));
    let out = touch.down(
        Serial(1),
        0,
        &Surface { id: 5, client: 10 },
        Offset { x: 3, y: -2 },
        0,
        FixedPoint { x: 1, y: i32::MIN },
    );
    assert_eq!(
        out[0].event,
        TouchEvent::Down { serial: 1, time: 0, surface: 5, slot: 0, x: 1 - 768, y: i32::MIN as i64 + 512 }
    );
}
