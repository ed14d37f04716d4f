//! The decisions of the host-window backend: event time stamps, the key
//! counter and the close outcome of an event dispatch, the damage handed to
//! a buffer swap, and what the graphics driver's extensions allow.
use vstd::arithmetic::div_mod::{lemma_add_mod_noop, lemma_mul_mod_noop_right};
use vstd::prelude::*;

use crate::geometry::Rect;

verus! {

/// Errors that may happen when driving the host window's event loop.
#[derive(Clone, Copy, PartialEq, Eq, Structural, Debug, Hash)]
pub enum WinitError {
    /// The host window was closed; no further events can be processed.
    WindowClosed,
}

impl WinitError {
    /// The message that describes the error.
    pub fn message(&self) -> (r: String)
        ensures
            r@ == "Winit window was closed"@,
    {
        match self {
            WinitError::WindowClosed => "Winit window was closed".to_owned(),
        }
    }
}

/// The outcome of one event dispatch: an error once the window was closed.
pub fn dispatch_outcome(closed: bool) -> (r: Result<(), WinitError>)
    ensures
        r == if closed {
            Err::<(), WinitError>(WinitError::WindowClosed)
        } else {
            Ok(())
        },
{
    if closed {
        Err(WinitError::WindowClosed)
    } else {
        Ok(())
    }
}

/// Milliseconds since the event loop started, wrapped to 32 bits, from the
/// elapsed whole seconds and the nanoseconds past them.
pub open spec fn event_time(secs: u64, subsec_nanos: u32) -> u32 {
    ((1000 * secs + subsec_nanos / 1_000_000) % 0x1_0000_0000) as u32
}

/// The time stamp of an event, in milliseconds wrapped to 32 bits.
pub fn event_time_ms(secs: u64, subsec_nanos: u32) -> (r: u32)
    ensures
        r == event_time(secs, subsec_nanos),
{
    let low: u64 = secs % 0x1_0000_0000;
    let millis: u64 = (subsec_nanos / 1_000_000) as u64;
    let total: u64 = low * 1000 + millis;
    proof {
        let m: int = 0x1_0000_0000;
        lemma_mul_mod_noop_right(1000, secs as int, m);
        lemma_add_mod_noop(1000 * secs, millis as int, m);
        lemma_add_mod_noop(1000 * (secs % 0x1_0000_0000), millis as int, m);
        assert((1000 * (secs % 0x1_0000_0000)) % m == (1000 * secs) % m);
    }
    (total % 0x1_0000_0000) as u32
}

/// The count of keys held after a press or a release, never below zero and
/// never past the largest count.
pub open spec fn key_count_after(count: u32, pressed: bool) -> u32 {
    if pressed {
        if count == u32::MAX {
            count
        } else {
            (count + 1) as u32
        }
    } else {
        if count == 0 {
            0
        } else {
            (count - 1) as u32
        }
    }
}

/// The per-loop state that event dispatch decides on.
#[derive(Debug)]
pub struct DispatchState {
    key_counter: u32,
    initialized: bool,
}

impl View for DispatchState {
    type V = (u32, bool);

    closed spec fn view(&self) -> (u32, bool) {
        (self.key_counter, self.initialized)
    }
}

impl DispatchState {
    /// A loop that has announced no device and holds no key.
    pub fn new() -> (r: Self)
        ensures
            r@ == (0u32, false),
    {
        DispatchState { key_counter: 0, initialized: false }
    }

    /// Called at the start of a dispatch: true exactly on the first one,
    /// when the virtual input device must be announced first.
    pub fn begin_dispatch(&mut self) -> (r: bool)
        ensures
            r == !old(self)@.1,
            final(self)@ == (old(self)@.0, true),
    {
        if self.initialized {
            false
        } else {
            self.initialized = true;
            true
        }
    }

    /// A key was pressed or released: the new count of keys held.
    pub fn key(&mut self, pressed: bool) -> (r: u32)
        ensures
            r == key_count_after(old(self)@.0, pressed),
            final(self)@ == (r, old(self)@.1),
    {
        if pressed {
            self.key_counter = self.key_counter.saturating_add(1);
        } else {
            self.key_counter = self.key_counter.saturating_sub(1);
        }
        self.key_counter
    }
}

/// A damage rectangle moved from top-left to bottom-left origin in a buffer
/// of height `height`.
pub open spec fn flipped(r: Rect, height: i32) -> Rect {
    Rect { x: r.x, y: (height - r.y - r.height) as i32, width: r.width, height: r.height }
}

/// Whether the flipped rectangle's corner fits in 32 bits.
pub open spec fn flip_fits(r: Rect, height: i32) -> bool {
    i32::MIN <= height - r.y - r.height <= i32::MAX
}

/// The damage to hand to a buffer swap: with damage tracking and a
/// non-empty damage list, the rectangles flipped to bottom-left origin;
/// otherwise none, meaning the whole buffer.
pub fn damage_for_swap(damage: Option<&Vec<Rect>>, damage_tracking: bool, height: i32) -> (r: Option<
    Vec<Rect>,
>)
    requires
        damage_tracking && damage is Some ==> forall|i: int|
            0 <= i < damage->0@.len() ==> flip_fits(#[trigger] damage->0@[i], height),
    ensures
        match damage {
            Some(d) => if damage_tracking && d@.len() > 0 {
                r is Some && r->0@ == d@.map_values(|x: Rect| flipped(x, height))
            } else {
                r is None
            },
            None => r is None,
        },
{
    match damage {
        Some(d) => {
            if damage_tracking && d.len() > 0 {
                let mut out: Vec<Rect> = Vec::new();
                let mut i: usize = 0;
                while i < d.len()
                    invariant
                        i <= d.len(),
                        forall|k: int| 0 <= k < d@.len() ==> flip_fits(#[trigger] d@[k], height),
                        out@ == d@.take(i as int).map_values(|x: Rect| flipped(x, height)),
                    decreases d.len() - i,
                {
                    let rect = d[i];
                    assert(flip_fits(d@[i as int], height));
                    let y = (height as i64 - rect.y as i64 - rect.height as i64) as i32;
                    out.push(Rect { x: rect.x, y, width: rect.width, height: rect.height });
                    proof {
                        assert(out@ =~= d@.take(i + 1).map_values(|x: Rect| flipped(x, height)));
                    }
                    i += 1;
                }
                proof {
                    assert(d@.take(i as int) =~= d@);
                }
                Some(out)
            } else {
                None
            }
        },
        None => None,
    }
}

/// Whether `exts` names the extension `name`.
pub open spec fn has_extension(exts: Seq<String>, name: Seq<char>) -> bool {
    exists|i: int| 0 <= i < exts.len() && #[trigger] exts[i]@ == name
}

fn names_extension(exts: &Vec<String>, name: &str) -> (r: bool)
    ensures
        r == has_extension(exts@, name@),
{
    let wanted = name.to_owned();
    let mut i: usize = 0;
    while i < exts.len()
        invariant
            i <= exts.len(),
            wanted@ == name@,
            forall|k: int| 0 <= k < i ==> #[trigger] exts@[k]@ != name@,
        decreases exts.len() - i,
    {
        if exts[i].eq(&wanted) {
            return true;
        }
        i += 1;
    }
    false
}

/// Whether the display's extensions allow damage tracking: buffer age, and
/// swapping buffers with damage in either of its two forms.
pub fn supports_damage_tracking(extensions: &Vec<String>) -> (r: bool)
    ensures
        r == (has_extension(extensions@, "EGL_EXT_buffer_age"@) && (has_extension(
            extensions@,
            "EGL_KHR_swap_buffers_with_damage"@,
        ) || has_extension(extensions@, "EGL_EXT_swap_buffers_with_damage"@))),
{
    names_extension(extensions, "EGL_EXT_buffer_age") && (names_extension(
        extensions,
        "EGL_KHR_swap_buffers_with_damage",
    ) || names_extension(extensions, "EGL_EXT_swap_buffers_with_damage"))
}

/// The age of the back buffer to report: what the surface reports, read as
/// an unsigned count, when damage is tracked; zero, meaning unknown
/// contents, when it is not.
pub fn reported_buffer_age(damage_tracking: bool, surface_age: Option<i32>) -> (r: Option<usize>)
    ensures
        r == if damage_tracking {
            match surface_age {
                Some(a) => Some(a as usize),
                None => None,
            }
        } else {
            Some(0usize)
        },
{
    if damage_tracking {
        match surface_age {
            Some(a) => Some(a as usize),
            None => None,
        }
    } else {
        Some(0)
    }
}

} // verus!
