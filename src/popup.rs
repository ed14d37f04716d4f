//! Popup surface lifecycle: role release, grab and reposition requests, the
//! registry of live popups with its exactly-once destroy notification, and
//! the ordered messages of a popup configure.
use vstd::prelude::*;

use crate::geometry::Rect;
use crate::serial::Serial;

verus! {

/// A popup: its base surface and its popup shell-surface object. A plain
/// value; the state lives in the registry and in the role flag.
#[derive(Clone, Copy, PartialEq, Eq, Structural, Debug)]
pub struct PopupSurface {
    pub wl_surface: u64,
    pub shell_surface: u64,
}

/// The parameters of a positioner, copied when a reposition is requested so
/// that later changes to the positioner do not reach the request. Anchor,
/// gravity and constraint adjustment hold their wire values.
#[derive(Clone, Copy, PartialEq, Eq, Structural, Debug)]
pub struct PositionerState {
    pub rect_width: i32,
    pub rect_height: i32,
    pub anchor_rect: Rect,
    pub anchor_edges: u32,
    pub gravity: u32,
    pub constraint_adjustment: u32,
    pub offset_x: i32,
    pub offset_y: i32,
    pub reactive: bool,
}

/// A request of a client on a popup shell-surface object.
#[derive(Clone, Copy, PartialEq, Eq, Structural, Debug)]
pub enum PopupRequest {
    /// Releases the popup role of the base surface.
    Destroy,
    Grab { seat: u64, serial: u32 },
    Reposition { positioner: PositionerState, token: u32 },
    /// A request that the popup interface does not define.
    Unrecognized,
}

/// What a request asks of the shell policy.
#[derive(Clone, Copy, PartialEq, Eq, Structural, Debug)]
pub enum ShellRequest {
    /// Nothing for the policy to decide.
    Handled,
    Grab { popup: PopupSurface, seat: u64, serial: Serial },
    Reposition { popup: PopupSurface, positioner: PositionerState, token: u32 },
}

/// A request that is fatal to the client connection.
#[derive(Clone, Copy, PartialEq, Eq, Structural, Debug)]
pub enum PopupError {
    /// The client sent a request the popup interface does not define.
    InvalidRequest,
}

/// A configure chosen by the policy for a popup.
#[derive(Clone, Copy, PartialEq, Eq, Structural, Debug)]
pub struct PopupConfigure {
    pub serial: Serial,
    pub geometry: Rect,
    pub reposition_token: Option<u32>,
}

/// A message that a popup configure sends.
#[derive(Clone, Copy, PartialEq, Eq, Structural, Debug)]
pub enum PopupMessage {
    /// To the popup object: the reposition with this token is applied.
    Repositioned { popup: u64, token: u32 },
    /// To the popup object: its new geometry.
    Configure { popup: u64, x: i32, y: i32, width: i32, height: i32 },
    /// To the base shell surface: the configure with this serial is complete.
    SurfaceConfigure { xdg_surface: u64, serial: u32 },
}

/// Whether a base surface holds a shell role; at most one at a time.
#[derive(Debug)]
pub struct RoleFlag {
    active: bool,
}

impl View for RoleFlag {
    type V = bool;

    closed spec fn view(&self) -> bool {
        self.active
    }
}

/// What attaching a role to a base surface does: whether it succeeds, and
/// whether a role is held afterwards.
pub open spec fn attach_outcome(active: bool) -> (bool, bool) {
    (!active, true)
}

/// Whether a role is held after `req` on a popup of the base surface.
pub open spec fn role_after_request(active: bool, req: PopupRequest) -> bool {
    match req {
        PopupRequest::Destroy => false,
        _ => active,
    }
}

/// The popup handle of the popup object `popup` with user data `data`.
pub open spec fn popup_of(popup: u64, data: ShellSurfaceData) -> PopupSurface {
    PopupSurface { wl_surface: data.wl_surface, shell_surface: popup }
}

/// What `req` on the popup object `popup` asks of the policy.
pub open spec fn request_outcome(popup: u64, data: ShellSurfaceData, req: PopupRequest) -> Result<
    ShellRequest,
    PopupError,
> {
    match req {
        PopupRequest::Destroy => Ok(ShellRequest::Handled),
        PopupRequest::Grab { seat, serial } => Ok(
            ShellRequest::Grab { popup: popup_of(popup, data), seat, serial: Serial(serial) },
        ),
        PopupRequest::Reposition { positioner, token } => Ok(
            ShellRequest::Reposition { popup: popup_of(popup, data), positioner, token },
        ),
        PopupRequest::Unrecognized => Err(PopupError::InvalidRequest),
    }
}

impl RoleFlag {
    /// A base surface with no role.
    pub fn new() -> (r: Self)
        ensures
            r@ == false,
    {
        RoleFlag { active: false }
    }

    pub fn is_active(&self) -> (r: bool)
        ensures
            r == self@,
    {
        self.active
    }

    /// Attaches a role if none is held; false if one already is.
    pub fn try_attach(&mut self) -> (r: bool)
        ensures
            (r, final(self)@) == attach_outcome(old(self)@),
    {
        if self.active {
            false
        } else {
            self.active = true;
            true
        }
    }
}

/// The user data of a popup shell-surface object: its base surface, the
/// shell surface it was made from, and whether the object is still alive.
#[derive(Debug)]
pub struct ShellSurfaceData {
    pub wl_surface: u64,
    pub xdg_surface: u64,
    pub alive: bool,
}

impl ShellSurfaceData {
    /// The data of a live popup object.
    pub fn new(wl_surface: u64, xdg_surface: u64) -> (r: Self)
        ensures
            r.wl_surface == wl_surface,
            r.xdg_surface == xdg_surface,
            r.alive,
    {
        ShellSurfaceData { wl_surface, xdg_surface, alive: true }
    }
}

/// The popup handle of the popup object `resource`.
pub fn make_popup_handle(resource: u64, data: &ShellSurfaceData) -> (r: PopupSurface)
    ensures
        r == popup_of(resource, *data),
{
    PopupSurface { wl_surface: data.wl_surface, shell_surface: resource }
}

/// Handles a request of a client on the popup object `popup`. A destroy
/// releases the base surface's role and asks nothing of the policy; grab and
/// reposition are handed on with the popup's handle; any other request is a
/// protocol error.
pub fn popup_request(popup: u64, data: &ShellSurfaceData, role: &mut RoleFlag, request: PopupRequest) -> (r:
    Result<ShellRequest, PopupError>)
    ensures
        final(role)@ == role_after_request(old(role)@, request),
        r == request_outcome(popup, *data, request),
{
    match request {
        PopupRequest::Destroy => {
            role.active = false;
            Ok(ShellRequest::Handled)
        },
        PopupRequest::Grab { seat, serial } => {
            let handle = make_popup_handle(popup, data);
            Ok(ShellRequest::Grab { popup: handle, seat, serial: Serial(serial) })
        },
        PopupRequest::Reposition { positioner, token } => {
            let handle = make_popup_handle(popup, data);
            Ok(ShellRequest::Reposition { popup: handle, positioner, token })
        },
        PopupRequest::Unrecognized => Err(PopupError::InvalidRequest),
    }
}

/// The messages of a configure of the popup object `popup` whose base shell
/// surface is `xdg_surface`, in the order they must be sent.
pub open spec fn configure_messages(popup: u64, xdg_surface: u64, configure: PopupConfigure) -> Seq<
    PopupMessage,
> {
    let g = configure.geometry;
    let tail = seq![
        PopupMessage::Configure { popup, x: g.x, y: g.y, width: g.width, height: g.height },
        PopupMessage::SurfaceConfigure { xdg_surface, serial: configure.serial.0 },
    ];
    match configure.reposition_token {
        Some(token) => seq![PopupMessage::Repositioned { popup, token }] + tail,
        None => tail,
    }
}

/// Sends `configure` to the popup object `resource`: the reposition
/// acknowledgment if there is a token, then the geometry, then the base
/// surface's configure with the serial.
pub fn send_popup_configure(resource: u64, data: &ShellSurfaceData, configure: PopupConfigure) -> (r: Vec<
    PopupMessage,
>)
    ensures
        r@ == configure_messages(resource, data.xdg_surface, configure),
{
    let mut out: Vec<PopupMessage> = Vec::new();
    let g = configure.geometry;
    if let Some(token) = configure.reposition_token {
        out.push(PopupMessage::Repositioned { popup: resource, token });
    }
    out.push(PopupMessage::Configure { popup: resource, x: g.x, y: g.y, width: g.width, height: g.height });
    out.push(PopupMessage::SurfaceConfigure { xdg_surface: data.xdg_surface, serial: configure.serial.0 });
    proof {
        assert(out@ =~= configure_messages(resource, data.xdg_surface, configure));
    }
    out
}

/// No two popups of `reg` share a shell-surface object.
pub open spec fn distinct_shells(reg: Seq<PopupSurface>) -> bool {
    forall|i: int, j: int|
        0 <= i < reg.len() && 0 <= j < reg.len() && i != j ==> #[trigger] reg[i].shell_surface
            != #[trigger] reg[j].shell_surface
}

/// Whether a popup of `reg` has the shell-surface object `id`.
pub open spec fn holds_shell(reg: Seq<PopupSurface>, id: u64) -> bool {
    exists|i: int| 0 <= i < reg.len() && #[trigger] reg[i].shell_surface == id
}

/// The registry after the destroy notification of object `id`, and the
/// popup to hand to the policy, if one was removed.
pub open spec fn destroy_step(reg: Seq<PopupSurface>, id: u64) -> (Seq<PopupSurface>, Option<
    PopupSurface,
>) {
    if holds_shell(reg, id) {
        let i = choose|i: int| 0 <= i < reg.len() && #[trigger] reg[i].shell_surface == id;
        (reg.remove(i), Some(reg[i]))
    } else {
        (reg, None)
    }
}

/// The popups that are alive, in order of creation.
#[derive(Debug)]
pub struct PopupRegistry {
    known_popups: Vec<PopupSurface>,
}

impl View for PopupRegistry {
    type V = Seq<PopupSurface>;

    closed spec fn view(&self) -> Seq<PopupSurface> {
        self.known_popups@
    }
}

impl PopupRegistry {
    /// An empty registry.
    pub fn new() -> (r: Self)
        ensures
            r@ == Seq::<PopupSurface>::empty(),
            distinct_shells(r@),
    {
        PopupRegistry { known_popups: Vec::new() }
    }

    /// The popups that are alive, in order of creation.
    pub fn popups(&self) -> (r: Vec<PopupSurface>)
        ensures
            r@ == self@,
    {
        self.known_popups.clone()
    }

    fn position_of(&self, id: u64) -> (r: Option<usize>)
        ensures
            match r {
                Some(i) => i < self@.len() && self@[i as int].shell_surface == id,
                None => !holds_shell(self@, id),
            },
    {
        let mut i: usize = 0;
        while i < self.known_popups.len()
            invariant
                i <= self.known_popups.len(),
                forall|k: int| 0 <= k < i ==> #[trigger] self.known_popups@[k].shell_surface != id,
            decreases self.known_popups.len() - i,
        {
            if self.known_popups[i].shell_surface == id {
                return Some(i);
            }
            i += 1;
        }
        None
    }

    /// Records a new popup; false, and nothing changed, if a popup with the
    /// same shell-surface object is already recorded.
    pub fn add_popup(&mut self, popup: PopupSurface) -> (r: bool)
        requires
            distinct_shells(old(self)@),
        ensures
            distinct_shells(final(self)@),
            r == !holds_shell(old(self)@, popup.shell_surface),
            final(self)@ == if r {
                old(self)@.push(popup)
            } else {
                old(self)@
            },
    {
        match self.position_of(popup.shell_surface) {
            Some(_) => false,
            None => {
                self.known_popups.push(popup);
                proof {
                    let s = self.known_popups@;
                    assert forall|i: int, j: int|
                        0 <= i < s.len() && 0 <= j < s.len() && i != j implies #[trigger] s[i].shell_surface
                        != #[trigger] s[j].shell_surface by {
                        if i < s.len() - 1 && j < s.len() - 1 {
                            assert(s[i] == old(self)@[i] && s[j] == old(self)@[j]);
                        } else if i < s.len() - 1 {
                            assert(s[i] == old(self)@[i]);
                        } else if j < s.len() - 1 {
                            assert(s[j] == old(self)@[j]);
                        }
                    }
                }
                true
            },
        }
    }

    /// The destroy notification of the popup object `object_id`: marks its
    /// data dead and removes its popup from the registry. Returns the removed
    /// popup, to be handed to the policy once; nothing if none was recorded.
    pub fn destroyed(&mut self, data: &mut ShellSurfaceData, object_id: u64) -> (r: Option<PopupSurface>)
        requires
            distinct_shells(old(self)@),
        ensures
            distinct_shells(final(self)@),
            (final(self)@, r) == destroy_step(old(self)@, object_id),
            !final(data).alive,
            final(data).wl_surface == old(data).wl_surface,
            final(data).xdg_surface == old(data).xdg_surface,
    {
        data.alive = false;
        match self.position_of(object_id) {
            Some(i) => {
                let popup = self.known_popups.remove(i);
                proof {
                    let old_reg = old(self)@;
                    let j = choose|j: int| 0 <= j < old_reg.len() && #[trigger] old_reg[j].shell_surface == object_id;
                    assert(j == i as int);
                    assert(self@ =~= old_reg.remove(i as int));
                    lemma_remove_keeps_distinct(old_reg, i as int);
                }
                Some(popup)
            },
            None => None,
        }
    }
}

proof fn lemma_remove_keeps_distinct(reg: Seq<PopupSurface>, i: int)
    requires
        distinct_shells(reg),
        0 <= i < reg.len(),
    ensures
        distinct_shells(reg.remove(i)),
{
    let s = reg.remove(i);
    assert forall|a: int, b: int|
        0 <= a < s.len() && 0 <= b < s.len() && a != b implies #[trigger] s[a].shell_surface
        != #[trigger] s[b].shell_surface by {
        let a0 = if a < i { a } else { a + 1 };
        let b0 = if b < i { b } else { b + 1 };
        assert(s[a] == reg[a0] && s[b] == reg[b0]);
    }
}

/// Once a popup's role is released by its destroy request, the base surface
/// holds no role, and attaching a new one to it succeeds.
pub proof fn lemma_role_free_after_destroy(active: bool)
    ensures
        role_after_request(active, PopupRequest::Destroy) == false,
        attach_outcome(role_after_request(active, PopupRequest::Destroy)) == (true, true),
{
}

/// A destroy notification delivered twice for the same object removes one
/// popup and hands one popup to the policy: the first removes the popup if
/// it was recorded, the second finds nothing and changes nothing.
pub proof fn lemma_destroy_notified_once(reg: Seq<PopupSurface>, id: u64)
    requires
        distinct_shells(reg),
    ensures
        ({
            let (once, first) = destroy_step(reg, id);
            let (twice, second) = destroy_step(once, id);
            &&& first is Some <==> holds_shell(reg, id)
            &&& first is Some ==> first->0.shell_surface == id
            &&& once.len() == if holds_shell(reg, id) { reg.len() - 1 } else { reg.len() as int }
            &&& second is None
            &&& twice == once
        }),
{
    if holds_shell(reg, id) {
        let i = choose|i: int| 0 <= i < reg.len() && #[trigger] reg[i].shell_surface == id;
        let once = reg.remove(i);
        if holds_shell(once, id) {
            let k = choose|k: int| 0 <= k < once.len() && #[trigger] once[k].shell_surface == id;
            let k0 = if k < i { k } else { k + 1 };
            assert(once[k] == reg[k0]);
        }
    }
}

/// A configure with a reposition token sends the reposition acknowledgment,
/// then the popup geometry, then the base surface's configure with the
/// serial; without a token, the last two alone.
pub proof fn lemma_configure_order(popup: u64, xdg_surface: u64, configure: PopupConfigure)
    ensures
        ({
            let m = configure_messages(popup, xdg_surface, configure);
            let g = configure.geometry;
            let geometry = PopupMessage::Configure { popup, x: g.x, y: g.y, width: g.width, height: g.height };
            let done = PopupMessage::SurfaceConfigure { xdg_surface, serial: configure.serial.0 };
            match configure.reposition_token {
                Some(token) => m.len() == 3 && m[0] == (PopupMessage::Repositioned { popup, token })
                    && m[1] == geometry && m[2] == done,
                None => m.len() == 2 && m[0] == geometry && m[1] == done,
            }
        }),
{
}

} // verus!
