//! Window state and the compositor requests that its changes call for.
//!
//! The window does not talk to the compositor itself: every operation
//! returns the requests it needs sent, in order, and the caller sends them.

use vstd::prelude::*;
use crate::arith;
use crate::config::WindowDecoration;
use crate::titlebar::TitlebarButton;

verus! {

/// Window identifier
pub type WindowId = usize;

/// Edge bits of a resize: top, bottom, left, right.
pub const EDGE_TOP: u32 = 1;
pub const EDGE_BOTTOM: u32 = 2;
pub const EDGE_LEFT: u32 = 4;
pub const EDGE_RIGHT: u32 = 8;

/// Fullscreen state
#[derive(Debug, Clone, Copy, PartialEq, Eq, Structural)]
pub enum FullscreenState {
    /// Not fullscreen
    Off,
    /// Fullscreen within window bounds
    Window,
    /// Fullscreen on the output with this id
    Output(usize),
}

/// Window clip state
#[derive(Debug, Clone, Copy, PartialEq, Eq, Structural)]
pub enum ClipState {
    Unknown,
    Normal,
    Clipped,
}

impl Default for ClipState {
    fn default() -> (r: Self)
        ensures
            r == ClipState::Unknown,
    {
        ClipState::Unknown
    }
}

/// A half of an output that a window can be snapped to
#[derive(Debug, Clone, Copy, PartialEq, Eq, Structural)]
pub enum Side {
    Left,
    Right,
}

/// Saved geometry for restoring after maximize
#[derive(Debug, Clone, Copy)]
pub struct SavedGeometry {
    pub x: i32,
    pub y: i32,
    pub width: i32,
    pub height: i32,
    pub floating: bool,
}

/// Operator state for move/resize operations; seats are named by id.
#[derive(Debug, Clone, Copy, PartialEq, Eq, Structural)]
pub enum Operator {
    /// No operation in progress
    Idle,
    Move { start_x: i32, start_y: i32, seat: Option<usize> },
    Resize {
        start_x: i32,
        start_y: i32,
        start_width: i32,
        start_height: i32,
        edges: u32,
        seat: Option<usize>,
    },
}

impl Default for Operator {
    fn default() -> (r: Self)
        ensures
            r == Operator::Idle,
    {
        Operator::Idle
    }
}

/// Window event types; outputs and seats are named by id.
#[derive(Debug, Clone, Copy, PartialEq, Eq, Structural)]
pub enum WindowEvent {
    Init,
    Close,
    Fullscreen(Option<usize>),
    Unfullscreen,
    Maximize,
    Unmaximize,
    Minimize,
    Move(usize),
    Resize(usize, u32),
}

/// A request to the compositor about one window.
#[derive(Debug, Clone, Copy, PartialEq, Eq, Structural)]
pub enum WindowRequest {
    ProposeDimensions { width: i32, height: i32 },
    SetPosition { x: i32, y: i32 },
    Hide,
    Show,
    Close,
    SetBorders { edges: u32, width: i32, r: u32, g: u32, b: u32, a: u32 },
    SetTiled { edges: u32 },
    Fullscreen { output: usize },
    InformFullscreen,
    ExitFullscreen,
    InformNotFullscreen,
    InformMaximized,
    InformUnmaximized,
    UseCsd,
    UseSsd,
    SetClipBox { x: i32, y: i32, width: i32, height: i32 },
    PlaceAbove { other: usize },
    PlaceBelow { other: usize },
    PlaceTop,
    PlaceBottom,
    InformResizeStart,
    InformResizeEnd,
}

/// A managed window
#[derive(Debug, Clone)]
pub struct Window {
    /// Unique window ID
    pub id: WindowId,
    /// Whether the compositor's window object is attached
    pub has_rwm_window: bool,
    /// Whether the compositor's render node is attached
    pub has_rwm_node: bool,
    /// Associated output
    pub output: Option<usize>,
    /// Window tags (bitmask)
    pub tag: u32,
    /// Process ID
    pub pid: i32,
    /// Application ID
    pub app_id: Option<String>,
    /// Window title
    pub title: Option<String>,
    pub x: i32,
    pub y: i32,
    pub width: i32,
    pub height: i32,
    pub min_width: i32,
    pub min_height: i32,
    pub fullscreen: FullscreenState,
    pub maximized: bool,
    /// Geometry to restore when unmaximizing
    pub pre_maximize: Option<SavedGeometry>,
    pub floating: bool,
    pub hidden: bool,
    pub clip_state: ClipState,
    pub decoration: Option<WindowDecoration>,
    /// Decoration hint from client
    pub decoration_hint: u32,
    /// Is this a terminal window (for swallowing)
    pub is_terminal: bool,
    pub parent: Option<usize>,
    pub swallowing: Option<usize>,
    pub swallowed_by: Option<usize>,
    pub disable_swallow: bool,
    /// Current operator (move/resize)
    pub operator: Operator,
    /// Pending events, oldest first
    pub unhandled_events: Vec<WindowEvent>,
    /// Position is undefined (newly created)
    pub position_undefined: bool,
    /// Whether a titlebar decoration is attached
    pub has_titlebar: bool,
    pub titlebar_hovered: Option<TitlebarButton>,
    pub titlebar_pressed: Option<TitlebarButton>,
    pub titlebar_left_down: bool,
    pub needs_configure: bool,
    /// Per-window scroller factor, as the bit pattern of an `f32`
    pub scroller_mfact: Option<u32>,
    /// Proposed dimensions (for sizing)
    pub proposed_width: i32,
    pub proposed_height: i32,
    /// The half of its output the window is snapped to
    pub snapped: Option<Side>,
    /// Geometry to restore when the window leaves its half
    pub pre_snap: Option<SavedGeometry>,
}

/// A request that is sent only when the compositor's window object exists.
pub open spec fn if_window(w: Window, req: WindowRequest) -> Seq<WindowRequest> {
    if w.has_rwm_window { seq![req] } else { seq![] }
}

/// A request that is sent only when the compositor's render node exists.
pub open spec fn if_node(w: Window, req: WindowRequest) -> Seq<WindowRequest> {
    if w.has_rwm_node { seq![req] } else { seq![] }
}

pub open spec fn max_i32(a: i32, b: i32) -> i32 {
    if a >= b { a } else { b }
}

/// Geometry reached by dragging the `edges` of a window that started at
/// `(sx, sy, sw, sh)` by `(dx, dy)`, never below the minimum size.
pub open spec fn resize_target(
    sx: i32,
    sy: i32,
    sw: i32,
    sh: i32,
    edges: u32,
    min_w: i32,
    min_h: i32,
    dx: int,
    dy: int,
) -> (int, int, int, int) {
    let w1 = if edges & 4 != 0 { arith::max_int(sw - dx, min_w as int) } else { sw as int };
    let x1 = if edges & 4 != 0 { sx + (sw - w1) } else { sx as int };
    let w2 = if edges & 8 != 0 { arith::max_int(sw + dx, min_w as int) } else { w1 };
    let h1 = if edges & 1 != 0 { arith::max_int(sh - dy, min_h as int) } else { sh as int };
    let y1 = if edges & 1 != 0 { sy + (sh - h1) } else { sy as int };
    let h2 = if edges & 2 != 0 { arith::max_int(sh + dy, min_h as int) } else { h1 };
    (x1, y1, w2, h2)
}

/// The window after the current operation is carried `(dx, dy)` from
/// where it started: a move places it, a resize places it when its corner
/// moved and proposes the new size; with no operation nothing changes.
pub open spec fn op_delta_state(w: Window, dx: int, dy: int) -> Window {
    match op_target(w.operator, w.min_width, w.min_height, dx, dy) {
        None => w,
        Some(t) => if w.operator is Move {
            Window { x: t.0 as i32, y: t.1 as i32, position_undefined: false, ..w }
        } else {
            let placed = if t.0 != w.x || t.1 != w.y {
                Window { x: t.0 as i32, y: t.1 as i32, position_undefined: false, ..w }
            } else {
                w
            };
            Window {
                proposed_width: max_i32(t.2 as i32, w.min_width),
                proposed_height: max_i32(t.3 as i32, w.min_height),
                ..placed
            }
        },
    }
}

/// Deltas count from where the operation started: carrying an operation
/// the same `(dx, dy)` a second time changes nothing more, and the
/// operation itself is kept.
pub proof fn lemma_op_delta_twice(w: Window, dx: int, dy: int)
    ensures
        op_delta_state(op_delta_state(w, dx, dy), dx, dy) == op_delta_state(w, dx, dy),
        op_delta_state(w, dx, dy).operator == w.operator,
{
    let w1 = op_delta_state(w, dx, dy);
    assert(w1.operator == w.operator && w1.min_width == w.min_width && w1.min_height == w.min_height);
    match op_target(w.operator, w.min_width, w.min_height, dx, dy) {
        None => {},
        Some(t) => {
            assert(op_target(w1.operator, w1.min_width, w1.min_height, dx, dy) == Some(t));
            if w.operator is Move {
                assert(op_delta_state(w1, dx, dy) == w1);
            } else {
                if t.0 != w.x || t.1 != w.y {
                    assert(w1.x == t.0 as i32 && w1.y == t.1 as i32 && !w1.position_undefined);
                } else {
                    assert(w1.x == w.x && w1.y == w.y);
                }
                assert(op_delta_state(w1, dx, dy) == w1);
            }
        },
    }
}

/// What `queue_event` does: `event` joins the end of the queue.
pub open spec fn queue_event_done(w: Window, n: Window, event: WindowEvent) -> bool {
    &&& n.unhandled_events@ == w.unhandled_events@.push(event)
    &&& n == (Window { unhandled_events: n.unhandled_events, ..w })
}

/// What `handle_events` does: the queue is handed out, oldest first, and
/// left empty.
pub open spec fn handle_events_done(w: Window, n: Window, events: Seq<WindowEvent>) -> bool {
    &&& events == w.unhandled_events@
    &&& n.unhandled_events@.len() == 0
    &&& n == (Window { unhandled_events: n.unhandled_events, ..w })
}

/// Events come out first in, first out: after the events `es` are queued
/// one by one on a window (`ws` holds the window before and after each),
/// handling the events hands out what was queued before followed by `es`,
/// in order, nothing lost or repeated, and leaves the queue empty, so that
/// handling again hands out nothing.
pub proof fn lemma_events_fifo(ws: Seq<Window>, es: Seq<WindowEvent>, n: Window, out: Seq<WindowEvent>, m: Window, again: Seq<WindowEvent>)
    requires
        ws.len() == es.len() + 1,
        forall|i: int| 0 <= i < es.len() ==> queue_event_done(ws[i], #[trigger] ws[i + 1], es[i]),
        handle_events_done(ws.last(), n, out),
        handle_events_done(n, m, again),
    ensures
        out == ws[0].unhandled_events@ + es,
        n == (Window { unhandled_events: n.unhandled_events, ..ws[0] }),
        again.len() == 0,
{
    lemma_queued_in_order(ws, es);
}

/// Queuing the events `es` one by one appends them, in order.
proof fn lemma_queued_in_order(ws: Seq<Window>, es: Seq<WindowEvent>)
    requires
        ws.len() == es.len() + 1,
        forall|i: int| 0 <= i < es.len() ==> queue_event_done(ws[i], #[trigger] ws[i + 1], es[i]),
    ensures
        ws.last().unhandled_events@ == ws[0].unhandled_events@ + es,
        ws.last() == (Window { unhandled_events: ws.last().unhandled_events, ..ws[0] }),
    decreases es.len(),
{
    if es.len() == 0 {
        assert(ws[0].unhandled_events@ + es == ws[0].unhandled_events@);
    } else {
        let k = es.len() - 1;
        let ws1 = ws.drop_last();
        let es1 = es.drop_last();
        assert forall|i: int| 0 <= i < es1.len() implies queue_event_done(ws1[i], #[trigger] ws1[i + 1], es1[i]) by {
            assert(queue_event_done(ws[i], ws[i + 1], es[i]));
        }
        lemma_queued_in_order(ws1, es1);
        assert(queue_event_done(ws[k], ws[k + 1], es[k]));
        assert(ws1.last() == ws[k]);
        assert(ws[0].unhandled_events@ + es == (ws[0].unhandled_events@ + es1).push(es[k]));
    }
}

/// The window snapped to `side` of its output, its content placed at
/// `(x, y)` with the size `(width, height)` proposed; it floats, and the
/// geometry it had before its first snap is kept to come back to.
pub open spec fn snapped_to(w: Window, side: Side, x: i32, y: i32, width: i32, height: i32) -> Window {
    Window {
        floating: true,
        x,
        y,
        position_undefined: false,
        proposed_width: max_i32(width, w.min_width),
        proposed_height: max_i32(height, w.min_height),
        snapped: Some(side),
        pre_snap: match w.pre_snap {
            Some(g) => Some(g),
            None => Some(SavedGeometry { x: w.x, y: w.y, width: w.width, height: w.height, floating: w.floating }),
        },
        ..w
    }
}

/// The requests that snapping a window to `(x, y, width, height)` sends.
pub open spec fn snap_requests(w: Window, x: i32, y: i32, width: i32, height: i32) -> Seq<WindowRequest> {
    if_node(w, WindowRequest::SetPosition { x, y }) + if_window(
        w,
        WindowRequest::ProposeDimensions { width: max_i32(width, w.min_width), height: max_i32(height, w.min_height) },
    )
}

/// The window taken out of its half, back to the geometry it had before.
pub open spec fn unsnapped(w: Window) -> Window {
    match w.pre_snap {
        Some(g) => Window {
            floating: g.floating,
            x: g.x,
            y: g.y,
            position_undefined: false,
            proposed_width: max_i32(g.width, w.min_width),
            proposed_height: max_i32(g.height, w.min_height),
            snapped: None,
            pre_snap: None,
            ..w
        },
        None => Window { snapped: None, ..w },
    }
}

/// The requests that taking a window out of its half sends.
pub open spec fn unsnap_requests(w: Window) -> Seq<WindowRequest> {
    match w.pre_snap {
        Some(g) => snap_requests(w, g.x, g.y, g.width, g.height),
        None => seq![],
    }
}

/// A window with nothing saved, snapped to a half and taken out of it
/// again, is back at its position and floating state with its size
/// proposed.
pub proof fn lemma_unsnap_after_snap(w: Window, side: Side, x: i32, y: i32, width: i32, height: i32)
    requires
        w.pre_snap.is_none(),
    ensures
        unsnapped(snapped_to(w, side, x, y, width, height)) == (Window {
            position_undefined: false,
            proposed_width: max_i32(w.width, w.min_width),
            proposed_height: max_i32(w.height, w.min_height),
            snapped: None,
            ..w
        }),
{
}

/// A window taken a step back: out of fullscreen, else out of the
/// maximized state with its saved size proposed again, else hidden.
pub open spec fn stepped_back(w: Window) -> Window {
    if w.fullscreen != FullscreenState::Off {
        Window { fullscreen: FullscreenState::Off, ..w }
    } else if w.maximized {
        match w.pre_maximize {
            Some(saved) => Window {
                maximized: false,
                pre_maximize: None,
                proposed_width: max_i32(saved.width, w.min_width),
                proposed_height: max_i32(saved.height, w.min_height),
                ..w
            },
            None => Window { maximized: false, ..w },
        }
    } else {
        Window { hidden: true, ..w }
    }
}

/// The requests that taking a window a step back sends.
pub open spec fn step_back_requests(w: Window) -> Seq<WindowRequest> {
    if w.fullscreen != FullscreenState::Off {
        if w.has_rwm_window {
            seq![WindowRequest::ExitFullscreen, WindowRequest::InformNotFullscreen]
        } else {
            seq![]
        }
    } else if w.maximized {
        match w.pre_maximize {
            Some(saved) => if_window(
                w,
                WindowRequest::ProposeDimensions {
                    width: max_i32(saved.width, w.min_width),
                    height: max_i32(saved.height, w.min_height),
                },
            ) + if_window(w, WindowRequest::InformUnmaximized),
            None => if_window(w, WindowRequest::InformUnmaximized),
        }
    } else if w.hidden {
        seq![]
    } else {
        if_window(w, WindowRequest::Hide)
    }
}

/// Window geometry after moving or resizing it by `(dx, dy)` from where the
/// current operation started; `None` when there is no operation.
pub open spec fn op_target(op: Operator, min_w: i32, min_h: i32, dx: int, dy: int) -> Option<(int, int, int, int)> {
    match op {
        Operator::Idle => None,
        Operator::Move { start_x, start_y, .. } => Some((start_x + dx, start_y + dy, 0, 0)),
        Operator::Resize { start_x, start_y, start_width, start_height, edges, .. } => Some(
            resize_target(start_x, start_y, start_width, start_height, edges, min_w, min_h, dx, dy),
        ),
    }
}

/// Applying an operation delta stays within `i32` arithmetic.
pub open spec fn op_delta_fits(op: Operator, min_w: i32, min_h: i32, dx: int, dy: int) -> bool {
    match op {
        Operator::Idle => true,
        Operator::Move { start_x, start_y, .. } => arith::fits_i32(start_x + dx) && arith::fits_i32(start_y + dy),
        Operator::Resize { start_x, start_y, start_width, start_height, edges, .. } => {
            let w1 = arith::max_int(start_width - dx, min_w as int);
            let h1 = arith::max_int(start_height - dy, min_h as int);
            &&& (edges & 4 != 0 ==> arith::fits_i32(start_width - dx) && arith::fits_i32(start_width - w1)
                && arith::fits_i32(start_x + (start_width - w1)))
            &&& (edges & 8 != 0 ==> arith::fits_i32(start_width + dx))
            &&& (edges & 1 != 0 ==> arith::fits_i32(start_height - dy) && arith::fits_i32(start_height - h1)
                && arith::fits_i32(start_y + (start_height - h1)))
            &&& (edges & 2 != 0 ==> arith::fits_i32(start_height + dy))
        },
    }
}

fn resize_geometry(
    start_x: i32,
    start_y: i32,
    start_width: i32,
    start_height: i32,
    edges: u32,
    min_width: i32,
    min_height: i32,
    dx: i32,
    dy: i32,
) -> (r: (i32, i32, i32, i32))
    requires
        op_delta_fits(
            Operator::Resize { start_x, start_y, start_width, start_height, edges, seat: None },
            min_width,
            min_height,
            dx as int,
            dy as int,
        ),
    ensures
        resize_target(start_x, start_y, start_width, start_height, edges, min_width, min_height, dx as int, dy as int)
            == (r.0 as int, r.1 as int, r.2 as int, r.3 as int),
{
    let mut new_width = start_width;
    let mut new_height = start_height;
    let mut new_x = start_x;
    let mut new_y = start_y;
    if edges & 4 != 0 {
        let w = start_width - dx;
        new_width = if w >= min_width { w } else { min_width };
        new_x = start_x + (start_width - new_width);
    }
    if edges & 8 != 0 {
        let w = start_width + dx;
        new_width = if w >= min_width { w } else { min_width };
    }
    if edges & 1 != 0 {
        let h = start_height - dy;
        new_height = if h >= min_height { h } else { min_height };
        new_y = start_y + (start_height - new_height);
    }
    if edges & 2 != 0 {
        let h = start_height + dy;
        new_height = if h >= min_height { h } else { min_height };
    }
    (new_x, new_y, new_width, new_height)
}

/// The state of a window just created, apart from its id, its compositor
/// object, its output, tags, decoration and floating flag.
pub open spec fn fresh_state(r: Window) -> bool {
    &&& !r.has_rwm_node
    &&& r.pid == 0
    &&& r.app_id.is_none() && r.title.is_none()
    &&& r.x == 0 && r.y == 0 && r.width == 0 && r.height == 0
    &&& r.min_width == 0 && r.min_height == 0
    &&& r.fullscreen == FullscreenState::Off
    &&& !r.maximized && r.pre_maximize.is_none()
    &&& !r.hidden
    &&& r.clip_state == ClipState::Unknown
    &&& r.decoration_hint == 0
    &&& !r.is_terminal
    &&& r.parent.is_none() && r.swallowing.is_none() && r.swallowed_by.is_none()
    &&& !r.disable_swallow
    &&& r.operator == Operator::Idle
    &&& r.unhandled_events@.len() == 0
    &&& r.position_undefined
    &&& !r.has_titlebar
    &&& r.titlebar_hovered.is_none() && r.titlebar_pressed.is_none() && !r.titlebar_left_down
    &&& r.needs_configure
    &&& r.scroller_mfact.is_none()
    &&& r.proposed_width == 0 && r.proposed_height == 0
    &&& r.snapped.is_none() && r.pre_snap.is_none()
}

impl Window {
    /// Create a new window
    pub fn new(id: WindowId) -> (r: Self)
        ensures
            fresh_state(r),
            r.id == id,
            !r.has_rwm_window && !r.has_rwm_node,
            r.output.is_none(),
            r.tag == 1,
            r.pid == 0,
            r.app_id.is_none() && r.title.is_none(),
            r.x == 0 && r.y == 0 && r.width == 0 && r.height == 0,
            r.min_width == 0 && r.min_height == 0,
            r.fullscreen == FullscreenState::Off,
            !r.maximized && r.pre_maximize.is_none(),
            !r.floating && !r.hidden,
            r.clip_state == ClipState::Unknown,
            r.decoration.is_none() && r.decoration_hint == 0,
            !r.is_terminal,
            r.parent.is_none() && r.swallowing.is_none() && r.swallowed_by.is_none(),
            !r.disable_swallow,
            r.operator == Operator::Idle,
            r.unhandled_events@.len() == 0,
            r.position_undefined,
            !r.has_titlebar,
            r.titlebar_hovered.is_none() && r.titlebar_pressed.is_none() && !r.titlebar_left_down,
            r.needs_configure,
            r.scroller_mfact.is_none(),
            r.proposed_width == 0 && r.proposed_height == 0,
            r.snapped.is_none() && r.pre_snap.is_none(),
    {
        Window {
            id,
            has_rwm_window: false,
            has_rwm_node: false,
            output: None,
            tag: 1,
            pid: 0,
            app_id: None,
            title: None,
            x: 0,
            y: 0,
            width: 0,
            height: 0,
            min_width: 0,
            min_height: 0,
            fullscreen: FullscreenState::Off,
            maximized: false,
            pre_maximize: None,
            floating: false,
            hidden: false,
            clip_state: ClipState::Unknown,
            decoration: None,
            decoration_hint: 0,
            is_terminal: false,
            parent: None,
            swallowing: None,
            swallowed_by: None,
            disable_swallow: false,
            operator: Operator::Idle,
            unhandled_events: Vec::new(),
            position_undefined: true,
            has_titlebar: false,
            titlebar_hovered: None,
            titlebar_pressed: None,
            titlebar_left_down: false,
            needs_configure: true,
            scroller_mfact: None,
            proposed_width: 0,
            proposed_height: 0,
            snapped: None,
            pre_snap: None,
        }
    }

    /// Check if window is visible on the given output: it is not hidden,
    /// it belongs to no other output, and it shares a tag with the output.
    pub fn is_visible_on(&self, output_id: usize, output_tag: u32) -> (r: bool)
        ensures
            r == (!self.hidden && (self.output matches Some(o) ==> o == output_id) && self.tag & output_tag != 0),
    {
        if self.hidden {
            return false;
        }
        if let Some(o) = self.output {
            if o != output_id {
                return false;
            }
        }
        (self.tag & output_tag) != 0
    }

    /// Check if window should be treated as tiled
    pub fn is_tiled(&self) -> (r: bool)
        ensures
            r == (!self.floating && self.fullscreen == FullscreenState::Off),
    {
        !self.floating && matches!(self.fullscreen, FullscreenState::Off)
    }

    /// Set window tag
    pub fn set_tag(&mut self, tag: u32)
        ensures
            *final(self) == (Window { tag: tag, ..*old(self) }),
    {
        self.tag = tag;
    }

    /// Toggle the tags in `mask`, unless that would leave the window on no tag.
    pub fn toggle_tag(&mut self, mask: u32)
        ensures
            *final(self) == (Window {
                tag: if old(self).tag ^ mask != 0 { old(self).tag ^ mask } else { old(self).tag },
                ..*old(self)
            }),
    {
        let new_tag = self.tag ^ mask;
        if new_tag != 0 {
            self.tag = new_tag;
        }
    }

    /// Propose dimensions no smaller than the window's minimum size.
    pub fn propose_dimensions(&mut self, width: i32, height: i32) -> (reqs: Vec<WindowRequest>)
        ensures
            *final(self) == (Window {
                proposed_width: max_i32(width, old(self).min_width),
                proposed_height: max_i32(height, old(self).min_height),
                ..*old(self)
            }),
            reqs@ == if_window(
                *old(self),
                WindowRequest::ProposeDimensions {
                    width: max_i32(width, old(self).min_width),
                    height: max_i32(height, old(self).min_height),
                },
            ),
    {
        self.proposed_width = if width >= self.min_width { width } else { self.min_width };
        self.proposed_height = if height >= self.min_height { height } else { self.min_height };
        let mut reqs = Vec::new();
        if self.has_rwm_window {
            reqs.push(WindowRequest::ProposeDimensions { width: self.proposed_width, height: self.proposed_height });
        }
        reqs
    }

    /// Set window position
    pub fn set_position(&mut self, x: i32, y: i32) -> (reqs: Vec<WindowRequest>)
        ensures
            *final(self) == (Window { x: x, y: y, position_undefined: false, ..*old(self) }),
            reqs@ == if_node(*old(self), WindowRequest::SetPosition { x, y }),
    {
        self.x = x;
        self.y = y;
        self.position_undefined = false;
        let mut reqs = Vec::new();
        if self.has_rwm_node {
            reqs.push(WindowRequest::SetPosition { x, y });
        }
        reqs
    }

    /// Update window dimensions (called when compositor confirms dimensions)
    pub fn update_dimensions(&mut self, width: i32, height: i32)
        ensures
            *final(self) == (Window { width: width, height: height, ..*old(self) }),
    {
        self.width = width;
        self.height = height;
    }

    /// Hide the window (minimize it); a hidden window is left as it is.
    pub fn make_hidden(&mut self) -> (reqs: Vec<WindowRequest>)
        ensures
            *final(self) == (Window { hidden: true, ..*old(self) }),
            reqs@ == if old(self).hidden { seq![] } else { if_window(*old(self), WindowRequest::Hide) },
    {
        let mut reqs = Vec::new();
        if !self.hidden {
            self.hidden = true;
            if self.has_rwm_window {
                reqs.push(WindowRequest::Hide);
            }
        }
        reqs
    }

    /// Show the window; a shown window is left as it is.
    pub fn show(&mut self) -> (reqs: Vec<WindowRequest>)
        ensures
            *final(self) == (Window { hidden: false, ..*old(self) }),
            reqs@ == if !old(self).hidden { seq![] } else { if_window(*old(self), WindowRequest::Show) },
    {
        let mut reqs = Vec::new();
        if self.hidden {
            self.hidden = false;
            if self.has_rwm_window {
                reqs.push(WindowRequest::Show);
            }
        }
        reqs
    }

    /// Request window close
    pub fn close(&self) -> (reqs: Vec<WindowRequest>)
        ensures
            reqs@ == if_window(*self, WindowRequest::Close),
    {
        let mut reqs = Vec::new();
        if self.has_rwm_window {
            reqs.push(WindowRequest::Close);
        }
        reqs
    }

    /// Set window borders
    pub fn set_borders(&self, edges: u32, width: i32, r: u32, g: u32, b: u32, a: u32) -> (reqs: Vec<WindowRequest>)
        ensures
            reqs@ == if_window(*self, WindowRequest::SetBorders { edges, width, r, g, b, a }),
    {
        let mut reqs = Vec::new();
        if self.has_rwm_window {
            reqs.push(WindowRequest::SetBorders { edges, width, r, g, b, a });
        }
        reqs
    }

    /// Set window tiled edges
    pub fn set_tiled(&self, edges: u32) -> (reqs: Vec<WindowRequest>)
        ensures
            reqs@ == if_window(*self, WindowRequest::SetTiled { edges }),
    {
        let mut reqs = Vec::new();
        if self.has_rwm_window {
            reqs.push(WindowRequest::SetTiled { edges });
        }
        reqs
    }

    /// Request fullscreen on the output with id `output`
    pub fn fullscreen_on(&mut self, output: usize) -> (reqs: Vec<WindowRequest>)
        ensures
            *final(self) == *old(self),
            reqs@ == if old(self).has_rwm_window {
                seq![WindowRequest::Fullscreen { output }, WindowRequest::InformFullscreen]
            } else {
                seq![]
            },
    {
        let mut reqs = Vec::new();
        if self.has_rwm_window {
            reqs.push(WindowRequest::Fullscreen { output });
            reqs.push(WindowRequest::InformFullscreen);
        }
        reqs
    }

    /// Exit fullscreen
    pub fn exit_fullscreen(&mut self) -> (reqs: Vec<WindowRequest>)
        ensures
            *final(self) == (Window { fullscreen: FullscreenState::Off, ..*old(self) }),
            reqs@ == if old(self).has_rwm_window {
                seq![WindowRequest::ExitFullscreen, WindowRequest::InformNotFullscreen]
            } else {
                seq![]
            },
    {
        let mut reqs = Vec::new();
        if self.has_rwm_window {
            reqs.push(WindowRequest::ExitFullscreen);
            reqs.push(WindowRequest::InformNotFullscreen);
        }
        self.fullscreen = FullscreenState::Off;
        reqs
    }

    /// Inform window it's maximized
    pub fn inform_maximized(&self) -> (reqs: Vec<WindowRequest>)
        ensures
            reqs@ == if_window(*self, WindowRequest::InformMaximized),
    {
        let mut reqs = Vec::new();
        if self.has_rwm_window {
            reqs.push(WindowRequest::InformMaximized);
        }
        reqs
    }

    /// Inform window it's unmaximized
    pub fn inform_unmaximized(&self) -> (reqs: Vec<WindowRequest>)
        ensures
            reqs@ == if_window(*self, WindowRequest::InformUnmaximized),
    {
        let mut reqs = Vec::new();
        if self.has_rwm_window {
            reqs.push(WindowRequest::InformUnmaximized);
        }
        reqs
    }

    /// Snap the window to `side` of its output, its content at `(x, y)`
    /// with the size `(width, height)` proposed.
    pub fn snap_to(&mut self, side: Side, x: i32, y: i32, width: i32, height: i32) -> (reqs: Vec<WindowRequest>)
        ensures
            *final(self) == snapped_to(*old(self), side, x, y, width, height),
            reqs@ == snap_requests(*old(self), x, y, width, height),
    {
        if self.pre_snap.is_none() {
            self.pre_snap = Some(
                SavedGeometry { x: self.x, y: self.y, width: self.width, height: self.height, floating: self.floating },
            );
        }
        self.floating = true;
        self.snapped = Some(side);
        self.snap_move(x, y, width, height)
    }

    /// Take the window out of its half, back to the geometry it had before
    /// it was snapped.
    pub fn unsnap(&mut self) -> (reqs: Vec<WindowRequest>)
        ensures
            *final(self) == unsnapped(*old(self)),
            reqs@ == unsnap_requests(*old(self)),
    {
        match self.pre_snap {
            Some(g) => {
                self.pre_snap = None;
                self.snapped = None;
                self.floating = g.floating;
                self.snap_move(g.x, g.y, g.width, g.height)
            },
            None => {
                self.snapped = None;
                Vec::new()
            },
        }
    }

    /// Move the window to `(x, y)` and propose the size `(width, height)`.
    fn snap_move(&mut self, x: i32, y: i32, width: i32, height: i32) -> (reqs: Vec<WindowRequest>)
        ensures
            *final(self) == (Window {
                x,
                y,
                position_undefined: false,
                proposed_width: max_i32(width, old(self).min_width),
                proposed_height: max_i32(height, old(self).min_height),
                ..*old(self)
            }),
            reqs@ == snap_requests(*old(self), x, y, width, height),
    {
        let mut reqs = self.set_position(x, y);
        let mut r2 = self.propose_dimensions(width, height);
        reqs.append(&mut r2);
        reqs
    }

    /// Take the window a step back: leave fullscreen, else leave the
    /// maximized state, else hide it.
    pub fn step_back(&mut self) -> (reqs: Vec<WindowRequest>)
        ensures
            *final(self) == stepped_back(*old(self)),
            reqs@ == step_back_requests(*old(self)),
    {
        if self.fullscreen != FullscreenState::Off {
            self.exit_fullscreen()
        } else if self.maximized {
            self.unmaximize_restore_size_only()
        } else {
            self.make_hidden()
        }
    }

    /// Leave the maximized state and forget the saved geometry.
    pub fn clear_maximized_without_restore(&mut self) -> (reqs: Vec<WindowRequest>)
        ensures
            old(self).maximized ==> *final(self) == (Window { maximized: false, pre_maximize: None, ..*old(self) }),
            !old(self).maximized ==> *final(self) == *old(self),
            reqs@ == if old(self).maximized {
                if_window(*old(self), WindowRequest::InformUnmaximized)
            } else {
                seq![]
            },
    {
        if self.maximized {
            self.maximized = false;
            self.pre_maximize = None;
            return self.inform_unmaximized();
        }
        Vec::new()
    }

    /// Leave the maximized state, proposing the saved size again.
    pub fn unmaximize_restore_size_only(&mut self) -> (reqs: Vec<WindowRequest>)
        ensures
            !old(self).maximized ==> *final(self) == *old(self) && reqs@ == Seq::<WindowRequest>::empty(),
            old(self).maximized ==> match old(self).pre_maximize {
                Some(saved) => {
                    &&& *final(self) == (Window {
                        maximized: false,
                        pre_maximize: None,
                        proposed_width: max_i32(saved.width, old(self).min_width),
                        proposed_height: max_i32(saved.height, old(self).min_height),
                        ..*old(self)
                    })
                    &&& reqs@ == if_window(
                        *old(self),
                        WindowRequest::ProposeDimensions {
                            width: max_i32(saved.width, old(self).min_width),
                            height: max_i32(saved.height, old(self).min_height),
                        },
                    ) + if_window(*old(self), WindowRequest::InformUnmaximized)
                },
                None => {
                    &&& *final(self) == (Window { maximized: false, ..*old(self) })
                    &&& reqs@ == if_window(*old(self), WindowRequest::InformUnmaximized)
                },
            },
    {
        let mut reqs = Vec::new();
        if self.maximized {
            self.maximized = false;
            if let Some(saved) = self.pre_maximize.take() {
                reqs = self.propose_dimensions(saved.width, saved.height);
            }
            let mut more = self.inform_unmaximized();
            reqs.append(&mut more);
        }
        reqs
    }

    /// Set decoration mode
    pub fn set_decoration(&self, decoration: WindowDecoration) -> (reqs: Vec<WindowRequest>)
        ensures
            reqs@ == if_window(
                *self,
                match decoration {
                    WindowDecoration::Csd => WindowRequest::UseCsd,
                    WindowDecoration::Ssd => WindowRequest::UseSsd,
                },
            ),
    {
        let mut reqs = Vec::new();
        if self.has_rwm_window {
            match decoration {
                WindowDecoration::Csd => reqs.push(WindowRequest::UseCsd),
                WindowDecoration::Ssd => reqs.push(WindowRequest::UseSsd),
            }
        }
        reqs
    }

    /// Set clip box for rendering; an empty box means no clipping.
    pub fn set_clip_box(&mut self, x: i32, y: i32, width: i32, height: i32) -> (reqs: Vec<WindowRequest>)
        ensures
            *final(self) == (Window {
                clip_state: if width > 0 && height > 0 { ClipState::Clipped } else { ClipState::Normal },
                ..*old(self)
            }),
            reqs@ == if_window(*old(self), WindowRequest::SetClipBox { x, y, width, height }),
    {
        let mut reqs = Vec::new();
        if self.has_rwm_window {
            reqs.push(WindowRequest::SetClipBox { x, y, width, height });
        }
        self.clip_state = if width > 0 && height > 0 {
            ClipState::Clipped
        } else {
            ClipState::Normal
        };
        reqs
    }

    /// Clear clip box
    pub fn clear_clip_box(&mut self) -> (reqs: Vec<WindowRequest>)
        ensures
            *final(self) == (Window { clip_state: ClipState::Normal, ..*old(self) }),
            reqs@ == if_window(*old(self), WindowRequest::SetClipBox { x: 0, y: 0, width: 0, height: 0 }),
    {
        self.set_clip_box(0, 0, 0, 0)
    }

    /// Place this window's node above another
    pub fn place_above(&self, other: &Window) -> (reqs: Vec<WindowRequest>)
        ensures
            reqs@ == if self.has_rwm_node && other.has_rwm_node {
                seq![WindowRequest::PlaceAbove { other: other.id }]
            } else {
                seq![]
            },
    {
        let mut reqs = Vec::new();
        if self.has_rwm_node && other.has_rwm_node {
            reqs.push(WindowRequest::PlaceAbove { other: other.id });
        }
        reqs
    }

    /// Place this window's node below another
    pub fn place_below(&self, other: &Window) -> (reqs: Vec<WindowRequest>)
        ensures
            reqs@ == if self.has_rwm_node && other.has_rwm_node {
                seq![WindowRequest::PlaceBelow { other: other.id }]
            } else {
                seq![]
            },
    {
        let mut reqs = Vec::new();
        if self.has_rwm_node && other.has_rwm_node {
            reqs.push(WindowRequest::PlaceBelow { other: other.id });
        }
        reqs
    }

    /// Place this window at top of render list
    pub fn place_top(&self) -> (reqs: Vec<WindowRequest>)
        ensures
            reqs@ == if_node(*self, WindowRequest::PlaceTop),
    {
        let mut reqs = Vec::new();
        if self.has_rwm_node {
            reqs.push(WindowRequest::PlaceTop);
        }
        reqs
    }

    /// Place this window at bottom of render list
    pub fn place_bottom(&self) -> (reqs: Vec<WindowRequest>)
        ensures
            reqs@ == if_node(*self, WindowRequest::PlaceBottom),
    {
        let mut reqs = Vec::new();
        if self.has_rwm_node {
            reqs.push(WindowRequest::PlaceBottom);
        }
        reqs
    }

    /// Queue an event for processing during manage phase
    pub fn queue_event(&mut self, event: WindowEvent)
        ensures
            queue_event_done(*old(self), *final(self), event),
    {
        self.unhandled_events.push(event);
    }

    /// Take the queued events, oldest first, leaving the queue empty.
    pub fn handle_events(&mut self) -> (events: Vec<WindowEvent>)
        ensures
            handle_events_done(*old(self), *final(self), events@),
    {
        let mut events = Vec::new();
        std::mem::swap(&mut events, &mut self.unhandled_events);
        events
    }

    /// Start a move operation from the current position
    pub fn start_move(&mut self, seat: usize)
        ensures
            *final(self) == (Window {
                operator: Operator::Move { start_x: old(self).x, start_y: old(self).y, seat: Some(seat) },
                ..*old(self)
            }),
    {
        self.operator = Operator::Move { start_x: self.x, start_y: self.y, seat: Some(seat) };
    }

    /// Start a resize operation from the current geometry
    pub fn start_resize(&mut self, seat: usize, edges: u32) -> (reqs: Vec<WindowRequest>)
        ensures
            *final(self) == (Window {
                operator: Operator::Resize {
                    start_x: old(self).x,
                    start_y: old(self).y,
                    start_width: old(self).width,
                    start_height: old(self).height,
                    edges,
                    seat: Some(seat),
                },
                ..*old(self)
            }),
            reqs@ == if_window(*old(self), WindowRequest::InformResizeStart),
    {
        self.operator = Operator::Resize {
            start_x: self.x,
            start_y: self.y,
            start_width: self.width,
            start_height: self.height,
            edges,
            seat: Some(seat),
        };
        let mut reqs = Vec::new();
        if self.has_rwm_window {
            reqs.push(WindowRequest::InformResizeStart);
        }
        reqs
    }

    /// End current operation
    pub fn end_operation(&mut self) -> (reqs: Vec<WindowRequest>)
        ensures
            *final(self) == (Window { operator: Operator::Idle, ..*old(self) }),
            reqs@ == if old(self).operator is Resize {
                if_window(*old(self), WindowRequest::InformResizeEnd)
            } else {
                seq![]
            },
    {
        let mut reqs = Vec::new();
        if matches!(self.operator, Operator::Resize { .. }) {
            if self.has_rwm_window {
                reqs.push(WindowRequest::InformResizeEnd);
            }
        }
        self.operator = Operator::Idle;
        reqs
    }

    /// Apply the pointer's movement `(dx, dy)` since the operation started:
    /// a move shifts the start position; a resize moves the dragged edges,
    /// never below the minimum size, keeping the opposite edges in place.
    #[verifier::rlimit(40)]
    pub fn apply_op_delta(&mut self, dx: i32, dy: i32) -> (reqs: Vec<WindowRequest>)
        requires
            op_delta_fits(old(self).operator, old(self).min_width, old(self).min_height, dx as int, dy as int),
        ensures
            *final(self) == op_delta_state(*old(self), dx as int, dy as int),
            match op_target(old(self).operator, old(self).min_width, old(self).min_height, dx as int, dy as int) {
                None => *final(self) == *old(self) && reqs@.len() == 0,
                Some(t) => if old(self).operator is Move {
                    &&& *final(self) == (Window { x: t.0 as i32, y: t.1 as i32, position_undefined: false, ..*old(self) })
                    &&& reqs@ == if_node(*old(self), WindowRequest::SetPosition { x: t.0 as i32, y: t.1 as i32 })
                } else {
                    let moved = t.0 != old(self).x || t.1 != old(self).y;
                    let placed = if moved {
                        Window { x: t.0 as i32, y: t.1 as i32, position_undefined: false, ..*old(self) }
                    } else {
                        *old(self)
                    };
                    &&& *final(self) == (Window {
                        proposed_width: max_i32(t.2 as i32, old(self).min_width),
                        proposed_height: max_i32(t.3 as i32, old(self).min_height),
                        ..placed
                    })
                    &&& reqs@ == (if moved {
                        if_node(*old(self), WindowRequest::SetPosition { x: t.0 as i32, y: t.1 as i32 })
                    } else {
                        seq![]
                    }) + if_window(
                        *old(self),
                        WindowRequest::ProposeDimensions {
                            width: max_i32(t.2 as i32, old(self).min_width),
                            height: max_i32(t.3 as i32, old(self).min_height),
                        },
                    )
                },
            },
    {
        match self.operator {
            Operator::Move { start_x, start_y, .. } => {
                self.set_position(start_x + dx, start_y + dy)
            },
            Operator::Resize { start_x, start_y, start_width, start_height, edges, .. } => {
                let (new_x, new_y, new_width, new_height) = resize_geometry(
                    start_x,
                    start_y,
                    start_width,
                    start_height,
                    edges,
                    self.min_width,
                    self.min_height,
                    dx,
                    dy,
                );
                let mut reqs = Vec::new();
                if new_x != self.x || new_y != self.y {
                    reqs = self.set_position(new_x, new_y);
                }
                let mut more = self.propose_dimensions(new_width, new_height);
                reqs.append(&mut more);
                reqs
            },
            Operator::Idle => Vec::new(),
        }
    }
}

/// Toggling the same tags twice gives the tags back, whenever the first
/// toggle took effect.
pub proof fn lemma_toggle_tag_twice(tag: u32, mask: u32)
    requires
        tag ^ mask != 0,
    ensures
        (tag ^ mask) ^ mask == tag,
        tag != 0 ==> ((tag ^ mask) ^ mask != 0),
{
    assert((tag ^ mask) ^ mask == tag) by (bit_vector);
}

/// Toggling never leaves a window on no tag when it had one.
pub proof fn lemma_toggle_tag_keeps_some(tag: u32, mask: u32)
    requires
        tag != 0,
    ensures
        (if tag ^ mask != 0 { tag ^ mask } else { tag }) != 0,
{
}

} // verus!
