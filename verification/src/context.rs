//! The window manager's central state: windows, outputs and seats by id,
//! the focus stack, and the decisions taken on actions and events.  What
//! must reach the compositor or a seat is returned as commands.

use vstd::prelude::*;
use crate::config::{Mode, WindowDecoration};
use crate::layout::LayoutType;
use crate::output::{lowest_bit, switched, Output, OutputId};
use crate::action::{
    default_tag_bindings, key_bindings, key_tuple, keys_for, pointer_bindings, pointer_tuple, pointers_for, seat_bindings,
    Action, BindingEvent, Direction, Edge, PointerBinding, State, XkbBinding,
};
use crate::rule::{apply_rules, opt_string_view, spec_apply_rules, AppliedRules, Rule};
use crate::window::{
    fresh_state, if_node, if_window, max_i32, snap_requests, snapped_to, step_back_requests, stepped_back, unsnap_requests,
    unsnapped, FullscreenState, Operator, Side, Window, WindowEvent, WindowId, WindowRequest,
};

verus! {

/// Seat identifier
pub type SeatId = usize;

/// Pointer cursor shapes for resizing
#[derive(Debug, Clone, Copy, PartialEq, Eq, Structural)]
pub enum CursorShape {
    NwResize,
    NeResize,
    SwResize,
    SeResize,
    WResize,
    EResize,
    NResize,
    SResize,
    EwResize,
    NsResize,
    AllResize,
}

/// A click on a close button: on which window, and when, in milliseconds.
#[derive(Debug, Clone, Copy, PartialEq, Eq, Structural)]
pub struct CloseClick {
    pub window: WindowId,
    pub time_ms: u64,
}

/// What the context keeps of a seat: where its pointer is, which window is
/// below it, and the last click on a close button.
#[derive(Debug, Clone, Copy, PartialEq, Eq, Structural)]
pub struct SeatState {
    pub id: SeatId,
    pub pointer_x: i32,
    pub pointer_y: i32,
    pub window_below_pointer: Option<WindowId>,
    pub last_close_click: Option<CloseClick>,
}

/// Something the caller must do on the compositor, a seat or the system.
#[derive(Debug, Clone)]
pub enum Command {
    /// A request about one window
    Window { id: WindowId, request: WindowRequest },
    /// Give the window keyboard focus on the seat
    FocusWindow { seat: SeatId, window: WindowId },
    /// Start a pointer operation on the seat
    StartPointerOp { seat: SeatId },
    /// Show this cursor on the seat (`None`: the default cursor)
    SetCursorShape { seat: SeatId, shape: Option<CursorShape> },
    /// Switch the seat's binding mode
    SwitchMode { seat: SeatId, mode: Mode },
    /// Run a program with these arguments, detached
    Spawn { argv: Vec<String> },
    /// Draw the window's titlebar, as focused or not, and place it at this
    /// offset from the window's content
    DrawTitlebar { window: WindowId, focused: bool, offset_x: i32, offset_y: i32 },
    /// Tell the compositor the manage sequence is over
    FinishManage,
    /// Tell the compositor the render sequence is over
    FinishRender,
}

/// The central window manager context
pub struct Context {
    pub windows: Vec<Window>,
    pub outputs: Vec<Output>,
    pub seats: Vec<SeatState>,
    /// Window ids, most recently focused first
    pub focus_stack: Vec<WindowId>,
    pub focused_window: Option<WindowId>,
    pub current_output: Option<OutputId>,
    pub current_seat: Option<SeatId>,
    pub next_window_id: WindowId,
    pub next_output_id: OutputId,
    pub next_seat_id: SeatId,
    /// Window rules, applied in order
    pub rules: Vec<Rule>,
    pub default_window_decoration: WindowDecoration,
    pub default_layout: LayoutType,
    /// Border width of window frames
    pub border_width: i32,
    /// Height of window titlebars
    pub titlebar_height: i32,
    pub running: bool,
    pub session_locked: bool,
    pub startup_unminimize_done: bool,
    /// Terminal windows for swallowing: process id and window
    pub terminal_windows: Vec<(i32, WindowId)>,
}

/// The window `id` is among `ws`.
pub open spec fn has_win(ws: Seq<Window>, id: WindowId) -> bool {
    window_ids(ws).contains(id)
}

/// Index of the window `id` among `ws` (meaningful when it is there).
pub open spec fn win_index(ws: Seq<Window>, id: WindowId) -> int {
    choose|i: int| 0 <= i < ws.len() && ws[i].id == id
}

/// No value occurs twice.
pub open spec fn no_dup(s: Seq<usize>) -> bool {
    forall|i: int, j: int| 0 <= i < s.len() && 0 <= j < s.len() && i != j ==> s[i] != s[j]
}

pub open spec fn window_ids(ws: Seq<Window>) -> Seq<usize> {
    ws.map_values(|w: Window| w.id)
}

pub open spec fn output_ids(os: Seq<Output>) -> Seq<usize> {
    os.map_values(|o: Output| o.id)
}

pub open spec fn seat_ids(ss: Seq<SeatState>) -> Seq<usize> {
    ss.map_values(|s: SeatState| s.id)
}

/// `s` without the occurrences of `x`, in order.
pub open spec fn without(s: Seq<usize>, x: usize) -> Seq<usize>
    decreases s.len(),
{
    if s.len() == 0 {
        s
    } else {
        let rest = without(s.drop_last(), x);
        if s.last() == x {
            rest
        } else {
            rest.push(s.last())
        }
    }
}

/// The focus stack after focusing `id`: `id` first, then the others in
/// their order.
pub open spec fn focused_stack(s: Seq<usize>, id: usize) -> Seq<usize> {
    seq![id] + without(s, id)
}

impl Context {
    /// Ids are unique and below the next ids to hand out, windows are kept
    /// in the order of their ids, the focus stack holds no id twice and
    /// only ids handed out, and every output's tags are well formed.
    pub open spec fn wf(&self) -> bool {
        let wids = window_ids(self.windows@);
        let oids = output_ids(self.outputs@);
        let sids = seat_ids(self.seats@);
        &&& no_dup(wids)
        &&& forall|i: int, j: int| 0 <= i < j < wids.len() ==> wids[i] < wids[j]
        &&& forall|i: int| 0 <= i < wids.len() ==> wids[i] < self.next_window_id
        &&& no_dup(oids)
        &&& forall|i: int| 0 <= i < oids.len() ==> oids[i] < self.next_output_id
        &&& no_dup(sids)
        &&& forall|i: int| 0 <= i < sids.len() ==> sids[i] < self.next_seat_id
        &&& no_dup(self.focus_stack@)
        &&& forall|i: int| 0 <= i < self.focus_stack@.len() ==> (#[trigger] self.focus_stack@[i]) < self.next_window_id
        &&& (self.focused_window matches Some(f) ==> f < self.next_window_id)
        &&& forall|i: int| 0 <= i < self.outputs@.len() ==> (#[trigger] self.outputs@[i]).tags_wf()
    }

    pub open spec fn has_window(&self, id: WindowId) -> bool {
        has_win(self.windows@, id)
    }

    /// Index of the window `id` (meaningful when it exists).
    pub open spec fn window_index(&self, id: WindowId) -> int {
        win_index(self.windows@, id)
    }

    pub open spec fn window(&self, id: WindowId) -> Window {
        self.windows@[self.window_index(id)]
    }

    pub open spec fn has_output(&self, id: OutputId) -> bool {
        output_ids(self.outputs@).contains(id)
    }

    pub open spec fn output_index(&self, id: OutputId) -> int {
        choose|i: int| 0 <= i < self.outputs@.len() && self.outputs@[i].id == id
    }

    pub open spec fn output(&self, id: OutputId) -> Output {
        self.outputs@[self.output_index(id)]
    }

    pub open spec fn has_seat(&self, id: SeatId) -> bool {
        seat_ids(self.seats@).contains(id)
    }

    pub open spec fn seat_index(&self, id: SeatId) -> int {
        choose|i: int| 0 <= i < self.seats@.len() && self.seats@[i].id == id
    }

    pub open spec fn seat(&self, id: SeatId) -> SeatState {
        self.seats@[self.seat_index(id)]
    }
}

/// Removing the occurrences of `x` keeps exactly the other elements.
pub proof fn lemma_without_contains(s: Seq<usize>, x: usize, y: usize)
    ensures
        without(s, x).contains(y) <==> (s.contains(y) && y != x),
    decreases s.len(),
{
    if s.len() > 0 {
        lemma_without_contains(s.drop_last(), x, y);
        if s.contains(y) && y != x {
            let i = choose|i: int| 0 <= i < s.len() && s[i] == y;
            if i < s.len() - 1 {
                assert(s.drop_last()[i] == y);
            }
        }
        if s.drop_last().contains(y) {
            let i = choose|i: int| 0 <= i < s.drop_last().len() && s.drop_last()[i] == y;
            assert(s[i] == y);
        }
        let rest = without(s.drop_last(), x);
        if s.last() != x {
            if rest.push(s.last()).contains(y) {
                let i = choose|i: int| 0 <= i < rest.push(s.last()).len() && rest.push(s.last())[i] == y;
                if i < rest.len() {
                    assert(rest[i] == y);
                }
            }
            if rest.contains(y) {
                let i = choose|i: int| 0 <= i < rest.len() && rest[i] == y;
                assert(rest.push(s.last())[i] == y);
            }
            assert(rest.push(s.last())[rest.len() as int] == s.last());
        }
    }
}

/// Removing the occurrences of `x` keeps a sequence free of duplicates.
pub proof fn lemma_without_no_dup(s: Seq<usize>, x: usize)
    requires
        no_dup(s),
    ensures
        no_dup(without(s, x)),
        without(s, x).len() <= s.len(),
    decreases s.len(),
{
    if s.len() > 0 {
        let d = s.drop_last();
        assert(no_dup(d));
        lemma_without_no_dup(d, x);
        let rest = without(d, x);
        if s.last() != x {
            assert(!d.contains(s.last())) by {
                if d.contains(s.last()) {
                    let i = choose|i: int| 0 <= i < d.len() && d[i] == s.last();
                    assert(s[i] == s[s.len() - 1]);
                }
            }
            lemma_without_contains(d, x, s.last());
            let r = rest.push(s.last());
            assert forall|i: int, j: int| 0 <= i < r.len() && 0 <= j < r.len() && i != j implies r[i] != r[j] by {
                if i == rest.len() {
                    assert(rest.contains(r[j]));
                } else if j == rest.len() {
                    assert(rest.contains(r[i]));
                }
            }
        }
    }
}

/// Removing an element that does not occur changes nothing.
pub proof fn lemma_without_absent(s: Seq<usize>, x: usize)
    requires
        !s.contains(x),
    ensures
        without(s, x) == s,
    decreases s.len(),
{
    if s.len() > 0 {
        assert(!s.drop_last().contains(x)) by {
            if s.drop_last().contains(x) {
                let i = choose|i: int| 0 <= i < s.drop_last().len() && s.drop_last()[i] == x;
                assert(s[i] == x);
            }
        }
        lemma_without_absent(s.drop_last(), x);
        assert(s.drop_last().push(s.last()) == s);
    }
}

/// Removing an element from a sequence that starts with it drops that start.
pub proof fn lemma_without_prepend(x: usize, s: Seq<usize>)
    ensures
        without(seq![x] + s, x) == without(s, x),
    decreases s.len(),
{
    let e = Seq::<usize>::empty();
    assert(without(e, x) == e);
    if s.len() == 0 {
        assert(seq![x] + s == seq![x]);
        assert(seq![x].drop_last() == e);
        assert(without(seq![x], x) == without(e, x));
    } else {
        lemma_without_prepend(x, s.drop_last());
        assert((seq![x] + s).drop_last() == seq![x] + s.drop_last());
        assert((seq![x] + s).last() == s.last());
        assert(without(seq![x] + s, x) == if s.last() == x {
            without(seq![x] + s.drop_last(), x)
        } else {
            without(seq![x] + s.drop_last(), x).push(s.last())
        });
    }
}

/// Index of the window `id` among `ws`, if it is there.
fn find_in(ws: &Vec<Window>, id: WindowId) -> (r: Option<usize>)
    requires
        no_dup(window_ids(ws@)),
    ensures
        r matches Some(i) ==> i < ws@.len() && ws@[i as int].id == id && i == win_index(ws@, id),
        r.is_some() == has_win(ws@, id),
{
    let mut i: usize = 0;
    while i < ws.len()
        invariant
            no_dup(window_ids(ws@)),
            0 <= i <= ws@.len(),
            forall|j: int| 0 <= j < i ==> (#[trigger] ws@[j]).id != id,
        decreases ws@.len() - i,
    {
        if ws[i].id == id {
            proof {
                let k = win_index(ws@, id);
                assert(window_ids(ws@)[i as int] == id);
                assert(0 <= k < ws@.len() && ws@[k].id == id);
                assert(window_ids(ws@)[k] == id);
                if k != i {
                    assert(window_ids(ws@)[k] != window_ids(ws@)[i as int]);
                }
            }
            return Some(i);
        }
        i = i + 1;
    }
    proof {
        if has_win(ws@, id) {
            let k = choose|k: int| 0 <= k < window_ids(ws@).len() && window_ids(ws@)[k] == id;
            assert(ws@[k].id == id);
        }
    }
    None
}

impl Context {
    /// An empty context with the given rules and frame metrics.
    pub fn new(
        rules: Vec<Rule>,
        default_window_decoration: WindowDecoration,
        default_layout: LayoutType,
        border_width: i32,
        titlebar_height: i32,
    ) -> (r: Self)
        ensures
            r.wf(),
            r.windows@.len() == 0 && r.outputs@.len() == 0 && r.seats@.len() == 0,
            r.focus_stack@.len() == 0,
            r.focused_window.is_none() && r.current_output.is_none() && r.current_seat.is_none(),
            r.next_window_id == 0 && r.next_output_id == 0 && r.next_seat_id == 0,
            r.rules@ == rules@,
            r.default_window_decoration == default_window_decoration,
            r.default_layout == default_layout,
            r.border_width == border_width,
            r.titlebar_height == titlebar_height,
            r.running && !r.session_locked && !r.startup_unminimize_done,
            r.terminal_windows@.len() == 0,
    {
        Context {
            windows: Vec::new(),
            outputs: Vec::new(),
            seats: Vec::new(),
            focus_stack: Vec::new(),
            focused_window: None,
            current_output: None,
            current_seat: None,
            next_window_id: 0,
            next_output_id: 0,
            next_seat_id: 0,
            rules,
            default_window_decoration,
            default_layout,
            border_width,
            titlebar_height,
            running: true,
            session_locked: false,
            startup_unminimize_done: false,
            terminal_windows: Vec::new(),
        }
    }

    /// Index of the window `id`, if there is one.
    pub fn find_window(&self, id: WindowId) -> (r: Option<usize>)
        requires
            self.wf(),
        ensures
            r matches Some(i) ==> i < self.windows@.len() && self.windows@[i as int].id == id && i == self.window_index(id),
            r.is_some() == self.has_window(id),
    {
        find_in(&self.windows, id)
    }

    /// Index of the output `id`, if there is one.
    pub fn find_output(&self, id: OutputId) -> (r: Option<usize>)
        requires
            self.wf(),
        ensures
            r matches Some(i) ==> i < self.outputs@.len() && self.outputs@[i as int].id == id && i == self.output_index(id),
            r.is_some() == self.has_output(id),
    {
        let mut i: usize = 0;
        while i < self.outputs.len()
            invariant
                self.wf(),
                0 <= i <= self.outputs@.len(),
                forall|j: int| 0 <= j < i ==> (#[trigger] self.outputs@[j]).id != id,
            decreases self.outputs@.len() - i,
        {
            if self.outputs[i].id == id {
                proof {
                    let k = self.output_index(id);
                    assert(output_ids(self.outputs@)[i as int] == id);
                    assert(0 <= k < self.outputs@.len() && self.outputs@[k].id == id);
                    assert(output_ids(self.outputs@)[k] == id);
                    assert(no_dup(output_ids(self.outputs@)));
                    if k != i {
                        assert(output_ids(self.outputs@)[k] != output_ids(self.outputs@)[i as int]);
                    }
                }
                return Some(i);
            }
            i = i + 1;
        }
        proof {
            if self.has_output(id) {
                let k = choose|k: int| 0 <= k < output_ids(self.outputs@).len() && output_ids(self.outputs@)[k] == id;
                assert(self.outputs@[k].id == id);
            }
        }
        None
    }

    /// Index of the seat `id`, if there is one.
    pub fn find_seat(&self, id: SeatId) -> (r: Option<usize>)
        requires
            self.wf(),
        ensures
            r matches Some(i) ==> i < self.seats@.len() && self.seats@[i as int].id == id && i == self.seat_index(id),
            r.is_some() == self.has_seat(id),
    {
        let mut i: usize = 0;
        while i < self.seats.len()
            invariant
                self.wf(),
                0 <= i <= self.seats@.len(),
                forall|j: int| 0 <= j < i ==> (#[trigger] self.seats@[j]).id != id,
            decreases self.seats@.len() - i,
        {
            if self.seats[i].id == id {
                proof {
                    let k = self.seat_index(id);
                    assert(seat_ids(self.seats@)[i as int] == id);
                    assert(0 <= k < self.seats@.len() && self.seats@[k].id == id);
                    assert(seat_ids(self.seats@)[k] == id);
                    if k != i {
                        assert(seat_ids(self.seats@)[k] != seat_ids(self.seats@)[i as int]);
                    }
                }
                return Some(i);
            }
            i = i + 1;
        }
        proof {
            if self.has_seat(id) {
                let k = choose|k: int| 0 <= k < seat_ids(self.seats@).len() && seat_ids(self.seats@)[k] == id;
                assert(self.seats@[k].id == id);
            }
        }
        None
    }
}



/// The window requests of window `id`, as commands.
pub open spec fn lift(id: WindowId, reqs: Seq<WindowRequest>) -> Seq<Command> {
    reqs.map_values(|r: WindowRequest| Command::Window { id, request: r })
}

/// Append the requests of window `id` to `cmds`.
fn push_requests(cmds: &mut Vec<Command>, id: WindowId, reqs: Vec<WindowRequest>)
    ensures
        final(cmds)@ == old(cmds)@ + lift(id, reqs@),
{
    let mut i: usize = 0;
    while i < reqs.len()
        invariant
            0 <= i <= reqs@.len(),
            cmds@ == old(cmds)@ + lift(id, reqs@.subrange(0, i as int)),
        decreases reqs@.len() - i,
    {
        cmds.push(Command::Window { id, request: reqs[i] });
        assert(lift(id, reqs@.subrange(0, i + 1)) == lift(id, reqs@.subrange(0, i as int)).push(
            Command::Window { id, request: reqs@[i as int] },
        ));
        i = i + 1;
    }
    assert(reqs@.subrange(0, reqs@.len() as int) == reqs@);
}

/// Taking an element out and putting another in its place updates it.
pub proof fn lemma_remove_insert<T>(s: Seq<T>, i: int, x: T)
    requires
        0 <= i < s.len(),
    ensures
        s.remove(i).insert(i, x) == s.update(i, x),
{
    assert(s.remove(i).insert(i, x) =~= s.update(i, x));
}

/// `s` without the terminals of window `id`, in order.
pub open spec fn terminals_without(s: Seq<(i32, WindowId)>, id: WindowId) -> Seq<(i32, WindowId)>
    decreases s.len(),
{
    if s.len() == 0 {
        s
    } else {
        let rest = terminals_without(s.drop_last(), id);
        if s.last().1 == id {
            rest
        } else {
            rest.push(s.last())
        }
    }
}

/// The first element of a sequence, if any.
pub open spec fn first_of(s: Seq<usize>) -> Option<usize> {
    if s.len() > 0 {
        Some(s[0])
    } else {
        None
    }
}

/// The first id of `ids` other than `x`, if any.
pub open spec fn first_other(ids: Seq<usize>, x: usize) -> Option<usize> {
    first_of(without(ids, x))
}

/// Removing an element from a sequence of increasing ids.
proof fn lemma_remove_increasing(ids: Seq<usize>, i: int, bound: usize)
    requires
        0 <= i < ids.len(),
        forall|a: int, b: int| 0 <= a < b < ids.len() ==> ids[a] < ids[b],
        forall|a: int| 0 <= a < ids.len() ==> ids[a] < bound,
    ensures
        forall|a: int, b: int| 0 <= a < b < ids.remove(i).len() ==> ids.remove(i)[a] < ids.remove(i)[b],
        forall|a: int| 0 <= a < ids.remove(i).len() ==> ids.remove(i)[a] < bound,
        no_dup(ids.remove(i)),
{
    let r = ids.remove(i);
    assert forall|a: int, b: int| 0 <= a < b < r.len() implies r[a] < r[b] by {
        let a2 = if a < i { a } else { a + 1 };
        let b2 = if b < i { b } else { b + 1 };
        assert(r[a] == ids[a2] && r[b] == ids[b2]);
    }
    assert forall|a: int| 0 <= a < r.len() implies r[a] < bound by {
        let a2 = if a < i { a } else { a + 1 };
        assert(r[a] == ids[a2]);
    }
    assert forall|a: int, b: int| 0 <= a < r.len() && 0 <= b < r.len() && a != b implies r[a] != r[b] by {
        if a < b {
            assert(r[a] < r[b]);
        } else {
            assert(r[b] < r[a]);
        }
    }
}

/// A duplicate-free sequence with a bound loses its duplicate-freedom
/// nowhere when one element is removed.
proof fn lemma_remove_no_dup(ids: Seq<usize>, i: int, bound: usize)
    requires
        0 <= i < ids.len(),
        no_dup(ids),
        forall|a: int| 0 <= a < ids.len() ==> ids[a] < bound,
    ensures
        no_dup(ids.remove(i)),
        forall|a: int| 0 <= a < ids.remove(i).len() ==> ids.remove(i)[a] < bound,
{
    let r = ids.remove(i);
    assert forall|a: int, b: int| 0 <= a < r.len() && 0 <= b < r.len() && a != b implies r[a] != r[b] by {
        let a2 = if a < i { a } else { a + 1 };
        let b2 = if b < i { b } else { b + 1 };
        assert(r[a] == ids[a2] && r[b] == ids[b2]);
    }
    assert forall|a: int| 0 <= a < r.len() implies r[a] < bound by {
        let a2 = if a < i { a } else { a + 1 };
        assert(r[a] == ids[a2]);
    }
}

/// Pushing an id above all others onto a bounded, duplicate-free sequence.
proof fn lemma_push_fresh(ids: Seq<usize>, id: usize)
    requires
        no_dup(ids),
        forall|a: int| 0 <= a < ids.len() ==> ids[a] < id,
    ensures
        no_dup(ids.push(id)),
        forall|a: int| 0 <= a < ids.push(id).len() ==> ids.push(id)[a] < id + 1,
{
    let r = ids.push(id);
    assert forall|a: int, b: int| 0 <= a < r.len() && 0 <= b < r.len() && a != b implies r[a] != r[b] by {
        if a < ids.len() && b < ids.len() {
            assert(r[a] == ids[a] && r[b] == ids[b]);
        }
    }
}

/// The focus stack `focused_stack(s, id)` is free of duplicates and
/// bounded when `s` is and `id` is below the bound.
proof fn lemma_focused_stack_wf(s: Seq<usize>, id: usize, bound: usize)
    requires
        no_dup(s),
        forall|a: int| 0 <= a < s.len() ==> s[a] < bound,
        id < bound,
    ensures
        no_dup(focused_stack(s, id)),
        forall|a: int| 0 <= a < focused_stack(s, id).len() ==> focused_stack(s, id)[a] < bound,
{
    let w = without(s, id);
    let f = focused_stack(s, id);
    lemma_without_no_dup(s, id);
    assert forall|a: int| 0 <= a < w.len() implies w[a] < bound && w[a] != id by {
        assert(w.contains(w[a]));
        lemma_without_contains(s, id, w[a]);
        let k = choose|k: int| 0 <= k < s.len() && s[k] == w[a];
    }
    assert forall|a: int, b: int| 0 <= a < f.len() && 0 <= b < f.len() && a != b implies f[a] != f[b] by {
        if a > 0 && b > 0 {
            assert(f[a] == w[a - 1] && f[b] == w[b - 1]);
        } else if a == 0 {
            assert(f[b] == w[b - 1]);
        } else {
            assert(f[a] == w[a - 1]);
        }
    }
    assert forall|a: int| 0 <= a < f.len() implies f[a] < bound by {
        if a > 0 {
            assert(f[a] == w[a - 1]);
        }
    }
}

/// The elements of `without(s, x)` are elements of `s`.
proof fn lemma_without_bounded(s: Seq<usize>, x: usize, bound: usize)
    requires
        forall|a: int| 0 <= a < s.len() ==> s[a] < bound,
    ensures
        forall|a: int| 0 <= a < without(s, x).len() ==> without(s, x)[a] < bound,
{
    let w = without(s, x);
    assert forall|a: int| 0 <= a < w.len() implies w[a] < bound by {
        assert(w.contains(w[a]));
        lemma_without_contains(s, x, w[a]);
        let k = choose|k: int| 0 <= k < s.len() && s[k] == w[a];
    }
}

/// Commands that give the window `id` keyboard focus on the current seat.
pub open spec fn focus_commands(c: Context, id: WindowId) -> Seq<Command> {
    if c.has_window(id) && c.current_seat is Some && c.has_seat(c.current_seat->0) {
        seq![Command::FocusWindow { seat: c.current_seat->0, window: id }]
    } else {
        seq![]
    }
}

/// Remove the occurrences of `x` from `v`, keeping the order.
fn remove_all(v: &Vec<usize>, x: usize) -> (r: Vec<usize>)
    ensures
        r@ == without(v@, x),
{
    let mut r: Vec<usize> = Vec::new();
    let mut i: usize = 0;
    while i < v.len()
        invariant
            0 <= i <= v@.len(),
            r@ == without(v@.subrange(0, i as int), x),
        decreases v@.len() - i,
    {
        proof {
            assert(v@.subrange(0, i + 1).drop_last() == v@.subrange(0, i as int));
            assert(v@.subrange(0, i + 1).last() == v@[i as int]);
        }
        if v[i] != x {
            r.push(v[i]);
        }
        i = i + 1;
    }
    assert(v@.subrange(0, v@.len() as int) == v@);
    r
}

/// What `create_window` does: a fresh floating window with the next id is
/// added at the end, on the current output's main tag when there is one,
/// and pushed on the focus stack.
pub open spec fn create_window_done(c: Context, n: Context, id: WindowId) -> bool {
    &&& id == c.next_window_id
    &&& n.next_window_id == id + 1
    &&& n.windows@.len() == c.windows@.len() + 1
    &&& n.windows@.drop_last() == c.windows@
    &&& {
        let w = n.windows@.last();
        &&& fresh_state(w)
        &&& w.id == id
        &&& w.has_rwm_window
        &&& w.decoration == Some(c.default_window_decoration)
        &&& w.floating
        &&& if c.current_output is Some && c.has_output(c.current_output->0) {
            &&& w.output == c.current_output
            &&& w.tag == c.output(c.current_output->0).main_tag
        } else {
            w.output.is_none() && w.tag == 1
        }
    }
    &&& n.focus_stack@ == c.focus_stack@.push(id)
    &&& n == (Context { windows: n.windows, focus_stack: n.focus_stack, next_window_id: n.next_window_id, ..c })
}

/// What `destroy_window` does: the window leaves the windows, the focus
/// stack and the terminals; when it was focused, focus passes to the first
/// window left on the focus stack.
pub open spec fn destroy_window_done(c: Context, n: Context, window_id: WindowId) -> bool {
    &&& n.focus_stack@ == without(c.focus_stack@, window_id)
    &&& n.focused_window == if c.focused_window == Some(window_id) {
        first_of(without(c.focus_stack@, window_id))
    } else {
        c.focused_window
    }
    &&& n.terminal_windows@ == terminals_without(c.terminal_windows@, window_id)
    &&& n.windows@ == if c.has_window(window_id) {
        c.windows@.remove(c.window_index(window_id))
    } else {
        c.windows@
    }
    &&& n == (Context {
        windows: n.windows,
        focus_stack: n.focus_stack,
        focused_window: n.focused_window,
        terminal_windows: n.terminal_windows,
        ..c
    })
}

/// A window no longer tied to the output `output_id`: one on that output
/// loses its output, any other stays as it is.
pub open spec fn detached(w: Window, output_id: OutputId) -> Window {
    if w.output == Some(output_id) {
        Window { output: None, ..w }
    } else {
        w
    }
}

/// Untie `w` from the output `output_id` when it is on it.
fn detach(w: &mut Window, output_id: OutputId)
    ensures
        *final(w) == detached(*old(w), output_id),
{
    if w.output == Some(output_id) {
        w.output = None;
    }
}

/// What `create_output` does: an output with the next id is added at the
/// end and becomes the current output when there is none.
pub open spec fn create_output_done(c: Context, n: Context, id: OutputId) -> bool {
    &&& id == c.next_output_id
    &&& n.next_output_id == id + 1
    &&& n.outputs@.len() == c.outputs@.len() + 1
    &&& n.outputs@.drop_last() == c.outputs@
    &&& {
        let o = n.outputs@.last();
        &&& o.id == id
        &&& o.has_rwm_output
        &&& o.layout == c.default_layout
        &&& o.tag == 1 && o.main_tag == 1 && o.prev_tag == 1 && o.prev_main_tag == 1
        &&& o.x == 0 && o.y == 0 && o.width == 0 && o.height == 0
        &&& o.exclusive_width == 0 && o.exclusive_height == 0
        &&& o.fullscreen_window.is_none()
    }
    &&& n.current_output == if c.current_output.is_none() {
        Some(id)
    } else {
        c.current_output
    }
    &&& n == (Context {
        outputs: n.outputs,
        next_output_id: n.next_output_id,
        current_output: n.current_output,
        ..c
    })
}

/// What `create_seat` does: a seat with the next id is added at the end
/// and becomes the current seat when there is none.
pub open spec fn create_seat_done(c: Context, n: Context, id: SeatId) -> bool {
    &&& id == c.next_seat_id
    &&& n.next_seat_id == id + 1
    &&& n.seats@ == c.seats@.push(
        SeatState { id, pointer_x: 0, pointer_y: 0, window_below_pointer: None, last_close_click: None },
    )
    &&& n.current_seat == if c.current_seat.is_none() {
        Some(id)
    } else {
        c.current_seat
    }
    &&& n == (Context {
        seats: n.seats,
        next_seat_id: n.next_seat_id,
        current_seat: n.current_seat,
        ..c
    })
}

/// What taking the focused window a step back does: it leaves
/// fullscreen, else the maximized state, else it is hidden; nothing
/// happens without a focused window.
pub open spec fn step_back_done(c: Context, n: Context, cmds: Seq<Command>) -> bool {
    match focused_index(c) {
        Some(i) => {
            let w = c.windows@[i];
            &&& n.windows@ == c.windows@.update(i, stepped_back(w))
            &&& cmds == lift(w.id, step_back_requests(w))
            &&& n == (Context { windows: n.windows, ..c })
        },
        None => n == c && cmds.len() == 0,
    }
}

impl Context {
    /// Create a window with the next id: floating, with the default
    /// decoration, on the current output with that output's main tag, and
    /// last on the focus stack.
    pub fn create_window(&mut self) -> (id: WindowId)
        requires
            old(self).wf(),
            old(self).next_window_id < usize::MAX,
        ensures
            final(self).wf(),
            create_window_done(*old(self), *final(self), id),
    {
        let id = self.next_window_id;
        self.next_window_id = self.next_window_id + 1;
        let mut window = Window::new(id);
        window.has_rwm_window = true;
        window.decoration = Some(self.default_window_decoration);
        if let Some(output_id) = self.current_output {
            if let Some(i) = self.find_output(output_id) {
                window.output = Some(output_id);
                window.tag = self.outputs[i].main_tag;
            }
        }
        window.floating = true;
        let ghost old_ids = window_ids(self.windows@);
        self.windows.push(window);
        self.focus_stack.push(id);
        proof {
            assert(window_ids(self.windows@) == old_ids.push(id));
            lemma_push_fresh(old_ids, id);
            lemma_push_fresh(old(self).focus_stack@, id);
            assert(self.windows@.drop_last() == old(self).windows@);
        }
        id
    }

    /// Remove the window `id`: from the windows, the focus stack and the
    /// terminals.  When it was focused, focus passes to the first window
    /// left on the focus stack.
    pub fn destroy_window(&mut self, window_id: WindowId)
        requires
            old(self).wf(),
        ensures
            final(self).wf(),
            destroy_window_done(*old(self), *final(self), window_id),
    {
        let stack = remove_all(&self.focus_stack, window_id);
        self.focus_stack = stack;
        proof {
            lemma_without_no_dup(old(self).focus_stack@, window_id);
            lemma_without_bounded(old(self).focus_stack@, window_id, old(self).next_window_id);
        }
        if self.focused_window == Some(window_id) {
            self.focused_window = if self.focus_stack.len() > 0 { Some(self.focus_stack[0]) } else { None };
        }
        let mut terminals: Vec<(i32, WindowId)> = Vec::new();
        let mut i: usize = 0;
        while i < self.terminal_windows.len()
            invariant
                0 <= i <= self.terminal_windows@.len(),
                terminals@ == terminals_without(self.terminal_windows@.subrange(0, i as int), window_id),
            decreases self.terminal_windows@.len() - i,
        {
            proof {
                assert(self.terminal_windows@.subrange(0, i + 1).drop_last() == self.terminal_windows@.subrange(0, i as int));
                assert(self.terminal_windows@.subrange(0, i + 1).last() == self.terminal_windows@[i as int]);
            }
            let entry = self.terminal_windows[i];
            if entry.1 != window_id {
                terminals.push(entry);
            }
            i = i + 1;
        }
        assert(self.terminal_windows@.subrange(0, self.terminal_windows@.len() as int) == self.terminal_windows@);
        self.terminal_windows = terminals;
        match self.find_window(window_id) {
            Some(i) => {
                let ghost ids = window_ids(self.windows@);
                self.windows.remove(i);
                proof {
                    assert(window_ids(self.windows@) == ids.remove(i as int));
                    lemma_remove_increasing(ids, i as int, self.next_window_id);
                }
            },
            None => {},
        }
    }

    /// Focus the window `id`: it moves to the front of the focus stack and
    /// becomes the focused window; the current seat is told to focus it
    /// when the window and the seat exist.
    pub fn focus(&mut self, window_id: WindowId) -> (cmds: Vec<Command>)
        requires
            old(self).wf(),
        ensures
            window_id < old(self).next_window_id ==> final(self).wf(),
            focus_done(*old(self), *final(self), cmds@, window_id),
    {
        let mut cmds: Vec<Command> = Vec::new();
        if let Some(seat) = self.current_seat {
            if self.find_seat(seat).is_some() && self.find_window(window_id).is_some() {
                cmds.push(Command::FocusWindow { seat, window: window_id });
            }
        }
        let mut stack = remove_all(&self.focus_stack, window_id);
        stack.insert(0, window_id);
        assert(stack@ == focused_stack(old(self).focus_stack@, window_id));
        self.focus_stack = stack;
        self.focused_window = Some(window_id);
        proof {
            if window_id < old(self).next_window_id {
                lemma_focused_stack_wf(old(self).focus_stack@, window_id, old(self).next_window_id);
            }
        }
        cmds
    }

    /// Move the focused window to the front of the focus stack.
    pub fn zoom(&mut self)
        requires
            old(self).wf(),
        ensures
            final(self).wf(),
            zoom_done(*old(self), *final(self)),
    {
        let focused_id = match self.focused_window {
            Some(id) => id,
            None => return,
        };
        let mut stack = remove_all(&self.focus_stack, focused_id);
        stack.insert(0, focused_id);
        assert(stack@ == focused_stack(old(self).focus_stack@, focused_id));
        proof {
            lemma_focused_stack_wf(old(self).focus_stack@, focused_id, old(self).next_window_id);
        }
        self.focus_stack = stack;
    }
}


/// Focusing a window twice in a row leaves the focus stack as focusing it
/// once does.
pub proof fn lemma_focus_idempotent(s: Seq<usize>, id: usize)
    ensures
        focused_stack(focused_stack(s, id), id) == focused_stack(s, id),
{
    lemma_without_prepend(id, without(s, id));
    lemma_without_contains(s, id, id);
    lemma_without_absent(without(s, id), id);
}

/// After focusing `id`, it heads the focus stack, and the stack holds
/// exactly the windows it held before plus `id`.
pub proof fn lemma_focus_front(s: Seq<usize>, id: usize, x: usize)
    ensures
        focused_stack(s, id)[0] == id,
        focused_stack(s, id).contains(x) <==> (x == id || s.contains(x)),
{
    let f = focused_stack(s, id);
    lemma_without_contains(s, id, x);
    if f.contains(x) && x != id {
        let k = choose|k: int| 0 <= k < f.len() && f[k] == x;
        assert(without(s, id)[k - 1] == x);
    }
    if s.contains(x) && x != id {
        let k = choose|k: int| 0 <= k < without(s, id).len() && without(s, id)[k] == x;
        assert(f[k + 1] == x);
    }
    if x == id {
        assert(f[0] == x);
    }
}

/// Once removed, a window is nowhere in the focus stack.
pub proof fn lemma_destroyed_not_stacked(s: Seq<usize>, id: usize)
    ensures
        !without(s, id).contains(id),
{
    lemma_without_contains(s, id, id);
}

impl Context {
    /// Create an output with the next id, using the default layout; it
    /// becomes the current output when there is none.
    pub fn create_output(&mut self) -> (id: OutputId)
        requires
            old(self).wf(),
            old(self).next_output_id < usize::MAX,
        ensures
            final(self).wf(),
            create_output_done(*old(self), *final(self), id),
    {
        let id = self.next_output_id;
        self.next_output_id = self.next_output_id + 1;
        let mut output = Output::new(id);
        output.set_layout(self.default_layout);
        output.has_rwm_output = true;
        let ghost old_ids = output_ids(self.outputs@);
        self.outputs.push(output);
        proof {
            assert(output_ids(self.outputs@) == old_ids.push(id));
            lemma_push_fresh(old_ids, id);
            assert(self.outputs@.drop_last() == old(self).outputs@);
        }
        if self.current_output.is_none() {
            self.current_output = Some(id);
        }
        id
    }

    /// Untie every window on the output `output_id` from it.
    #[verifier::spinoff_prover]
    fn detach_windows(&mut self, output_id: OutputId)
        requires
            old(self).wf(),
        ensures
            final(self).wf(),
            final(self).windows@ == old(self).windows@.map_values(|w: Window| detached(w, output_id)),
            *final(self) == (Context { windows: final(self).windows, ..*old(self) }),
    {
        let ghost c = *self;
        let mut j: usize = 0;
        while j < self.windows.len()
            invariant
                self.wf(),
                self.windows@.len() == c.windows@.len(),
                0 <= j <= c.windows@.len(),
                forall|t: int| 0 <= t < j ==> self.windows@[t] == detached(c.windows@[t], output_id),
                forall|t: int| j <= t < c.windows@.len() ==> self.windows@[t] == c.windows@[t],
                *self == (Context { windows: self.windows, ..c }),
            decreases c.windows@.len() - j,
        {
            let ghost before = *self;
            let mut w = self.take_window(j);
            detach(&mut w, output_id);
            self.put_window(j, w, Ghost(before));
            j = j + 1;
        }
        assert(self.windows@ =~= c.windows@.map_values(|w: Window| detached(w, output_id)));
    }

    /// Remove the output `id`.  When it was current, the first other output
    /// becomes current, or none.
    pub fn destroy_output(&mut self, output_id: OutputId)
        requires
            old(self).wf(),
        ensures
            final(self).wf(),
            final(self).current_output == if old(self).current_output == Some(output_id) {
                first_other(output_ids(old(self).outputs@), output_id)
            } else {
                old(self).current_output
            },
            final(self).outputs@ == if old(self).has_output(output_id) {
                old(self).outputs@.remove(old(self).output_index(output_id))
            } else {
                old(self).outputs@
            },
            final(self).windows@ == old(self).windows@.map_values(|w: Window| detached(w, output_id)),
            *final(self) == (Context {
                outputs: final(self).outputs,
                current_output: final(self).current_output,
                windows: final(self).windows,
                ..*old(self)
            }),
    {
        self.detach_windows(output_id);
        if self.current_output == Some(output_id) {
            let mut ids: Vec<usize> = Vec::new();
            let mut k: usize = 0;
            while k < self.outputs.len()
                invariant
                    0 <= k <= self.outputs@.len(),
                    ids@ == output_ids(self.outputs@).subrange(0, k as int),
                decreases self.outputs@.len() - k,
            {
                ids.push(self.outputs[k].id);
                assert(output_ids(self.outputs@).subrange(0, k + 1) == output_ids(self.outputs@).subrange(0, k as int).push(self.outputs@[k as int].id));
                k = k + 1;
            }
            assert(ids@ == output_ids(self.outputs@));
            let others = remove_all(&ids, output_id);
            self.current_output = if others.len() > 0 { Some(others[0]) } else { None };
        }
        match self.find_output(output_id) {
            Some(i) => {
                let ghost ids = output_ids(self.outputs@);
                let ghost outs = self.outputs@;
                self.outputs.remove(i);
                proof {
                    assert(output_ids(self.outputs@) == ids.remove(i as int));
                    lemma_remove_no_dup(ids, i as int, self.next_output_id);
                    assert forall|a: int| 0 <= a < self.outputs@.len() implies (#[trigger] self.outputs@[a]).tags_wf() by {
                        let a2 = if a < i { a } else { a + 1 };
                        assert(self.outputs@[a] == outs[a2]);
                    }
                }
            },
            None => {},
        }
    }

    /// Create a seat with the next id; it becomes the current seat when
    /// there is none.
    pub fn create_seat(&mut self) -> (id: SeatId)
        requires
            old(self).wf(),
            old(self).next_seat_id < usize::MAX,
        ensures
            final(self).wf(),
            create_seat_done(*old(self), *final(self), id),
    {
        let id = self.next_seat_id;
        self.next_seat_id = self.next_seat_id + 1;
        let ghost old_ids = seat_ids(self.seats@);
        self.seats.push(SeatState { id, pointer_x: 0, pointer_y: 0, window_below_pointer: None, last_close_click: None });
        proof {
            assert(seat_ids(self.seats@) == old_ids.push(id));
            lemma_push_fresh(old_ids, id);
        }
        if self.current_seat.is_none() {
            self.current_seat = Some(id);
        }
        id
    }

    /// Remove the seat `id`.  When it was current, the first other seat
    /// becomes current, or none.
    pub fn destroy_seat(&mut self, seat_id: SeatId)
        requires
            old(self).wf(),
        ensures
            final(self).wf(),
            final(self).current_seat == if old(self).current_seat == Some(seat_id) {
                first_other(seat_ids(old(self).seats@), seat_id)
            } else {
                old(self).current_seat
            },
            final(self).seats@ == if old(self).has_seat(seat_id) {
                old(self).seats@.remove(old(self).seat_index(seat_id))
            } else {
                old(self).seats@
            },
            *final(self) == (Context { seats: final(self).seats, current_seat: final(self).current_seat, ..*old(self) }),
    {
        if self.current_seat == Some(seat_id) {
            let mut ids: Vec<usize> = Vec::new();
            let mut k: usize = 0;
            while k < self.seats.len()
                invariant
                    0 <= k <= self.seats@.len(),
                    ids@ == seat_ids(self.seats@).subrange(0, k as int),
                decreases self.seats@.len() - k,
            {
                ids.push(self.seats[k].id);
                assert(seat_ids(self.seats@).subrange(0, k + 1) == seat_ids(self.seats@).subrange(0, k as int).push(self.seats@[k as int].id));
                k = k + 1;
            }
            assert(ids@ == seat_ids(self.seats@));
            let others = remove_all(&ids, seat_id);
            self.current_seat = if others.len() > 0 { Some(others[0]) } else { None };
        }
        match self.find_seat(seat_id) {
            Some(i) => {
                let ghost ids = seat_ids(self.seats@);
                self.seats.remove(i);
                proof {
                    assert(seat_ids(self.seats@) == ids.remove(i as int));
                    lemma_remove_no_dup(ids, i as int, self.next_seat_id);
                }
            },
            None => {},
        }
    }
}


/// Replacing a window by one with the same id keeps the ids.
proof fn lemma_update_keeps_ids(s: Seq<Window>, i: int, w: Window)
    requires
        0 <= i < s.len(),
        w.id == s[i].id,
    ensures
        window_ids(s.update(i, w)) == window_ids(s),
{
    assert(window_ids(s.update(i, w)) =~= window_ids(s));
}

/// Index of the focused window, when it exists.
pub open spec fn focused_index(c: Context) -> Option<int> {
    match c.focused_window {
        Some(id) => if c.has_window(id) {
            Some(c.window_index(id))
        } else {
            None
        },
        None => None,
    }
}

/// The window after the settings of `a` are applied to it.
pub open spec fn with_rules(w: Window, a: AppliedRules) -> Window {
    Window {
        tag: match a.tag {
            Some(t) => t,
            None => w.tag,
        },
        floating: match a.floating {
            Some(f) => f,
            None => w.floating,
        },
        decoration: match a.decoration {
            Some(d) => Some(d),
            None => w.decoration,
        },
        is_terminal: match a.is_terminal {
            Some(t) => t,
            None => w.is_terminal,
        },
        disable_swallow: match a.disable_swallow {
            Some(d) => d,
            None => w.disable_swallow,
        },
        scroller_mfact: match a.scroller_mfact {
            Some(m) => Some(m),
            None => w.scroller_mfact,
        },
        ..w
    }
}

/// The usable area of the current output, when it exists.
pub open spec fn current_area(c: Context) -> Option<(i32, i32, i32, i32)> {
    match c.current_output {
        Some(o) => if c.has_output(o) {
            Some(usable(c.output(o)))
        } else {
            None
        },
        None => None,
    }
}

/// Index of the focused window when it exists and floats.
pub open spec fn focused_floating(c: Context) -> Option<int> {
    match focused_index(c) {
        Some(i) => if c.windows@[i].floating {
            Some(i)
        } else {
            None
        },
        None => None,
    }
}

/// The snap of `w` to `edge` of `area` is computed within `i32`.
pub open spec fn snap_fits(edge: Edge, area: (i32, i32, i32, i32), w: Window) -> bool {
    match edge {
        Edge::Right => i32::MIN <= area.0 + area.2 <= i32::MAX && i32::MIN <= area.0 + area.2 - w.width <= i32::MAX,
        Edge::Bottom => i32::MIN <= area.1 + area.3 <= i32::MAX && i32::MIN <= area.1 + area.3 - w.height <= i32::MAX,
        _ => true,
    }
}

/// Where a snap to `edge` of the area `(ax, ay, aw, ah)` puts a window.
pub open spec fn snap_target(edge: Edge, area: (i32, i32, i32, i32), w: Window) -> (int, int) {
    match edge {
        Edge::Left => (area.0 as int, w.y as int),
        Edge::Right => (area.0 + area.2 - w.width, w.y as int),
        Edge::Top => (w.x as int, area.1 as int),
        Edge::Bottom => (w.x as int, area.1 + area.3 - w.height),
    }
}

/// The usable area of an output.
pub open spec fn usable(o: Output) -> (i32, i32, i32, i32) {
    if o.exclusive_width > 0 && o.exclusive_height > 0 {
        (o.exclusive_x, o.exclusive_y, o.exclusive_width, o.exclusive_height)
    } else {
        (o.x, o.y, o.width, o.height)
    }
}

/// Give `window` the settings of `applied`.
fn set_rule_fields(window: &mut Window, applied: AppliedRules)
    ensures
        *final(window) == with_rules(*old(window), applied),
{
    let tag = match applied.tag {
        Some(t) => t,
        None => window.tag,
    };
    let floating = match applied.floating {
        Some(f) => f,
        None => window.floating,
    };
    let decoration = match applied.decoration {
        Some(d) => Some(d),
        None => window.decoration,
    };
    let is_terminal = match applied.is_terminal {
        Some(t) => t,
        None => window.is_terminal,
    };
    let disable_swallow = match applied.disable_swallow {
        Some(d) => d,
        None => window.disable_swallow,
    };
    let scroller_mfact = match applied.scroller_mfact {
        Some(m) => Some(m),
        None => window.scroller_mfact,
    };
    window.tag = tag;
    window.floating = floating;
    window.decoration = decoration;
    window.is_terminal = is_terminal;
    window.disable_swallow = disable_swallow;
    window.scroller_mfact = scroller_mfact;
}

impl Context {
    /// Take the window at index `i` out, keeping its place.
    fn take_window(&mut self, i: usize) -> (w: Window)
        requires
            i < old(self).windows@.len(),
        ensures
            w == old(self).windows@[i as int],
            final(self).windows@ == old(self).windows@.remove(i as int),
            *final(self) == (Context { windows: final(self).windows, ..*old(self) }),
    {
        self.windows.remove(i)
    }

    /// Put a window with the id of the one taken out back in its place.
    fn put_window(&mut self, i: usize, w: Window, Ghost(before): Ghost<Context>)
        requires
            before.wf(),
            i < before.windows@.len(),
            old(self).windows@ == before.windows@.remove(i as int),
            *old(self) == (Context { windows: old(self).windows, ..before }),
            w.id == before.windows@[i as int].id,
        ensures
            final(self).wf(),
            final(self).windows@ == before.windows@.update(i as int, w),
            *final(self) == (Context { windows: final(self).windows, ..before }),
    {
        self.windows.insert(i, w);
        proof {
            lemma_remove_insert(before.windows@, i as int, w);
            lemma_update_keeps_ids(before.windows@, i as int, w);
        }
    }

    /// Apply the window rules to `window` by its app id and title.
    pub fn apply_rules_to_window(&self, window: &mut Window)
        ensures
            *final(window) == with_rules(
                *old(window),
                spec_apply_rules(self.rules@, opt_string_view(old(window).app_id), opt_string_view(old(window).title)),
            ),
    {
        let app_id: Option<&str> = match &window.app_id {
            Some(a) => Some(a.as_str()),
            None => None,
        };
        let title: Option<&str> = match &window.title {
            Some(t) => Some(t.as_str()),
            None => None,
        };
        let applied = apply_rules(self.rules.as_slice(), app_id, title);
        set_rule_fields(window, applied);
    }

    /// Hide (minimize) the window `id`.
    pub fn hide_window(&mut self, window_id: WindowId) -> (cmds: Vec<Command>)
        requires
            old(self).wf(),
        ensures
            final(self).wf(),
            hide_window_done(*old(self), *final(self), cmds@, window_id),
    {
        let mut cmds: Vec<Command> = Vec::new();
        if let Some(i) = self.find_window(window_id) {
            let ghost before = *self;
            let mut w = self.take_window(i);
            let reqs = w.make_hidden();
            self.put_window(i, w, Ghost(before));
            push_requests(&mut cmds, window_id, reqs);
        }
        cmds
    }

    /// Make the focused window floating if it tiles, tiling if it floats.
    pub fn toggle_floating(&mut self)
        requires
            old(self).wf(),
        ensures
            final(self).wf(),
            toggle_floating_done(*old(self), *final(self)),
    {
        if let Some(window_id) = self.focused_window {
            if let Some(i) = self.find_window(window_id) {
                let ghost before = *self;
                let mut w = self.take_window(i);
                w.floating = !w.floating;
                self.put_window(i, w, Ghost(before));
            }
        }
    }

    /// Turn swallowing off for the focused window if it is on, on if off.
    pub fn toggle_swallow(&mut self)
        requires
            old(self).wf(),
        ensures
            final(self).wf(),
            toggle_swallow_done(*old(self), *final(self)),
    {
        if let Some(window_id) = self.focused_window {
            if let Some(i) = self.find_window(window_id) {
                let ghost before = *self;
                let mut w = self.take_window(i);
                w.disable_swallow = !w.disable_swallow;
                self.put_window(i, w, Ghost(before));
            }
        }
    }

    /// Move the focused window by `(dx, dy)` when it floats.
    pub fn move_focused_window(&mut self, dx: i32, dy: i32) -> (cmds: Vec<Command>)
        requires
            old(self).wf(),
            focused_index(*old(self)) matches Some(i) ==> {
                let w = old(self).windows@[i];
                w.floating ==> i32::MIN <= w.x + dx <= i32::MAX && i32::MIN <= w.y + dy <= i32::MAX
            },
        ensures
            final(self).wf(),
            move_focused_window_done(*old(self), *final(self), cmds@, dx, dy),
    {
        let mut cmds: Vec<Command> = Vec::new();
        if let Some(window_id) = self.focused_window {
            if let Some(i) = self.find_window(window_id) {
                if self.windows[i].floating {
                    let ghost before = *self;
                    let mut w = self.take_window(i);
                    let new_x = w.x + dx;
                    let new_y = w.y + dy;
                    let reqs = w.set_position(new_x, new_y);
                    self.put_window(i, w, Ghost(before));
                    push_requests(&mut cmds, window_id, reqs);
                }
            }
        }
        cmds
    }

    /// Resize the focused window by `(dw, dh)` when it floats, never below
    /// its minimum size.
    pub fn resize_focused_window(&mut self, dw: i32, dh: i32) -> (cmds: Vec<Command>)
        requires
            old(self).wf(),
            focused_index(*old(self)) matches Some(i) ==> {
                let w = old(self).windows@[i];
                w.floating ==> i32::MIN <= w.width + dw <= i32::MAX && i32::MIN <= w.height + dh <= i32::MAX
            },
        ensures
            final(self).wf(),
            resize_focused_window_done(*old(self), *final(self), cmds@, dw, dh),
    {
        let mut cmds: Vec<Command> = Vec::new();
        if let Some(window_id) = self.focused_window {
            if let Some(i) = self.find_window(window_id) {
                if self.windows[i].floating {
                    let ghost before = *self;
                    let mut w = self.take_window(i);
                    let grown_w = w.width + dw;
                    let grown_h = w.height + dh;
                    let new_width = if grown_w >= w.min_width { grown_w } else { w.min_width };
                    let new_height = if grown_h >= w.min_height { grown_h } else { w.min_height };
                    let reqs = w.propose_dimensions(new_width, new_height);
                    self.put_window(i, w, Ghost(before));
                    push_requests(&mut cmds, window_id, reqs);
                }
            }
        }
        cmds
    }

    /// Index of the current output, if it exists.
    fn current_output_index(&self) -> (r: Option<usize>)
        requires
            self.wf(),
        ensures
            r matches Some(i) ==> self.current_output is Some && self.has_output(self.current_output->0) && i
                == self.output_index(self.current_output->0) && i < self.outputs@.len() && self.outputs@[i as int].id
                == self.current_output->0,
            r.is_none() ==> !(self.current_output is Some && self.has_output(self.current_output->0)),
    {
        match self.current_output {
            Some(id) => self.find_output(id),
            None => None,
        }
    }

    /// Snap the focused floating window to an edge of the current output's
    /// usable area.
    pub fn snap_focused_window(&mut self, edge: Edge) -> (cmds: Vec<Command>)
        requires
            old(self).wf(),
            current_area(*old(self)) matches Some(a) ==> (focused_floating(*old(self)) matches Some(i) ==> snap_fits(
                edge,
                a,
                old(self).windows@[i],
            )),
        ensures
            final(self).wf(),
            snap_focused_window_done(*old(self), *final(self), cmds@, edge),
    {
        let mut cmds: Vec<Command> = Vec::new();
        let oi = match self.current_output_index() {
            Some(oi) => oi,
            None => return cmds,
        };
        let (ox, oy, ow, oh) = self.outputs[oi].usable_area();
        if let Some(window_id) = self.focused_window {
            if let Some(i) = self.find_window(window_id) {
                if self.windows[i].floating {
                    let ghost before = *self;
                    let mut w = self.take_window(i);
                    let (new_x, new_y) = match edge {
                        Edge::Left => (ox, w.y),
                        Edge::Right => (ox + ow - w.width, w.y),
                        Edge::Top => (w.x, oy),
                        Edge::Bottom => (w.x, oy + oh - w.height),
                    };
                    let reqs = w.set_position(new_x, new_y);
                    self.put_window(i, w, Ghost(before));
                    push_requests(&mut cmds, window_id, reqs);
                }
            }
        }
        cmds
    }

    /// The state handed to custom actions: the current output's tags (1
    /// without one) and the focused window's tags.
    pub fn get_state(&self) -> (r: State)
        requires
            self.wf(),
        ensures
            r.output_tag == if self.current_output is Some && self.has_output(self.current_output->0) {
                self.output(self.current_output->0).tag
            } else {
                1
            },
            r.focused_window_tag == match focused_index(*self) {
                Some(i) => Some(self.windows@[i].tag),
                None => None,
            },
    {
        let output_tag = match self.current_output_index() {
            Some(i) => self.outputs[i].tag,
            None => 1,
        };
        let focused_window_tag = match self.focused_window {
            Some(id) => match self.find_window(id) {
                Some(i) => Some(self.windows[i].tag),
                None => None,
            },
            None => None,
        };
        State { output_tag, focused_window_tag }
    }

    /// Arrange the windows of an output: windows keep the positions they
    /// have in a stacking window manager, so nothing changes.
    pub fn arrange_output(&mut self, _output_id: OutputId)
        ensures
            *final(self) == *old(self),
    {
    }
}


/// Index of the first occurrence of `x` in `s`.
pub open spec fn index_in(s: Seq<usize>, x: usize) -> Option<int> {
    if s.contains(x) {
        Some(choose|i: int| 0 <= i < s.len() && s[i] == x && forall|j: int| 0 <= j < i ==> s[j] != x)
    } else {
        None
    }
}

/// Index of `x` in `s`, or 0 when `x` is absent or not given.
pub open spec fn index_or_zero(s: Seq<usize>, x: Option<usize>) -> int {
    match x {
        Some(v) => match index_in(s, v) {
            Some(i) => i,
            None => 0,
        },
        None => 0,
    }
}

/// The index after (or before) `cur` among `len` entries, wrapping around.
pub open spec fn step(len: int, cur: int, direction: Direction) -> int {
    match direction {
        Direction::Forward => (cur + 1) % len,
        Direction::Reverse => if cur == 0 {
            len - 1
        } else {
            cur - 1
        },
    }
}

/// Whether the window shows on the output `oid` showing the tags `otag`.
pub open spec fn visible_on(w: Window, oid: OutputId, otag: u32) -> bool {
    !w.hidden && (w.output matches Some(o) ==> o == oid) && w.tag & otag != 0
}

/// Ids of the windows shown on the output, in window order; floating
/// windows left out when `skip_floating`.
pub open spec fn visible_ids(ws: Seq<Window>, oid: OutputId, otag: u32, skip_floating: bool) -> Seq<usize>
    decreases ws.len(),
{
    if ws.len() == 0 {
        seq![]
    } else {
        let rest = visible_ids(ws.drop_last(), oid, otag, skip_floating);
        let w = ws.last();
        if visible_on(w, oid, otag) && (!skip_floating || !w.floating) {
            rest.push(w.id)
        } else {
            rest
        }
    }
}

/// Whether the window's application id is `app`.
pub open spec fn has_app(w: Window, app: Seq<char>) -> bool {
    w.app_id matches Some(a) && a@ == app
}

/// Ids of the windows shown on the output whose application id is `app`,
/// in window order.
pub open spec fn same_app_ids(ws: Seq<Window>, oid: OutputId, otag: u32, app: Seq<char>) -> Seq<usize>
    decreases ws.len(),
{
    if ws.len() == 0 {
        seq![]
    } else {
        let rest = same_app_ids(ws.drop_last(), oid, otag, app);
        let w = ws.last();
        if visible_on(w, oid, otag) && has_app(w, app) {
            rest.push(w.id)
        } else {
            rest
        }
    }
}

/// Ids of the tiled windows shown on the output, in window order.
pub open spec fn tiled_ids(ws: Seq<Window>, oid: OutputId, otag: u32) -> Seq<usize>
    decreases ws.len(),
{
    if ws.len() == 0 {
        seq![]
    } else {
        let rest = tiled_ids(ws.drop_last(), oid, otag);
        let w = ws.last();
        if visible_on(w, oid, otag) && !w.floating && w.fullscreen == FullscreenState::Off {
            rest.push(w.id)
        } else {
            rest
        }
    }
}

/// The elements of `s` that occur in `t`, in the order of `s`.
pub open spec fn kept_in(s: Seq<usize>, t: Seq<usize>) -> Seq<usize>
    decreases s.len(),
{
    if s.len() == 0 {
        seq![]
    } else {
        let rest = kept_in(s.drop_last(), t);
        if t.contains(s.last()) {
            rest.push(s.last())
        } else {
            rest
        }
    }
}

/// The elements of `t` that do not occur in `s`, in the order of `t`.
pub open spec fn missing_from(t: Seq<usize>, s: Seq<usize>) -> Seq<usize>
    decreases t.len(),
{
    if t.len() == 0 {
        seq![]
    } else {
        let rest = missing_from(t.drop_last(), s);
        if s.contains(t.last()) {
            rest
        } else {
            rest.push(t.last())
        }
    }
}

/// `tiled` ordered by place on the focus stack `stack`; those not on it
/// come last, in their own order.
pub open spec fn by_stack_order(tiled: Seq<usize>, stack: Seq<usize>) -> Seq<usize> {
    kept_in(stack, tiled) + missing_from(tiled, stack)
}

/// Index of the first occurrence of `x` in `v`.
fn position_of(v: &Vec<usize>, x: usize) -> (r: Option<usize>)
    ensures
        match r {
            Some(i) => index_in(v@, x) == Some(i as int) && i < v@.len() && v@[i as int] == x,
            None => index_in(v@, x).is_none(),
        },
{
    let mut i: usize = 0;
    while i < v.len()
        invariant
            0 <= i <= v@.len(),
            forall|j: int| 0 <= j < i ==> v@[j] != x,
        decreases v@.len() - i,
    {
        if v[i] == x {
            proof {
                assert(v@.contains(x));
                let k = choose|k: int| 0 <= k < v@.len() && v@[k] == x && forall|j: int| 0 <= j < k ==> v@[j] != x;
                assert(0 <= k < v@.len() && v@[k] == x && forall|j: int| 0 <= j < k ==> v@[j] != x);
                if k < i {
                    assert(v@[k] != x);
                } else if i < k {
                    assert(v@[i as int] != x);
                }
            }
            return Some(i);
        }
        i = i + 1;
    }
    proof {
        if v@.contains(x) {
            let k = choose|k: int| 0 <= k < v@.len() && v@[k] == x;
            assert(v@[k] != x);
        }
    }
    None
}

/// The index after (or before) `cur` among `len` entries, wrapping around.
fn step_index(len: usize, cur: usize, direction: Direction) -> (r: usize)
    requires
        cur < len,
    ensures
        r == step(len as int, cur as int, direction),
        r < len,
{
    match direction {
        Direction::Forward => (cur + 1) % len,
        Direction::Reverse => if cur == 0 {
            len - 1
        } else {
            cur - 1
        },
    }
}

impl Context {
    /// Ids of the outputs, in order.
    fn output_id_list(&self) -> (r: Vec<usize>)
        ensures
            r@ == output_ids(self.outputs@),
    {
        let mut ids: Vec<usize> = Vec::new();
        let mut k: usize = 0;
        while k < self.outputs.len()
            invariant
                0 <= k <= self.outputs@.len(),
                ids@ == output_ids(self.outputs@).subrange(0, k as int),
            decreases self.outputs@.len() - k,
        {
            ids.push(self.outputs[k].id);
            assert(output_ids(self.outputs@).subrange(0, k + 1) == output_ids(self.outputs@).subrange(0, k as int).push(
                self.outputs@[k as int].id,
            ));
            k = k + 1;
        }
        assert(ids@ == output_ids(self.outputs@));
        ids
    }

    /// Ids of the windows shown on the output `oid` with tags `otag`.
    fn visible_window_ids(&self, oid: OutputId, otag: u32, skip_floating: bool) -> (r: Vec<usize>)
        ensures
            r@ == visible_ids(self.windows@, oid, otag, skip_floating),
    {
        let mut ids: Vec<usize> = Vec::new();
        let mut k: usize = 0;
        while k < self.windows.len()
            invariant
                0 <= k <= self.windows@.len(),
                ids@ == visible_ids(self.windows@.subrange(0, k as int), oid, otag, skip_floating),
            decreases self.windows@.len() - k,
        {
            proof {
                assert(self.windows@.subrange(0, k + 1).drop_last() == self.windows@.subrange(0, k as int));
                assert(self.windows@.subrange(0, k + 1).last() == self.windows@[k as int]);
            }
            let w = &self.windows[k];
            if w.is_visible_on(oid, otag) && (!skip_floating || !w.floating) {
                ids.push(w.id);
            }
            k = k + 1;
        }
        assert(self.windows@.subrange(0, self.windows@.len() as int) == self.windows@);
        ids
    }

    /// Ids of the windows shown on the output `oid` with tags `otag` whose
    /// application id is `app`.
    fn same_app_window_ids(&self, oid: OutputId, otag: u32, app: &String) -> (r: Vec<usize>)
        ensures
            r@ == same_app_ids(self.windows@, oid, otag, app@),
    {
        let mut ids: Vec<usize> = Vec::new();
        let mut k: usize = 0;
        while k < self.windows.len()
            invariant
                0 <= k <= self.windows@.len(),
                ids@ == same_app_ids(self.windows@.subrange(0, k as int), oid, otag, app@),
            decreases self.windows@.len() - k,
        {
            proof {
                assert(self.windows@.subrange(0, k + 1).drop_last() == self.windows@.subrange(0, k as int));
                assert(self.windows@.subrange(0, k + 1).last() == self.windows@[k as int]);
            }
            let w = &self.windows[k];
            let same = match &w.app_id {
                Some(a) => same_text(a, app),
                None => false,
            };
            if w.is_visible_on(oid, otag) && same {
                ids.push(w.id);
            }
            k = k + 1;
        }
        assert(self.windows@.subrange(0, self.windows@.len() as int) == self.windows@);
        ids
    }

    /// Ids of the tiled windows shown on the output `oid` with tags `otag`.
    fn tiled_window_ids(&self, oid: OutputId, otag: u32) -> (r: Vec<usize>)
        ensures
            r@ == tiled_ids(self.windows@, oid, otag),
    {
        let mut ids: Vec<usize> = Vec::new();
        let mut k: usize = 0;
        while k < self.windows.len()
            invariant
                0 <= k <= self.windows@.len(),
                ids@ == tiled_ids(self.windows@.subrange(0, k as int), oid, otag),
            decreases self.windows@.len() - k,
        {
            proof {
                assert(self.windows@.subrange(0, k + 1).drop_last() == self.windows@.subrange(0, k as int));
                assert(self.windows@.subrange(0, k + 1).last() == self.windows@[k as int]);
            }
            let w = &self.windows[k];
            if w.is_visible_on(oid, otag) && w.is_tiled() {
                ids.push(w.id);
            }
            k = k + 1;
        }
        assert(self.windows@.subrange(0, self.windows@.len() as int) == self.windows@);
        ids
    }
}


/// The ids listed by `visible_ids` are ids of windows.
proof fn lemma_visible_bounded(ws: Seq<Window>, oid: OutputId, otag: u32, skip: bool, bound: usize)
    requires
        forall|j: int| 0 <= j < ws.len() ==> (#[trigger] ws[j]).id < bound,
    ensures
        forall|k: int| 0 <= k < visible_ids(ws, oid, otag, skip).len() ==> visible_ids(ws, oid, otag, skip)[k] < bound,
    decreases ws.len(),
{
    if ws.len() > 0 {
        assert forall|j: int| 0 <= j < ws.drop_last().len() implies (#[trigger] ws.drop_last()[j]).id < bound by {
            assert(ws.drop_last()[j] == ws[j]);
        }
        lemma_visible_bounded(ws.drop_last(), oid, otag, skip, bound);
        assert(ws.last() == ws[ws.len() - 1]);
        let v = visible_ids(ws, oid, otag, skip);
        let rest = visible_ids(ws.drop_last(), oid, otag, skip);
        assert forall|k: int| 0 <= k < v.len() implies v[k] < bound by {
            if k < rest.len() {
                assert(v[k] == rest[k]);
            }
        }
    }
}

/// Each id that `same_app_ids` lists is that of a window of `ws` shown on
/// the output whose application id is `app`.
proof fn lemma_same_app_members(ws: Seq<Window>, oid: OutputId, otag: u32, app: Seq<char>)
    ensures
        forall|k: int|
            #![trigger same_app_ids(ws, oid, otag, app)[k]]
            0 <= k < same_app_ids(ws, oid, otag, app).len() ==> exists|j: int|
                0 <= j < ws.len() && (#[trigger] ws[j]).id == same_app_ids(ws, oid, otag, app)[k] && visible_on(
                    ws[j],
                    oid,
                    otag,
                ) && has_app(ws[j], app),
    decreases ws.len(),
{
    if ws.len() > 0 {
        let ws1 = ws.drop_last();
        lemma_same_app_members(ws1, oid, otag, app);
        let v = same_app_ids(ws, oid, otag, app);
        let rest = same_app_ids(ws1, oid, otag, app);
        assert forall|k: int| #![trigger v[k]] 0 <= k < v.len() implies exists|j: int|
            0 <= j < ws.len() && (#[trigger] ws[j]).id == v[k] && visible_on(ws[j], oid, otag) && has_app(ws[j], app) by {
            if k < rest.len() {
                assert(v[k] == rest[k]);
                let j = choose|j: int|
                    0 <= j < ws1.len() && (#[trigger] ws1[j]).id == rest[k] && visible_on(ws1[j], oid, otag) && has_app(
                        ws1[j],
                        app,
                    );
                assert(ws1[j] == ws[j]);
            } else {
                assert(ws[ws.len() - 1] == ws.last());
            }
        }
    }
}

/// The ids listed by `same_app_ids` are below any bound on the window ids.
proof fn lemma_same_app_bounded(ws: Seq<Window>, oid: OutputId, otag: u32, app: Seq<char>, bound: usize)
    requires
        forall|j: int| 0 <= j < ws.len() ==> (#[trigger] ws[j]).id < bound,
    ensures
        forall|k: int| 0 <= k < same_app_ids(ws, oid, otag, app).len() ==> same_app_ids(ws, oid, otag, app)[k] < bound,
    decreases ws.len(),
{
    if ws.len() > 0 {
        assert forall|j: int| 0 <= j < ws.drop_last().len() implies (#[trigger] ws.drop_last()[j]).id < bound by {
            assert(ws.drop_last()[j] == ws[j]);
        }
        lemma_same_app_bounded(ws.drop_last(), oid, otag, app, bound);
        assert(ws.last() == ws[ws.len() - 1]);
        let v = same_app_ids(ws, oid, otag, app);
        let rest = same_app_ids(ws.drop_last(), oid, otag, app);
        assert forall|k: int| 0 <= k < v.len() implies v[k] < bound by {
            if k < rest.len() {
                assert(v[k] == rest[k]);
            }
        }
    }
}

/// The ids listed by `tiled_ids` are ids of windows, each once.
proof fn lemma_tiled_bounded(ws: Seq<Window>, oid: OutputId, otag: u32, bound: usize)
    requires
        forall|j: int| 0 <= j < ws.len() ==> (#[trigger] ws[j]).id < bound,
    ensures
        forall|k: int| 0 <= k < tiled_ids(ws, oid, otag).len() ==> tiled_ids(ws, oid, otag)[k] < bound,
    decreases ws.len(),
{
    if ws.len() > 0 {
        assert forall|j: int| 0 <= j < ws.drop_last().len() implies (#[trigger] ws.drop_last()[j]).id < bound by {
            assert(ws.drop_last()[j] == ws[j]);
        }
        lemma_tiled_bounded(ws.drop_last(), oid, otag, bound);
        assert(ws.last() == ws[ws.len() - 1]);
        let v = tiled_ids(ws, oid, otag);
        let rest = tiled_ids(ws.drop_last(), oid, otag);
        assert forall|k: int| 0 <= k < v.len() implies v[k] < bound by {
            if k < rest.len() {
                assert(v[k] == rest[k]);
            }
        }
    }
}

proof fn lemma_window_ids_bounded(c: Context)
    requires
        c.wf(),
    ensures
        forall|j: int| 0 <= j < c.windows@.len() ==> (#[trigger] c.windows@[j]).id < c.next_window_id,
{
    assert forall|j: int| 0 <= j < c.windows@.len() implies (#[trigger] c.windows@[j]).id < c.next_window_id by {
        assert(window_ids(c.windows@)[j] == c.windows@[j].id);
    }
}

/// The current output, when it exists.
pub open spec fn current_output_of(c: Context) -> Option<Output> {
    match c.current_output {
        Some(o) => if c.has_output(o) {
            Some(c.output(o))
        } else {
            None
        },
        None => None,
    }
}

/// The window that `focus_iter` focuses: the next (or previous) window
/// shown on the current output after the focused one.
pub open spec fn focus_iter_target(c: Context, direction: Direction, skip_floating: bool) -> Option<usize> {
    match current_output_of(c) {
        Some(o) => {
            let v = visible_ids(c.windows@, o.id, o.tag, skip_floating);
            if v.len() == 0 {
                None
            } else {
                Some(v[step(v.len() as int, index_or_zero(v, c.focused_window), direction)])
            }
        },
        None => None,
    }
}

/// The window that `focus_same_app` focuses: the next window shown on the
/// current output whose application id is that of the focused window.
pub open spec fn same_app_target(c: Context) -> Option<usize> {
    match (focused_index(c), current_output_of(c)) {
        (Some(i), Some(o)) => match c.windows@[i].app_id {
            Some(a) => {
                let v = same_app_ids(c.windows@, o.id, o.tag, a@);
                if v.len() == 0 {
                    None
                } else {
                    Some(v[step(v.len() as int, index_or_zero(v, c.focused_window), Direction::Forward)])
                }
            },
            None => None,
        },
        _ => None,
    }
}

/// Index of the output that `focus_output_iter` and `send_to_output` move
/// to: the next (or previous) output after the current one, when there
/// are at least two.
pub open spec fn output_iter_index(c: Context, direction: Direction) -> Option<int> {
    let ids = output_ids(c.outputs@);
    if ids.len() <= 1 {
        None
    } else {
        Some(step(ids.len() as int, index_or_zero(ids, c.current_output), direction))
    }
}

impl Context {
    /// Index of the output after (or before) the current one, when there
    /// are at least two outputs.
    fn output_step(&self, direction: Direction) -> (r: Option<usize>)
        requires
            self.wf(),
        ensures
            match r {
                Some(k) => output_iter_index(*self, direction) == Some(k as int) && k < self.outputs@.len(),
                None => output_iter_index(*self, direction).is_none(),
            },
    {
        let ids = self.output_id_list();
        if ids.len() <= 1 {
            return None;
        }
        let cur = match self.current_output {
            Some(c) => match position_of(&ids, c) {
                Some(i) => i,
                None => 0,
            },
            None => 0,
        };
        Some(step_index(ids.len(), cur, direction))
    }

    /// Focus the next (or previous) window shown on the current output,
    /// floating windows left out when `skip_floating`.
    pub fn focus_iter(&mut self, direction: Direction, skip_floating: bool) -> (cmds: Vec<Command>)
        requires
            old(self).wf(),
        ensures
            final(self).wf(),
            focus_iter_done(*old(self), *final(self), cmds@, direction, skip_floating),
    {
        let oi = match self.current_output_index() {
            Some(i) => i,
            None => return Vec::new(),
        };
        let oid = self.outputs[oi].id;
        let otag = self.outputs[oi].tag;
        let visible = self.visible_window_ids(oid, otag, skip_floating);
        if visible.len() == 0 {
            return Vec::new();
        }
        let cur = match self.focused_window {
            Some(f) => match position_of(&visible, f) {
                Some(i) => i,
                None => 0,
            },
            None => 0,
        };
        let next = step_index(visible.len(), cur, direction);
        proof {
            lemma_window_ids_bounded(*self);
            lemma_visible_bounded(self.windows@, oid, otag, skip_floating, self.next_window_id);
        }
        self.focus(visible[next])
    }

    /// Make the next (or previous) output current, and focus the first
    /// window shown on it.
    pub fn focus_output_iter(&mut self, direction: Direction) -> (cmds: Vec<Command>)
        requires
            old(self).wf(),
        ensures
            final(self).wf(),
            focus_output_iter_done(*old(self), *final(self), cmds@, direction),
    {
        let ids = self.output_id_list();
        if ids.len() <= 1 {
            return Vec::new();
        }
        let cur = match self.current_output {
            Some(c) => match position_of(&ids, c) {
                Some(i) => i,
                None => 0,
            },
            None => 0,
        };
        let next = step_index(ids.len(), cur, direction);
        assert(ids@[next as int] == self.outputs@[next as int].id);
        self.current_output = Some(ids[next]);
        let oid = self.outputs[next].id;
        let otag = self.outputs[next].tag;
        let visible = self.visible_window_ids(oid, otag, false);
        if visible.len() > 0 {
            proof {
                lemma_window_ids_bounded(*self);
                lemma_visible_bounded(self.windows@, oid, otag, false, self.next_window_id);
            }
            self.focus(visible[0])
        } else {
            Vec::new()
        }
    }

    /// Move the focused window to the next (or previous) output, onto that
    /// output's main tag.
    pub fn send_to_output(&mut self, direction: Direction)
        requires
            old(self).wf(),
        ensures
            final(self).wf(),
            send_to_output_done(*old(self), *final(self), direction),
    {
        let window_id = match self.focused_window {
            Some(id) => id,
            None => return,
        };
        let next = match self.output_step(direction) {
            Some(k) => k,
            None => return,
        };
        let target_id = self.outputs[next].id;
        let target_tag = self.outputs[next].main_tag;
        if let Some(i) = self.find_window(window_id) {
            let ghost before = *self;
            let mut w = self.take_window(i);
            w.output = Some(target_id);
            w.tag = target_tag;
            self.put_window(i, w, Ghost(before));
        }
    }
}


/// Where `swap_windows` swaps on the focus stack: the places of the
/// focused window and of the tiled window after (or before) it, the tiled
/// windows of the current output being taken in focus stack order.
pub open spec fn swap_positions(c: Context, direction: Direction) -> Option<(int, int)> {
    match (current_output_of(c), c.focused_window) {
        (Some(o), Some(fid)) => {
            let tiled = tiled_ids(c.windows@, o.id, o.tag);
            if tiled.len() <= 1 {
                None
            } else {
                let sorted = by_stack_order(tiled, c.focus_stack@);
                match index_in(sorted, fid) {
                    Some(fi) => {
                        let other = sorted[step(sorted.len() as int, fi, direction)];
                        match (index_in(c.focus_stack@, fid), index_in(c.focus_stack@, other)) {
                            (Some(a), Some(b)) => Some((a, b)),
                            _ => None,
                        }
                    },
                    None => None,
                }
            }
        },
        _ => None,
    }
}

/// `s` with the elements at `a` and `b` exchanged.
pub open spec fn swapped(s: Seq<usize>, a: int, b: int) -> Seq<usize> {
    s.update(a, s[b]).update(b, s[a])
}

/// Exchanging two elements keeps the elements, their number, and the
/// absence of duplicates.
pub proof fn lemma_swap_permutes(s: Seq<usize>, a: int, b: int, x: usize)
    requires
        0 <= a < s.len(),
        0 <= b < s.len(),
    ensures
        swapped(s, a, b).len() == s.len(),
        swapped(s, a, b).contains(x) <==> s.contains(x),
        no_dup(s) ==> no_dup(swapped(s, a, b)),
{
    let t = swapped(s, a, b);
    let perm = |i: int| if i == a { b } else if i == b { a } else { i };
    assert forall|i: int| 0 <= i < s.len() implies t[i] == s[perm(i)] by {}
    if t.contains(x) {
        let i = choose|i: int| 0 <= i < t.len() && t[i] == x;
        assert(s[perm(i)] == x);
    }
    if s.contains(x) {
        let i = choose|i: int| 0 <= i < s.len() && s[i] == x;
        assert(t[perm(i)] == x);
    }
    if no_dup(s) {
        assert forall|i: int, j: int| 0 <= i < t.len() && 0 <= j < t.len() && i != j implies t[i] != t[j] by {
            assert(t[i] == s[perm(i)] && t[j] == s[perm(j)]);
        }
    }
}

/// Exchanging two elements keeps every element below a bound.
proof fn lemma_swap_bounded(s: Seq<usize>, a: int, b: int, bound: usize)
    requires
        0 <= a < s.len(),
        0 <= b < s.len(),
        forall|i: int| 0 <= i < s.len() ==> s[i] < bound,
    ensures
        forall|i: int| 0 <= i < swapped(s, a, b).len() ==> swapped(s, a, b)[i] < bound,
{
}

/// The output a window is maximized on: its own when that exists, else the
/// current one.
pub open spec fn maximize_output(c: Context, id: WindowId) -> Option<Output> {
    if c.has_window(id) && c.window(id).output is Some && c.has_output(c.window(id).output->0) {
        Some(c.output(c.window(id).output->0))
    } else {
        current_output_of(c)
    }
}

/// The content geometry of a window maximized on the area, inside its
/// frame: `(x, y, width, height)`.
pub open spec fn maximized_geometry(area: (i32, i32, i32, i32), border: int, tbh: int) -> (int, int, int, int) {
    (
        area.0 + border,
        area.1 + border + tbh,
        crate::arith::max_int(area.2 - border * 2, 1),
        crate::arith::max_int(area.3 - border * 2 - tbh, 1),
    )
}

pub open spec fn maximize_fits(area: (i32, i32, i32, i32), border: int, tbh: int) -> bool {
    &&& crate::arith::fits_i32(border * 2)
    &&& crate::arith::fits_i32(area.2 - border * 2)
    &&& crate::arith::fits_i32(area.3 - border * 2)
    &&& crate::arith::fits_i32(area.3 - border * 2 - tbh)
    &&& crate::arith::fits_i32(area.0 + border)
    &&& crate::arith::fits_i32(area.1 + border)
    &&& crate::arith::fits_i32(area.1 + border + tbh)
}

/// Where a window snapped to `side` of the area starts, and how wide that
/// half is: the left half takes the smaller share of an odd width.
pub open spec fn half_span(area: (i32, i32, i32, i32), side: Side) -> (int, int) {
    let half: int = if area.2 > 0 { area.2 / 2 } else { 0 };
    match side {
        Side::Left => (area.0 as int, half),
        Side::Right => (area.0 + half, area.2 - half),
    }
}

/// The content geometry of a window snapped to `side` of the area, inside
/// its frame: `(x, y, width, height)`.
pub open spec fn half_geometry(area: (i32, i32, i32, i32), side: Side, border: int, tbh: int) -> (int, int, int, int) {
    let (x0, w0) = half_span(area, side);
    (
        x0 + border,
        area.1 + border + tbh,
        crate::arith::max_int(w0 - border * 2, 1),
        crate::arith::max_int(area.3 - border * 2 - tbh, 1),
    )
}

/// The arithmetic of `half_geometry` stays within `i32`.
pub open spec fn half_fits(area: (i32, i32, i32, i32), side: Side, border: int, tbh: int) -> bool {
    let (x0, w0) = half_span(area, side);
    &&& crate::arith::fits_i32(x0)
    &&& crate::arith::fits_i32(w0)
    &&& crate::arith::fits_i32(border * 2)
    &&& crate::arith::fits_i32(w0 - border * 2)
    &&& crate::arith::fits_i32(x0 + border)
    &&& crate::arith::fits_i32(area.3 - border * 2)
    &&& crate::arith::fits_i32(area.3 - border * 2 - tbh)
    &&& crate::arith::fits_i32(area.1 + border)
    &&& crate::arith::fits_i32(area.1 + border + tbh)
}

/// Snapping the focused window to `side` of the current output stays
/// within `i32`.
pub open spec fn snap_half_ok(c: Context, side: Side) -> bool {
    match (focused_index(c), current_output_of(c)) {
        (Some(i), Some(o)) => half_fits(usable(o), side, c.border_width as int, c.titlebar_height as int),
        _ => true,
    }
}

/// The side opposite `side`.
pub open spec fn other_side(side: Side) -> Side {
    match side {
        Side::Left => Side::Right,
        Side::Right => Side::Left,
    }
}

/// What snapping the focused window to `side` of the current output does:
/// a window snapped to the other half goes back to where it was before;
/// any other window floats in the `side` half, frame included.
pub open spec fn snap_half_done(c: Context, n: Context, cmds: Seq<Command>, side: Side) -> bool {
    match (focused_index(c), current_output_of(c)) {
        (Some(i), Some(o)) => {
            let w = c.windows@[i];
            let g = half_geometry(usable(o), side, c.border_width as int, c.titlebar_height as int);
            let back = w.snapped == Some(other_side(side));
            &&& n.windows@ == c.windows@.update(
                i,
                if back {
                    unsnapped(w)
                } else {
                    snapped_to(w, side, g.0 as i32, g.1 as i32, g.2 as i32, g.3 as i32)
                },
            )
            &&& cmds == lift(
                w.id,
                if back {
                    unsnap_requests(w)
                } else {
                    snap_requests(w, g.0 as i32, g.1 as i32, g.2 as i32, g.3 as i32)
                },
            )
            &&& n == (Context { windows: n.windows, ..c })
        },
        _ => n == c && cmds.len() == 0,
    }
}

/// What `toggle_fullscreen` does to the focused window: its index, its new
/// fullscreen state and the requests sent.  A window not in fullscreen
/// goes fullscreen on the current output when that has its compositor
/// object; a window in fullscreen leaves it.
pub open spec fn fullscreen_toggle(c: Context) -> Option<(int, FullscreenState, Seq<WindowRequest>)> {
    match focused_index(c) {
        Some(i) => {
            let w = c.windows@[i];
            if w.fullscreen == FullscreenState::Off {
                match current_output_of(c) {
                    Some(o) => if o.has_rwm_output {
                        Some((i, FullscreenState::Output(o.id), if w.has_rwm_window {
                            seq![WindowRequest::Fullscreen { output: o.id }, WindowRequest::InformFullscreen]
                        } else {
                            seq![]
                        }))
                    } else {
                        None
                    },
                    None => None,
                }
            } else {
                Some((i, FullscreenState::Off, if w.has_rwm_window {
                    seq![WindowRequest::ExitFullscreen, WindowRequest::InformNotFullscreen]
                } else {
                    seq![]
                }))
            }
        },
        None => None,
    }
}

/// The windows after `toggle_fullscreen`.
pub open spec fn toggled_windows(c: Context) -> Seq<Window> {
    match fullscreen_toggle(c) {
        Some(t) => c.windows@.update(t.0, Window { fullscreen: t.1, ..c.windows@[t.0] }),
        None => c.windows@,
    }
}

/// The commands `toggle_fullscreen` gives.
pub open spec fn toggle_commands(c: Context) -> Seq<Command> {
    match fullscreen_toggle(c) {
        Some(t) => lift(c.windows@[t.0].id, t.2),
        None => seq![],
    }
}

impl Context {
    /// `tiled` in focus stack order, those not on the stack last.
    fn order_by_stack(&self, tiled: &Vec<usize>) -> (r: Vec<usize>)
        ensures
            r@ == by_stack_order(tiled@, self.focus_stack@),
    {
        let mut r: Vec<usize> = Vec::new();
        let mut k: usize = 0;
        while k < self.focus_stack.len()
            invariant
                0 <= k <= self.focus_stack@.len(),
                r@ == kept_in(self.focus_stack@.subrange(0, k as int), tiled@),
            decreases self.focus_stack@.len() - k,
        {
            proof {
                assert(self.focus_stack@.subrange(0, k + 1).drop_last() == self.focus_stack@.subrange(0, k as int));
                assert(self.focus_stack@.subrange(0, k + 1).last() == self.focus_stack@[k as int]);
            }
            let x = self.focus_stack[k];
            if position_of(tiled, x).is_some() {
                r.push(x);
            }
            k = k + 1;
        }
        assert(self.focus_stack@.subrange(0, self.focus_stack@.len() as int) == self.focus_stack@);
        let ghost kept = r@;
        let mut m: usize = 0;
        while m < tiled.len()
            invariant
                0 <= m <= tiled@.len(),
                kept == kept_in(self.focus_stack@, tiled@),
                r@ == kept + missing_from(tiled@.subrange(0, m as int), self.focus_stack@),
            decreases tiled@.len() - m,
        {
            proof {
                assert(tiled@.subrange(0, m + 1).drop_last() == tiled@.subrange(0, m as int));
                assert(tiled@.subrange(0, m + 1).last() == tiled@[m as int]);
            }
            let x = tiled[m];
            if position_of(&self.focus_stack, x).is_none() {
                r.push(x);
            }
            m = m + 1;
        }
        assert(tiled@.subrange(0, tiled@.len() as int) == tiled@);
        r
    }

    /// Swap the focused window with the tiled window after (or before) it
    /// on the current output, by exchanging their places on the focus stack.
    pub fn swap_windows(&mut self, direction: Direction)
        requires
            old(self).wf(),
        ensures
            final(self).wf(),
            swap_windows_done(*old(self), *final(self), direction),
    {
        let oi = match self.current_output_index() {
            Some(i) => i,
            None => return,
        };
        let focused_id = match self.focused_window {
            Some(id) => id,
            None => return,
        };
        let oid = self.outputs[oi].id;
        let otag = self.outputs[oi].tag;
        let tiled = self.tiled_window_ids(oid, otag);
        if tiled.len() <= 1 {
            return;
        }
        let sorted = self.order_by_stack(&tiled);
        let focused_idx = match position_of(&sorted, focused_id) {
            Some(i) => i,
            None => return,
        };
        let swap_idx = step_index(sorted.len(), focused_idx, direction);
        let other = sorted[swap_idx];
        let fp = position_of(&self.focus_stack, focused_id);
        let sp = position_of(&self.focus_stack, other);
        if let (Some(a), Some(b)) = (fp, sp) {
            let ghost s0 = self.focus_stack@;
            let xa = self.focus_stack[a];
            let xb = self.focus_stack[b];
            self.focus_stack.set(a, xb);
            self.focus_stack.set(b, xa);
            proof {
                assert(self.focus_stack@ == swapped(s0, a as int, b as int));
                lemma_swap_permutes(s0, a as int, b as int, 0);
                lemma_swap_bounded(s0, a as int, b as int, self.next_window_id);
            }
        }
    }

    /// Maximize the window `id` on its output (or the current one): it
    /// floats and fills the usable area, frame included.
    pub fn maximize_window(&mut self, window_id: WindowId) -> (cmds: Vec<Command>)
        requires
            old(self).wf(),
            maximize_output(*old(self), window_id) matches Some(o) ==> maximize_fits(
                usable(o),
                old(self).border_width as int,
                old(self).titlebar_height as int,
            ),
        ensures
            final(self).wf(),
            maximize_window_done(*old(self), *final(self), cmds@, window_id),
    {
        let border_width = self.border_width;
        let titlebar_height = self.titlebar_height;
        let wi = match self.find_window(window_id) {
            Some(i) => i,
            None => return Vec::new(),
        };
        let oi = match self.maximize_output_index(window_id) {
            Some(k) => k,
            None => return Vec::new(),
        };
        let (ox, oy, ow, oh) = self.outputs[oi].usable_area();
        let cw = ow - border_width * 2;
        let content_w = if cw > 1 { cw } else { 1 };
        let ch = oh - border_width * 2 - titlebar_height;
        let content_h = if ch > 1 { ch } else { 1 };
        let content_x = ox + border_width;
        let content_y = oy + border_width + titlebar_height;
        self.maximize_at(wi, content_x, content_y, content_w, content_h)
    }

    /// Index of the output a window is maximized on.
    fn maximize_output_index(&self, window_id: WindowId) -> (r: Option<usize>)
        requires
            self.wf(),
            self.has_window(window_id),
        ensures
            match r {
                Some(k) => k < self.outputs@.len() && maximize_output(*self, window_id) == Some(self.outputs@[k as int]),
                None => maximize_output(*self, window_id).is_none(),
            },
    {
        let i = self.find_window(window_id).unwrap();
        let own = match self.windows[i].output {
            Some(o) => self.find_output(o),
            None => None,
        };
        match own {
            Some(k) => Some(k),
            None => self.current_output_index(),
        }
    }

    /// Maximize the window at index `i` to the content geometry given.
    fn maximize_at(&mut self, i: usize, x: i32, y: i32, width: i32, height: i32) -> (cmds: Vec<Command>)
        requires
            old(self).wf(),
            i < old(self).windows@.len(),
        ensures
            final(self).wf(),
            ({
                let w = old(self).windows@[i as int];
                let pw = max_i32(width, w.min_width);
                let ph = max_i32(height, w.min_height);
                &&& final(self).windows@ == old(self).windows@.update(
                    i as int,
                    Window {
                        floating: true,
                        x,
                        y,
                        position_undefined: false,
                        proposed_width: pw,
                        proposed_height: ph,
                        maximized: true,
                        ..w
                    },
                )
                &&& cmds@ == lift(
                    w.id,
                    if_node(w, WindowRequest::SetPosition { x, y }) + if_window(
                        w,
                        WindowRequest::ProposeDimensions { width: pw, height: ph },
                    ) + if_window(w, WindowRequest::InformMaximized),
                )
            }),
            *final(self) == (Context { windows: final(self).windows, ..*old(self) }),
    {
        let mut cmds: Vec<Command> = Vec::new();
        let ghost before = *self;
        let mut w = self.take_window(i);
        let id = w.id;
        w.floating = true;
        let r1 = w.set_position(x, y);
        let r2 = w.propose_dimensions(width, height);
        w.maximized = true;
        let r3 = w.inform_maximized();
        self.put_window(i, w, Ghost(before));
        push_requests(&mut cmds, id, r1);
        push_requests(&mut cmds, id, r2);
        push_requests(&mut cmds, id, r3);
        proof {
            assert(lift(id, r1@) + lift(id, r2@) + lift(id, r3@) == lift(id, r1@ + r2@ + r3@));
        }
        cmds
    }

    /// Put the focused window in fullscreen on the current output, or take
    /// it out of fullscreen.
    #[verifier::spinoff_prover]
    #[verifier::rlimit(100)]
    pub fn toggle_fullscreen(&mut self, in_window: bool) -> (cmds: Vec<Command>)
        requires
            old(self).wf(),
        ensures
            final(self).wf(),
            toggle_fullscreen_done(*old(self), *final(self), cmds@),
    {
        let window_id = match self.focused_window {
            Some(id) => id,
            None => return Vec::new(),
        };
        let i = match self.find_window(window_id) {
            Some(i) => i,
            None => return Vec::new(),
        };
        let ghost c = *self;
        assert(focused_index(c) == Some(i as int));
        let w_has = self.windows[i].has_rwm_window;
        if self.windows[i].fullscreen == FullscreenState::Off {
            match self.current_output_index() {
                Some(k) => {
                    assert(current_output_of(c) == Some(c.outputs@[k as int]));
                    if self.outputs[k].has_rwm_output {
                        let oid = self.outputs[k].id;
                        let ghost reqs: Seq<WindowRequest> = if w_has {
                            seq![WindowRequest::Fullscreen { output: oid }, WindowRequest::InformFullscreen]
                        } else {
                            seq![]
                        };
                        assert(fullscreen_toggle(c) == Some((i as int, FullscreenState::Output(oid), reqs)));
                        let r = self.fullscreen_at(i, oid);
                        assert(self.windows@ == toggled_windows(c));
                        assert(r@ == toggle_commands(c));
                        r
                    } else {
                        assert(fullscreen_toggle(c).is_none());
                        Vec::new()
                    }
                },
                None => {
                    assert(fullscreen_toggle(c).is_none());
                    Vec::new()
                },
            }
        } else {
            let ghost reqs: Seq<WindowRequest> = if w_has {
                seq![WindowRequest::ExitFullscreen, WindowRequest::InformNotFullscreen]
            } else {
                seq![]
            };
            assert(fullscreen_toggle(c) == Some((i as int, FullscreenState::Off, reqs)));
            let r = self.unfullscreen_at(i);
            assert(self.windows@ == toggled_windows(c));
            r
        }
    }

    /// Put the window at index `i` in fullscreen on the output `oid`.
    fn fullscreen_at(&mut self, i: usize, oid: OutputId) -> (cmds: Vec<Command>)
        requires
            old(self).wf(),
            i < old(self).windows@.len(),
        ensures
            final(self).wf(),
            ({
                let w = old(self).windows@[i as int];
                &&& final(self).windows@ == old(self).windows@.update(
                    i as int,
                    Window { fullscreen: FullscreenState::Output(oid), ..w },
                )
                &&& cmds@ == lift(
                    w.id,
                    if w.has_rwm_window {
                        seq![WindowRequest::Fullscreen { output: oid }, WindowRequest::InformFullscreen]
                    } else {
                        seq![]
                    },
                )
            }),
            *final(self) == (Context { windows: final(self).windows, ..*old(self) }),
    {
        let mut cmds: Vec<Command> = Vec::new();
        let ghost before = *self;
        let mut w = self.take_window(i);
        let id = w.id;
        let reqs = w.fullscreen_on(oid);
        w.fullscreen = FullscreenState::Output(oid);
        self.put_window(i, w, Ghost(before));
        push_requests(&mut cmds, id, reqs);
        cmds
    }

    /// Take the window at index `i` out of fullscreen.
    fn unfullscreen_at(&mut self, i: usize) -> (cmds: Vec<Command>)
        requires
            old(self).wf(),
            i < old(self).windows@.len(),
        ensures
            final(self).wf(),
            ({
                let w = old(self).windows@[i as int];
                &&& final(self).windows@ == old(self).windows@.update(i as int, Window { fullscreen: FullscreenState::Off, ..w })
                &&& cmds@ == lift(
                    w.id,
                    if w.has_rwm_window {
                        seq![WindowRequest::ExitFullscreen, WindowRequest::InformNotFullscreen]
                    } else {
                        seq![]
                    },
                )
            }),
            *final(self) == (Context { windows: final(self).windows, ..*old(self) }),
    {
        let mut cmds: Vec<Command> = Vec::new();
        let ghost before = *self;
        let mut w = self.take_window(i);
        let id = w.id;
        let reqs = w.exit_fullscreen();
        self.put_window(i, w, Ghost(before));
        push_requests(&mut cmds, id, reqs);
        cmds
    }
}


/// Resize edges for a pointer at `(px, py)` over a window: left or right of
/// its centre, and above or below it.
pub open spec fn spec_resize_edges(x: int, y: int, width: int, height: int, px: int, py: int) -> u32 {
    let cx = x + crate::arith::tdiv(width, 2);
    let cy = y + crate::arith::tdiv(height, 2);
    (if px < cx { crate::window::EDGE_LEFT } else { crate::window::EDGE_RIGHT }) | (if py < cy {
        crate::window::EDGE_TOP
    } else {
        crate::window::EDGE_BOTTOM
    })
}

/// Calculate resize edges based on pointer position
pub fn calculate_resize_edges(window: &Window, px: i32, py: i32) -> (r: u32)
    requires
        crate::arith::fits_i32(window.x + crate::arith::tdiv(window.width as int, 2)),
        crate::arith::fits_i32(window.y + crate::arith::tdiv(window.height as int, 2)),
    ensures
        r == spec_resize_edges(window.x as int, window.y as int, window.width as int, window.height as int, px as int, py as int),
{
    let cx = window.x + window.width / 2;
    let cy = window.y + window.height / 2;
    let mut edges: u32 = 0;
    if px < cx {
        edges = edges | 4;
    } else {
        edges = edges | 8;
    }
    if py < cy {
        edges = edges | 1;
    } else {
        edges = edges | 2;
    }
    assert(0u32 | 4u32 == 4u32 && 0u32 | 8u32 == 8u32) by (bit_vector);
    edges
}

/// The distance between two integers.
pub open spec fn dist(a: int, b: int) -> int {
    if a >= b { a - b } else { b - a }
}

/// Resize edges for a pointer near the border of the rectangle
/// `(x, y, width, height)`: a side counts within `border` of it (and
/// within the rectangle grown by `border` along it); of two opposite
/// sides the nearer wins, the first on a tie.
pub open spec fn spec_edges_near_border(x: int, y: int, width: int, height: int, border: int, px: int, py: int) -> u32 {
    if width <= 0 || height <= 0 || border <= 0 {
        0
    } else {
        let right = x + width;
        let bottom = y + height;
        let within_vert = py >= y - border && py <= bottom + border;
        let within_horiz = px >= x - border && px <= right + border;
        let dl = dist(px, x);
        let dr = dist(px, right);
        let dt = dist(py, y);
        let db = dist(py, bottom);
        let horiz: u32 = if !within_vert {
            0
        } else if dr <= border && (dl > border || dr < dl) {
            8
        } else if dl <= border {
            4
        } else {
            0
        };
        let vert: u32 = if !within_horiz {
            0
        } else if db <= border && (dt > border || db < dt) {
            2
        } else if dt <= border {
            1
        } else {
            0
        };
        horiz | vert
    }
}

pub open spec fn near_border_fits(x: int, y: int, width: int, height: int, border: int, px: int, py: int) -> bool {
    (width > 0 && height > 0 && border > 0) ==> {
        &&& crate::arith::fits_i32(x + width)
        &&& crate::arith::fits_i32(y + height)
        &&& crate::arith::fits_i32(y - border)
        &&& crate::arith::fits_i32(y + height + border)
        &&& crate::arith::fits_i32(x - border)
        &&& crate::arith::fits_i32(x + width + border)
        &&& i32::MIN < px - x <= i32::MAX
        &&& i32::MIN < px - (x + width) <= i32::MAX
        &&& i32::MIN < py - y <= i32::MAX
        &&& i32::MIN < py - (y + height) <= i32::MAX
    }
}

fn abs_i32(v: i32) -> (r: i32)
    requires
        v > i32::MIN,
    ensures
        r == (if v >= 0 { v as int } else { -v }),
{
    if v >= 0 { v } else { -v }
}

/// Resize edges for a pointer near the border of a frame.
pub fn calculate_resize_edges_near_border(
    x: i32,
    y: i32,
    width: i32,
    height: i32,
    border: i32,
    px: i32,
    py: i32,
) -> (r: u32)
    requires
        near_border_fits(x as int, y as int, width as int, height as int, border as int, px as int, py as int),
    ensures
        r == spec_edges_near_border(x as int, y as int, width as int, height as int, border as int, px as int, py as int),
{
    if width <= 0 || height <= 0 || border <= 0 {
        return 0;
    }
    let left_edge = x;
    let right_edge = x + width;
    let top_edge = y;
    let bottom_edge = y + height;
    let within_vert = py >= top_edge - border && py <= bottom_edge + border;
    let within_horiz = px >= left_edge - border && px <= right_edge + border;
    let dist_left = abs_i32(px - left_edge);
    let dist_right = abs_i32(px - right_edge);
    let dist_top = abs_i32(py - top_edge);
    let dist_bottom = abs_i32(py - bottom_edge);
    let mut horiz: u32 = 0;
    if within_vert {
        if dist_left <= border {
            horiz = 4;
        }
        if dist_right <= border && (horiz == 0 || dist_right < dist_left) {
            horiz = 8;
        }
    }
    let mut vert: u32 = 0;
    if within_horiz {
        if dist_top <= border {
            vert = 1;
        }
        if dist_bottom <= border && (vert == 0 || dist_bottom < dist_top) {
            vert = 2;
        }
    }
    let edges: u32 = 0u32 | horiz | vert;
    assert(0u32 | horiz | vert == horiz | vert) by (bit_vector);
    edges
}

/// The cursor for resizing along `edges`: a corner, a side, both sides
/// of one axis, all sides, or none.
pub open spec fn spec_cursor_shape(edges: u32) -> Option<CursorShape> {
    let horiz = edges & 12;
    let vert = edges & 3;
    if horiz == 4 && vert == 1 {
        Some(CursorShape::NwResize)
    } else if horiz == 8 && vert == 1 {
        Some(CursorShape::NeResize)
    } else if horiz == 4 && vert == 2 {
        Some(CursorShape::SwResize)
    } else if horiz == 8 && vert == 2 {
        Some(CursorShape::SeResize)
    } else if horiz == 4 && vert == 0 {
        Some(CursorShape::WResize)
    } else if horiz == 8 && vert == 0 {
        Some(CursorShape::EResize)
    } else if horiz == 0 && vert == 1 {
        Some(CursorShape::NResize)
    } else if horiz == 0 && vert == 2 {
        Some(CursorShape::SResize)
    } else if horiz == 12 && vert == 0 {
        Some(CursorShape::EwResize)
    } else if horiz == 0 && vert == 3 {
        Some(CursorShape::NsResize)
    } else if horiz == 12 && vert == 3 {
        Some(CursorShape::AllResize)
    } else {
        None
    }
}

pub fn cursor_shape_for_edges(edges: u32) -> (r: Option<CursorShape>)
    ensures
        r == spec_cursor_shape(edges),
{
    let horiz = edges & (4 | 8);
    let vert = edges & (1 | 2);
    assert(4u32 | 8u32 == 12u32 && 1u32 | 2u32 == 3u32) by (bit_vector);
    if horiz == 4 && vert == 1 {
        return Some(CursorShape::NwResize);
    }
    if horiz == 8 && vert == 1 {
        return Some(CursorShape::NeResize);
    }
    if horiz == 4 && vert == 2 {
        return Some(CursorShape::SwResize);
    }
    if horiz == 8 && vert == 2 {
        return Some(CursorShape::SeResize);
    }
    if horiz == 4 && vert == 0 {
        return Some(CursorShape::WResize);
    }
    if horiz == 8 && vert == 0 {
        return Some(CursorShape::EResize);
    }
    if horiz == 0 && vert == 1 {
        return Some(CursorShape::NResize);
    }
    if horiz == 0 && vert == 2 {
        return Some(CursorShape::SResize);
    }
    if horiz == 12 && vert == 0 {
        return Some(CursorShape::EwResize);
    }
    if horiz == 0 && vert == 3 {
        return Some(CursorShape::NsResize);
    }
    if horiz == 12 && vert == 3 {
        return Some(CursorShape::AllResize);
    }
    None
}

/// The point lies on the titlebar above a window at `(x, y)`, edges included.
pub open spec fn spec_point_in_titlebar(x: int, y: int, width: int, tbh: int, px: int, py: int) -> bool {
    width > 0 && tbh > 0 && px >= x && px <= x + width && py >= y - tbh && py <= y
}

pub fn point_in_titlebar(x: i32, y: i32, width: i32, titlebar_height: i32, px: i32, py: i32) -> (r: bool)
    requires
        width > 0 && titlebar_height > 0 ==> crate::arith::fits_i32(x + width) && crate::arith::fits_i32(y - titlebar_height),
    ensures
        r == spec_point_in_titlebar(x as int, y as int, width as int, titlebar_height as int, px as int, py as int),
{
    if width <= 0 || titlebar_height <= 0 {
        return false;
    }
    px >= x && px <= x + width && py >= y - titlebar_height && py <= y
}


/// The edges of the resize that the seat `seat` drives on the focused
/// window, or 0.
pub open spec fn op_edges(ws: Seq<Window>, focused: Option<WindowId>, seat: SeatId) -> u32 {
    match focused {
        Some(f) => if has_win(ws, f) {
            match ws[win_index(ws, f)].operator {
                Operator::Resize { edges, seat: Some(s), .. } => if s == seat {
                    edges
                } else {
                    0
                },
                _ => 0,
            }
        } else {
            0
        },
        None => 0,
    }
}

/// The frame of a window: its content grown by the border and titlebar.
pub open spec fn frame_of(w: Window, bw: int, tbh: int) -> (int, int, int, int) {
    (w.x - bw, w.y - bw - tbh, w.width + bw * 2, w.height + bw * 2 + tbh)
}

/// The edges of the frame border under the seat's pointer, or 0.
pub open spec fn hover_edges(ws: Seq<Window>, st: SeatState, bw: int, tbh: int) -> u32 {
    match st.window_below_pointer {
        Some(b) => if has_win(ws, b) {
            let f = frame_of(ws[win_index(ws, b)], bw, tbh);
            spec_edges_near_border(f.0, f.1, f.2, f.3, bw, st.pointer_x as int, st.pointer_y as int)
        } else {
            0
        },
        None => 0,
    }
}

/// The frame of the window below the pointer can be measured in `i32`.
pub open spec fn hover_fits(ws: Seq<Window>, st: SeatState, bw: int, tbh: int) -> bool {
    st.window_below_pointer matches Some(b) ==> (has_win(ws, b) ==> {
        let w = ws[win_index(ws, b)];
        let f = frame_of(w, bw, tbh);
        &&& crate::arith::fits_i32(w.x - bw)
        &&& crate::arith::fits_i32(w.y - bw)
        &&& crate::arith::fits_i32(w.y - bw - tbh)
        &&& crate::arith::fits_i32(bw * 2)
        &&& crate::arith::fits_i32(w.width + bw * 2)
        &&& crate::arith::fits_i32(w.height + bw * 2)
        &&& crate::arith::fits_i32(w.height + bw * 2 + tbh)
        &&& near_border_fits(f.0, f.1, f.2, f.3, bw, st.pointer_x as int, st.pointer_y as int)
    })
}

/// The edges the cursor shows for a seat: those of the resize it drives,
/// else those of the frame border under its pointer.
pub open spec fn cursor_edges(ws: Seq<Window>, focused: Option<WindowId>, st: SeatState, bw: int, tbh: int) -> u32 {
    let e = op_edges(ws, focused, st.id);
    if e != 0 {
        e
    } else {
        hover_edges(ws, st, bw, tbh)
    }
}

/// The command that sets the seat's cursor.
pub open spec fn cursor_commands(ws: Seq<Window>, focused: Option<WindowId>, st: SeatState, bw: int, tbh: int) -> Seq<Command> {
    seq![Command::SetCursorShape { seat: st.id, shape: spec_cursor_shape(cursor_edges(ws, focused, st, bw, tbh)) }]
}

/// Set the cursor of the seat `st` from the windows `ws`.
fn cursor_for(ws: &Vec<Window>, focused: Option<WindowId>, st: SeatState, bw: i32, tbh: i32) -> (cmds: Vec<Command>)
    requires
        no_dup(window_ids(ws@)),
        op_edges(ws@, focused, st.id) == 0 ==> hover_fits(ws@, st, bw as int, tbh as int),
    ensures
        cmds@ == cursor_commands(ws@, focused, st, bw as int, tbh as int),
{
    let mut edges: u32 = 0;
    if let Some(f) = focused {
        if let Some(i) = find_in(ws, f) {
            if let Operator::Resize { edges: op, seat: Some(s), .. } = ws[i].operator {
                if s == st.id {
                    edges = op;
                }
            }
        }
    }
    if edges == 0 {
        if let Some(b) = st.window_below_pointer {
            if let Some(i) = find_in(ws, b) {
                let w = &ws[i];
                edges = calculate_resize_edges_near_border(
                    w.x - bw,
                    w.y - bw - tbh,
                    w.width + bw * 2,
                    w.height + bw * 2 + tbh,
                    bw,
                    st.pointer_x,
                    st.pointer_y,
                );
            }
        }
    }
    let mut cmds: Vec<Command> = Vec::new();
    cmds.push(Command::SetCursorShape { seat: st.id, shape: cursor_shape_for_edges(edges) });
    cmds
}

/// The window under the seat's pointer, when the seat and the window exist.
pub open spec fn below_target(c: Context, seat: SeatId) -> Option<WindowId> {
    if c.has_seat(seat) && c.seat(seat).window_below_pointer is Some && c.has_window(
        c.seat(seat).window_below_pointer->0,
    ) {
        c.seat(seat).window_below_pointer
    } else {
        None
    }
}

/// The focus stack after focusing the window under the seat's pointer.
pub open spec fn after_below_stack(c: Context, seat: SeatId) -> Seq<usize> {
    match below_target(c, seat) {
        Some(b) => focused_stack(c.focus_stack@, b),
        None => c.focus_stack@,
    }
}

/// The focused window after focusing the window under the seat's pointer.
pub open spec fn after_below_focus(c: Context, seat: SeatId) -> Option<WindowId> {
    match below_target(c, seat) {
        Some(b) => Some(b),
        None => c.focused_window,
    }
}

/// The commands that focus the window under the seat's pointer.
pub open spec fn below_commands(c: Context, seat: SeatId) -> Seq<Command> {
    match below_target(c, seat) {
        Some(b) => focus_commands(c, b),
        None => seq![],
    }
}

/// Index of the focused window that a pointer operation applies to, when
/// it and the seat exist.
pub open spec fn operated_index(ws: Seq<Window>, focused: Option<WindowId>, seat_ok: bool) -> Option<int> {
    match focused {
        Some(f) => if has_win(ws, f) && seat_ok {
            Some(win_index(ws, f))
        } else {
            None
        },
        None => None,
    }
}

/// The windows after the focused window starts moving with the seat.
pub open spec fn moved_windows(ws: Seq<Window>, focused: Option<WindowId>, seat_ok: bool, seat: SeatId) -> Seq<Window> {
    match operated_index(ws, focused, seat_ok) {
        Some(i) => ws.update(
            i,
            Window { floating: true, operator: Operator::Move { start_x: ws[i].x, start_y: ws[i].y, seat: Some(seat) }, ..ws[i] },
        ),
        None => ws,
    }
}

impl Context {
    /// Update the cursor of a seat: the shape of the resize it drives, or of
    /// the frame border under its pointer.
    pub fn update_cursor_for_seat(&self, seat_id: SeatId) -> (cmds: Vec<Command>)
        requires
            self.wf(),
            self.has_seat(seat_id) ==> (op_edges(self.windows@, self.focused_window, seat_id) == 0 ==> hover_fits(
                self.windows@,
                self.seat(seat_id),
                self.border_width as int,
                self.titlebar_height as int,
            )),
        ensures
            self.has_seat(seat_id) ==> cmds@ == cursor_commands(
                self.windows@,
                self.focused_window,
                self.seat(seat_id),
                self.border_width as int,
                self.titlebar_height as int,
            ),
            !self.has_seat(seat_id) ==> cmds@.len() == 0,
    {
        match self.find_seat(seat_id) {
            Some(k) => cursor_for(&self.windows, self.focused_window, self.seats[k], self.border_width, self.titlebar_height),
            None => Vec::new(),
        }
    }

    /// Focus the window under the seat's pointer, if there is one.
    fn focus_below(&mut self, seat_id: SeatId) -> (cmds: Vec<Command>)
        requires
            old(self).wf(),
        ensures
            final(self).wf(),
            match below_target(*old(self), seat_id) {
                Some(t) => {
                    &&& final(self).focus_stack@ == focused_stack(old(self).focus_stack@, t)
                    &&& *final(self) == (Context {
                        focus_stack: final(self).focus_stack,
                        focused_window: Some(t),
                        ..*old(self)
                    })
                    &&& cmds@ == focus_commands(*old(self), t)
                },
                None => *final(self) == *old(self) && cmds@.len() == 0,
            },
    {
        if let Some(k) = self.find_seat(seat_id) {
            if let Some(b) = self.seats[k].window_below_pointer {
                if let Some(i) = self.find_window(b) {
                    proof {
                        lemma_window_ids_bounded(*self);
                    }
                    return self.focus(b);
                }
            }
        }
        Vec::new()
    }

    /// Start moving the window under the seat's pointer (focusing it first),
    /// or else the focused window: it floats and follows the pointer.
    pub fn start_pointer_move(&mut self, seat_id: SeatId) -> (cmds: Vec<Command>)
        requires
            old(self).wf(),
        ensures
            final(self).wf(),
            start_pointer_move_done(*old(self), *final(self), cmds@, seat_id),
    {
        let mut cmds = self.focus_below(seat_id);
        let mut more = self.begin_move(seat_id);
        cmds.append(&mut more);
        cmds
    }

    /// Make the focused window float and follow the seat's pointer.
    fn begin_move(&mut self, seat_id: SeatId) -> (cmds: Vec<Command>)
        requires
            old(self).wf(),
        ensures
            final(self).wf(),
            final(self).windows@ == moved_windows(
                old(self).windows@,
                old(self).focused_window,
                old(self).has_seat(seat_id),
                seat_id,
            ),
            cmds@ == if operated_index(old(self).windows@, old(self).focused_window, old(self).has_seat(seat_id)) is Some {
                seq![Command::StartPointerOp { seat: seat_id }]
            } else {
                seq![]
            },
            *final(self) == (Context { windows: final(self).windows, ..*old(self) }),
    {
        let mut cmds: Vec<Command> = Vec::new();
        if let Some(window_id) = self.focused_window {
            if let Some(i) = self.find_window(window_id) {
                if self.find_seat(seat_id).is_some() {
                    let ghost before = *self;
                    let mut w = self.take_window(i);
                    w.floating = true;
                    w.start_move(seat_id);
                    self.put_window(i, w, Ghost(before));
                    cmds.push(Command::StartPointerOp { seat: seat_id });
                }
            }
        }
        cmds
    }
}


/// The windows after the focused window starts a resize of `edges` with
/// the seat.
pub open spec fn resized_at(ws: Seq<Window>, i: int, seat: SeatId, edges: u32) -> Seq<Window> {
    ws.update(
        i,
        Window {
            floating: true,
            operator: Operator::Resize {
                start_x: ws[i].x,
                start_y: ws[i].y,
                start_width: ws[i].width,
                start_height: ws[i].height,
                edges,
                seat: Some(seat),
            },
            ..ws[i]
        },
    )
}

/// The edges a pointer resize of window `w` drags, from where the pointer is.
pub open spec fn pointer_edges(w: Window, st: SeatState) -> u32 {
    spec_resize_edges(w.x as int, w.y as int, w.width as int, w.height as int, st.pointer_x as int, st.pointer_y as int)
}

pub open spec fn pointer_edges_fit(w: Window) -> bool {
    crate::arith::fits_i32(w.x + crate::arith::tdiv(w.width as int, 2)) && crate::arith::fits_i32(
        w.y + crate::arith::tdiv(w.height as int, 2),
    )
}

impl Context {
    /// Make the window at index `i` float and start a resize of `edges`
    /// with the seat; the seat starts a pointer operation and its cursor is
    /// updated when some edge is dragged.
    fn begin_resize_at(&mut self, i: usize, k: usize, edges: u32) -> (cmds: Vec<Command>)
        requires
            old(self).wf(),
            i < old(self).windows@.len(),
            k < old(self).seats@.len(),
            old(self).focused_window == Some(old(self).windows@[i as int].id),
        ensures
            final(self).wf(),
            final(self).windows@ == resized_at(old(self).windows@, i as int, old(self).seats@[k as int].id, edges),
            cmds@ == lift(
                old(self).windows@[i as int].id,
                if_window(old(self).windows@[i as int], WindowRequest::InformResizeStart),
            ) + seq![Command::StartPointerOp { seat: old(self).seats@[k as int].id }] + if edges != 0 {
                seq![Command::SetCursorShape { seat: old(self).seats@[k as int].id, shape: spec_cursor_shape(edges) }]
            } else {
                seq![]
            },
            *final(self) == (Context { windows: final(self).windows, ..*old(self) }),
    {
        let seat_id = self.seats[k].id;
        let mut cmds: Vec<Command> = Vec::new();
        let ghost before = *self;
        let mut w = self.take_window(i);
        let id = w.id;
        w.floating = true;
        let reqs = w.start_resize(seat_id, edges);
        self.put_window(i, w, Ghost(before));
        push_requests(&mut cmds, id, reqs);
        cmds.push(Command::StartPointerOp { seat: seat_id });
        if edges != 0 {
            // The seat now drives a resize of `edges` on the focused window,
            // so its cursor shows those edges.
            cmds.push(Command::SetCursorShape { seat: seat_id, shape: cursor_shape_for_edges(edges) });
        }
        cmds
    }

    /// Start resizing the window under the seat's pointer (focusing it
    /// first), or else the focused window, along the edges nearest the
    /// pointer.
    #[verifier::spinoff_prover]
    pub fn start_pointer_resize(&mut self, seat_id: SeatId) -> (cmds: Vec<Command>)
        requires
            old(self).wf(),
            operated_index(old(self).windows@, after_below_focus(*old(self), seat_id), old(self).has_seat(seat_id)) matches Some(
                i,
            ) ==> pointer_edges_fit(old(self).windows@[i]),
        ensures
            final(self).wf(),
            start_pointer_resize_done(*old(self), *final(self), cmds@, seat_id),
    {
        let ghost c = *self;
        let mut cmds = self.focus_below(seat_id);
        let ghost c1 = *self;
        let ghost first = cmds@;
        assert(first == below_commands(c, seat_id));
        assert(c1.windows@ == c.windows@ && c1.seats@ == c.seats@);
        assert(c1.focused_window == after_below_focus(c, seat_id));
        if let Some(window_id) = self.focused_window {
            if let Some(i) = self.find_window(window_id) {
                if let Some(k) = self.find_seat(seat_id) {
                    assert(operated_index(c.windows@, after_below_focus(c, seat_id), c.has_seat(seat_id)) == Some(i as int));
                    assert(c.seat(seat_id) == c.seats@[k as int]);
                    let edges = calculate_resize_edges(&self.windows[i], self.seats[k].pointer_x, self.seats[k].pointer_y);
                    let mut more = self.begin_resize_at(i, k, edges);
                    let ghost tail = more@;
                    cmds.append(&mut more);
                    let ghost w = c.windows@[i as int];
                    let ghost a = lift(w.id, if_window(w, WindowRequest::InformResizeStart));
                    let ghost b = seq![Command::StartPointerOp { seat: seat_id }];
                    let ghost d = if edges != 0 {
                        seq![Command::SetCursorShape { seat: seat_id, shape: spec_cursor_shape(edges) }]
                    } else {
                        seq![]
                    };
                    assert(tail == a + b + d);
                    assert(cmds@ =~= first + a + b + d);
                    return cmds;
                }
            }
        }
        assert(operated_index(c.windows@, after_below_focus(c, seat_id), c.has_seat(seat_id)).is_none());
        cmds
    }
}


/// Milliseconds within which a second click on a close button closes.
pub const CLOSE_DOUBLE_CLICK_MS: u64 = 400;

/// What a button press on a window's frame starts.
#[derive(Debug, Clone, Copy, PartialEq, Eq, Structural)]
pub enum Interaction {
    /// Resize along these edges of the frame border
    Resize { edges: u32 },
    /// A click on the close button; `double` when it closes the window
    Close { double: bool },
    /// A click on the hide button
    Hide,
    /// A click on the maximize button
    Maximize,
    /// Move the window; `on_row` when the press lies on the titlebar row
    /// (which forgets an earlier close click)
    Move { on_row: bool },
    /// Nothing
    Nothing,
}

/// What a press by the seat `st` at its pointer starts on the window `w`,
/// at time `now` (milliseconds): a resize near the frame border, a button
/// of the titlebar, a move on the titlebar, or nothing.
pub open spec fn spec_interaction(w: Window, st: SeatState, bw: int, tbh: int, now: u64) -> Interaction {
    let px = st.pointer_x as int;
    let py = st.pointer_y as int;
    let f = frame_of(w, bw, tbh);
    let edges = spec_edges_near_border(f.0, f.1, f.2, f.3, bw, px, py);
    if edges != 0 {
        Interaction::Resize { edges }
    } else if w.has_titlebar {
        let lx = px - w.x;
        let ly = py - (w.y - tbh);
        if 0 <= lx < w.width && 0 <= ly < tbh {
            let b = crate::titlebar::spec_button_rects(w.width as int, tbh);
            if crate::titlebar::rect_contains(b.0, lx, ly) {
                Interaction::Close {
                    double: st.last_close_click matches Some(cc) && cc.window == w.id && (if now >= cc.time_ms {
                        now - cc.time_ms
                    } else {
                        0
                    }) <= CLOSE_DOUBLE_CLICK_MS,
                }
            } else if crate::titlebar::rect_contains(b.1, lx, ly) {
                Interaction::Hide
            } else if crate::titlebar::rect_contains(b.2, lx, ly) {
                Interaction::Maximize
            } else {
                Interaction::Move { on_row: true }
            }
        } else if spec_point_in_titlebar(w.x as int, w.y as int, w.width as int, tbh, px, py) {
            Interaction::Move { on_row: false }
        } else {
            Interaction::Nothing
        }
    } else {
        Interaction::Nothing
    }
}

/// The geometry used by `spec_interaction` can be computed in `i32`.
pub open spec fn interaction_fits(w: Window, st: SeatState, bw: int, tbh: int) -> bool {
    let f = frame_of(w, bw, tbh);
    &&& crate::arith::fits_i32(w.x - bw)
    &&& crate::arith::fits_i32(w.y - bw)
    &&& crate::arith::fits_i32(w.y - bw - tbh)
    &&& crate::arith::fits_i32(bw * 2)
    &&& crate::arith::fits_i32(w.width + bw * 2)
    &&& crate::arith::fits_i32(w.height + bw * 2)
    &&& crate::arith::fits_i32(w.height + bw * 2 + tbh)
    &&& near_border_fits(f.0, f.1, f.2, f.3, bw, st.pointer_x as int, st.pointer_y as int)
    &&& crate::arith::fits_i32(w.y - tbh)
    &&& crate::arith::fits_i32(st.pointer_x - w.x)
    &&& crate::arith::fits_i32(st.pointer_y - (w.y - tbh))
    &&& crate::arith::fits_i32(w.x + w.width)
    &&& crate::titlebar::buttons_fit(w.width as int, tbh)
}

/// Decide what a press by the seat `st` on the window `w` starts.
pub fn decide_interaction(w: &Window, st: &SeatState, bw: i32, tbh: i32, now_ms: u64) -> (r: Interaction)
    requires
        interaction_fits(*w, *st, bw as int, tbh as int),
    ensures
        r == spec_interaction(*w, *st, bw as int, tbh as int, now_ms),
{
    let px = st.pointer_x;
    let py = st.pointer_y;
    let edges = calculate_resize_edges_near_border(
        w.x - bw,
        w.y - bw - tbh,
        w.width + bw * 2,
        w.height + bw * 2 + tbh,
        bw,
        px,
        py,
    );
    if edges != 0 {
        return Interaction::Resize { edges };
    }
    if w.has_titlebar {
        let local_x = px - w.x;
        let local_y = py - (w.y - tbh);
        if local_x >= 0 && local_x < w.width && local_y >= 0 && local_y < tbh {
            let buttons = crate::titlebar::button_rects(w.width, tbh);
            proof {
                assert(crate::arith::fits_i32(buttons.close.x + buttons.close.width));
            }
            if buttons.close.contains(local_x, local_y) {
                let double = match st.last_close_click {
                    Some(cc) => cc.window == w.id && now_ms.saturating_sub(cc.time_ms) <= CLOSE_DOUBLE_CLICK_MS,
                    None => false,
                };
                return Interaction::Close { double };
            }
            if buttons.hide.contains(local_x, local_y) {
                return Interaction::Hide;
            }
            if buttons.maximize.contains(local_x, local_y) {
                return Interaction::Maximize;
            }
            return Interaction::Move { on_row: true };
        }
        if point_in_titlebar(w.x, w.y, w.width, tbh, px, py) {
            return Interaction::Move { on_row: false };
        }
    }
    Interaction::Nothing
}


/// Replacing a window by one with the same id and geometry keeps what the
/// cursor shows for a seat whose resize it does not drive.
proof fn lemma_hover_same_geometry(ws: Seq<Window>, i: int, w: Window, st: SeatState, bw: int, tbh: int)
    requires
        0 <= i < ws.len(),
        no_dup(window_ids(ws)),
        w.id == ws[i].id && w.x == ws[i].x && w.y == ws[i].y && w.width == ws[i].width && w.height == ws[i].height,
    ensures
        hover_fits(ws.update(i, w), st, bw, tbh) == hover_fits(ws, st, bw, tbh),
        hover_edges(ws.update(i, w), st, bw, tbh) == hover_edges(ws, st, bw, tbh),
        no_dup(window_ids(ws.update(i, w))),
{
    let ws2 = ws.update(i, w);
    lemma_update_keeps_ids(ws, i, w);
    if let Some(b) = st.window_below_pointer {
        if has_win(ws, b) {
            let j = win_index(ws, b);
            let k0 = choose|k: int| 0 <= k < window_ids(ws).len() && window_ids(ws)[k] == b;
            assert(ws[k0].id == b);
            assert(0 <= j < ws.len() && ws[j].id == b);
            assert(ws2[j].id == b);
            let j2 = win_index(ws2, b);
            assert(0 <= j2 < ws2.len() && ws2[j2].id == b);
            assert(window_ids(ws)[j2] == b && window_ids(ws)[j] == b);
            if j != j2 {
                assert(window_ids(ws)[j] != window_ids(ws)[j2]);
            }
            assert(j == j2);
        }
    }
}

/// The effect of a resize press: the window floats and resizes with the
/// seat; the seat starts a pointer operation and its cursor is updated.
pub open spec fn resize_done(c: Context, n: Context, cmds: Seq<Command>, i: int, k: int, edges: u32) -> bool {
    let w = c.windows@[i];
    let st = c.seats@[k];
    let ws = resized_at(c.windows@, i, st.id, edges);
    &&& n.windows@ == ws
    &&& cmds == lift(w.id, if_window(w, WindowRequest::InformResizeStart)) + seq![Command::StartPointerOp { seat: st.id }]
        + cursor_commands(ws, c.focused_window, st, c.border_width as int, c.titlebar_height as int)
    &&& n == (Context { windows: n.windows, ..c })
}

/// The effect of a click on the close button: the seat remembers it, and
/// a double click closes the window.
pub open spec fn close_done(c: Context, n: Context, cmds: Seq<Command>, i: int, k: int, now: u64, double: bool) -> bool {
    let w = c.windows@[i];
    let st = c.seats@[k];
    &&& n.seats@ == c.seats@.update(k, SeatState { last_close_click: Some(CloseClick { window: w.id, time_ms: now }), ..st })
    &&& cmds == if double { lift(w.id, if_window(w, WindowRequest::Close)) } else { seq![] }
    &&& n == (Context { seats: n.seats, ..c })
}

/// The effect of a press that moves the window; one on the titlebar row
/// forgets the seat's last close click.
pub open spec fn move_done(c: Context, n: Context, cmds: Seq<Command>, i: int, k: int, on_row: bool) -> bool {
    let w = c.windows@[i];
    let st = c.seats@[k];
    &&& n.seats@ == if on_row {
        c.seats@.update(k, SeatState { last_close_click: None, ..st })
    } else {
        c.seats@
    }
    &&& n.windows@ == c.windows@.update(
        i,
        Window { floating: true, operator: Operator::Move { start_x: w.x, start_y: w.y, seat: Some(st.id) }, ..w },
    )
    &&& cmds == seq![Command::StartPointerOp { seat: st.id }]
    &&& n == (Context { windows: n.windows, seats: n.seats, ..c })
}

/// The effect of a click on the hide button.
pub open spec fn hide_done(c: Context, n: Context, cmds: Seq<Command>, i: int, k: int) -> bool {
    let w = c.windows@[i];
    let st = c.seats@[k];
    &&& n.seats@ == c.seats@.update(k, SeatState { last_close_click: None, ..st })
    &&& n.windows@ == c.windows@.update(i, Window { hidden: true, ..w })
    &&& cmds == lift(w.id, if w.hidden { seq![] } else { if_window(w, WindowRequest::Hide) })
    &&& n == (Context { windows: n.windows, seats: n.seats, ..c })
}

/// The effect of a click on the maximize button.
pub open spec fn maximize_done(c: Context, n: Context, cmds: Seq<Command>, i: int, k: int) -> bool {
    let w = c.windows@[i];
    let st = c.seats@[k];
    &&& n.seats@ == c.seats@.update(k, SeatState { last_close_click: None, ..st })
    &&& match maximize_output(c, w.id) {
        Some(o) => {
            let g = maximized_geometry(usable(o), c.border_width as int, c.titlebar_height as int);
            let (x, y) = (g.0 as i32, g.1 as i32);
            let pw = max_i32(g.2 as i32, w.min_width);
            let ph = max_i32(g.3 as i32, w.min_height);
            &&& n.windows@ == c.windows@.update(
                i,
                Window {
                    floating: true,
                    x,
                    y,
                    position_undefined: false,
                    proposed_width: pw,
                    proposed_height: ph,
                    maximized: true,
                    ..w
                },
            )
            &&& cmds == lift(
                w.id,
                if_node(w, WindowRequest::SetPosition { x, y }) + if_window(
                    w,
                    WindowRequest::ProposeDimensions { width: pw, height: ph },
                ) + if_window(w, WindowRequest::InformMaximized),
            )
        },
        None => n.windows@ == c.windows@ && cmds.len() == 0,
    }
    &&& n == (Context { windows: n.windows, seats: n.seats, ..c })
}

impl Context {
    /// Start what a press by the seat on the window's frame asks for (see
    /// `spec_interaction`), at time `now_ms`.
    pub fn handle_window_interaction(&mut self, seat_id: SeatId, window_id: WindowId, now_ms: u64) -> (cmds: Vec<Command>)
        requires
            old(self).wf(),
            old(self).has_seat(seat_id) && old(self).has_window(window_id) ==> {
                let w = old(self).window(window_id);
                let st = old(self).seat(seat_id);
                &&& interaction_fits(w, st, old(self).border_width as int, old(self).titlebar_height as int)
                &&& hover_fits(old(self).windows@, st, old(self).border_width as int, old(self).titlebar_height as int)
                &&& (maximize_output(*old(self), window_id) matches Some(o) ==> maximize_fits(
                    usable(o),
                    old(self).border_width as int,
                    old(self).titlebar_height as int,
                ))
            },
        ensures
            final(self).wf(),
            !(old(self).has_seat(seat_id) && old(self).has_window(window_id)) ==> *final(self) == *old(self) && cmds@.len()
                == 0,
            old(self).has_seat(seat_id) && old(self).has_window(window_id) ==> {
                let i = old(self).window_index(window_id);
                let k = old(self).seat_index(seat_id);
                match spec_interaction(
                    old(self).windows@[i],
                    old(self).seats@[k],
                    old(self).border_width as int,
                    old(self).titlebar_height as int,
                    now_ms,
                ) {
                    Interaction::Resize { edges } => resize_done(*old(self), *final(self), cmds@, i, k, edges),
                    Interaction::Close { double } => close_done(*old(self), *final(self), cmds@, i, k, now_ms, double),
                    Interaction::Move { on_row } => move_done(*old(self), *final(self), cmds@, i, k, on_row),
                    Interaction::Hide => hide_done(*old(self), *final(self), cmds@, i, k),
                    Interaction::Maximize => maximize_done(*old(self), *final(self), cmds@, i, k),
                    Interaction::Nothing => *final(self) == *old(self) && cmds@.len() == 0,
                }
            },
    {
        let k = match self.find_seat(seat_id) {
            Some(k) => k,
            None => return Vec::new(),
        };
        let i = match self.find_window(window_id) {
            Some(i) => i,
            None => return Vec::new(),
        };
        let st = self.seats[k];
        let act = decide_interaction(&self.windows[i], &st, self.border_width, self.titlebar_height, now_ms);
        match act {
            Interaction::Resize { edges } => self.press_resize(i, k, edges),
            Interaction::Close { double } => self.press_close(i, k, now_ms, double),
            Interaction::Move { on_row } => self.press_move(i, k, on_row),
            Interaction::Hide => self.press_hide(i, k),
            Interaction::Maximize => self.press_maximize(i, k),
            Interaction::Nothing => Vec::new(),
        }
    }

    #[verifier::spinoff_prover]
    fn press_resize(&mut self, i: usize, k: usize, edges: u32) -> (cmds: Vec<Command>)
        requires
            old(self).wf(),
            i < old(self).windows@.len(),
            k < old(self).seats@.len(),
            hover_fits(old(self).windows@, old(self).seats@[k as int], old(self).border_width as int, old(self).titlebar_height as int),
        ensures
            final(self).wf(),
            resize_done(*old(self), *final(self), cmds@, i as int, k as int, edges),
    {
        let st = self.seats[k];
        let seat_id = st.id;
        let window_id = self.windows[i].id;
        let mut cmds: Vec<Command> = Vec::new();
        let ghost before = *self;
        let mut w = self.take_window(i);
        w.floating = true;
        let reqs = w.start_resize(seat_id, edges);
        let ghost neww = w;
        self.put_window(i, w, Ghost(before));
        push_requests(&mut cmds, window_id, reqs);
        let ghost first = lift(window_id, reqs@);
        assert(cmds@ =~= first);
        cmds.push(Command::StartPointerOp { seat: seat_id });
        proof {
            lemma_hover_same_geometry(before.windows@, i as int, neww, st, self.border_width as int, self.titlebar_height as int);
        }
        let mut more = cursor_for(&self.windows, self.focused_window, st, self.border_width, self.titlebar_height);
        let ghost cur = more@;
        cmds.append(&mut more);
        assert(cmds@ =~= first + seq![Command::StartPointerOp { seat: seat_id }] + cur);
        cmds
    }

    fn press_close(&mut self, i: usize, k: usize, now_ms: u64, double: bool) -> (cmds: Vec<Command>)
        requires
            old(self).wf(),
            i < old(self).windows@.len(),
            k < old(self).seats@.len(),
        ensures
            final(self).wf(),
            close_done(*old(self), *final(self), cmds@, i as int, k as int, now_ms, double),
    {
        let st = self.seats[k];
        let window_id = self.windows[i].id;
        self.seats.set(k, SeatState { last_close_click: Some(CloseClick { window: window_id, time_ms: now_ms }), ..st });
        proof {
            assert(seat_ids(self.seats@) =~= seat_ids(old(self).seats@));
        }
        let mut cmds: Vec<Command> = Vec::new();
        if double {
            let reqs = self.windows[i].close();
            push_requests(&mut cmds, window_id, reqs);
        }
        cmds
    }

    fn press_move(&mut self, i: usize, k: usize, on_row: bool) -> (cmds: Vec<Command>)
        requires
            old(self).wf(),
            i < old(self).windows@.len(),
            k < old(self).seats@.len(),
        ensures
            final(self).wf(),
            move_done(*old(self), *final(self), cmds@, i as int, k as int, on_row),
    {
        let st = self.seats[k];
        if on_row {
            self.set_close_click(k, None);
        }
        self.begin_move_at(i, st.id)
    }

    /// Set the last close click of the seat at index `k`.
    fn set_close_click(&mut self, k: usize, click: Option<CloseClick>)
        requires
            old(self).wf(),
            k < old(self).seats@.len(),
        ensures
            final(self).wf(),
            final(self).seats@ == old(self).seats@.update(
                k as int,
                SeatState { last_close_click: click, ..old(self).seats@[k as int] },
            ),
            *final(self) == (Context { seats: final(self).seats, ..*old(self) }),
    {
        let st = self.seats[k];
        self.seats.set(k, SeatState { last_close_click: click, ..st });
        proof {
            assert(seat_ids(self.seats@) =~= seat_ids(old(self).seats@));
        }
    }

    /// Make the window at index `i` float and move with the seat.
    fn begin_move_at(&mut self, i: usize, seat_id: SeatId) -> (cmds: Vec<Command>)
        requires
            old(self).wf(),
            i < old(self).windows@.len(),
        ensures
            final(self).wf(),
            final(self).windows@ == old(self).windows@.update(
                i as int,
                Window {
                    floating: true,
                    operator: Operator::Move {
                        start_x: old(self).windows@[i as int].x,
                        start_y: old(self).windows@[i as int].y,
                        seat: Some(seat_id),
                    },
                    ..old(self).windows@[i as int]
                },
            ),
            cmds@ == seq![Command::StartPointerOp { seat: seat_id }],
            *final(self) == (Context { windows: final(self).windows, ..*old(self) }),
    {
        let ghost before = *self;
        let mut w = self.take_window(i);
        w.floating = true;
        w.start_move(seat_id);
        self.put_window(i, w, Ghost(before));
        let mut cmds: Vec<Command> = Vec::new();
        cmds.push(Command::StartPointerOp { seat: seat_id });
        cmds
    }

    fn press_hide(&mut self, i: usize, k: usize) -> (cmds: Vec<Command>)
        requires
            old(self).wf(),
            i < old(self).windows@.len(),
            k < old(self).seats@.len(),
        ensures
            final(self).wf(),
            hide_done(*old(self), *final(self), cmds@, i as int, k as int),
    {
        let st = self.seats[k];
        let window_id = self.windows[i].id;
        self.seats.set(k, SeatState { last_close_click: None, ..st });
        proof {
            assert(seat_ids(self.seats@) =~= seat_ids(old(self).seats@));
            assert(self.windows@[i as int].id == window_id);
            assert(window_ids(self.windows@)[i as int] == window_id);
        }
        let ghost mid = *self;
        let cmds = self.hide_window(window_id);
        proof {
            assert(mid.window_index(window_id) == i) by {
                let j = mid.window_index(window_id);
                assert(window_ids(mid.windows@)[j] == window_id);
            }
        }
        cmds
    }

    fn press_maximize(&mut self, i: usize, k: usize) -> (cmds: Vec<Command>)
        requires
            old(self).wf(),
            i < old(self).windows@.len(),
            k < old(self).seats@.len(),
            maximize_output(*old(self), old(self).windows@[i as int].id) matches Some(o) ==> maximize_fits(
                usable(o),
                old(self).border_width as int,
                old(self).titlebar_height as int,
            ),
        ensures
            final(self).wf(),
            maximize_done(*old(self), *final(self), cmds@, i as int, k as int),
    {
        let st = self.seats[k];
        let window_id = self.windows[i].id;
        self.seats.set(k, SeatState { last_close_click: None, ..st });
        proof {
            assert(seat_ids(self.seats@) =~= seat_ids(old(self).seats@));
            assert(window_ids(self.windows@)[i as int] == window_id);
        }
        let ghost mid = *self;
        proof {
            assert(mid.window_index(window_id) == i) by {
                let j = mid.window_index(window_id);
                assert(window_ids(mid.windows@)[j] == window_id);
            }
            assert(maximize_output(mid, window_id) == maximize_output(*old(self), window_id));
        }
        self.maximize_window(window_id)
    }
}

/// What `focus` does.
pub open spec fn focus_done(c: Context, n: Context, cmds: Seq<Command>, window_id: WindowId) -> bool {
    &&& n.focus_stack@ == focused_stack(c.focus_stack@, window_id)
    &&& n.focused_window == Some(window_id)
    &&& n == (Context {
        focus_stack: n.focus_stack,
        focused_window: Some(window_id),
        ..c
    })
    &&& cmds == focus_commands(c, window_id)
}

/// What `zoom` does.
pub open spec fn zoom_done(c: Context, n: Context) -> bool {
    &&& c.focused_window matches Some(id) ==> n.focus_stack@ == focused_stack(c.focus_stack@, id)
    &&& c.focused_window.is_none() ==> n.focus_stack@ == c.focus_stack@
    &&& n == (Context { focus_stack: n.focus_stack, ..c })
}

/// What `focus_iter` does.
pub open spec fn focus_iter_done(c: Context, n: Context, cmds: Seq<Command>, direction: Direction, skip_floating: bool) -> bool {
    &&& match focus_iter_target(c, direction, skip_floating) {
        Some(t) => {
            &&& n.focus_stack@ == focused_stack(c.focus_stack@, t)
            &&& n == (Context {
                focus_stack: n.focus_stack,
                focused_window: Some(t),
                ..c
            })
            &&& cmds == focus_commands(c, t)
        },
        None => n == c && cmds.len() == 0,
    }
}

/// What `focus_same_app` does.
pub open spec fn focus_same_app_done(c: Context, n: Context, cmds: Seq<Command>) -> bool {
    match same_app_target(c) {
        Some(t) => {
            &&& n.focus_stack@ == focused_stack(c.focus_stack@, t)
            &&& n == (Context { focus_stack: n.focus_stack, focused_window: Some(t), ..c })
            &&& cmds == focus_commands(c, t)
        },
        None => n == c && cmds.len() == 0,
    }
}

/// What `focus_output_iter` does.
pub open spec fn focus_output_iter_done(c: Context, n: Context, cmds: Seq<Command>, direction: Direction) -> bool {
    &&& match output_iter_index(c, direction) {
        Some(k) => {
            let o = c.outputs@[k];
            let moved = Context { current_output: Some(o.id), ..c };
            match first_of(visible_ids(c.windows@, o.id, o.tag, false)) {
                Some(t) => {
                    &&& n.focus_stack@ == focused_stack(c.focus_stack@, t)
                    &&& n == (Context {
                        focus_stack: n.focus_stack,
                        focused_window: Some(t),
                        ..moved
                    })
                    &&& cmds == focus_commands(moved, t)
                },
                None => n == moved && cmds.len() == 0,
            }
        },
        None => n == c && cmds.len() == 0,
    }
}

/// What `send_to_output` does.
pub open spec fn send_to_output_done(c: Context, n: Context, direction: Direction) -> bool {
    &&& ({
        let moves = c.focused_window is Some && output_iter_index(c, direction) is Some
            && c.has_window(c.focused_window->0);
        if moves {
            let i = c.window_index(c.focused_window->0);
            let o = c.outputs@[output_iter_index(c, direction)->0];
            let w = c.windows@[i];
            n.windows@ == c.windows@.update(i, Window { output: Some(o.id), tag: o.main_tag, ..w })
        } else {
            n.windows@ == c.windows@
        }
    })
    &&& n == (Context { windows: n.windows, ..c })
}

/// What `swap_windows` does.
pub open spec fn swap_windows_done(c: Context, n: Context, direction: Direction) -> bool {
    &&& match swap_positions(c, direction) {
        Some((a, b)) => n.focus_stack@ == swapped(c.focus_stack@, a, b),
        None => n.focus_stack@ == c.focus_stack@,
    }
    &&& n == (Context { focus_stack: n.focus_stack, ..c })
}

/// What `move_focused_window` does.
pub open spec fn move_focused_window_done(c: Context, n: Context, cmds: Seq<Command>, dx: i32, dy: i32) -> bool {
    &&& focused_index(c) matches Some(i) ==> (c.windows@[i].floating ==> {
        let w = c.windows@[i];
        let (x, y) = ((w.x + dx) as i32, (w.y + dy) as i32);
        &&& n.windows@ == c.windows@.update(i, Window { x, y, position_undefined: false, ..w })
        &&& cmds == lift(w.id, if_node(w, WindowRequest::SetPosition { x, y }))
    })
    &&& !(focused_index(c) matches Some(i) && c.windows@[i].floating) ==> n.windows@
        == c.windows@ && cmds.len() == 0
    &&& n == (Context { windows: n.windows, ..c })
}

/// What `resize_focused_window` does.
pub open spec fn resize_focused_window_done(c: Context, n: Context, cmds: Seq<Command>, dw: i32, dh: i32) -> bool {
    &&& focused_index(c) matches Some(i) ==> (c.windows@[i].floating ==> {
        let w = c.windows@[i];
        let pw = max_i32(max_i32((w.width + dw) as i32, w.min_width), w.min_width);
        let ph = max_i32(max_i32((w.height + dh) as i32, w.min_height), w.min_height);
        &&& n.windows@ == c.windows@.update(
            i,
            Window { proposed_width: pw, proposed_height: ph, ..w },
        )
        &&& cmds == lift(w.id, if_window(w, WindowRequest::ProposeDimensions { width: pw, height: ph }))
    })
    &&& !(focused_index(c) matches Some(i) && c.windows@[i].floating) ==> n.windows@
        == c.windows@ && cmds.len() == 0
    &&& n == (Context { windows: n.windows, ..c })
}

/// What `snap_focused_window` does.
pub open spec fn snap_focused_window_done(c: Context, n: Context, cmds: Seq<Command>, edge: Edge) -> bool {
    &&& match (current_area(c), focused_floating(c)) {
        (Some(a), Some(i)) => {
            let w = c.windows@[i];
            let t = snap_target(edge, a, w);
            let (x, y) = (t.0 as i32, t.1 as i32);
            &&& n.windows@ == c.windows@.update(i, Window { x, y, position_undefined: false, ..w })
            &&& cmds == lift(w.id, if_node(w, WindowRequest::SetPosition { x, y }))
        },
        _ => n.windows@ == c.windows@ && cmds.len() == 0,
    }
    &&& n == (Context { windows: n.windows, ..c })
}

/// What `toggle_floating` does.
pub open spec fn toggle_floating_done(c: Context, n: Context) -> bool {
    &&& focused_index(c) matches Some(i) ==> n.windows@ == c.windows@.update(
        i,
        Window { floating: !c.windows@[i].floating, ..c.windows@[i] },
    )
    &&& focused_index(c).is_none() ==> n.windows@ == c.windows@
    &&& n == (Context { windows: n.windows, ..c })
}

/// What `toggle_swallow` does.
pub open spec fn toggle_swallow_done(c: Context, n: Context) -> bool {
    &&& focused_index(c) matches Some(i) ==> n.windows@ == c.windows@.update(
        i,
        Window { disable_swallow: !c.windows@[i].disable_swallow, ..c.windows@[i] },
    )
    &&& focused_index(c).is_none() ==> n.windows@ == c.windows@
    &&& n == (Context { windows: n.windows, ..c })
}

/// What `toggle_fullscreen` does.
pub open spec fn toggle_fullscreen_done(c: Context, n: Context, cmds: Seq<Command>) -> bool {
    &&& n.windows@ == toggled_windows(c)
    &&& cmds == toggle_commands(c)
    &&& n == (Context { windows: n.windows, ..c })
}

/// What `hide_window` does.
pub open spec fn hide_window_done(c: Context, n: Context, cmds: Seq<Command>, window_id: WindowId) -> bool {
    &&& c.has_window(window_id) ==> {
        let i = c.window_index(window_id);
        let w = c.windows@[i];
        &&& n.windows@ == c.windows@.update(i, Window { hidden: true, ..w })
        &&& cmds == lift(window_id, if w.hidden { seq![] } else { if_window(w, WindowRequest::Hide) })
    }
    &&& !c.has_window(window_id) ==> n.windows@ == c.windows@ && cmds.len() == 0
    &&& n == (Context { windows: n.windows, ..c })
}

/// What `maximize_window` does.
pub open spec fn maximize_window_done(c: Context, n: Context, cmds: Seq<Command>, window_id: WindowId) -> bool {
    &&& ({
        let acts = c.has_window(window_id) && maximize_output(c, window_id) is Some;
        if acts {
            let i = c.window_index(window_id);
            let w = c.windows@[i];
            let g = maximized_geometry(
                usable(maximize_output(c, window_id)->0),
                c.border_width as int,
                c.titlebar_height as int,
            );
            let (x, y) = (g.0 as i32, g.1 as i32);
            let pw = max_i32(g.2 as i32, w.min_width);
            let ph = max_i32(g.3 as i32, w.min_height);
            &&& n.windows@ == c.windows@.update(
                i,
                Window {
                    floating: true,
                    x,
                    y,
                    position_undefined: false,
                    proposed_width: pw,
                    proposed_height: ph,
                    maximized: true,
                    ..w
                },
            )
            &&& cmds == lift(
                window_id,
                if_node(w, WindowRequest::SetPosition { x, y }) + if_window(
                    w,
                    WindowRequest::ProposeDimensions { width: pw, height: ph },
                ) + if_window(w, WindowRequest::InformMaximized),
            )
        } else {
            n.windows@ == c.windows@ && cmds.len() == 0
        }
    })
    &&& n == (Context { windows: n.windows, ..c })
}

/// What `start_pointer_move` does.
pub open spec fn start_pointer_move_done(c: Context, n: Context, cmds: Seq<Command>, seat_id: SeatId) -> bool {
    &&& n.focus_stack@ == after_below_stack(c, seat_id)
    &&& n.focused_window == after_below_focus(c, seat_id)
    &&& n.windows@ == moved_windows(
        c.windows@,
        after_below_focus(c, seat_id),
        c.has_seat(seat_id),
        seat_id,
    )
    &&& cmds == below_commands(c, seat_id) + if operated_index(
        c.windows@,
        after_below_focus(c, seat_id),
        c.has_seat(seat_id),
    ) is Some {
        seq![Command::StartPointerOp { seat: seat_id }]
    } else {
        seq![]
    }
    &&& n == (Context {
        windows: n.windows,
        focus_stack: n.focus_stack,
        focused_window: n.focused_window,
        ..c
    })
}

/// What `start_pointer_resize` does.
pub open spec fn start_pointer_resize_done(c: Context, n: Context, cmds: Seq<Command>, seat_id: SeatId) -> bool {
    &&& n.focus_stack@ == after_below_stack(c, seat_id)
    &&& n.focused_window == after_below_focus(c, seat_id)
    &&& match operated_index(c.windows@, after_below_focus(c, seat_id), c.has_seat(seat_id)) {
        Some(i) => {
            let w = c.windows@[i];
            let st = c.seat(seat_id);
            let edges = pointer_edges(w, st);
            &&& n.windows@ == resized_at(c.windows@, i, seat_id, edges)
            &&& cmds == below_commands(c, seat_id) + lift(w.id, if_window(w, WindowRequest::InformResizeStart))
                + seq![Command::StartPointerOp { seat: seat_id }] + if edges != 0 {
                seq![Command::SetCursorShape { seat: seat_id, shape: spec_cursor_shape(edges) }]
            } else {
                seq![]
            }
        },
        None => n.windows@ == c.windows@ && cmds == below_commands(c, seat_id),
    }
    &&& n == (Context {
        windows: n.windows,
        focus_stack: n.focus_stack,
        focused_window: n.focused_window,
        ..c
    })
}


/// An output after `set_tag(tag)`.
pub open spec fn tag_set(o: Output, tag: u32) -> Output {
    if tag == 0 {
        o
    } else {
        Output { prev_tag: o.tag, prev_main_tag: o.main_tag, tag, main_tag: lowest_bit(tag), ..o }
    }
}

/// An output after `toggle_tag(mask)`.
pub open spec fn tag_toggled(o: Output, mask: u32) -> Output {
    if o.tag ^ mask == 0 {
        o
    } else {
        Output {
            prev_tag: o.tag,
            prev_main_tag: o.main_tag,
            tag: o.tag ^ mask,
            main_tag: if o.main_tag & (o.tag ^ mask) == 0 {
                lowest_bit(o.tag ^ mask)
            } else {
                o.main_tag
            },
            ..o
        }
    }
}

/// How an action changes an output's tags.
#[derive(Debug, Clone, Copy, PartialEq, Eq, Structural)]
pub enum TagChange {
    Assign(u32),
    Toggle(u32),
    Previous,
}

pub open spec fn tag_changed(o: Output, change: TagChange) -> Output {
    match change {
        TagChange::Assign(t) => tag_set(o, t),
        TagChange::Toggle(m) => tag_toggled(o, m),
        TagChange::Previous => switched(o),
    }
}

/// Index of the current output, when it exists.
pub open spec fn current_index(c: Context) -> Option<int> {
    match c.current_output {
        Some(o) => if c.has_output(o) {
            Some(c.output_index(o))
        } else {
            None
        },
        None => None,
    }
}

/// What a change of the current output's tags does.
pub open spec fn output_tags_done(c: Context, n: Context, change: TagChange) -> bool {
    &&& n.outputs@ == match current_index(c) {
        Some(k) => c.outputs@.update(k, tag_changed(c.outputs@[k], change)),
        None => c.outputs@,
    }
    &&& n == (Context { outputs: n.outputs, ..c })
}

/// What a change of the focused window's tags does: `set` gives it
/// `value`; otherwise `value` is toggled, unless no tag would remain.
pub open spec fn window_tags_done(c: Context, n: Context, set: bool, value: u32) -> bool {
    &&& n.windows@ == match focused_index(c) {
        Some(i) => {
            let w = c.windows@[i];
            c.windows@.update(
                i,
                Window {
                    tag: if set {
                        value
                    } else if w.tag ^ value != 0 {
                        w.tag ^ value
                    } else {
                        w.tag
                    },
                    ..w
                },
            )
        },
        None => c.windows@,
    }
    &&& n == (Context { windows: n.windows, ..c })
}

/// The command that runs `argv`, when it is not empty.
pub open spec fn spawn_commands(argv: Vec<String>) -> Seq<Command> {
    if argv@.len() > 0 {
        seq![Command::Spawn { argv }]
    } else {
        seq![]
    }
}

/// The commands that close the focused window.
pub open spec fn close_commands(c: Context) -> Seq<Command> {
    match focused_index(c) {
        Some(i) => lift(c.windows@[i].id, if_window(c.windows@[i], WindowRequest::Close)),
        None => seq![],
    }
}

/// The command runs `cmd` with `sh -c`.
pub open spec fn is_shell_command(cmds: Seq<Command>, cmd: Seq<char>) -> bool {
    &&& cmds.len() == 1
    &&& cmds[0] matches Command::Spawn { argv } && argv@.len() == 3 && argv@[0]@ == "sh"@ && argv@[1]@ == "-c"@
        && argv@[2]@ == cmd
}

/// The actions can be carried out within `i32` arithmetic.
pub open spec fn action_ok(c: Context, action: Action, seat: SeatId) -> bool {
    match action {
        Action::Move { step } => focused_index(c) matches Some(i) ==> {
            let w = c.windows@[i];
            w.floating ==> i32::MIN <= w.x + step.horizontal <= i32::MAX && i32::MIN <= w.y + step.vertical <= i32::MAX
        },
        Action::Resize { step } => focused_index(c) matches Some(i) ==> {
            let w = c.windows@[i];
            w.floating ==> i32::MIN <= w.width + step.horizontal <= i32::MAX && i32::MIN <= w.height + step.vertical
                <= i32::MAX
        },
        Action::Snap { edge } => current_area(c) matches Some(a) ==> (focused_floating(c) matches Some(i) ==> snap_fits(
            edge,
            a,
            c.windows@[i],
        )),
        Action::PointerResize => operated_index(c.windows@, after_below_focus(c, seat), c.has_seat(seat)) matches Some(
            i,
        ) ==> pointer_edges_fit(c.windows@[i]),
        Action::MaximizeFocused => c.focused_window matches Some(id) ==> (maximize_output(c, id) matches Some(o)
            ==> maximize_fits(usable(o), c.border_width as int, c.titlebar_height as int)),
        Action::SnapHalf { side } => snap_half_ok(c, side),
        _ => true,
    }
}

/// What `execute_action` does for each action.
pub open spec fn execute_done(c: Context, n: Context, cmds: Seq<Command>, action: Action, seat: SeatId) -> bool {
    match action {
        Action::Quit => n == (Context { running: false, ..c }) && cmds.len() == 0,
        Action::Close => n == c && cmds == close_commands(c),
        Action::Spawn { argv } => n == c && cmds == spawn_commands(argv),
        Action::SpawnShell { cmd } => n == c && is_shell_command(cmds, cmd@),
        Action::FocusIter { direction, skip_floating } => focus_iter_done(c, n, cmds, direction, skip_floating),
        Action::FocusOutputIter { direction } => focus_output_iter_done(c, n, cmds, direction),
        Action::SendToOutput { direction } => send_to_output_done(c, n, direction) && cmds.len() == 0,
        Action::Swap { direction } => swap_windows_done(c, n, direction) && cmds.len() == 0,
        Action::Move { step } => move_focused_window_done(c, n, cmds, step.horizontal, step.vertical),
        Action::Resize { step } => resize_focused_window_done(c, n, cmds, step.horizontal, step.vertical),
        Action::PointerMove => start_pointer_move_done(c, n, cmds, seat),
        Action::PointerResize => start_pointer_resize_done(c, n, cmds, seat),
        Action::Snap { edge } => snap_focused_window_done(c, n, cmds, edge),
        Action::SwitchMode { mode } => n == c && cmds == if c.has_seat(seat) {
            seq![Command::SwitchMode { seat, mode }]
        } else {
            seq![]
        },
        Action::ToggleFullscreen { in_window } => toggle_fullscreen_done(c, n, cmds),
        Action::ToggleFloating => toggle_floating_done(c, n) && cmds.len() == 0,
        Action::ToggleSwallow => toggle_swallow_done(c, n) && cmds.len() == 0,
        Action::Zoom => zoom_done(c, n) && cmds.len() == 0,
        Action::HideFocused => match c.focused_window {
            Some(id) => hide_window_done(c, n, cmds, id),
            None => n == c && cmds.len() == 0,
        },
        Action::StepBackFocused => step_back_done(c, n, cmds),
        Action::FocusSameApp => focus_same_app_done(c, n, cmds),
        Action::SnapHalf { side } => snap_half_done(c, n, cmds, side),
        Action::MaximizeFocused => match c.focused_window {
            Some(id) => maximize_window_done(c, n, cmds, id),
            None => n == c && cmds.len() == 0,
        },
        Action::SetOutputTag { tag } => output_tags_done(c, n, TagChange::Assign(tag)) && cmds.len() == 0,
        Action::SetWindowTag { tag } => window_tags_done(c, n, true, tag) && cmds.len() == 0,
        Action::ToggleOutputTag { mask } => output_tags_done(c, n, TagChange::Toggle(mask)) && cmds.len() == 0,
        Action::ToggleWindowTag { mask } => window_tags_done(c, n, false, mask) && cmds.len() == 0,
        Action::SwitchToPreviousTag => output_tags_done(c, n, TagChange::Previous) && cmds.len() == 0,
        _ => n == c && cmds.len() == 0,
    }
}

impl Context {
    /// The command that runs `argv` detached, unless it is empty.
    pub fn spawn(&self, argv: Vec<String>) -> (cmds: Vec<Command>)
        ensures
            cmds@ == spawn_commands(argv),
    {
        let mut cmds: Vec<Command> = Vec::new();
        if argv.len() == 0 {
            return cmds;
        }
        cmds.push(Command::Spawn { argv });
        cmds
    }

    /// The command that runs `cmd` with `sh -c`.
    pub fn spawn_shell(&self, cmd: &str) -> (cmds: Vec<Command>)
        ensures
            is_shell_command(cmds@, cmd@),
    {
        let mut argv: Vec<String> = Vec::new();
        argv.push("sh".to_owned());
        argv.push("-c".to_owned());
        argv.push(cmd.to_owned());
        let mut cmds: Vec<Command> = Vec::new();
        cmds.push(Command::Spawn { argv });
        cmds
    }

    /// Change the tags of the current output.
    fn change_output_tags(&mut self, change: TagChange)
        requires
            old(self).wf(),
        ensures
            final(self).wf(),
            output_tags_done(*old(self), *final(self), change),
    {
        if let Some(k) = self.current_output_index() {
            let ghost ids = output_ids(self.outputs@);
            let ghost outs = self.outputs@;
            let mut o = self.outputs.remove(k);
            match change {
                TagChange::Assign(t) => o.set_tag(t),
                TagChange::Toggle(m) => o.toggle_tag(m),
                TagChange::Previous => o.switch_to_previous_tag(),
            }
            self.outputs.insert(k, o);
            proof {
                lemma_remove_insert(outs, k as int, o);
                assert(output_ids(self.outputs@) =~= ids);
                assert forall|a: int| 0 <= a < self.outputs@.len() implies (#[trigger] self.outputs@[a]).tags_wf() by {
                    if a != k {
                        assert(self.outputs@[a] == outs[a]);
                    }
                }
            }
        }
    }

    /// Change the tags of the focused window.
    #[verifier::spinoff_prover]
    fn change_window_tags(&mut self, set: bool, value: u32)
        requires
            old(self).wf(),
        ensures
            final(self).wf(),
            window_tags_done(*old(self), *final(self), set, value),
    {
        if let Some(window_id) = self.focused_window {
            if let Some(i) = self.find_window(window_id) {
                let tag = self.windows[i].tag;
                let new_tag = if set {
                    value
                } else if tag ^ value != 0 {
                    tag ^ value
                } else {
                    tag
                };
                self.retag_at(i, new_tag);
            }
        }
    }

    /// Give the window at index `i` the tags `tag`.
    fn retag_at(&mut self, i: usize, tag: u32)
        requires
            old(self).wf(),
            i < old(self).windows@.len(),
        ensures
            final(self).wf(),
            final(self).windows@ == old(self).windows@.update(i as int, Window { tag, ..old(self).windows@[i as int] }),
            *final(self) == (Context { windows: final(self).windows, ..*old(self) }),
    {
        let ghost before = *self;
        let mut w = self.take_window(i);
        w.set_tag(tag);
        self.put_window(i, w, Ghost(before));
    }

    /// The commands that close the focused window.
    fn close_focused(&self) -> (cmds: Vec<Command>)
        requires
            self.wf(),
        ensures
            cmds@ == close_commands(*self),
    {
        let mut cmds: Vec<Command> = Vec::new();
        if let Some(window_id) = self.focused_window {
            if let Some(i) = self.find_window(window_id) {
                let reqs = self.windows[i].close();
                push_requests(&mut cmds, window_id, reqs);
            }
        }
        cmds
    }

    /// Carry out a binding action from the seat `seat_id`.
    #[verifier::spinoff_prover]
    pub fn execute_action(&mut self, action: Action, seat_id: SeatId) -> (cmds: Vec<Command>)
        requires
            old(self).wf(),
            action_ok(*old(self), action, seat_id),
        ensures
            final(self).wf(),
            execute_done(*old(self), *final(self), cmds@, action, seat_id),
    {
        match action {
            Action::Quit => {
                self.running = false;
                Vec::new()
            },
            Action::Close => self.close_focused(),
            Action::Spawn { argv } => self.spawn(argv),
            Action::SpawnShell { cmd } => self.spawn_shell(cmd.as_str()),
            Action::FocusIter { direction, skip_floating } => self.focus_iter(direction, skip_floating),
            Action::FocusOutputIter { direction } => self.focus_output_iter(direction),
            Action::SendToOutput { direction } => {
                self.send_to_output(direction);
                Vec::new()
            },
            Action::Swap { direction } => {
                self.swap_windows(direction);
                Vec::new()
            },
            Action::Move { step } => self.move_focused_window(step.horizontal, step.vertical),
            Action::Resize { step } => self.resize_focused_window(step.horizontal, step.vertical),
            Action::PointerMove => self.start_pointer_move(seat_id),
            Action::PointerResize => self.start_pointer_resize(seat_id),
            Action::Snap { edge } => self.snap_focused_window(edge),
            Action::SwitchMode { mode } => {
                let mut cmds: Vec<Command> = Vec::new();
                if self.find_seat(seat_id).is_some() {
                    cmds.push(Command::SwitchMode { seat: seat_id, mode });
                }
                cmds
            },
            Action::ToggleFullscreen { in_window } => self.toggle_fullscreen(in_window),
            Action::ToggleFloating => {
                self.toggle_floating();
                Vec::new()
            },
            Action::ToggleSwallow => {
                self.toggle_swallow();
                Vec::new()
            },
            Action::Zoom => {
                self.zoom();
                Vec::new()
            },
            Action::HideFocused => match self.focused_window {
                Some(id) => self.hide_window(id),
                None => Vec::new(),
            },
            Action::StepBackFocused => self.step_back_focused(),
            Action::FocusSameApp => self.focus_same_app(),
            Action::SnapHalf { side } => self.snap_half(side),
            Action::MaximizeFocused => match self.focused_window {
                Some(id) => self.maximize_window(id),
                None => Vec::new(),
            },
            Action::SetOutputTag { tag } => {
                self.change_output_tags(TagChange::Assign(tag));
                Vec::new()
            },
            Action::SetWindowTag { tag } => {
                self.change_window_tags(true, tag);
                Vec::new()
            },
            Action::ToggleOutputTag { mask } => {
                self.change_output_tags(TagChange::Toggle(mask));
                Vec::new()
            },
            Action::ToggleWindowTag { mask } => {
                self.change_window_tags(false, mask);
                Vec::new()
            },
            Action::SwitchToPreviousTag => {
                self.change_output_tags(TagChange::Previous);
                Vec::new()
            },
            Action::ToggleBar => Vec::new(),
            Action::ActivateMenuHovered => Vec::new(),
            Action::WindowMenuCycle => Vec::new(),
            Action::WindowMenuCommit => Vec::new(),
        }
    }
}


/// The request that asks for a decoration style.
pub open spec fn decoration_request(d: WindowDecoration) -> WindowRequest {
    match d {
        WindowDecoration::Csd => WindowRequest::UseCsd,
        WindowDecoration::Ssd => WindowRequest::UseSsd,
    }
}

/// The size first proposed to a new window: half its output's usable area
/// when that exists and is not empty, else 800 by 600.
pub open spec fn init_dims(c: Context, w: Window) -> (i32, i32) {
    match w.output {
        Some(o) => if c.has_output(o) {
            let a = usable(c.output(o));
            if a.2 > 0 && a.3 > 0 {
                ((a.2 / 2) as i32, (a.3 / 2) as i32)
            } else {
                (800i32, 600i32)
            }
        } else {
            (800i32, 600i32)
        },
        None => (800i32, 600i32),
    }
}

/// A new window after its rules are applied and a size is proposed.
pub open spec fn init_window(c: Context, w: Window) -> Window {
    let w1 = with_rules(w, spec_apply_rules(c.rules@, opt_string_view(w.app_id), opt_string_view(w.title)));
    let d = init_dims(c, w1);
    Window { proposed_width: max_i32(d.0, w1.min_width), proposed_height: max_i32(d.1, w1.min_height), ..w1 }
}

/// The requests sent to a new window: its decoration, then its size.
pub open spec fn init_requests(c: Context, w: Window) -> Seq<WindowRequest> {
    let w1 = with_rules(w, spec_apply_rules(c.rules@, opt_string_view(w.app_id), opt_string_view(w.title)));
    let w2 = init_window(c, w);
    (match w1.decoration {
        Some(d) => if_window(w1, decoration_request(d)),
        None => seq![],
    }) + if_window(w1, WindowRequest::ProposeDimensions { width: w2.proposed_width, height: w2.proposed_height })
}

/// What handling an event of window `id` does.
pub open spec fn window_event_done(c: Context, n: Context, cmds: Seq<Command>, id: WindowId, event: WindowEvent) -> bool {
    match event {
        WindowEvent::Init => {
            &&& n.focus_stack@ == focused_stack(c.focus_stack@, id)
            &&& n.focused_window == Some(id)
            &&& if c.has_window(id) {
                let i = c.window_index(id);
                &&& n.windows@ == c.windows@.update(i, init_window(c, c.windows@[i]))
                &&& cmds == lift(id, init_requests(c, c.windows@[i])) + focus_commands(c, id)
            } else {
                n.windows@ == c.windows@ && cmds == focus_commands(c, id)
            }
            &&& n == (Context { windows: n.windows, focus_stack: n.focus_stack, focused_window: n.focused_window, ..c })
        },
        WindowEvent::Fullscreen(output) => {
            &&& n.windows@ == c.windows@
            &&& n == (Context { windows: n.windows, ..c })
            &&& cmds == if c.has_window(id) && output is Some && c.has_output(output->0) && c.output(
                output->0,
            ).has_rwm_output {
                lift(
                    id,
                    if c.window(id).has_rwm_window {
                        seq![WindowRequest::Fullscreen { output: output->0 }, WindowRequest::InformFullscreen]
                    } else {
                        seq![]
                    },
                )
            } else {
                seq![]
            }
        },
        WindowEvent::Unfullscreen => if c.has_window(id) {
            let i = c.window_index(id);
            let w = c.windows@[i];
            &&& n.windows@ == c.windows@.update(i, Window { fullscreen: FullscreenState::Off, ..w })
            &&& cmds == lift(
                id,
                if w.has_rwm_window {
                    seq![WindowRequest::ExitFullscreen, WindowRequest::InformNotFullscreen]
                } else {
                    seq![]
                },
            )
            &&& n == (Context { windows: n.windows, ..c })
        } else {
            n == c && cmds.len() == 0
        },
        WindowEvent::Move(seat) => if c.has_seat(seat) {
            start_pointer_move_done(c, n, cmds, seat)
        } else {
            n == c && cmds.len() == 0
        },
        WindowEvent::Resize(seat, edges) => if c.has_window(id) && c.has_seat(seat) {
            let i = c.window_index(id);
            let w = c.windows@[i];
            &&& n.windows@ == c.windows@.update(
                i,
                Window {
                    operator: Operator::Resize {
                        start_x: w.x,
                        start_y: w.y,
                        start_width: w.width,
                        start_height: w.height,
                        edges,
                        seat: Some(seat),
                    },
                    ..w
                },
            )
            &&& cmds == lift(id, if_window(w, WindowRequest::InformResizeStart)) + seq![Command::StartPointerOp { seat }]
            &&& n == (Context { windows: n.windows, ..c })
        } else {
            n == c && cmds.len() == 0
        },
        _ => n == c && cmds.len() == 0,
    }
}

impl Context {
    /// Apply the rules to the window at index `i`, ask for its decoration
    /// and propose its first size.
    fn init_window_at(&mut self, i: usize) -> (cmds: Vec<Command>)
        requires
            old(self).wf(),
            i < old(self).windows@.len(),
        ensures
            final(self).wf(),
            final(self).windows@ == old(self).windows@.update(i as int, init_window(*old(self), old(self).windows@[i as int])),
            cmds@ == lift(old(self).windows@[i as int].id, init_requests(*old(self), old(self).windows@[i as int])),
            *final(self) == (Context { windows: final(self).windows, ..*old(self) }),
    {
        let ghost c = *self;
        let (dw, dh) = match self.windows[i].output {
            Some(o) => match self.find_output(o) {
                Some(k) => {
                    let (_ox, _oy, width, height) = self.outputs[k].usable_area();
                    if width > 0 && height > 0 {
                        (width / 2, height / 2)
                    } else {
                        (800, 600)
                    }
                },
                None => (800, 600),
            },
            None => (800, 600),
        };
        let ghost before = *self;
        let mut w = self.take_window(i);
        let id = w.id;
        self.apply_rules_to_window(&mut w);
        let mut cmds: Vec<Command> = Vec::new();
        if let Some(decoration) = w.decoration {
            let reqs = w.set_decoration(decoration);
            push_requests(&mut cmds, id, reqs);
        }
        let ghost w1 = w;
        assert(init_dims(c, w1) == (dw, dh));
        let reqs = w.propose_dimensions(dw, dh);
        push_requests(&mut cmds, id, reqs);
        self.put_window(i, w, Ghost(before));
        proof {
            let deco: Seq<WindowRequest> = match w1.decoration {
                Some(d) => if_window(w1, decoration_request(d)),
                None => seq![],
            };
            assert(lift(id, deco) + lift(id, reqs@) == lift(id, deco + reqs@));
            if w1.decoration.is_none() {
                assert(lift(id, deco) =~= Seq::<Command>::empty());
                assert(cmds@ =~= lift(id, deco) + lift(id, reqs@));
            }
        }
        cmds
    }

    /// Handle an event of the window `window_id`: a new window gets its
    /// rules, decoration and size and is focused; fullscreen requests are
    /// passed on; move and resize requests start pointer operations.
    #[verifier::spinoff_prover]
    pub fn handle_window_event(&mut self, window_id: WindowId, event: WindowEvent) -> (cmds: Vec<Command>)
        requires
            old(self).wf(),
            window_id < old(self).next_window_id,
        ensures
            final(self).wf(),
            window_event_done(*old(self), *final(self), cmds@, window_id, event),
    {
        match event {
            WindowEvent::Init => self.init_event(window_id),
            WindowEvent::Fullscreen(output) => self.fullscreen_event(window_id, output),
            WindowEvent::Unfullscreen => match self.find_window(window_id) {
                Some(i) => self.unfullscreen_at(i),
                None => Vec::new(),
            },
            WindowEvent::Move(seat) => {
                if self.find_seat(seat).is_some() {
                    self.start_pointer_move(seat)
                } else {
                    Vec::new()
                }
            },
            WindowEvent::Resize(seat, edges) => {
                let mut cmds: Vec<Command> = Vec::new();
                if let Some(i) = self.find_window(window_id) {
                    if self.find_seat(seat).is_some() {
                        let ghost before = *self;
                        let mut w = self.take_window(i);
                        let reqs = w.start_resize(seat, edges);
                        self.put_window(i, w, Ghost(before));
                        push_requests(&mut cmds, window_id, reqs);
                        let ghost first = cmds@;
                        cmds.push(Command::StartPointerOp { seat });
                        assert(cmds@ =~= first + seq![Command::StartPointerOp { seat }]);
                    }
                }
                cmds
            },
            _ => Vec::new(),
        }
    }
}


impl Context {
    /// Pass on a fullscreen request of the window `window_id` for `output`.
    fn fullscreen_event(&mut self, window_id: WindowId, output: Option<OutputId>) -> (cmds: Vec<Command>)
        requires
            old(self).wf(),
        ensures
            final(self).wf(),
            window_event_done(*old(self), *final(self), cmds@, window_id, WindowEvent::Fullscreen(output)),
    {
        let mut cmds: Vec<Command> = Vec::new();
        if let Some(i) = self.find_window(window_id) {
            if let Some(o) = output {
                if let Some(k) = self.find_output(o) {
                    if self.outputs[k].has_rwm_output {
                        let ghost before = *self;
                        let mut w = self.take_window(i);
                        let reqs = w.fullscreen_on(o);
                        self.put_window(i, w, Ghost(before));
                        proof {
                            assert(self.windows@ =~= before.windows@);
                        }
                        push_requests(&mut cmds, window_id, reqs);
                        assert(cmds@ =~= lift(window_id, reqs@));
                    }
                }
            }
        }
        cmds
    }
}


impl Context {
    /// Set up the new window `window_id` and focus it.
    fn init_event(&mut self, window_id: WindowId) -> (cmds: Vec<Command>)
        requires
            old(self).wf(),
            window_id < old(self).next_window_id,
        ensures
            final(self).wf(),
            window_event_done(*old(self), *final(self), cmds@, window_id, WindowEvent::Init),
    {
                let ghost c = *self;
                let mut cmds: Vec<Command> = Vec::new();
                if let Some(i) = self.find_window(window_id) {
                    cmds = self.init_window_at(i);
                    proof {
                        assert(window_ids(self.windows@) =~= window_ids(c.windows@)) by {
                            lemma_update_keeps_ids(c.windows@, i as int, self.windows@[i as int]);
                        }
                        assert(focus_commands(*self, window_id) == focus_commands(c, window_id));
                    }
                }
                let ghost first = cmds@;
                let ghost c1 = *self;
                assert(focus_commands(c1, window_id) == focus_commands(c, window_id));
                let mut more = self.focus(window_id);
                let ghost tail = more@;
                cmds.append(&mut more);
                assert(cmds@ == first + tail);
                proof {
                    if !c.has_window(window_id) {
                        assert(first =~= Seq::<Command>::empty());
                        assert(cmds@ =~= tail);
                    }
                }
                cmds
            }
}


/// The output a window with an undefined position is placed on: its own
/// when that exists, else the current one.
pub open spec fn target_output(c: Context, w: Window) -> Option<OutputId> {
    if w.output is Some && c.has_output(w.output->0) {
        w.output
    } else {
        c.current_output
    }
}

/// The window waits for a first position on the output `o` and shows there.
pub open spec fn placed_on(c: Context, w: Window, o: Output) -> bool {
    w.position_undefined && target_output(c, w) == Some(o.id) && visible_on(w, o.id, o.tag)
}

/// Indices of the first `n` windows that wait for a position on `o`.
pub open spec fn placed_indices(c: Context, n: nat, o: Output) -> Seq<int>
    decreases n,
{
    if n == 0 {
        seq![]
    } else {
        let rest = placed_indices(c, (n - 1) as nat, o);
        if placed_on(c, c.windows@[n - 1], o) {
            rest.push(n - 1)
        } else {
            rest
        }
    }
}

/// Where window `idx` of `len` windows is placed on the area: spread
/// evenly along the diagonal from the top left, padded by the frame,
/// windows being half the area in size.
pub open spec fn spread_pos(a: (i32, i32, i32, i32), bw: int, tbh: int, len: int, idx: int) -> (i32, i32) {
    let tw = crate::arith::max_int(a.2 / 2, 1);
    let th = crate::arith::max_int(a.3 / 2, 1);
    let pad_x = 10 + bw;
    let pad_y = 10 + bw + tbh;
    let sx = a.0 + pad_x;
    let sy = a.1 + pad_y;
    let ex = crate::arith::max_int(a.0 + a.2 - tw - pad_x, sx);
    let ey = crate::arith::max_int(a.1 + a.3 - th - pad_y, sy);
    let denom = len - 1;
    if denom == 0 {
        (sx as i32, sy as i32)
    } else {
        ((sx + (ex - sx) * idx / denom) as i32, (sy + (ey - sy) * idx / denom) as i32)
    }
}

/// The positions given to the windows waiting on output `o`.
pub open spec fn output_plan(c: Context, o: Output) -> Seq<(int, i32, i32)> {
    let g = placed_indices(c, c.windows@.len(), o);
    let a = usable(o);
    if a.2 <= 0 || a.3 <= 0 {
        seq![]
    } else {
        Seq::new(
            g.len(),
            |idx: int|
                {
                    let p = spread_pos(a, c.border_width as int, c.titlebar_height as int, g.len() as int, idx);
                    (g[idx], p.0, p.1)
                },
        )
    }
}

/// The positions given on the first `m` outputs, output by output.
pub open spec fn plan_upto(c: Context, m: nat) -> Seq<(int, i32, i32)>
    decreases m,
{
    if m == 0 {
        seq![]
    } else {
        plan_upto(c, (m - 1) as nat) + output_plan(c, c.outputs@[m - 1])
    }
}

/// The windows after the positions of `plan` are set in turn.
pub open spec fn applied_plan(ws: Seq<Window>, plan: Seq<(int, i32, i32)>) -> Seq<Window>
    decreases plan.len(),
{
    if plan.len() == 0 {
        ws
    } else {
        let prev = applied_plan(ws, plan.drop_last());
        let e = plan.last();
        prev.update(e.0, Window { x: e.1, y: e.2, position_undefined: false, ..prev[e.0] })
    }
}

/// The requests sent while the positions of `plan` are set in turn.
pub open spec fn plan_commands(ws: Seq<Window>, plan: Seq<(int, i32, i32)>) -> Seq<Command>
    decreases plan.len(),
{
    if plan.len() == 0 {
        seq![]
    } else {
        let prev = applied_plan(ws, plan.drop_last());
        let e = plan.last();
        plan_commands(ws, plan.drop_last()) + lift(prev[e.0].id, if_node(prev[e.0], WindowRequest::SetPosition { x: e.1, y: e.2 }))
    }
}

/// The spreading of `len` windows on the area stays within `i32`.
pub open spec fn spread_fits(a: (i32, i32, i32, i32), bw: int, tbh: int, len: int) -> bool {
    let tw = crate::arith::max_int(a.2 / 2, 1);
    let th = crate::arith::max_int(a.3 / 2, 1);
    let pad_x = 10 + bw;
    let pad_y = 10 + bw + tbh;
    let sx = a.0 + pad_x;
    let sy = a.1 + pad_y;
    let ex = crate::arith::max_int(a.0 + a.2 - tw - pad_x, sx);
    let ey = crate::arith::max_int(a.1 + a.3 - th - pad_y, sy);
    &&& crate::arith::fits_i32(pad_x)
    &&& crate::arith::fits_i32(10 + bw + tbh)
    &&& crate::arith::fits_i32(sx)
    &&& crate::arith::fits_i32(sy)
    &&& crate::arith::fits_i32(a.0 + a.2)
    &&& crate::arith::fits_i32(a.0 + a.2 - tw)
    &&& crate::arith::fits_i32(a.0 + a.2 - tw - pad_x)
    &&& crate::arith::fits_i32(a.1 + a.3)
    &&& crate::arith::fits_i32(a.1 + a.3 - th)
    &&& crate::arith::fits_i32(a.1 + a.3 - th - pad_y)
    &&& crate::arith::fits_i32(ex - sx)
    &&& crate::arith::fits_i32(ey - sy)
    &&& len <= i32::MAX
    &&& crate::arith::fits_i32((ex - sx) * (len - 1))
    &&& crate::arith::fits_i32((ey - sy) * (len - 1))
}

/// Every output's spreading stays within `i32`.
pub open spec fn positions_fit(c: Context) -> bool {
    forall|k: int|
        0 <= k < c.outputs@.len() ==> usable(#[trigger] c.outputs@[k]).2 > 0 && usable(c.outputs@[k]).3 > 0
            ==> spread_fits(
            usable(c.outputs@[k]),
            c.border_width as int,
            c.titlebar_height as int,
            placed_indices(c, c.windows@.len(), c.outputs@[k]).len() as int,
        )
}

impl Context {
    /// Indices of the windows that wait for a position on the output at `k`.
    fn placed_window_indices(&self, k: usize) -> (r: Vec<usize>)
        requires
            self.wf(),
            k < self.outputs@.len(),
        ensures
            r@.len() == placed_indices(*self, self.windows@.len(), self.outputs@[k as int]).len(),
            forall|t: int| 0 <= t < r@.len() ==> r@[t] as int == placed_indices(*self, self.windows@.len(), self.outputs@[k as int])[t],
            forall|t: int| 0 <= t < r@.len() ==> r@[t] < self.windows@.len(),
    {
        let oid = self.outputs[k].id;
        let otag = self.outputs[k].tag;
        let mut r: Vec<usize> = Vec::new();
        let mut j: usize = 0;
        while j < self.windows.len()
            invariant
                self.wf(),
                k < self.outputs@.len(),
                oid == self.outputs@[k as int].id,
                otag == self.outputs@[k as int].tag,
                0 <= j <= self.windows@.len(),
                r@.len() == placed_indices(*self, j as nat, self.outputs@[k as int]).len(),
                forall|t: int| 0 <= t < r@.len() ==> r@[t] as int == placed_indices(*self, j as nat, self.outputs@[k as int])[t],
                forall|t: int| 0 <= t < r@.len() ==> r@[t] < j,
            decreases self.windows@.len() - j,
        {
            let w = &self.windows[j];
            let target = match w.output {
                Some(o) => if self.find_output(o).is_some() {
                    Some(o)
                } else {
                    self.current_output
                },
                None => self.current_output,
            };
            if w.position_undefined && target == Some(oid) && w.is_visible_on(oid, otag) {
                r.push(j);
            }
            j = j + 1;
        }
        r
    }

    /// Give a first position to the windows that wait for one: on each
    /// output, spread evenly along the diagonal of the usable area, in the
    /// order of their ids.
    pub fn apply_initial_positions(&mut self) -> (cmds: Vec<Command>)
        requires
            old(self).wf(),
            positions_fit(*old(self)),
        ensures
            final(self).wf(),
            final(self).windows@ == applied_plan(old(self).windows@, plan_upto(*old(self), old(self).outputs@.len())),
            cmds@ == plan_commands(old(self).windows@, plan_upto(*old(self), old(self).outputs@.len())),
            *final(self) == (Context { windows: final(self).windows, ..*old(self) }),
    {
        let ghost c = *self;
        let mut plan: Vec<(usize, i32, i32)> = Vec::new();
        let mut k: usize = 0;
        while k < self.outputs.len()
            invariant
                *self == c,
                c.wf(),
                positions_fit(c),
                0 <= k <= c.outputs@.len(),
                plan@.len() == plan_upto(c, k as nat).len(),
                forall|t: int|
                    0 <= t < plan@.len() ==> (plan@[t].0 as int, plan@[t].1, plan@[t].2) == plan_upto(c, k as nat)[t],
                forall|t: int| 0 <= t < plan@.len() ==> plan@[t].0 < c.windows@.len(),
            decreases c.outputs@.len() - k,
        {
            let group = self.placed_window_indices(k);
            let (ax, ay, aw, ah) = self.outputs[k].usable_area();
            let ghost before = plan@;
            let ghost op = output_plan(c, c.outputs@[k as int]);
            if aw > 0 && ah > 0 && group.len() > 0 {
                assert(spread_fits(usable(c.outputs@[k as int]), c.border_width as int, c.titlebar_height as int, group@.len() as int));
                let bw = self.border_width;
                let tbh = self.titlebar_height;
                let half_w = aw / 2;
                let half_h = ah / 2;
                let target_w = if half_w > 1 { half_w } else { 1 };
                let target_h = if half_h > 1 { half_h } else { 1 };
                let pad_x = 10 + bw;
                let pad_y = 10 + bw + tbh;
                let start_x = ax + pad_x;
                let start_y = ay + pad_y;
                let mut end_x = ax + aw - target_w - pad_x;
                let mut end_y = ay + ah - target_h - pad_y;
                if end_x < start_x {
                    end_x = start_x;
                }
                if end_y < start_y {
                    end_y = start_y;
                }
                let denom = (group.len() - 1) as i32;
                let mut idx: usize = 0;
                while idx < group.len()
                    invariant
                        *self == c,
                        0 <= idx <= group@.len(),
                        group@.len() == placed_indices(c, c.windows@.len(), c.outputs@[k as int]).len(),
                        forall|t: int| 0 <= t < group@.len() ==> group@[t] as int == placed_indices(c, c.windows@.len(), c.outputs@[k as int])[t],
                        forall|t: int| 0 <= t < group@.len() ==> group@[t] < c.windows@.len(),
                        op == output_plan(c, c.outputs@[k as int]),
                        usable(c.outputs@[k as int]) == (ax, ay, aw, ah),
                        aw > 0 && ah > 0,
                        spread_fits(usable(c.outputs@[k as int]), bw as int, tbh as int, group@.len() as int),
                        bw == c.border_width && tbh == c.titlebar_height,
                        start_x == ax + 10 + bw && start_y == ay + 10 + bw + tbh,
                        end_x == crate::arith::max_int(ax + aw - crate::arith::max_int(aw / 2, 1) - (10 + bw), start_x as int),
                        end_y == crate::arith::max_int(ay + ah - crate::arith::max_int(ah / 2, 1) - (10 + bw + tbh), start_y as int),
                        denom == group@.len() - 1,
                        plan@.len() == before.len() + idx,
                        forall|t: int| 0 <= t < before.len() ==> plan@[t] == before[t],
                        forall|t: int| 0 <= t < idx ==> (plan@[before.len() + t].0 as int, plan@[before.len() + t].1, plan@[before.len() + t].2) == op[t],
                        forall|t: int| 0 <= t < plan@.len() ==> plan@[t].0 < c.windows@.len(),
                    decreases group@.len() - idx,
                {
                    let (x, y) = if denom == 0 {
                        (start_x, start_y)
                    } else {
                        proof {
                            crate::arith::lemma_mul_between(idx as int, denom as int, (end_x - start_x) as int);
                            crate::arith::lemma_mul_between(idx as int, denom as int, (end_y - start_y) as int);
                            assert(0 <= (end_x - start_x) * idx <= (end_x - start_x) * denom) by (nonlinear_arith)
                                requires
                                    0 <= idx <= denom,
                                    end_x - start_x >= 0,
                            ;
                            assert(0 <= (end_x - start_x) * idx / (denom as int) <= end_x - start_x) by (nonlinear_arith)
                                requires
                                    0 <= idx <= denom,
                                    denom > 0,
                                    end_x - start_x >= 0,
                            ;
                            assert(0 <= (end_y - start_y) * idx <= (end_y - start_y) * denom) by (nonlinear_arith)
                                requires
                                    0 <= idx <= denom,
                                    end_y - start_y >= 0,
                            ;
                            assert(0 <= (end_y - start_y) * idx / (denom as int) <= end_y - start_y) by (nonlinear_arith)
                                requires
                                    0 <= idx <= denom,
                                    denom > 0,
                                    end_y - start_y >= 0,
                            ;
                        }
                        let i32_idx = idx as i32;
                        (start_x + (end_x - start_x) * i32_idx / denom, start_y + (end_y - start_y) * i32_idx / denom)
                    };
                    plan.push((group[idx], x, y));
                    idx = idx + 1;
                }
            }
            proof {
                let pu = plan_upto(c, (k + 1) as nat);
                assert(pu == plan_upto(c, k as nat) + op);
                if !(aw > 0 && ah > 0 && group@.len() > 0) {
                    assert(op =~= Seq::<(int, i32, i32)>::empty());
                }
                assert forall|t: int| 0 <= t < plan@.len() implies (plan@[t].0 as int, plan@[t].1, plan@[t].2) == pu[t] by {
                    if t >= before.len() {
                        assert(pu[t] == op[t - before.len()]);
                    }
                }
            }
            k = k + 1;
        }
        let ghost full = plan_upto(c, c.outputs@.len());
        let mut cmds: Vec<Command> = Vec::new();
        let mut e: usize = 0;
        while e < plan.len()
            invariant
                c.wf(),
                self.wf(),
                0 <= e <= plan@.len(),
                plan@.len() == full.len(),
                forall|t: int| 0 <= t < plan@.len() ==> (plan@[t].0 as int, plan@[t].1, plan@[t].2) == full[t],
                forall|t: int| 0 <= t < plan@.len() ==> plan@[t].0 < c.windows@.len(),
                self.windows@ == applied_plan(c.windows@, full.subrange(0, e as int)),
                self.windows@.len() == c.windows@.len(),
                cmds@ == plan_commands(c.windows@, full.subrange(0, e as int)),
                *self == (Context { windows: self.windows, ..c }),
            decreases plan@.len() - e,
        {
            let (i, x, y) = plan[e];
            proof {
                assert(full.subrange(0, e + 1).drop_last() == full.subrange(0, e as int));
                assert(full.subrange(0, e + 1).last() == full[e as int]);
            }
            let ghost before = *self;
            let mut w = self.take_window(i);
            let id = w.id;
            let reqs = w.set_position(x, y);
            self.put_window(i, w, Ghost(before));
            push_requests(&mut cmds, id, reqs);
            e = e + 1;
        }
        assert(full.subrange(0, plan@.len() as int) == full);
        cmds
    }
}


/// Every edge of a window, as a bit set.
pub const ALL_EDGES: u32 = 15;

/// The requests that show a window when it is hidden.
pub open spec fn show_requests(w: Window) -> Seq<WindowRequest> {
    if !w.hidden {
        seq![]
    } else {
        if_window(w, WindowRequest::Show)
    }
}

/// The requests that hide a window when it is shown.
pub open spec fn hide_requests(w: Window) -> Seq<WindowRequest> {
    if w.hidden {
        seq![]
    } else {
        if_window(w, WindowRequest::Hide)
    }
}

/// The commands that show the first `n` windows of `ws`.
pub open spec fn unhide_commands(ws: Seq<Window>, n: nat) -> Seq<Command>
    decreases n,
{
    if n == 0 {
        seq![]
    } else {
        unhide_commands(ws, (n - 1) as nat) + lift(ws[n - 1].id, show_requests(ws[n - 1]))
    }
}

/// Whether a window shows at render time: on the current output, or
/// everywhere on the first render.
pub open spec fn shows(cur: Option<Output>, w: Window, all: bool) -> bool {
    all || match cur {
        Some(o) => visible_on(w, o.id, o.tag),
        None => false,
    }
}

/// A window after rendering starts: shown or hidden.
pub open spec fn rendered(cur: Option<Output>, w: Window, all: bool) -> Window {
    Window { hidden: !shows(cur, w, all), ..w }
}

/// The requests that show a window without the compositor's borders, on top
/// when it is focused, or hide it.
pub open spec fn visibility_requests(w: Window, visible: bool, focused: bool) -> Seq<WindowRequest> {
    if visible {
        show_requests(w) + if_window(w, WindowRequest::SetBorders { edges: ALL_EDGES, width: 0, r: 0, g: 0, b: 0, a: 0 })
            + if focused {
            if_node(w, WindowRequest::PlaceTop)
        } else {
            seq![]
        }
    } else {
        hide_requests(w)
    }
}

/// The requests for one window when rendering starts: a shown window is
/// shown, loses the compositor's borders and, when focused, goes on top;
/// another window is hidden.
pub open spec fn render_requests(cur: Option<Output>, w: Window, all: bool, focused: Option<WindowId>) -> Seq<WindowRequest> {
    visibility_requests(w, shows(cur, w, all), focused == Some(w.id))
}

/// Show `w` without the compositor's borders, on top when `focused`, when
/// `visible`; hide it otherwise.
fn set_visibility(w: &mut Window, visible: bool, focused: bool) -> (reqs: Vec<WindowRequest>)
    ensures
        *final(w) == (Window { hidden: !visible, ..*old(w) }),
        reqs@ == visibility_requests(*old(w), visible, focused),
{
    let mut reqs: Vec<WindowRequest> = Vec::new();
    if visible {
        let mut r1 = w.show();
        let mut r2 = w.set_borders(ALL_EDGES, 0, 0, 0, 0, 0);
        reqs.append(&mut r1);
        reqs.append(&mut r2);
        if focused {
            let mut r3 = w.place_top();
            reqs.append(&mut r3);
        } else {
            assert(reqs@ =~= reqs@ + Seq::<WindowRequest>::empty());
        }
    } else {
        let mut r1 = w.make_hidden();
        reqs.append(&mut r1);
    }
    reqs
}

/// The commands for the first `n` windows of `ws` when rendering starts.
pub open spec fn render_commands(cur: Option<Output>, ws: Seq<Window>, all: bool, focused: Option<WindowId>, n: nat) -> Seq<Command>
    decreases n,
{
    if n == 0 {
        seq![]
    } else {
        render_commands(cur, ws, all, focused, (n - 1) as nat) + lift(ws[n - 1].id, render_requests(cur, ws[n - 1], all, focused))
    }
}

/// What `handle_render_start` does: waiting windows get their first
/// position, the first render shows every window, then the windows of the
/// current output (all of them on the first render) are shown and the
/// others hidden.
pub open spec fn render_start_done(c: Context, n: Context, cmds: Seq<Command>) -> bool {
    let ws1 = applied_plan(c.windows@, plan_upto(c, c.outputs@.len()));
    let all = !c.startup_unminimize_done;
    let ws2 = if all { ws1.map_values(|w: Window| Window { hidden: false, ..w }) } else { ws1 };
    let cur = current_output_of(c);
    &&& n.windows@ == ws2.map_values(|w: Window| rendered(cur, w, all))
    &&& cmds == plan_commands(c.windows@, plan_upto(c, c.outputs@.len())) + (if all {
        unhide_commands(ws1, ws1.len())
    } else {
        seq![]
    }) + render_commands(cur, ws2, all, c.focused_window, ws2.len())
    &&& n == (Context { windows: n.windows, startup_unminimize_done: true, ..c })
}

impl Context {
    /// Show every window (the first render shows minimized windows).
    fn unhide_all(&mut self) -> (cmds: Vec<Command>)
        requires
            old(self).wf(),
        ensures
            final(self).wf(),
            final(self).windows@ == old(self).windows@.map_values(|w: Window| Window { hidden: false, ..w }),
            cmds@ == unhide_commands(old(self).windows@, old(self).windows@.len()),
            *final(self) == (Context { windows: final(self).windows, ..*old(self) }),
    {
        let ghost c = *self;
        let mut cmds: Vec<Command> = Vec::new();
        let mut j: usize = 0;
        while j < self.windows.len()
            invariant
                self.wf(),
                self.windows@.len() == c.windows@.len(),
                0 <= j <= c.windows@.len(),
                forall|t: int| 0 <= t < j ==> self.windows@[t] == (Window { hidden: false, ..c.windows@[t] }),
                forall|t: int| j <= t < c.windows@.len() ==> self.windows@[t] == c.windows@[t],
                cmds@ == unhide_commands(c.windows@, j as nat),
                *self == (Context { windows: self.windows, ..c }),
            decreases c.windows@.len() - j,
        {
            let ghost before = *self;
            let mut w = self.take_window(j);
            let id = w.id;
            let reqs = w.show();
            self.put_window(j, w, Ghost(before));
            push_requests(&mut cmds, id, reqs);
            j = j + 1;
        }
        assert(self.windows@ =~= c.windows@.map_values(|w: Window| Window { hidden: false, ..w }));
        cmds
    }

    /// Show the windows on the current output (all of them when `all`) and
    /// hide the others; the focused window goes on top.
    #[verifier::spinoff_prover]
    fn render_visibility(&mut self, all: bool) -> (cmds: Vec<Command>)
        requires
            old(self).wf(),
        ensures
            final(self).wf(),
            final(self).windows@ == old(self).windows@.map_values(
                |w: Window| rendered(current_output_of(*old(self)), w, all),
            ),
            cmds@ == render_commands(
                current_output_of(*old(self)),
                old(self).windows@,
                all,
                old(self).focused_window,
                old(self).windows@.len(),
            ),
            *final(self) == (Context { windows: final(self).windows, ..*old(self) }),
    {
        let ghost c = *self;
        let ghost cur = current_output_of(c);
        let oi = self.current_output_index();
        let (has_cur, cur_id, cur_tag) = match oi {
            Some(k) => (true, self.outputs[k].id, self.outputs[k].tag),
            None => (false, 0, 0),
        };
        let mut cmds: Vec<Command> = Vec::new();
        let mut j: usize = 0;
        while j < self.windows.len()
            invariant
                self.wf(),
                self.windows@.len() == c.windows@.len(),
                0 <= j <= c.windows@.len(),
                cur == current_output_of(c),
                has_cur == cur is Some,
                has_cur ==> cur_id == cur->0.id && cur_tag == cur->0.tag,
                forall|t: int| 0 <= t < j ==> self.windows@[t] == rendered(cur, c.windows@[t], all),
                forall|t: int| j <= t < c.windows@.len() ==> self.windows@[t] == c.windows@[t],
                cmds@ == render_commands(cur, c.windows@, all, c.focused_window, j as nat),
                *self == (Context { windows: self.windows, ..c }),
            decreases c.windows@.len() - j,
        {
            let ghost before = *self;
            let mut w = self.take_window(j);
            let id = w.id;
            let visible = all || (has_cur && w.is_visible_on(cur_id, cur_tag));
            let focused = self.focused_window == Some(id);
            let reqs = set_visibility(&mut w, visible, focused);
            self.put_window(j, w, Ghost(before));
            push_requests(&mut cmds, id, reqs);
            j = j + 1;
        }
        assert(self.windows@ =~= c.windows@.map_values(|w: Window| rendered(cur, w, all)));
        cmds
    }

    /// Start a render: give waiting windows a first position, show every
    /// window on the first render, then show the windows of the current
    /// output and hide the others.
    pub fn handle_render_start(&mut self) -> (cmds: Vec<Command>)
        requires
            old(self).wf(),
            positions_fit(*old(self)),
        ensures
            final(self).wf(),
            render_start_done(*old(self), *final(self), cmds@),
    {
        let ghost c = *self;
        let mut cmds = self.apply_initial_positions();
        let ghost first = cmds@;
        let unminimize_all = !self.startup_unminimize_done;
        let ghost c1 = *self;
        if unminimize_all {
            let mut more = self.unhide_all();
            cmds.append(&mut more);
            self.startup_unminimize_done = true;
        }
        let ghost second = cmds@;
        let ghost c2 = *self;
        assert(current_output_of(c2) == current_output_of(c));
        let mut rest = self.render_visibility(unminimize_all);
        cmds.append(&mut rest);
        proof {
            if !unminimize_all {
                assert(second =~= first + Seq::<Command>::empty());
            }
        }
        cmds
    }
}

/// `d` is `c` after the queued events of the window `id` are taken out.
pub open spec fn drained(c: Context, d: Context, id: WindowId) -> bool {
    let i = c.window_index(id);
    &&& d.windows@ == c.windows@.update(i, d.windows@[i])
    &&& d.windows@[i] == (Window { unhandled_events: d.windows@[i].unhandled_events, ..c.windows@[i] })
    &&& d.windows@[i].unhandled_events@.len() == 0
    &&& d == (Context { windows: d.windows, ..c })
}

/// `n` and `cmds` come from handling the events `evs` of the window `id`
/// in order, starting from `c`.
pub open spec fn events_done(c: Context, n: Context, cmds: Seq<Command>, id: WindowId, evs: Seq<WindowEvent>) -> bool
    decreases evs.len(),
{
    if evs.len() == 0 {
        n == c && cmds.len() == 0
    } else {
        exists|mid: Context, k: int|
            0 <= k <= cmds.len() && #[trigger] window_event_done(mid, n, cmds.subrange(k, cmds.len() as int), id, evs.last())
                && events_done(c, mid, cmds.subrange(0, k), id, evs.drop_last())
    }
}

/// `n` and `cmds` come from taking the queued events of the window `id`
/// and handling them in order; nothing happens for a window that is gone.
pub open spec fn window_events_handled(c: Context, n: Context, cmds: Seq<Command>, id: WindowId) -> bool {
    if c.has_window(id) {
        exists|d: Context| #[trigger]
            drained(c, d, id) && events_done(d, n, cmds, id, c.window(id).unhandled_events@)
    } else {
        n == c && cmds.len() == 0
    }
}

/// `n` and `cmds` come from handling the queued events of the windows
/// `ids`, one window after the other.
pub open spec fn manage_done(c: Context, n: Context, cmds: Seq<Command>, ids: Seq<WindowId>) -> bool
    decreases ids.len(),
{
    if ids.len() == 0 {
        n == c && cmds.len() == 0
    } else {
        exists|mid: Context, k: int|
            0 <= k <= cmds.len() && #[trigger] window_events_handled(mid, n, cmds.subrange(k, cmds.len() as int), ids.last())
                && manage_done(c, mid, cmds.subrange(0, k), ids.drop_last())
    }
}

impl Context {
    /// Take the queued events out of the window at index `i`.
    fn drain_events_at(&mut self, i: usize, Ghost(id): Ghost<WindowId>) -> (events: Vec<WindowEvent>)
        requires
            old(self).wf(),
            i < old(self).windows@.len(),
            i == old(self).window_index(id),
        ensures
            final(self).wf(),
            events@ == old(self).windows@[i as int].unhandled_events@,
            drained(*old(self), *final(self), id),
    {
        let ghost before = *self;
        let mut w = self.take_window(i);
        let events = w.handle_events();
        self.put_window(i, w, Ghost(before));
        events
    }

    /// Handle the events `events` of the window `id` in order.
    fn handle_events_of(&mut self, id: WindowId, events: Vec<WindowEvent>) -> (cmds: Vec<Command>)
        requires
            old(self).wf(),
            id < old(self).next_window_id,
        ensures
            final(self).wf(),
            events_done(*old(self), *final(self), cmds@, id, events@),
    {
        let ghost c = *self;
        let mut cmds: Vec<Command> = Vec::new();
        let mut k: usize = 0;
        while k < events.len()
            invariant
                self.wf(),
                id < self.next_window_id,
                0 <= k <= events@.len(),
                events_done(c, *self, cmds@, id, events@.subrange(0, k as int)),
            decreases events@.len() - k,
        {
            let ghost mid = *self;
            let ghost c1 = cmds@;
            let mut more = self.handle_window_event(id, events[k]);
            let ghost c2 = more@;
            cmds.append(&mut more);
            proof {
                let pre = events@.subrange(0, k + 1);
                assert(pre.drop_last() == events@.subrange(0, k as int));
                assert(pre.last() == events@[k as int]);
                assert(cmds@.subrange(0, c1.len() as int) == c1);
                assert(cmds@.subrange(c1.len() as int, cmds@.len() as int) == c2);
                assert(events_done(c, mid, c1, id, pre.drop_last()));
                assert(window_event_done(mid, *self, cmds@.subrange(c1.len() as int, cmds@.len() as int), id, pre.last()));
                lemma_event_keeps_next(mid, *self, c2, id, events@[k as int]);
            }
            k = k + 1;
        }
        assert(events@.subrange(0, events@.len() as int) == events@);
        cmds
    }

    /// Start a manage sequence: the queued events of every window are
    /// handled, window by window in window order, oldest event first.
    pub fn handle_manage_start(&mut self) -> (cmds: Vec<Command>)
        requires
            old(self).wf(),
        ensures
            final(self).wf(),
            manage_done(*old(self), *final(self), cmds@, window_ids(old(self).windows@)),
    {
        let ghost c = *self;
        let mut ids: Vec<WindowId> = Vec::new();
        let mut j: usize = 0;
        while j < self.windows.len()
            invariant
                0 <= j <= self.windows@.len(),
                ids@ == window_ids(self.windows@).subrange(0, j as int),
            decreases self.windows@.len() - j,
        {
            ids.push(self.windows[j].id);
            j = j + 1;
        }
        assert(ids@ == window_ids(c.windows@));
        let mut cmds: Vec<Command> = Vec::new();
        let mut t: usize = 0;
        while t < ids.len()
            invariant
                self.wf(),
                0 <= t <= ids@.len(),
                ids@ == window_ids(c.windows@),
                manage_done(c, *self, cmds@, ids@.subrange(0, t as int)),
            decreases ids@.len() - t,
        {
            let id = ids[t];
            let ghost mid = *self;
            let ghost c1 = cmds@;
            let mut more: Vec<Command> = Vec::new();
            match self.find_window(id) {
                Some(i) => {
                    let events = self.drain_events_at(i, Ghost(id));
                    let ghost d = *self;
                    more = self.handle_events_of(id, events);
                    assert(drained(mid, d, id));
                },
                None => {},
            }
            let ghost c2 = more@;
            cmds.append(&mut more);
            proof {
                let pre = ids@.subrange(0, t + 1);
                assert(pre.drop_last() == ids@.subrange(0, t as int));
                assert(pre.last() == ids@[t as int]);
                assert(cmds@.subrange(0, c1.len() as int) == c1);
                assert(cmds@.subrange(c1.len() as int, cmds@.len() as int) == c2);
                assert(manage_done(c, mid, c1, pre.drop_last()));
                assert(window_events_handled(mid, *self, cmds@.subrange(c1.len() as int, cmds@.len() as int), pre.last()));
            }
            t = t + 1;
        }
        assert(ids@.subrange(0, ids@.len() as int) == ids@);
        cmds
    }
}

/// Handling a window event keeps the next window id.
proof fn lemma_event_keeps_next(c: Context, n: Context, cmds: Seq<Command>, id: WindowId, ev: WindowEvent)
    requires
        window_event_done(c, n, cmds, id, ev),
    ensures
        n.next_window_id == c.next_window_id,
{
}

/// Whether `v` fits into an `i32`.
fn fits(v: i64) -> (r: bool)
    ensures
        r == crate::arith::fits_i32(v as int),
{
    -2147483648i64 <= v && v <= 2147483647i64
}

impl Context {
    /// Whether the action from the seat `seat_id` stays within `i32`
    /// arithmetic, which `execute_action` needs: moves, resizes, snaps and
    /// maximizations of windows far out at the edge of the coordinate
    /// range overflow.
    pub fn action_fits(&self, action: &Action, seat_id: SeatId) -> (r: bool)
        requires
            self.wf(),
        ensures
            r == action_ok(*self, *action, seat_id),
    {
        match action {
            Action::Move { step } => self.move_fits(step.horizontal, step.vertical, false),
            Action::Resize { step } => self.move_fits(step.horizontal, step.vertical, true),
            Action::Snap { edge } => self.snap_fits_now(*edge),
            Action::PointerResize => self.pointer_resize_fits(seat_id),
            Action::MaximizeFocused => self.maximize_fits_now(),
            Action::SnapHalf { side } => self.half_fits_now(*side),
            _ => true,
        }
    }

    /// Whether moving (or, with `resize`, resizing) the focused floating
    /// window by `(dx, dy)` stays within `i32`.
    fn move_fits(&self, dx: i32, dy: i32, resize: bool) -> (r: bool)
        requires
            self.wf(),
        ensures
            r == (focused_index(*self) matches Some(i) ==> {
                let w = self.windows@[i];
                w.floating ==> if resize {
                    crate::arith::fits_i32(w.width + dx) && crate::arith::fits_i32(w.height + dy)
                } else {
                    crate::arith::fits_i32(w.x + dx) && crate::arith::fits_i32(w.y + dy)
                }
            }),
    {
        match self.focused_index_now() {
            Some(i) => {
                let w = &self.windows[i];
                if !w.floating {
                    true
                } else if resize {
                    fits(w.width as i64 + dx as i64) && fits(w.height as i64 + dy as i64)
                } else {
                    fits(w.x as i64 + dx as i64) && fits(w.y as i64 + dy as i64)
                }
            },
            None => true,
        }
    }

    /// Whether snapping the focused floating window to `edge` stays within
    /// `i32`.
    fn snap_fits_now(&self, edge: Edge) -> (r: bool)
        requires
            self.wf(),
        ensures
            r == (current_area(*self) matches Some(a) ==> (focused_floating(*self) matches Some(i) ==> snap_fits(
                edge,
                a,
                self.windows@[i],
            ))),
    {
        let oi = match self.current_output_index() {
            Some(oi) => oi,
            None => return true,
        };
        let (ox, oy, ow, oh) = self.outputs[oi].usable_area();
        match self.focused_index_now() {
            Some(i) => {
                let w = &self.windows[i];
                if !w.floating {
                    true
                } else {
                    match edge {
                        Edge::Right => fits(ox as i64 + ow as i64) && fits(ox as i64 + ow as i64 - w.width as i64),
                        Edge::Bottom => fits(oy as i64 + oh as i64) && fits(oy as i64 + oh as i64 - w.height as i64),
                        _ => true,
                    }
                }
            },
            None => true,
        }
    }

    /// Whether starting a pointer resize from the seat stays within `i32`.
    fn pointer_resize_fits(&self, seat_id: SeatId) -> (r: bool)
        requires
            self.wf(),
        ensures
            r == (operated_index(self.windows@, after_below_focus(*self, seat_id), self.has_seat(seat_id)) matches Some(
                i,
            ) ==> pointer_edges_fit(self.windows@[i])),
    {
        let k = match self.find_seat(seat_id) {
            Some(k) => k,
            None => return true,
        };
        let below = match self.seats[k].window_below_pointer {
            Some(b) => if self.find_window(b).is_some() {
                Some(b)
            } else {
                None
            },
            None => None,
        };
        let target = match below {
            Some(b) => Some(b),
            None => self.focused_window,
        };
        match target {
            Some(t) => match self.find_window(t) {
                Some(i) => {
                    let w = &self.windows[i];
                    let hw = w.width / 2;
                    let hh = w.height / 2;
                    fits(w.x as i64 + hw as i64) && fits(w.y as i64 + hh as i64)
                },
                None => true,
            },
            None => true,
        }
    }

    /// Whether maximizing the focused window stays within `i32`.
    fn maximize_fits_now(&self) -> (r: bool)
        requires
            self.wf(),
        ensures
            r == (self.focused_window matches Some(id) ==> (maximize_output(*self, id) matches Some(o) ==> maximize_fits(
                usable(o),
                self.border_width as int,
                self.titlebar_height as int,
            ))),
    {
        match self.focused_window {
            Some(id) => {
                let ok = if self.find_window(id).is_some() {
                    self.maximize_output_index(id)
                } else {
                    self.current_output_index()
                };
                match ok {
                    Some(k) => {
                        let (ox, oy, ow, oh) = self.outputs[k].usable_area();
                        let b = self.border_width as i64;
                        let t = self.titlebar_height as i64;
                        fits(b * 2) && fits(ow as i64 - b * 2) && fits(oh as i64 - b * 2) && fits(oh as i64 - b * 2 - t)
                            && fits(ox as i64 + b) && fits(oy as i64 + b) && fits(oy as i64 + b + t)
                    },
                    None => true,
                }
            },
            None => true,
        }
    }

    /// Whether snapping the focused window to `side` of the current output
    /// stays within `i32`.
    fn half_fits_now(&self, side: Side) -> (r: bool)
        requires
            self.wf(),
        ensures
            r == snap_half_ok(*self, side),
    {
        if self.focused_index_now().is_none() {
            return true;
        }
        let oi = match self.current_output_index() {
            Some(k) => k,
            None => return true,
        };
        let (ox, oy, ow, oh) = self.outputs[oi].usable_area();
        let b = self.border_width as i64;
        let t = self.titlebar_height as i64;
        let half: i64 = if ow > 0 { (ow / 2) as i64 } else { 0 };
        let (x0, w0) = match side {
            Side::Left => (ox as i64, half),
            Side::Right => (ox as i64 + half, ow as i64 - half),
        };
        fits(x0) && fits(w0) && fits(b * 2) && fits(w0 - b * 2) && fits(x0 + b) && fits(oh as i64 - b * 2) && fits(
            oh as i64 - b * 2 - t,
        ) && fits(oy as i64 + b) && fits(oy as i64 + b + t)
    }

    /// Index of the focused window, if it exists.
    fn focused_index_now(&self) -> (r: Option<usize>)
        requires
            self.wf(),
        ensures
            match r {
                Some(i) => focused_index(*self) == Some(i as int) && i < self.windows@.len(),
                None => focused_index(*self).is_none(),
            },
    {
        match self.focused_window {
            Some(id) => self.find_window(id),
            None => None,
        }
    }
}

/// A window created and destroyed right after leaves the windows, the
/// focus stack and the focused window as they were.
pub proof fn lemma_create_then_destroy(c: Context, n: Context, m: Context, id: WindowId)
    requires
        c.wf(),
        create_window_done(c, n, id),
        destroy_window_done(n, m, id),
    ensures
        m.windows@ == c.windows@,
        m.focus_stack@ == c.focus_stack@,
        m.focused_window == c.focused_window,
{
    let last = n.windows@.len() - 1;
    assert(n.windows@[last].id == id);
    assert(window_ids(n.windows@)[last] == id);
    assert(n.has_window(id));
    let i = n.window_index(id);
    assert(0 <= i < n.windows@.len() && n.windows@[i].id == id);
    if i != last {
        assert(n.windows@[i] == c.windows@[i]);
        assert(window_ids(c.windows@)[i] == c.windows@[i].id);
        assert(false);
    }
    assert(n.windows@.remove(i) == n.windows@.drop_last());
    assert(c.focus_stack@.push(id).drop_last() == c.focus_stack@);
    assert(without(c.focus_stack@.push(id), id) == without(c.focus_stack@, id));
    assert(!c.focus_stack@.contains(id)) by {
        if c.focus_stack@.contains(id) {
            let j = choose|j: int| 0 <= j < c.focus_stack@.len() && c.focus_stack@[j] == id;
            assert(c.focus_stack@[j] < c.next_window_id);
        }
    }
    lemma_without_absent(c.focus_stack@, id);
}

/// Turning floating on and off again for the focused window gives the
/// windows back as they were.
pub proof fn lemma_toggle_floating_twice(c: Context, n: Context, m: Context)
    requires
        c.wf(),
        toggle_floating_done(c, n),
        toggle_floating_done(n, m),
    ensures
        m.windows@ == c.windows@,
        m == (Context { windows: m.windows, ..c }),
{
    match focused_index(c) {
        Some(i) => {
            assert(window_ids(n.windows@) == window_ids(c.windows@));
            let id = c.focused_window->0;
            assert(n.has_window(id)) by {
                assert(window_ids(n.windows@)[i] == id);
            }
            let j = n.window_index(id);
            assert(n.windows@[j].id == id);
            if j != i {
                assert(window_ids(c.windows@)[j] == window_ids(c.windows@)[i]);
            }
            assert(m.windows@ == c.windows@);
        },
        None => {
            assert(focused_index(n).is_none()) by {
                assert(window_ids(n.windows@) == window_ids(c.windows@));
                let id = c.focused_window;
                if id is Some && n.has_window(id->0) {
                    assert(c.has_window(id->0));
                }
            }
        },
    }
}

/// The window that Super+` moves the focus to belongs to the same
/// application as the focused window and is shown on the current output.
pub proof fn lemma_same_app_target_shares_app(c: Context)
    requires
        c.wf(),
    ensures
        same_app_target(c) matches Some(t) ==> exists|j: int|
            0 <= j < c.windows@.len() && (#[trigger] c.windows@[j]).id == t && visible_on(
                c.windows@[j],
                current_output_of(c)->0.id,
                current_output_of(c)->0.tag,
            ) && has_app(c.windows@[j], c.windows@[focused_index(c)->0].app_id->0@),
{
    match (focused_index(c), current_output_of(c)) {
        (Some(i), Some(o)) => match c.windows@[i].app_id {
            Some(a) => {
                let v = same_app_ids(c.windows@, o.id, o.tag, a@);
                lemma_same_app_members(c.windows@, o.id, o.tag, a@);
                if v.len() > 0 {
                    let k = step(v.len() as int, index_or_zero(v, c.focused_window), Direction::Forward);
                    assert(0 <= k < v.len());
                }
            },
            None => {},
        },
        _ => {},
    }
}

/// Windows whose ids increase give increasing visible ids.
proof fn lemma_visible_sorted(ws: Seq<Window>, oid: OutputId, otag: u32, skip: bool)
    requires
        forall|a: int, b: int| 0 <= a < b < ws.len() ==> (#[trigger] ws[a]).id < (#[trigger] ws[b]).id,
    ensures
        forall|a: int, b: int|
            0 <= a < b < visible_ids(ws, oid, otag, skip).len() ==> (#[trigger] visible_ids(ws, oid, otag, skip)[a])
                < (#[trigger] visible_ids(ws, oid, otag, skip)[b]),
    decreases ws.len(),
{
    if ws.len() > 0 {
        let ws1 = ws.drop_last();
        assert forall|a: int, b: int| 0 <= a < b < ws1.len() implies (#[trigger] ws1[a]).id < (#[trigger] ws1[b]).id by {
            assert(ws1[a] == ws[a] && ws1[b] == ws[b]);
        }
        lemma_visible_sorted(ws1, oid, otag, skip);
        let last = ws.last();
        assert forall|j: int| 0 <= j < ws1.len() implies (#[trigger] ws1[j]).id < last.id by {
            assert(ws1[j] == ws[j]);
            assert(last == ws[ws.len() - 1]);
        }
        lemma_visible_bounded(ws1, oid, otag, skip, last.id);
        let v = visible_ids(ws, oid, otag, skip);
        let rest = visible_ids(ws1, oid, otag, skip);
        assert forall|a: int, b: int| 0 <= a < b < v.len() implies (#[trigger] v[a]) < (#[trigger] v[b]) by {
            assert(v[a] == rest[a]);
            if b < rest.len() {
                assert(v[b] == rest[b]);
            }
        }
    }
}

/// In an increasing sequence, an element is found at its own index.
proof fn lemma_index_in_sorted(v: Seq<usize>, i: int)
    requires
        forall|a: int, b: int| 0 <= a < b < v.len() ==> (#[trigger] v[a]) < (#[trigger] v[b]),
        0 <= i < v.len(),
    ensures
        index_in(v, v[i]) == Some(i),
{
    assert(v.contains(v[i]));
    let k = choose|k: int| 0 <= k < v.len() && v[k] == v[i] && forall|j: int| 0 <= j < k ==> v[j] != v[i];
    assert(0 <= k < v.len() && v[k] == v[i] && forall|j: int| 0 <= j < k ==> v[j] != v[i]);
    if k < i {
        assert(v[k] < v[i]);
    } else if k > i {
        assert(v[i] != v[i]);
    }
}

/// Where focus cycling goes, given windows with increasing ids.
proof fn lemma_focus_iter_steps(c: Context, skip_floating: bool, i: int)
    requires
        forall|a: int, b: int| 0 <= a < b < c.windows@.len() ==> (#[trigger] c.windows@[a]).id < (#[trigger] c.windows@[b]).id,
        current_output_of(c) matches Some(o) && ({
            let v = visible_ids(c.windows@, o.id, o.tag, skip_floating);
            0 <= i < v.len() && c.focused_window == Some(v[i])
        }),
    ensures
        ({
            let o = current_output_of(c)->0;
            let v = visible_ids(c.windows@, o.id, o.tag, skip_floating);
            &&& focus_iter_target(c, Direction::Forward, skip_floating) == Some(
                if i + 1 < v.len() { v[i + 1] } else { v[0] },
            )
            &&& focus_iter_target(c, Direction::Reverse, skip_floating) == Some(
                if i > 0 { v[i - 1] } else { v[v.len() - 1] },
            )
        }),
{
    let o = current_output_of(c)->0;
    let v = visible_ids(c.windows@, o.id, o.tag, skip_floating);
    lemma_visible_sorted(c.windows@, o.id, o.tag, skip_floating);
    lemma_index_in_sorted(v, i);
    assert(index_or_zero(v, c.focused_window) == i);
    let len = v.len() as int;
    if i + 1 < len {
        vstd::arithmetic::div_mod::lemma_small_mod((i + 1) as nat, len as nat);
    } else {
        assert(i + 1 == len);
        vstd::arithmetic::div_mod::lemma_mod_self_0(len);
    }
}

/// Cycling focus through the windows shown on the current output moves to
/// the window just after the focused one (forward) or just before it
/// (backward), wrapping around at the ends of the list.
pub proof fn lemma_focus_iter_neighbours(c: Context, skip_floating: bool, i: int)
    requires
        c.wf(),
        current_output_of(c) matches Some(o) && ({
            let v = visible_ids(c.windows@, o.id, o.tag, skip_floating);
            0 <= i < v.len() && c.focused_window == Some(v[i])
        }),
    ensures
        ({
            let o = current_output_of(c)->0;
            let v = visible_ids(c.windows@, o.id, o.tag, skip_floating);
            &&& focus_iter_target(c, Direction::Forward, skip_floating) == Some(
                if i + 1 < v.len() { v[i + 1] } else { v[0] },
            )
            &&& focus_iter_target(c, Direction::Reverse, skip_floating) == Some(
                if i > 0 { v[i - 1] } else { v[v.len() - 1] },
            )
        }),
{
    assert forall|a: int, b: int| 0 <= a < b < c.windows@.len() implies (#[trigger] c.windows@[a]).id
        < (#[trigger] c.windows@[b]).id by {
        assert(window_ids(c.windows@)[a] == c.windows@[a].id);
        assert(window_ids(c.windows@)[b] == c.windows@[b].id);
    }
    lemma_focus_iter_steps(c, skip_floating, i);
}

/// Cycling focus backward undoes cycling it forward: from a focused window
/// shown on the current output, one step forward and one step back focus
/// it again.
pub proof fn lemma_focus_iter_reverse_undoes(
    c: Context,
    n: Context,
    m: Context,
    skip_floating: bool,
    i: int,
    cmds1: Seq<Command>,
    cmds2: Seq<Command>,
)
    requires
        c.wf(),
        current_output_of(c) matches Some(o) && ({
            let v = visible_ids(c.windows@, o.id, o.tag, skip_floating);
            0 <= i < v.len() && c.focused_window == Some(v[i])
        }),
        focus_iter_done(c, n, cmds1, Direction::Forward, skip_floating),
        focus_iter_done(n, m, cmds2, Direction::Reverse, skip_floating),
    ensures
        m.focused_window == c.focused_window,
{
    lemma_focus_iter_neighbours(c, skip_floating, i);
    let o = current_output_of(c)->0;
    let v = visible_ids(c.windows@, o.id, o.tag, skip_floating);
    assert(current_output_of(n) == current_output_of(c));
    let i2 = if i + 1 < v.len() { i + 1 } else { 0 };
    assert(n.focused_window == Some(v[i2]));
    assert forall|a: int, b: int| 0 <= a < b < n.windows@.len() implies (#[trigger] n.windows@[a]).id
        < (#[trigger] n.windows@[b]).id by {
        assert(window_ids(c.windows@)[a] == c.windows@[a].id);
        assert(window_ids(c.windows@)[b] == c.windows@[b].id);
    }
    lemma_focus_iter_steps(n, skip_floating, i2);
}

/// In a sequence without repeats, an element is found at its own index.
proof fn lemma_index_in_unique(v: Seq<usize>, i: int)
    requires
        no_dup(v),
        0 <= i < v.len(),
    ensures
        index_in(v, v[i]) == Some(i),
{
    assert(v.contains(v[i]));
    let k = choose|k: int| 0 <= k < v.len() && v[k] == v[i] && forall|j: int| 0 <= j < k ==> v[j] != v[i];
    assert(0 <= k < v.len() && v[k] == v[i] && forall|j: int| 0 <= j < k ==> v[j] != v[i]);
    if k != i {
        assert(v[k] != v[i]);
    }
}

/// Cycling through the outputs moves from the current output to the next
/// one in the list of outputs (forward) or the previous one (backward),
/// wrapping around at the ends; with fewer than two outputs it goes
/// nowhere.
pub proof fn lemma_output_iter_neighbours(c: Context, k: int)
    requires
        c.wf(),
        0 <= k < c.outputs@.len(),
        c.current_output == Some(c.outputs@[k].id),
    ensures
        ({
            let len = c.outputs@.len() as int;
            &&& len <= 1 ==> output_iter_index(c, Direction::Forward).is_none() && output_iter_index(
                c,
                Direction::Reverse,
            ).is_none()
            &&& len >= 2 ==> output_iter_index(c, Direction::Forward) == Some(if k + 1 < len { k + 1 } else { 0 })
            &&& len >= 2 ==> output_iter_index(c, Direction::Reverse) == Some(if k > 0 { k - 1 } else { len - 1 })
        }),
{
    let ids = output_ids(c.outputs@);
    let len = ids.len() as int;
    assert(ids[k] == c.outputs@[k].id);
    lemma_index_in_unique(ids, k);
    if len >= 2 {
        if k + 1 < len {
            vstd::arithmetic::div_mod::lemma_small_mod((k + 1) as nat, len as nat);
        } else {
            vstd::arithmetic::div_mod::lemma_mod_self_0(len);
        }
    }
}

/// Sending the focused window to another output puts it on the output
/// after the current one in the list of outputs (forward) or the one
/// before it (backward), wrapping around, on that output's main tag.
pub proof fn lemma_send_to_neighbour_output(c: Context, n: Context, direction: Direction, k: int)
    requires
        c.wf(),
        send_to_output_done(c, n, direction),
        0 <= k < c.outputs@.len(),
        c.outputs@.len() >= 2,
        c.current_output == Some(c.outputs@[k].id),
        c.focused_window matches Some(f) && c.has_window(f),
    ensures
        ({
            let len = c.outputs@.len() as int;
            let t = match direction {
                Direction::Forward => if k + 1 < len { k + 1 } else { 0 },
                Direction::Reverse => if k > 0 { k - 1 } else { len - 1 },
            };
            let m = n.windows@[c.window_index(c.focused_window->0)];
            &&& m.output == Some(c.outputs@[t].id)
            &&& m.tag == c.outputs@[t].main_tag
            &&& m.id == c.focused_window->0
        }),
{
    lemma_output_iter_neighbours(c, k);
}

/// Snapping a floating window to an edge of the usable area moves it flush
/// against that edge and keeps its other coordinate and its size: to the
/// left or top edge its left or top side lies on the edge, to the right or
/// bottom edge its right or bottom side does.
pub proof fn lemma_snap_flush(c: Context, n: Context, cmds: Seq<Command>, edge: Edge)
    requires
        c.wf(),
        snap_focused_window_done(c, n, cmds, edge),
        current_area(c) matches Some(a) && (focused_floating(c) matches Some(i) && snap_fits(edge, a, c.windows@[i])),
    ensures
        ({
            let a = current_area(c)->0;
            let i = focused_floating(c)->0;
            let w = c.windows@[i];
            let m = n.windows@[i];
            &&& m.width == w.width && m.height == w.height && m.id == w.id
            &&& edge == Edge::Left ==> m.x == a.0 && m.y == w.y
            &&& edge == Edge::Right ==> m.x + m.width == a.0 + a.2 && m.y == w.y
            &&& edge == Edge::Top ==> m.y == a.1 && m.x == w.x
            &&& edge == Edge::Bottom ==> m.y + m.height == a.1 + a.3 && m.x == w.x
        }),
{
}

/// A maximized window's frame covers the usable area of its output: the
/// content starts one border in from the left and one border plus the
/// titlebar down from the top, and the size proposed leaves room for the
/// borders and titlebar, whenever the area is large enough and the window
/// allows that size.
pub proof fn lemma_maximize_fills(c: Context, n: Context, cmds: Seq<Command>, id: WindowId)
    requires
        c.wf(),
        maximize_window_done(c, n, cmds, id),
        c.has_window(id),
        maximize_output(c, id) matches Some(o) && ({
            let a = usable(o);
            let b = c.border_width as int;
            let t = c.titlebar_height as int;
            let w = c.window(id);
            &&& maximize_fits(a, b, t)
            &&& a.2 - 2 * b >= 1 && a.3 - 2 * b - t >= 1
            &&& w.min_width <= a.2 - 2 * b && w.min_height <= a.3 - 2 * b - t
        }),
    ensures
        ({
            let a = usable(maximize_output(c, id)->0);
            let b = c.border_width as int;
            let t = c.titlebar_height as int;
            let m = n.windows@[c.window_index(id)];
            &&& m.x - b == a.0
            &&& m.y - b - t == a.1
            &&& m.proposed_width + 2 * b == a.2
            &&& m.proposed_height + 2 * b + t == a.3
            &&& m.floating && m.maximized
            &&& m.id == id
        }),
{
}

/// Snapping the focused window to one half of the output and then to the
/// other brings it back: the window, snapped to neither half before, is
/// at its old position with its old floating state and its old size
/// proposed, and nothing else has changed.
#[verifier::spinoff_prover]
#[verifier::rlimit(50)]
pub proof fn lemma_snap_other_half_restores(
    c: Context,
    n: Context,
    m: Context,
    side: Side,
    cmds1: Seq<Command>,
    cmds2: Seq<Command>,
)
    requires
        c.wf(),
        snap_half_done(c, n, cmds1, side),
        snap_half_done(n, m, cmds2, other_side(side)),
        focused_index(c) matches Some(i) ==> c.windows@[i].snapped.is_none() && c.windows@[i].pre_snap.is_none(),
    ensures
        match (focused_index(c), current_output_of(c)) {
            (Some(i), Some(o)) => {
                let w = c.windows@[i];
                m.windows@ == c.windows@.update(
                    i,
                    Window {
                        position_undefined: false,
                        proposed_width: max_i32(w.width, w.min_width),
                        proposed_height: max_i32(w.height, w.min_height),
                        ..w
                    },
                )
            },
            _ => m.windows@ == c.windows@,
        },
        m == (Context { windows: m.windows, ..c }),
{
    assert(current_output_of(n) == current_output_of(c));
    match (focused_index(c), current_output_of(c)) {
        (Some(i), Some(o)) => {
            assert(window_ids(n.windows@) == window_ids(c.windows@));
            let id = c.focused_window->0;
            assert(n.has_window(id)) by {
                assert(window_ids(n.windows@)[i] == id);
            }
            let j = n.window_index(id);
            assert(n.windows@[j].id == id);
            if j != i {
                assert(window_ids(c.windows@)[j] == window_ids(c.windows@)[i]);
            }
            assert(focused_index(n) == Some(i));
            assert(other_side(other_side(side)) == side);
            let w = c.windows@[i];
            let g = half_geometry(usable(o), side, c.border_width as int, c.titlebar_height as int);
            crate::window::lemma_unsnap_after_snap(w, side, g.0 as i32, g.1 as i32, g.2 as i32, g.3 as i32);
            assert(n.windows@[i] == snapped_to(w, side, g.0 as i32, g.1 as i32, g.2 as i32, g.3 as i32));
            assert(m.windows@ =~= c.windows@.update(
                i,
                Window {
                    position_undefined: false,
                    proposed_width: max_i32(c.windows@[i].width, c.windows@[i].min_width),
                    proposed_height: max_i32(c.windows@[i].height, c.windows@[i].min_height),
                    ..c.windows@[i]
                },
            ));
        },
        _ => {
            assert(n == c);
        },
    }
}

impl Context {
    /// The bindings every new seat starts with, with `main_modifier` as the
    /// main modifier and `launcher` as what main+Space starts: the key
    /// bindings, then the tag bindings, and the pointer bindings, all
    /// disabled until the seat enables them.
    pub fn setup_seat_bindings(&self, main_modifier: u32, launcher: Action) -> (r: (Vec<XkbBinding>, Vec<PointerBinding>))
        ensures
            keys_for(r.0@.map_values(|b: XkbBinding| key_tuple(b)), main_modifier),
            r.0@[1].action == launcher,
            forall|i: int| 0 <= i < r.0@.len() ==> !(#[trigger] r.0@[i]).enabled,
            pointers_for(r.1@.map_values(|b: PointerBinding| pointer_tuple(b)), main_modifier),
            forall|i: int| 0 <= i < r.1@.len() ==> !(#[trigger] r.1@[i]).enabled && r.1@[i].event == BindingEvent::Pressed,
    {
        let keys = key_bindings(main_modifier, launcher);
        let tags = default_tag_bindings();
        let pointers = pointer_bindings(main_modifier);
        let ghost k = keys@;
        let ghost p = pointers@;
        let r = seat_bindings(keys, tags, pointers);
        assert(r.0@.map_values(|b: XkbBinding| key_tuple(b)) =~= k);
        assert(r.1@.map_values(|b: PointerBinding| pointer_tuple(b)) =~= p);
        r
    }
}

/// Height of the titlebar for the default twelve-pixel font.
pub const DEFAULT_TITLEBAR_HEIGHT: i32 = 19;

impl Default for Context {
    /// A context with the default rules, server-side decorations, the tile
    /// layout and the default frame metrics.
    fn default() -> (r: Self)
        ensures
            r.wf(),
            r.windows@.len() == 0 && r.outputs@.len() == 0 && r.seats@.len() == 0,
            r.focus_stack@.len() == 0 && r.focused_window.is_none(),
            r.rules@.len() == 6,
            r.default_window_decoration == WindowDecoration::Ssd,
            r.default_layout == LayoutType::Tile,
            r.border_width == 4,
            r.titlebar_height == DEFAULT_TITLEBAR_HEIGHT,
            r.running && !r.session_locked && !r.startup_unminimize_done,
    {
        let ui = crate::config::UiConfig::default();
        Context::new(
            crate::config::default_rules(),
            WindowDecoration::Ssd,
            LayoutType::Tile,
            ui.border_width,
            DEFAULT_TITLEBAR_HEIGHT,
        )
    }
}

/// Once an output is removed no window is tied to it, and a window that
/// was is judged by its tags alone on every output.
pub proof fn lemma_removed_output_released(c: Context, n: Context, output_id: OutputId)
    requires
        n.windows@ == c.windows@.map_values(|w: Window| detached(w, output_id)),
    ensures
        forall|i: int| 0 <= i < n.windows@.len() ==> (#[trigger] n.windows@[i]).output != Some(output_id),
        forall|i: int, oid: OutputId, otag: u32|
            0 <= i < c.windows@.len() && c.windows@[i].output == Some(output_id) ==> (#[trigger] visible_on(
                n.windows@[i],
                oid,
                otag,
            ) <==> !c.windows@[i].hidden && c.windows@[i].tag & otag != 0),
{
}

/// An event of the window manager object.
#[derive(Debug, Clone, Copy, PartialEq, Eq, Structural)]
pub enum ManagerEvent {
    /// Window management is not available (another manager runs)
    Unavailable,
    /// The compositor is done with this window manager
    Finished,
    /// A manage sequence starts
    ManageStart,
    /// A render sequence starts
    RenderStart,
    /// A new window; `titlebar` when a titlebar surface was made for it
    Window { titlebar: bool },
    /// A new output
    Output,
    /// A new seat
    Seat,
    /// The session was locked
    SessionLocked,
    /// The session was unlocked
    SessionUnlocked,
}

/// The commands that draw the titlebars of the first `n` windows of `ws`:
/// each shown window with a titlebar and a positive size gets one, placed
/// at `(dx, dy)` from its content.
pub open spec fn titlebar_commands(ws: Seq<Window>, focused: Option<WindowId>, dx: i32, dy: i32, n: nat) -> Seq<Command>
    decreases n,
{
    if n == 0 {
        seq![]
    } else {
        let w = ws[n - 1];
        titlebar_commands(ws, focused, dx, dy, (n - 1) as nat) + if !w.hidden && w.has_titlebar && w.width > 0
            && w.height > 0 {
            seq![Command::DrawTitlebar { window: w.id, focused: focused == Some(w.id), offset_x: dx, offset_y: dy }]
        } else {
            seq![]
        }
    }
}

/// The command that switches the current seat, when it exists, to `mode`.
pub open spec fn mode_commands(c: Context, mode: Mode) -> Seq<Command> {
    match c.current_seat {
        Some(s) => if c.has_seat(s) {
            seq![Command::SwitchMode { seat: s, mode }]
        } else {
            seq![]
        },
        None => seq![],
    }
}

/// `n` is `mid` after the compositor announced its newest window: the
/// window gets its render node, its titlebar when one was made, and a
/// queued first event.
pub open spec fn window_announced(mid: Context, n: Context, titlebar: bool) -> bool {
    let m = mid.windows@.last();
    let w = n.windows@.last();
    &&& n.windows@.len() == mid.windows@.len()
    &&& n.windows@.drop_last() == mid.windows@.drop_last()
    &&& w == (Window { unhandled_events: w.unhandled_events, has_titlebar: titlebar, has_rwm_node: true, ..m })
    &&& w.unhandled_events@ == m.unhandled_events@.push(WindowEvent::Init)
    &&& n == (Context { windows: n.windows, ..mid })
}

/// The event can be handled within the ranges of the ids and of `i32`.
pub open spec fn manager_event_ok(c: Context, event: ManagerEvent) -> bool {
    match event {
        ManagerEvent::Window { .. } => c.next_window_id < usize::MAX,
        ManagerEvent::Output => c.next_output_id < usize::MAX,
        ManagerEvent::Seat => c.next_seat_id < usize::MAX,
        ManagerEvent::RenderStart => positions_fit(c) && crate::arith::fits_i32(-(c.border_width as int))
            && crate::arith::fits_i32(-(c.border_width as int) - c.titlebar_height),
        _ => true,
    }
}

/// What `handle_manager_event` does for each event.
pub open spec fn manager_event_done(c: Context, n: Context, cmds: Seq<Command>, event: ManagerEvent) -> bool {
    match event {
        ManagerEvent::Unavailable | ManagerEvent::Finished => n == (Context { running: false, ..c }) && cmds.len()
            == 0,
        ManagerEvent::ManageStart => {
            &&& cmds.len() >= 1
            &&& cmds.last() is FinishManage
            &&& manage_done(c, n, cmds.drop_last(), window_ids(c.windows@))
        },
        ManagerEvent::RenderStart => {
            let dx = -(c.border_width as int);
            let t = titlebar_commands(
                n.windows@,
                n.focused_window,
                dx as i32,
                (dx - c.titlebar_height) as i32,
                n.windows@.len(),
            );
            let k = cmds.len() - t.len() - 1;
            &&& cmds.len() >= t.len() + 1
            &&& render_start_done(c, n, cmds.subrange(0, k))
            &&& cmds.subrange(k, cmds.len() - 1) == t
            &&& cmds.last() is FinishRender
        },
        ManagerEvent::Window { titlebar } => cmds.len() == 0 && exists|mid: Context|
            #[trigger] create_window_done(c, mid, c.next_window_id) && window_announced(mid, n, titlebar),
        ManagerEvent::Output => cmds.len() == 0 && create_output_done(c, n, c.next_output_id),
        ManagerEvent::Seat => cmds.len() == 0 && create_seat_done(c, n, c.next_seat_id),
        ManagerEvent::SessionLocked => n == (Context { session_locked: true, ..c }) && cmds == mode_commands(
            c,
            Mode::Lock,
        ),
        ManagerEvent::SessionUnlocked => n == (Context { session_locked: false, ..c }) && cmds == mode_commands(
            c,
            Mode::Default,
        ),
    }
}

impl Context {
    /// Handle an event of the window manager object: stop when management
    /// is unavailable or finished, run the manage and render sequences
    /// (after a render, every shown window with a titlebar and a positive
    /// size has it drawn and placed above its content, past the border),
    /// take in new windows, outputs and seats, and follow the session lock
    /// with the current seat's binding mode.
    pub fn handle_manager_event(&mut self, event: ManagerEvent) -> (cmds: Vec<Command>)
        requires
            old(self).wf(),
            manager_event_ok(*old(self), event),
        ensures
            final(self).wf(),
            manager_event_done(*old(self), *final(self), cmds@, event),
    {
        match event {
            ManagerEvent::Unavailable | ManagerEvent::Finished => {
                self.running = false;
                Vec::new()
            },
            ManagerEvent::ManageStart => {
                let mut cmds = self.handle_manage_start();
                let ghost first = cmds@;
                cmds.push(Command::FinishManage);
                assert(cmds@.drop_last() == first);
                cmds
            },
            ManagerEvent::RenderStart => {
                let mut cmds = self.handle_render_start();
                let ghost first = cmds@;
                let dx = -self.border_width;
                let dy = dx - self.titlebar_height;
                let mut more = self.titlebar_pass(dx, dy);
                let ghost second = more@;
                cmds.append(&mut more);
                cmds.push(Command::FinishRender);
                proof {
                    let k = cmds@.len() - second.len() - 1;
                    assert(cmds@.subrange(0, k) == first);
                    assert(cmds@.subrange(k, cmds@.len() - 1) == second);
                }
                cmds
            },
            ManagerEvent::Window { titlebar } => {
                let ghost c = *self;
                let id = self.create_window();
                let ghost mid = *self;
                let last = self.windows.len() - 1;
                let ghost before = *self;
                let mut w = self.take_window(last);
                w.has_titlebar = titlebar;
                w.has_rwm_node = true;
                w.queue_event(WindowEvent::Init);
                self.put_window(last, w, Ghost(before));
                proof {
                    assert(create_window_done(c, mid, c.next_window_id));
                    assert(self.windows@.drop_last() == mid.windows@.drop_last());
                    assert(window_announced(mid, *self, titlebar));
                }
                Vec::new()
            },
            ManagerEvent::Output => {
                self.create_output();
                Vec::new()
            },
            ManagerEvent::Seat => {
                self.create_seat();
                Vec::new()
            },
            ManagerEvent::SessionLocked => {
                self.session_locked = true;
                self.mode_switch(Mode::Lock)
            },
            ManagerEvent::SessionUnlocked => {
                self.session_locked = false;
                self.mode_switch(Mode::Default)
            },
        }
    }

    /// The command that switches the current seat, when it exists, to `mode`.
    fn mode_switch(&self, mode: Mode) -> (cmds: Vec<Command>)
        requires
            self.wf(),
        ensures
            cmds@ == mode_commands(*self, mode),
    {
        let mut cmds: Vec<Command> = Vec::new();
        if let Some(s) = self.current_seat {
            if self.find_seat(s).is_some() {
                cmds.push(Command::SwitchMode { seat: s, mode });
            }
        }
        cmds
    }

    /// The commands that draw the titlebars of the shown windows.
    fn titlebar_pass(&self, dx: i32, dy: i32) -> (cmds: Vec<Command>)
        ensures
            cmds@ == titlebar_commands(self.windows@, self.focused_window, dx, dy, self.windows@.len()),
    {
        let mut cmds: Vec<Command> = Vec::new();
        let mut j: usize = 0;
        while j < self.windows.len()
            invariant
                0 <= j <= self.windows@.len(),
                cmds@ == titlebar_commands(self.windows@, self.focused_window, dx, dy, j as nat),
            decreases self.windows@.len() - j,
        {
            let w = &self.windows[j];
            if !w.hidden && w.has_titlebar && w.width > 0 && w.height > 0 {
                let focused = self.focused_window == Some(w.id);
                cmds.push(Command::DrawTitlebar { window: w.id, focused, offset_x: dx, offset_y: dy });
            } else {
                assert(cmds@ == cmds@ + Seq::<Command>::empty());
            }
            j = j + 1;
        }
        cmds
    }
}

impl Context {
    /// Take the focused window a step back: out of fullscreen, else out of
    /// the maximized state, else hide it.
    pub fn step_back_focused(&mut self) -> (cmds: Vec<Command>)
        requires
            old(self).wf(),
        ensures
            final(self).wf(),
            step_back_done(*old(self), *final(self), cmds@),
    {
        let mut cmds: Vec<Command> = Vec::new();
        if let Some(i) = self.focused_index_now() {
            let ghost before = *self;
            let mut w = self.take_window(i);
            let id = w.id;
            let reqs = w.step_back();
            self.put_window(i, w, Ghost(before));
            push_requests(&mut cmds, id, reqs);
        }
        cmds
    }
}

impl Context {
    /// Focus the next window shown on the current output that belongs to
    /// the same application as the focused one.
    pub fn focus_same_app(&mut self) -> (cmds: Vec<Command>)
        requires
            old(self).wf(),
        ensures
            final(self).wf(),
            focus_same_app_done(*old(self), *final(self), cmds@),
    {
        let fi = match self.focused_index_now() {
            Some(i) => i,
            None => return Vec::new(),
        };
        let oi = match self.current_output_index() {
            Some(i) => i,
            None => return Vec::new(),
        };
        let oid = self.outputs[oi].id;
        let otag = self.outputs[oi].tag;
        let same = match &self.windows[fi].app_id {
            Some(a) => self.same_app_window_ids(oid, otag, a),
            None => return Vec::new(),
        };
        if same.len() == 0 {
            return Vec::new();
        }
        let cur = match self.focused_window {
            Some(f) => match position_of(&same, f) {
                Some(i) => i,
                None => 0,
            },
            None => 0,
        };
        let next = step_index(same.len(), cur, Direction::Forward);
        proof {
            lemma_window_ids_bounded(*self);
            lemma_same_app_bounded(self.windows@, oid, otag, self.windows@[fi as int].app_id->0@, self.next_window_id);
        }
        self.focus(same[next])
    }
}

/// Two strings hold the same text.
fn same_text(a: &String, b: &String) -> (r: bool)
    ensures
        r == (a@ == b@),
{
    *a == *b
}

impl Context {
    /// Snap the focused window to `side` of the current output, or bring
    /// it back when it is snapped to the other half.
    pub fn snap_half(&mut self, side: Side) -> (cmds: Vec<Command>)
        requires
            old(self).wf(),
            snap_half_ok(*old(self), side),
        ensures
            final(self).wf(),
            snap_half_done(*old(self), *final(self), cmds@, side),
    {
        let i = match self.focused_index_now() {
            Some(i) => i,
            None => return Vec::new(),
        };
        let oi = match self.current_output_index() {
            Some(k) => k,
            None => return Vec::new(),
        };
        let (ox, oy, ow, oh) = self.outputs[oi].usable_area();
        let b = self.border_width;
        let t = self.titlebar_height;
        let half: i32 = if ow > 0 { ow / 2 } else { 0 };
        let (x0, w0) = match side {
            Side::Left => (ox, half),
            Side::Right => (ox + half, ow - half),
        };
        let cw = w0 - b * 2;
        let width = if cw > 1 { cw } else { 1 };
        let ch = oh - b * 2 - t;
        let height = if ch > 1 { ch } else { 1 };
        let x = x0 + b;
        let y = oy + b + t;
        let ghost before = *self;
        let mut w = self.take_window(i);
        let id = w.id;
        let back = match (w.snapped, side) {
            (Some(Side::Right), Side::Left) => true,
            (Some(Side::Left), Side::Right) => true,
            _ => false,
        };
        let reqs = if back {
            w.unsnap()
        } else {
            w.snap_to(side, x, y, width, height)
        };
        self.put_window(i, w, Ghost(before));
        let mut cmds: Vec<Command> = Vec::new();
        push_requests(&mut cmds, id, reqs);
        cmds
    }
}

} // verus!
