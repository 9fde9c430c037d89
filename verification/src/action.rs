//! Binding actions and the default key and pointer bindings.

use vstd::prelude::*;
use crate::config::{Mode, BUTTON_LEFT, BUTTON_RIGHT, MOD_ALT, MOD_SHIFT, MOD_SUPER};
use crate::window::Side;

verus! {

/// X keysym values of the keys the default bindings use.
pub const KEY_SPACE: u32 = 0x0020;
pub const KEY_H: u32 = 0x0068;
pub const KEY_M: u32 = 0x006d;
pub const KEY_Q: u32 = 0x0071;
pub const KEY_W: u32 = 0x0077;
pub const KEY_TAB: u32 = 0xff09;
pub const KEY_RETURN: u32 = 0xff0d;
pub const KEY_LEFT: u32 = 0xff51;
pub const KEY_UP: u32 = 0xff52;
pub const KEY_RIGHT: u32 = 0xff53;
pub const KEY_DOWN: u32 = 0xff54;
pub const KEY_GRAVE: u32 = 0x0060;
pub const KEY_ALT_L: u32 = 0xffe9;
pub const KEY_ALT_R: u32 = 0xffea;

/// Direction for iteration/movement
#[derive(Debug, Clone, Copy, PartialEq, Eq, Structural)]
pub enum Direction {
    Forward,
    Reverse,
}

/// Edge for snapping
#[derive(Debug, Clone, Copy, PartialEq, Eq, Structural)]
pub enum Edge {
    Left,
    Right,
    Top,
    Bottom,
}

/// Step for movement/resize
#[derive(Debug, Clone, Copy, PartialEq, Eq, Structural)]
pub struct Step {
    pub horizontal: i32,
    pub vertical: i32,
}

impl Default for Step {
    fn default() -> (r: Self)
        ensures
            r.horizontal == 0 && r.vertical == 0,
    {
        Step { horizontal: 0, vertical: 0 }
    }
}

/// Window manager state handed to custom actions
#[derive(Debug, Clone, Copy, PartialEq, Eq, Structural)]
pub struct State {
    pub output_tag: u32,
    pub focused_window_tag: Option<u32>,
}

impl State {
    /// Ask the status bar to redraw; there is no bar, so nothing happens.
    pub fn refresh_current_bar(&self) {
    }
}

/// Binding event type
#[derive(Debug, Clone, Copy, PartialEq, Eq, Structural)]
pub enum BindingEvent {
    Pressed,
    Released,
}

/// All possible binding actions
#[derive(Debug, Clone)]
pub enum Action {
    /// Quit the window manager
    Quit,
    /// Close the focused window
    Close,
    /// Spawn a command
    Spawn { argv: Vec<String> },
    /// Spawn a shell command
    SpawnShell { cmd: String },
    /// Cycle focus through windows
    FocusIter { direction: Direction, skip_floating: bool },
    /// Cycle focus through outputs
    FocusOutputIter { direction: Direction },
    /// Send focused window to another output
    SendToOutput { direction: Direction },
    /// Swap focused window with another
    Swap { direction: Direction },
    /// Move floating window
    Move { step: Step },
    /// Resize window
    Resize { step: Step },
    /// Start pointer move operation
    PointerMove,
    /// Start pointer resize operation
    PointerResize,
    /// Snap window to edge
    Snap { edge: Edge },
    /// Snap the focused window to one half of its output, or bring it back
    /// when it is snapped to the other half
    SnapHalf { side: Side },
    /// Switch input mode
    SwitchMode { mode: Mode },
    /// Toggle fullscreen
    ToggleFullscreen { in_window: bool },
    /// Toggle floating
    ToggleFloating,
    /// Toggle swallow for focused window
    ToggleSwallow,
    /// Toggle bar visibility
    ToggleBar,
    /// Zoom (swap with master)
    Zoom,
    /// Hide (minimize) the focused window
    HideFocused,
    /// Take the focused window a step back: out of fullscreen, else out
    /// of the maximized state, else hide it
    StepBackFocused,
    /// Focus the next window of the same application as the focused one
    FocusSameApp,
    /// Maximize the focused window to the output
    MaximizeFocused,
    /// Set output tags
    SetOutputTag { tag: u32 },
    /// Set window tags
    SetWindowTag { tag: u32 },
    /// Toggle output tags
    ToggleOutputTag { mask: u32 },
    /// Toggle window tags
    ToggleWindowTag { mask: u32 },
    /// Switch to previous tag
    SwitchToPreviousTag,
    /// Activate selected window menu item
    ActivateMenuHovered,
    /// Cycle window menu for Alt-Tab
    WindowMenuCycle,
    /// Activate selected window menu item for Alt-Tab
    WindowMenuCommit,
}

impl Default for Action {
    fn default() -> (r: Self)
        ensures
            r is Quit,
    {
        Action::Quit
    }
}

/// Common view of key and pointer bindings
pub trait Binding {
    fn mode(&self) -> Mode;
    fn action(&self) -> &Action;
    fn event(&self) -> BindingEvent;
}

/// A pointer (mouse button) binding
#[derive(Debug, Clone)]
pub struct PointerBinding {
    /// Mode in which this binding is active
    pub mode: Mode,
    /// Mouse button code
    pub button: u32,
    /// Required modifiers
    pub modifiers: u32,
    /// When to trigger (pressed/released)
    pub event: BindingEvent,
    /// Action to perform
    pub action: Action,
    /// Whether this binding is currently enabled
    pub enabled: bool,
}

impl PointerBinding {
    /// A disabled binding that fires when the button is pressed.
    pub fn new(mode: Mode, button: u32, modifiers: u32, action: Action) -> (r: Self)
        ensures
            r == (PointerBinding { mode, button, modifiers, event: BindingEvent::Pressed, action, enabled: false }),
    {
        PointerBinding { mode, button, modifiers, event: BindingEvent::Pressed, action, enabled: false }
    }

    pub fn with_event(self, event: BindingEvent) -> (r: Self)
        ensures
            r == (PointerBinding { event, ..self }),
    {
        let mut b = self;
        b.event = event;
        b
    }
}

impl Binding for PointerBinding {
    fn mode(&self) -> (r: Mode)
        ensures
            r == self.mode,
    {
        self.mode
    }

    fn action(&self) -> (r: &Action)
        ensures
            *r == self.action,
    {
        &self.action
    }

    fn event(&self) -> (r: BindingEvent)
        ensures
            r == self.event,
    {
        self.event
    }
}

/// An XKB keyboard binding
#[derive(Debug, Clone)]
pub struct XkbBinding {
    /// Mode in which this binding is active
    pub mode: Mode,
    /// XKB keysym to bind
    pub keysym: u32,
    /// Required modifiers
    pub modifiers: u32,
    /// When to trigger (pressed/released)
    pub event: BindingEvent,
    /// Action to perform
    pub action: Action,
    /// Whether this binding is currently enabled
    pub enabled: bool,
}

impl XkbBinding {
    /// A disabled binding that fires when the key is pressed.
    pub fn new(mode: Mode, keysym: u32, modifiers: u32, action: Action) -> (r: Self)
        ensures
            r == (XkbBinding { mode, keysym, modifiers, event: BindingEvent::Pressed, action, enabled: false }),
    {
        XkbBinding { mode, keysym, modifiers, event: BindingEvent::Pressed, action, enabled: false }
    }

    pub fn with_event(self, event: BindingEvent) -> (r: Self)
        ensures
            r == (XkbBinding { event, ..self }),
    {
        let mut b = self;
        b.event = event;
        b
    }
}

impl Binding for XkbBinding {
    fn mode(&self) -> (r: Mode)
        ensures
            r == self.mode,
    {
        self.mode
    }

    fn action(&self) -> (r: &Action)
        ensures
            *r == self.action,
    {
        &self.action
    }

    fn event(&self) -> (r: BindingEvent)
        ensures
            r == self.event,
    {
        self.event
    }
}

/// One default key binding: the mode, keysym, modifiers and event it
/// fires on, its action being stated apart.
pub open spec fn key_binding_is(
    b: (Mode, u32, u32, Action, BindingEvent),
    keysym: u32,
    modifiers: u32,
    event: BindingEvent,
) -> bool {
    b.0 == Mode::Default && b.1 == keysym && b.2 == modifiers && b.4 == event
}

/// The command vector holds the single word `word`.
pub open spec fn argv_is(a: Action, word: Seq<char>) -> bool {
    a matches Action::Spawn { argv } && argv@.len() == 1 && argv@[0]@ == word
}

/// The modifier of the default bindings: Super.
pub const MAIN_MODIFIER: u32 = MOD_SUPER;

/// The key bindings with `main` as the main modifier: main+Shift+Return
/// opens a terminal (foot), main+Space the launcher, main+w closes the
/// focused window, main+Tab and main+Shift+Tab focus the next and previous
/// window, main+` the next window of the same application, main+Return
/// toggles fullscreen, main+Down leaves fullscreen, else the maximized
/// state, else minimizes, main+h and main+m minimize, main+Up maximizes,
/// main+Left and main+Right snap to the left and right half (or bring back
/// a window snapped to the other half), main+Alt+Left/Up and
/// main+Alt+Right/Down send the focused window to the previous and next
/// output, main+Shift+q quits, and Alt+Tab with Alt+Shift+Tab cycles the
/// window menu, committed when Alt is released.
pub open spec fn keys_for(s: Seq<(Mode, u32, u32, Action, BindingEvent)>, main: u32) -> bool {
    &&& s.len() == 22
    &&& key_binding_is(s[0], KEY_RETURN, main | MOD_SHIFT, BindingEvent::Pressed) && argv_is(s[0].3, "foot"@)
    &&& key_binding_is(s[1], KEY_SPACE, main, BindingEvent::Pressed)
    &&& key_binding_is(s[2], KEY_W, main, BindingEvent::Pressed) && s[2].3 is Close
    &&& key_binding_is(s[3], KEY_TAB, main, BindingEvent::Pressed) && s[3].3 == (Action::FocusIter {
        direction: Direction::Forward,
        skip_floating: false,
    })
    &&& key_binding_is(s[4], KEY_TAB, main | MOD_SHIFT, BindingEvent::Pressed) && s[4].3 == (
    Action::FocusIter { direction: Direction::Reverse, skip_floating: false })
    &&& key_binding_is(s[5], KEY_RETURN, main, BindingEvent::Pressed) && s[5].3 == (
    Action::ToggleFullscreen { in_window: false })
    &&& key_binding_is(s[6], KEY_DOWN, main, BindingEvent::Pressed) && s[6].3 is StepBackFocused
    &&& key_binding_is(s[7], KEY_UP, main, BindingEvent::Pressed) && s[7].3 is MaximizeFocused
    &&& key_binding_is(s[8], KEY_H, main, BindingEvent::Pressed) && s[8].3 is HideFocused
    &&& key_binding_is(s[9], KEY_M, main, BindingEvent::Pressed) && s[9].3 is HideFocused
    &&& key_binding_is(s[10], KEY_LEFT, main, BindingEvent::Pressed) && s[10].3 == (Action::SnapHalf {
        side: Side::Left,
    })
    &&& key_binding_is(s[11], KEY_RIGHT, main, BindingEvent::Pressed) && s[11].3 == (Action::SnapHalf {
        side: Side::Right,
    })
    &&& key_binding_is(s[12], KEY_LEFT, main | MOD_ALT, BindingEvent::Pressed) && s[12].3 == (
    Action::SendToOutput { direction: Direction::Reverse })
    &&& key_binding_is(s[13], KEY_RIGHT, main | MOD_ALT, BindingEvent::Pressed) && s[13].3 == (
    Action::SendToOutput { direction: Direction::Forward })
    &&& key_binding_is(s[14], KEY_UP, main | MOD_ALT, BindingEvent::Pressed) && s[14].3 == (
    Action::SendToOutput { direction: Direction::Reverse })
    &&& key_binding_is(s[15], KEY_DOWN, main | MOD_ALT, BindingEvent::Pressed) && s[15].3 == (
    Action::SendToOutput { direction: Direction::Forward })
    &&& key_binding_is(s[16], KEY_Q, main | MOD_SHIFT, BindingEvent::Pressed) && s[16].3 is Quit
    &&& key_binding_is(s[17], KEY_TAB, MOD_ALT, BindingEvent::Pressed) && s[17].3 is WindowMenuCycle
    &&& key_binding_is(s[18], KEY_TAB, MOD_ALT | MOD_SHIFT, BindingEvent::Pressed) && s[18].3 is WindowMenuCycle
    &&& key_binding_is(s[19], KEY_ALT_L, 0, BindingEvent::Released) && s[19].3 is WindowMenuCommit
    &&& key_binding_is(s[20], KEY_ALT_R, 0, BindingEvent::Released) && s[20].3 is WindowMenuCommit
    &&& key_binding_is(s[21], KEY_GRAVE, main, BindingEvent::Pressed) && s[21].3 is FocusSameApp
}

/// The default key bindings: Super as the main modifier and fuzzel as the
/// launcher.
pub open spec fn default_keys(s: Seq<(Mode, u32, u32, Action, BindingEvent)>) -> bool {
    &&& keys_for(s, MAIN_MODIFIER)
    &&& s[1].3 matches Action::SpawnShell { cmd } && cmd@ == "fuzzel"@
}

/// The key bindings with `main` as the main modifier and `launcher` as what
/// main+Space starts.
pub fn key_bindings(main: u32, launcher: Action) -> (r: Vec<(Mode, u32, u32, Action, BindingEvent)>)
    ensures
        keys_for(r@, main),
        r@[1].3 == launcher,
{
    let alt = MOD_ALT;
    let shift = MOD_SHIFT;
    let pressed = BindingEvent::Pressed;
    let mut v: Vec<(Mode, u32, u32, Action, BindingEvent)> = Vec::new();
    let mut argv: Vec<String> = Vec::new();
    argv.push("foot".to_owned());
    v.push((Mode::Default, KEY_RETURN, main | shift, Action::Spawn { argv }, pressed));
    v.push((Mode::Default, KEY_SPACE, main, launcher, pressed));
    v.push((Mode::Default, KEY_W, main, Action::Close, pressed));
    v.push((Mode::Default, KEY_TAB, main, Action::FocusIter { direction: Direction::Forward, skip_floating: false }, pressed));
    v.push(
        (Mode::Default, KEY_TAB, main | shift, Action::FocusIter { direction: Direction::Reverse, skip_floating: false }, pressed),
    );
    v.push((Mode::Default, KEY_RETURN, main, Action::ToggleFullscreen { in_window: false }, pressed));
    v.push((Mode::Default, KEY_DOWN, main, Action::StepBackFocused, pressed));
    v.push((Mode::Default, KEY_UP, main, Action::MaximizeFocused, pressed));
    v.push((Mode::Default, KEY_H, main, Action::HideFocused, pressed));
    v.push((Mode::Default, KEY_M, main, Action::HideFocused, pressed));
    v.push((Mode::Default, KEY_LEFT, main, Action::SnapHalf { side: Side::Left }, pressed));
    v.push((Mode::Default, KEY_RIGHT, main, Action::SnapHalf { side: Side::Right }, pressed));
    v.push((Mode::Default, KEY_LEFT, main | alt, Action::SendToOutput { direction: Direction::Reverse }, pressed));
    v.push((Mode::Default, KEY_RIGHT, main | alt, Action::SendToOutput { direction: Direction::Forward }, pressed));
    v.push((Mode::Default, KEY_UP, main | alt, Action::SendToOutput { direction: Direction::Reverse }, pressed));
    v.push((Mode::Default, KEY_DOWN, main | alt, Action::SendToOutput { direction: Direction::Forward }, pressed));
    v.push((Mode::Default, KEY_Q, main | shift, Action::Quit, pressed));
    v.push((Mode::Default, KEY_TAB, alt, Action::WindowMenuCycle, pressed));
    v.push((Mode::Default, KEY_TAB, alt | shift, Action::WindowMenuCycle, pressed));
    v.push((Mode::Default, KEY_ALT_L, 0, Action::WindowMenuCommit, BindingEvent::Released));
    v.push((Mode::Default, KEY_ALT_R, 0, Action::WindowMenuCommit, BindingEvent::Released));
    v.push((Mode::Default, KEY_GRAVE, main, Action::FocusSameApp, pressed));
    v
}

/// Default keybindings of the stacking window manager.
pub fn default_xkb_bindings() -> (r: Vec<(Mode, u32, u32, Action, BindingEvent)>)
    ensures
        default_keys(r@),
{
    let launcher = Action::SpawnShell { cmd: "fuzzel".to_owned() };
    key_bindings(MAIN_MODIFIER, launcher)
}

/// Tag bindings: none, as the stacking window manager uses no tags.
pub fn default_tag_bindings() -> (r: Vec<(Mode, u32, u32, Action)>)
    ensures
        r@.len() == 0,
{
    Vec::new()
}

/// The pointer bindings with `main` as the main modifier: main and the
/// left button moves a window, main and the right button resizes it.
pub open spec fn pointers_for(s: Seq<(Mode, u32, u32, Action)>, main: u32) -> bool {
    &&& s.len() == 2
    &&& s[0].0 == Mode::Default && s[0].1 == BUTTON_LEFT && s[0].2 == main && s[0].3 is PointerMove
    &&& s[1].0 == Mode::Default && s[1].1 == BUTTON_RIGHT && s[1].2 == main && s[1].3 is PointerResize
}

/// The default pointer bindings: Super and the left button moves a
/// window, Super and the right button resizes it.
pub open spec fn default_pointers(s: Seq<(Mode, u32, u32, Action)>) -> bool {
    pointers_for(s, MAIN_MODIFIER)
}

/// A pointer binding seen as the tuple it was made from.
pub open spec fn pointer_tuple(b: PointerBinding) -> (Mode, u32, u32, Action) {
    (b.mode, b.button, b.modifiers, b.action)
}

/// The pointer bindings with `main` as the main modifier.
pub fn pointer_bindings(main: u32) -> (r: Vec<(Mode, u32, u32, Action)>)
    ensures
        pointers_for(r@, main),
{
    let mut v: Vec<(Mode, u32, u32, Action)> = Vec::new();
    v.push((Mode::Default, BUTTON_LEFT, main, Action::PointerMove));
    v.push((Mode::Default, BUTTON_RIGHT, main, Action::PointerResize));
    v
}

/// Default pointer bindings.
pub fn default_pointer_bindings() -> (r: Vec<(Mode, u32, u32, Action)>)
    ensures
        default_pointers(r@),
{
    pointer_bindings(MAIN_MODIFIER)
}

/// A key binding seen as the tuple it was made from.
pub open spec fn key_tuple(b: XkbBinding) -> (Mode, u32, u32, Action, BindingEvent) {
    (b.mode, b.keysym, b.modifiers, b.action, b.event)
}

/// The bindings a seat starts with: a disabled key binding for each entry
/// of `keys` (firing on its event), then one for each entry of `tags`
/// (firing on press), and a disabled pointer binding for each entry of
/// `pointers` (firing on press).
pub fn seat_bindings(
    keys: Vec<(Mode, u32, u32, Action, BindingEvent)>,
    tags: Vec<(Mode, u32, u32, Action)>,
    pointers: Vec<(Mode, u32, u32, Action)>,
) -> (r: (Vec<XkbBinding>, Vec<PointerBinding>))
    ensures
        r.0@.len() == keys@.len() + tags@.len(),
        forall|i: int| 0 <= i < keys@.len() ==> #[trigger] r.0@[i] == (XkbBinding {
            mode: keys@[i].0,
            keysym: keys@[i].1,
            modifiers: keys@[i].2,
            action: keys@[i].3,
            event: keys@[i].4,
            enabled: false,
        }),
        forall|i: int| 0 <= i < tags@.len() ==> #[trigger] r.0@[keys@.len() + i] == (XkbBinding {
            mode: tags@[i].0,
            keysym: tags@[i].1,
            modifiers: tags@[i].2,
            action: tags@[i].3,
            event: BindingEvent::Pressed,
            enabled: false,
        }),
        r.1@.len() == pointers@.len(),
        forall|i: int| 0 <= i < pointers@.len() ==> #[trigger] r.1@[i] == (PointerBinding {
            mode: pointers@[i].0,
            button: pointers@[i].1,
            modifiers: pointers@[i].2,
            action: pointers@[i].3,
            event: BindingEvent::Pressed,
            enabled: false,
        }),
{
    let ghost k0 = keys@;
    let ghost t0 = tags@;
    let ghost p0 = pointers@;
    let mut xkb: Vec<XkbBinding> = Vec::new();
    let mut keys = keys;
    let mut tags = tags;
    let mut pointers = pointers;
    let mut i: usize = 0;
    let n = keys.len();
    while i < n
        invariant
            n == k0.len(),
            i <= n,
            keys@ == k0.subrange(i as int, n as int),
            xkb@.len() == i,
            forall|j: int| 0 <= j < i ==> #[trigger] xkb@[j] == (XkbBinding {
                mode: k0[j].0,
                keysym: k0[j].1,
                modifiers: k0[j].2,
                action: k0[j].3,
                event: k0[j].4,
                enabled: false,
            }),
        decreases n - i,
    {
        let (mode, keysym, modifiers, action, event) = keys.remove(0);
        xkb.push(XkbBinding::new(mode, keysym, modifiers, action).with_event(event));
        i = i + 1;
    }
    let m = tags.len();
    let mut t: usize = 0;
    while t < m
        invariant
            n == k0.len(),
            m == t0.len(),
            t <= m,
            tags@ == t0.subrange(t as int, m as int),
            xkb@.len() == n + t,
            forall|j: int| 0 <= j < n ==> #[trigger] xkb@[j] == (XkbBinding {
                mode: k0[j].0,
                keysym: k0[j].1,
                modifiers: k0[j].2,
                action: k0[j].3,
                event: k0[j].4,
                enabled: false,
            }),
            forall|j: int| 0 <= j < t ==> #[trigger] xkb@[n + j] == (XkbBinding {
                mode: t0[j].0,
                keysym: t0[j].1,
                modifiers: t0[j].2,
                action: t0[j].3,
                event: BindingEvent::Pressed,
                enabled: false,
            }),
        decreases m - t,
    {
        let (mode, keysym, modifiers, action) = tags.remove(0);
        xkb.push(XkbBinding::new(mode, keysym, modifiers, action));
        t = t + 1;
    }
    let q = pointers.len();
    let mut ptr: Vec<PointerBinding> = Vec::new();
    let mut u: usize = 0;
    while u < q
        invariant
            q == p0.len(),
            u <= q,
            pointers@ == p0.subrange(u as int, q as int),
            ptr@.len() == u,
            forall|j: int| 0 <= j < u ==> #[trigger] ptr@[j] == (PointerBinding {
                mode: p0[j].0,
                button: p0[j].1,
                modifiers: p0[j].2,
                action: p0[j].3,
                event: BindingEvent::Pressed,
                enabled: false,
            }),
        decreases q - u,
    {
        let (mode, button, modifiers, action) = pointers.remove(0);
        ptr.push(PointerBinding::new(mode, button, modifiers, action));
        u = u + 1;
    }
    (xkb, ptr)
}

} // verus!
