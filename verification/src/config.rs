//! Configuration values of the window manager and the rules for applying
//! user overrides to them.

use vstd::prelude::*;
use crate::rule::Rule;
use crate::layout::{GridConfig, GridDirection, LayoutType, MasterLocation, MonocleConfig, ScrollerConfig, TileConfig};

verus! {

/// Mouse button codes (Linux input event codes)
pub const BUTTON_LEFT: u32 = 0x110;
pub const BUTTON_RIGHT: u32 = 0x111;
pub const BUTTON_MIDDLE: u32 = 0x112;

/// Modifier key masks
pub const MOD_NONE: u32 = 0;
pub const MOD_SHIFT: u32 = 1;
pub const MOD_CTRL: u32 = 4;
pub const MOD_ALT: u32 = 8;
pub const MOD_MOD3: u32 = 32;
pub const MOD_SUPER: u32 = 64;
pub const MOD_MOD5: u32 = 128;

/// Input mode for bindings
#[derive(Debug, Clone, Copy, PartialEq, Eq, Hash, Structural)]
pub enum Mode {
    Lock,
    Default,
    Floating,
    Passthrough,
}

impl Default for Mode {
    fn default() -> (r: Self)
        ensures
            r == Mode::Default,
    {
        Mode::Default
    }
}

impl Mode {
    /// Short indicator of the mode for a status bar.
    pub fn tag(&self) -> (r: &'static str)
        ensures
            *self == Mode::Lock ==> r@ == ""@,
            *self == Mode::Default ==> r@ == ""@,
            *self == Mode::Floating ==> r@ == "F"@,
            *self == Mode::Passthrough ==> r@ == "P"@,
    {
        match self {
            Mode::Lock => "",
            Mode::Default => "",
            Mode::Floating => "F",
            Mode::Passthrough => "P",
        }
    }
}

/// Window decoration style
#[derive(Debug, Clone, Copy, PartialEq, Eq, Structural)]
pub enum WindowDecoration {
    Csd,
    Ssd,
}

impl Default for WindowDecoration {
    fn default() -> (r: Self)
        ensures
            r == WindowDecoration::Ssd,
    {
        WindowDecoration::Ssd
    }
}

/// Border colors
#[derive(Debug, Clone, Copy)]
pub struct BorderColor {
    pub focus: u32,
    pub unfocus: u32,
    pub urgent: u32,
}

impl Default for BorderColor {
    fn default() -> (r: Self)
        ensures
            r.focus == 0xffff00ffu32,
            r.unfocus == 0x888800ffu32,
            r.urgent == 0xff0000ffu32,
    {
        BorderColor { focus: 0xffff00ff, unfocus: 0x888800ff, urgent: 0xff0000ff }
    }
}

/// Layered border colors (outer, mid, inner)
#[derive(Debug, Clone, Copy)]
pub struct BorderLayers {
    pub outer: u32,
    pub mid: u32,
    pub inner: u32,
}

impl Default for BorderLayers {
    fn default() -> (r: Self)
        ensures
            r.outer == 0x000000FFu32,
            r.mid == 0xC0C0C0FFu32,
            r.inner == 0x000000FFu32,
    {
        BorderLayers { outer: 0x000000FF, mid: 0xC0C0C0FF, inner: 0x000000FF }
    }
}

/// Optional overrides of the layered border colors, as read from a file.
#[derive(Debug, Clone, Copy)]
pub struct BorderLayersFile {
    pub outer: Option<u32>,
    pub mid: Option<u32>,
    pub inner: Option<u32>,
}

/// A present override replaces the current value; an absent one keeps it.
pub open spec fn override_u32(current: u32, o: Option<u32>) -> u32 {
    match o {
        Some(v) => v,
        None => current,
    }
}

impl BorderLayers {
    /// Replaces each color for which the overrides hold a value.
    pub fn apply(&mut self, overrides: BorderLayersFile)
        ensures
            final(self).outer == override_u32(old(self).outer, overrides.outer),
            final(self).mid == override_u32(old(self).mid, overrides.mid),
            final(self).inner == override_u32(old(self).inner, overrides.inner),
    {
        if let Some(outer) = overrides.outer {
            self.outer = outer;
        }
        if let Some(mid) = overrides.mid {
            self.mid = mid;
        }
        if let Some(inner) = overrides.inner {
            self.inner = inner;
        }
    }
}

/// Bar position
#[derive(Debug, Clone, Copy, PartialEq, Eq, Structural)]
pub enum BarPosition {
    Top,
    Bottom,
}

impl Default for BarPosition {
    fn default() -> (r: Self)
        ensures
            r == BarPosition::Top,
    {
        BarPosition::Top
    }
}

/// Bar color configuration
#[derive(Debug, Clone, Copy)]
pub struct BarColor {
    pub fg: u32,
    pub bg: u32,
}

/// Status source for bar
#[derive(Debug, Clone)]
pub enum StatusSource {
    Text(String),
    Stdin,
    Fifo(String),
}

impl Default for StatusSource {
    fn default() -> (r: Self)
        ensures
            r matches StatusSource::Text(t) && t@ == "rwm"@,
    {
        StatusSource::Text("rwm".to_owned())
    }
}

/// Bar configuration
#[derive(Debug, Clone)]
pub struct BarConfig {
    pub show_default: bool,
    pub position: BarPosition,
    pub font: String,
    pub color_normal: BarColor,
    pub color_select: BarColor,
    pub status: StatusSource,
}

impl Default for BarConfig {
    fn default() -> (r: Self)
        ensures
            r.show_default,
            r.position == BarPosition::Top,
            r.font@ == "monospace:size=10"@,
            r.color_normal.fg == 0x828bb8ffu32 && r.color_normal.bg == 0x1b1d2bd0u32,
            r.color_select.fg == 0x444a73ffu32 && r.color_select.bg == 0xc8d3f5d0u32,
            r.status matches StatusSource::Text(t) && t@ == "rwm"@,
    {
        BarConfig {
            show_default: true,
            position: BarPosition::Top,
            font: "monospace:size=10".to_owned(),
            color_normal: BarColor { fg: 0x828bb8ff, bg: 0x1b1d2bd0 },
            color_select: BarColor { fg: 0x444a73ff, bg: 0xc8d3f5d0 },
            status: StatusSource::default(),
        }
    }
}

/// XCursor theme configuration
#[derive(Debug, Clone)]
pub struct XCursorTheme {
    pub name: String,
    pub size: u32,
}

/// Runtime-mutable layout settings.  The fractional master and main-window
/// factors of the tile and scroller layouts are kept by the caller.
#[derive(Debug, Clone, Copy)]
pub struct MutableConfig {
    pub tile: TileConfig,
    pub grid: GridConfig,
    pub monocle: MonocleConfig,
    pub scroller: ScrollerConfig,
    pub border_width: i32,
    pub auto_swallow: bool,
}

impl Default for MutableConfig {
    fn default() -> (r: Self)
        ensures
            r.tile.nmaster == 1 && r.tile.inner_gap == 12 && r.tile.outer_gap == 9,
            r.tile.master_location == MasterLocation::Left,
            r.grid.outer_gap == 9 && r.grid.inner_gap == 12 && r.grid.direction == GridDirection::Horizontal,
            r.monocle.gap == 9,
            r.scroller.inner_gap == 16 && r.scroller.outer_gap == 9 && !r.scroller.snap_to_left,
            r.border_width == 5,
            r.auto_swallow,
    {
        MutableConfig {
            tile: TileConfig::default(),
            grid: GridConfig::default(),
            monocle: MonocleConfig::default(),
            scroller: ScrollerConfig::default(),
            border_width: 5,
            auto_swallow: true,
        }
    }
}

/// The layout indicator for a status bar, as a spec-level string.
pub open spec fn layout_tag_spec(layout: LayoutType, config: MutableConfig) -> Seq<char> {
    match layout {
        LayoutType::Tile => match config.tile.master_location {
            MasterLocation::Left => "[]="@,
            MasterLocation::Right => "=[]"@,
            MasterLocation::Top => "[^]"@,
            MasterLocation::Bottom => "[_]"@,
        },
        LayoutType::Grid => match config.grid.direction {
            GridDirection::Horizontal => "|+|"@,
            GridDirection::Vertical => "|||"@,
        },
        LayoutType::Monocle => "[=]"@,
        LayoutType::Scroller => if config.scroller.snap_to_left {
            "[<-]"@
        } else {
            "[==]"@
        },
        LayoutType::Float => "><>"@,
    }
}

/// Get layout tag string for display
pub fn layout_tag(layout: LayoutType, config: &MutableConfig) -> (r: &'static str)
    ensures
        r@ == layout_tag_spec(layout, *config),
{
    match layout {
        LayoutType::Tile => match config.tile.master_location {
            MasterLocation::Left => "[]=",
            MasterLocation::Right => "=[]",
            MasterLocation::Top => "[^]",
            MasterLocation::Bottom => "[_]",
        },
        LayoutType::Grid => match config.grid.direction {
            GridDirection::Horizontal => "|+|",
            GridDirection::Vertical => "|||",
        },
        LayoutType::Monocle => "[=]",
        LayoutType::Scroller => {
            if config.scroller.snap_to_left {
                "[<-]"
            } else {
                "[==]"
            }
        },
        LayoutType::Float => "><>",
    }
}

/// The modifier a configuration names: `super` (or `logo`), `alt`, `ctrl`
/// (or `control`) or `shift`; `None` for any other name.
pub open spec fn spec_modifier_named(name: Seq<char>) -> Option<u32> {
    if name == "super"@ || name == "logo"@ {
        Some(MOD_SUPER)
    } else if name == "alt"@ {
        Some(MOD_ALT)
    } else if name == "ctrl"@ || name == "control"@ {
        Some(MOD_CTRL)
    } else if name == "shift"@ {
        Some(MOD_SHIFT)
    } else {
        None
    }
}

/// The modifier a configuration names, as for the main modifier.
pub fn modifier_named(name: &str) -> (r: Option<u32>)
    ensures
        r == spec_modifier_named(name@),
{
    let n = name.to_owned();
    if n == "super".to_owned() || n == "logo".to_owned() {
        Some(MOD_SUPER)
    } else if n == "alt".to_owned() {
        Some(MOD_ALT)
    } else if n == "ctrl".to_owned() || n == "control".to_owned() {
        Some(MOD_CTRL)
    } else if n == "shift".to_owned() {
        Some(MOD_SHIFT)
    } else {
        None
    }
}

/// Whether `c` has the Unicode White_Space property: tab through carriage
/// return, space, next line, no-break space, ogham space mark, the spaces
/// from en quad to hair space, the line and paragraph separators, narrow
/// no-break space, medium mathematical space and ideographic space.
pub open spec fn is_white(c: char) -> bool {
    let v = c as u32;
    ||| 0x09 <= v <= 0x0D
    ||| v == 0x20
    ||| v == 0x85
    ||| v == 0xA0
    ||| v == 0x1680
    ||| 0x2000 <= v <= 0x200A
    ||| v == 0x2028
    ||| v == 0x2029
    ||| v == 0x202F
    ||| v == 0x205F
    ||| v == 0x3000
}

/// Whether `c` is whitespace, as `char::is_whitespace` says.
fn char_is_whitespace(c: char) -> (b: bool)
    ensures
        b == is_white(c),
{
    let v = c as u32;
    (0x09 <= v && v <= 0x0D) || v == 0x20 || v == 0x85 || v == 0xA0 || v == 0x1680 || (0x2000 <= v && v <= 0x200A)
        || v == 0x2028 || v == 0x2029 || v == 0x202F || v == 0x205F || v == 0x3000
}

/// Index of the first non-whitespace character at or after `i`.
pub open spec fn trim_start_from(s: Seq<char>, i: int) -> int
    decreases s.len() - i,
{
    if i < 0 || i >= s.len() || !is_white(s[i]) {
        i
    } else {
        trim_start_from(s, i + 1)
    }
}

/// One past the last non-whitespace character before `j` (not below `lo`).
pub open spec fn trim_end_from(s: Seq<char>, lo: int, j: int) -> int
    decreases j - lo,
{
    if j <= lo || j > s.len() || !is_white(s[j - 1]) {
        j
    } else {
        trim_end_from(s, lo, j - 1)
    }
}

/// The text without leading and trailing whitespace.
pub open spec fn spec_trim(s: Seq<char>) -> Seq<char> {
    let a = trim_start_from(s, 0);
    s.subrange(a, trim_end_from(s, a, s.len() as int))
}

proof fn lemma_trim_start(s: Seq<char>, i: int)
    requires
        0 <= i <= s.len(),
    ensures
        i <= trim_start_from(s, i) <= s.len(),
    decreases s.len() - i,
{
    if i < s.len() && is_white(s[i]) {
        lemma_trim_start(s, i + 1);
    }
}

proof fn lemma_trim_end(s: Seq<char>, lo: int, j: int)
    requires
        0 <= lo <= j <= s.len(),
    ensures
        lo <= trim_end_from(s, lo, j) <= j,
    decreases j - lo,
{
    if j > lo && is_white(s[j - 1]) {
        lemma_trim_end(s, lo, j - 1);
    }
}

/// The text without leading and trailing whitespace, as a new string.
pub fn trim(s: &str) -> (r: String)
    ensures
        r@ == spec_trim(s@),
{
    let n = s.unicode_len();
    let mut a: usize = 0;
    proof {
        lemma_trim_start(s@, 0);
    }
    while a < n && char_is_whitespace(s.get_char(a))
        invariant
            n == s@.len(),
            0 <= a <= n,
            trim_start_from(s@, 0) == trim_start_from(s@, a as int),
        decreases n - a,
    {
        a = a + 1;
    }
    let mut b: usize = n;
    proof {
        lemma_trim_end(s@, a as int, n as int);
    }
    while b > a && char_is_whitespace(s.get_char(b - 1))
        invariant
            n == s@.len(),
            0 <= a <= b <= n,
            a == trim_start_from(s@, 0),
            trim_end_from(s@, a as int, n as int) == trim_end_from(s@, a as int, b as int),
        decreases b - a,
    {
        b = b - 1;
    }
    s.substring_char(a, b).to_owned()
}

/// UI theme configuration
#[derive(Debug, Clone)]
pub struct UiConfig {
    pub border_width: i32,
    pub border_active: BorderLayers,
    pub border_inactive: BorderLayers,
    pub titlebar_text_active: u32,
    pub titlebar_text_inactive: u32,
    pub titlebar_bg_active: u32,
    pub titlebar_bg_inactive: u32,
    pub menu_bg: u32,
    pub menu_text: u32,
    pub menu_highlight_bg: u32,
    pub menu_highlight_text: u32,
    pub button_bg: u32,
    pub button_highlight: u32,
    pub button_shadow: u32,
    pub font_name: Option<String>,
    /// Font size, as the bit pattern of an `f32`
    pub font_size: u32,
    pub desktop_background: u32,
}

/// Bit pattern of the default font size, twelve points.
pub const DEFAULT_FONT_SIZE_BITS: u32 = 0x4140_0000;

impl Default for UiConfig {
    fn default() -> (r: Self)
        ensures
            r.border_width == 4,
            r.border_active.outer == 0x000000FFu32 && r.border_active.mid == 0xC0C0C0FFu32 && r.border_active.inner
                == 0x000000FFu32,
            r.border_inactive.outer == 0x000000FFu32 && r.border_inactive.mid == 0xC0C0C0FFu32
                && r.border_inactive.inner == 0x000000FFu32,
            r.titlebar_text_active == 0xFFFFFFFFu32,
            r.titlebar_text_inactive == 0xFFFFFFFFu32,
            r.titlebar_bg_active == 0x000080FFu32,
            r.titlebar_bg_inactive == 0xFFFFFFFFu32,
            r.menu_bg == 0xC0C0C0FFu32,
            r.menu_text == 0x000000FFu32,
            r.menu_highlight_bg == 0x000080FFu32,
            r.menu_highlight_text == 0xFFFFFFFFu32,
            r.button_bg == 0xC0C0C0FFu32,
            r.button_highlight == 0xFFFFFFFFu32,
            r.button_shadow == 0x808080FFu32,
            r.font_name.is_none(),
            r.font_size == DEFAULT_FONT_SIZE_BITS,
            r.desktop_background == 0x008080FFu32,
    {
        UiConfig {
            border_width: 4,
            border_active: BorderLayers::default(),
            border_inactive: BorderLayers::default(),
            titlebar_text_active: 0xFFFFFFFF,
            titlebar_text_inactive: 0xFFFFFFFF,
            titlebar_bg_active: 0x000080FF,
            titlebar_bg_inactive: 0xFFFFFFFF,
            menu_bg: 0xC0C0C0FF,
            menu_text: 0x000000FF,
            menu_highlight_bg: 0x000080FF,
            menu_highlight_text: 0xFFFFFFFF,
            button_bg: 0xC0C0C0FF,
            button_highlight: 0xFFFFFFFF,
            button_shadow: 0x808080FF,
            font_name: None,
            font_size: DEFAULT_FONT_SIZE_BITS,
            desktop_background: 0x008080FF,
        }
    }
}

/// Optional overrides of the UI theme, as read from the `[ui]` table of the
/// configuration file.
#[derive(Debug, Clone)]
pub struct UiConfigFile {
    pub border_width: Option<i32>,
    pub border_active: Option<BorderLayersFile>,
    pub border_inactive: Option<BorderLayersFile>,
    pub titlebar_text_active: Option<u32>,
    pub titlebar_text_inactive: Option<u32>,
    pub titlebar_bg_active: Option<u32>,
    pub titlebar_bg_inactive: Option<u32>,
    pub menu_bg: Option<u32>,
    pub menu_text: Option<u32>,
    pub menu_highlight_bg: Option<u32>,
    pub menu_highlight_text: Option<u32>,
    pub button_bg: Option<u32>,
    pub button_highlight: Option<u32>,
    pub button_shadow: Option<u32>,
    pub font_name: Option<String>,
    /// Font size, as the bit pattern of an `f32`
    pub font_size: Option<u32>,
    pub desktop_background: Option<u32>,
}

pub open spec fn override_i32(current: i32, o: Option<i32>) -> i32 {
    match o {
        Some(v) => v,
        None => current,
    }
}

pub open spec fn override_layers(current: BorderLayers, o: Option<BorderLayersFile>) -> BorderLayers {
    match o {
        Some(f) => BorderLayers {
            outer: override_u32(current.outer, f.outer),
            mid: override_u32(current.mid, f.mid),
            inner: override_u32(current.inner, f.inner),
        },
        None => current,
    }
}

/// The font name after an override: a given name is trimmed, and a name
/// that is empty once trimmed means the default font.
pub open spec fn override_font_name(current: Option<Seq<char>>, o: Option<Seq<char>>) -> Option<Seq<char>> {
    match o {
        Some(n) => if spec_trim(n).len() == 0 { None } else { Some(spec_trim(n)) },
        None => current,
    }
}

pub open spec fn opt_name(o: Option<String>) -> Option<Seq<char>> {
    match o {
        Some(s) => Some(s@),
        None => None,
    }
}

fn pick(current: u32, o: Option<u32>) -> (r: u32)
    ensures
        r == override_u32(current, o),
{
    match o {
        Some(v) => v,
        None => current,
    }
}

fn pick_layers(current: BorderLayers, o: Option<BorderLayersFile>) -> (r: BorderLayers)
    ensures
        r == override_layers(current, o),
{
    let mut b = current;
    if let Some(f) = o {
        b.apply(f);
    }
    b
}

impl UiConfig {
    /// Replaces each setting for which the overrides hold a value.
    pub fn apply(&mut self, overrides: UiConfigFile)
        ensures
            final(self).border_width == override_i32(old(self).border_width, overrides.border_width),
            final(self).border_active == override_layers(old(self).border_active, overrides.border_active),
            final(self).border_inactive == override_layers(old(self).border_inactive, overrides.border_inactive),
            final(self).titlebar_text_active == override_u32(old(self).titlebar_text_active, overrides.titlebar_text_active),
            final(self).titlebar_text_inactive == override_u32(
                old(self).titlebar_text_inactive,
                overrides.titlebar_text_inactive,
            ),
            final(self).titlebar_bg_active == override_u32(old(self).titlebar_bg_active, overrides.titlebar_bg_active),
            final(self).titlebar_bg_inactive == override_u32(old(self).titlebar_bg_inactive, overrides.titlebar_bg_inactive),
            final(self).menu_bg == override_u32(old(self).menu_bg, overrides.menu_bg),
            final(self).menu_text == override_u32(old(self).menu_text, overrides.menu_text),
            final(self).menu_highlight_bg == override_u32(old(self).menu_highlight_bg, overrides.menu_highlight_bg),
            final(self).menu_highlight_text == override_u32(old(self).menu_highlight_text, overrides.menu_highlight_text),
            final(self).button_bg == override_u32(old(self).button_bg, overrides.button_bg),
            final(self).button_highlight == override_u32(old(self).button_highlight, overrides.button_highlight),
            final(self).button_shadow == override_u32(old(self).button_shadow, overrides.button_shadow),
            opt_name(final(self).font_name) == override_font_name(opt_name(old(self).font_name), opt_name(overrides.font_name)),
            final(self).font_size == override_u32(old(self).font_size, overrides.font_size),
            final(self).desktop_background == override_u32(old(self).desktop_background, overrides.desktop_background),
    {
        let font_name = match overrides.font_name {
            Some(name) => {
                let trimmed = trim(name.as_str());
                if trimmed.as_str().is_empty() {
                    None
                } else {
                    Some(trimmed)
                }
            },
            None => self.font_name.clone(),
        };
        let border_active = pick_layers(self.border_active, overrides.border_active);
        let border_inactive = pick_layers(self.border_inactive, overrides.border_inactive);
        *self = UiConfig {
            border_width: match overrides.border_width {
                Some(v) => v,
                None => self.border_width,
            },
            border_active,
            border_inactive,
            titlebar_text_active: pick(self.titlebar_text_active, overrides.titlebar_text_active),
            titlebar_text_inactive: pick(self.titlebar_text_inactive, overrides.titlebar_text_inactive),
            titlebar_bg_active: pick(self.titlebar_bg_active, overrides.titlebar_bg_active),
            titlebar_bg_inactive: pick(self.titlebar_bg_inactive, overrides.titlebar_bg_inactive),
            menu_bg: pick(self.menu_bg, overrides.menu_bg),
            menu_text: pick(self.menu_text, overrides.menu_text),
            menu_highlight_bg: pick(self.menu_highlight_bg, overrides.menu_highlight_bg),
            menu_highlight_text: pick(self.menu_highlight_text, overrides.menu_highlight_text),
            button_bg: pick(self.button_bg, overrides.button_bg),
            button_highlight: pick(self.button_highlight, overrides.button_highlight),
            button_shadow: pick(self.button_shadow, overrides.button_shadow),
            font_name,
            font_size: pick(self.font_size, overrides.font_size),
            desktop_background: pick(self.desktop_background, overrides.desktop_background),
        };
    }
}


/// Bit patterns of the `f32` scroller factors of the default rules.
pub const MFACT_0_9_BITS: u32 = 0x3F66_6666;
pub const MFACT_0_8_BITS: u32 = 0x3F4C_CCCD;

/// A rule matching the app id `id` exactly.
fn app_rule(id: &str) -> (r: Rule)
    ensures
        r.app_id matches Some(a) && a@ == id@,
        r.title.is_none() && r.app_id_regex.is_none() && r.title_regex.is_none(),
        r.tag.is_none() && r.floating.is_none() && r.decoration.is_none(),
        r.is_terminal.is_none() && r.disable_swallow.is_none() && r.scroller_mfact.is_none(),
{
    let mut r = Rule::default();
    r.app_id = Some(id.to_owned());
    r
}

/// The rule sets only what its match fields and these values say.
pub open spec fn rule_sets(
    r: Rule,
    app_id: Option<Seq<char>>,
    tag: Option<u32>,
    floating: Option<bool>,
    is_terminal: Option<bool>,
    mfact: Option<u32>,
) -> bool {
    &&& match app_id {
        Some(id) => r.app_id matches Some(a) && a@ == id,
        None => r.app_id.is_none(),
    }
    &&& r.title.is_none() && r.app_id_regex.is_none() && r.title_regex.is_none()
    &&& r.tag == tag && r.floating == floating && r.decoration.is_none()
    &&& r.is_terminal == is_terminal && r.disable_swallow.is_none() && r.scroller_mfact == mfact
}

/// Default window rules: every window floats; a few dialogs float; a
/// browser opens on the second tag; the terminal is marked as one.
pub fn default_rules() -> (r: Vec<Rule>)
    ensures
        r@.len() == 6,
        rule_sets(r@[0], None, None, Some(true), None, None),
        rule_sets(r@[1], Some("zenity"@), None, Some(true), None, None),
        rule_sets(r@[2], Some("DesktopEditors"@), None, Some(true), None, None),
        rule_sets(r@[3], Some("xdg-desktop-portal-gtk"@), None, Some(true), None, None),
        rule_sets(r@[4], Some("chromium"@), Some(2), None, None, Some(MFACT_0_9_BITS)),
        rule_sets(r@[5], Some("foot"@), None, None, Some(true), Some(MFACT_0_8_BITS)),
{
    let mut rules: Vec<Rule> = Vec::new();
    let mut all = Rule::default();
    all.floating = Some(true);
    rules.push(all);
    let mut zenity = app_rule("zenity");
    zenity.floating = Some(true);
    rules.push(zenity);
    let mut editors = app_rule("DesktopEditors");
    editors.floating = Some(true);
    rules.push(editors);
    let mut portal = app_rule("xdg-desktop-portal-gtk");
    portal.floating = Some(true);
    rules.push(portal);
    let mut chromium = app_rule("chromium");
    chromium.tag = Some(1u32 << 1u32);
    chromium.scroller_mfact = Some(MFACT_0_9_BITS);
    rules.push(chromium);
    let mut foot = app_rule("foot");
    foot.is_terminal = Some(true);
    foot.scroller_mfact = Some(MFACT_0_8_BITS);
    rules.push(foot);
    assert(1u32 << 1u32 == 2) by (bit_vector);
    rules
}

} // verus!
