use rwm::config::{layout_tag, trim, MutableConfig, UiConfig};
use rwm::layout::LayoutType;
use rwm::menu::{item_height, measure_menu, MenuItem, MenuTheme, WindowMenu};
use rwm::output::Output;
use rwm::rule::Pattern;
use rwm::window::{FullscreenState, SavedGeometry, Window, WindowEvent, WindowRequest};

#[test]
fn toggling_a_window_tag_twice_gives_it_back() {
    let mut w = Window::new(3);
    w.set_tag(0b0101);
    w.toggle_tag(0b0010);
    assert_eq!(w.tag, 0b0111);
    w.toggle_tag(0b0010);
    assert_eq!(w.tag, 0b0101);
}

#[test]
fn a_window_keeps_at_least_one_tag() {
    let mut w = Window::new(3);
    w.set_tag(0b0100);
    w.toggle_tag(0b0100);
    assert_eq!(w.tag, 0b0100);
}

#[test]
fn hide_and_show_ask_only_when_needed() {
    let mut w = Window::new(1);
    w.has_rwm_window = true;
    assert!(w.show().is_empty());
    assert_eq!(w.make_hidden(), vec![WindowRequest::Hide]);
    assert!(w.hidden);
    assert!(w.make_hidden().is_empty());
    assert_eq!(w.show(), vec![WindowRequest::Show]);
    assert!(!w.hidden);
}

#[test]
fn visible_only_on_its_tags_and_output() {
    let mut w = Window::new(1);
    w.tag = 0b10;
    w.output = Some(4);
    assert!(w.is_visible_on(4, 0b11));
    assert!(!w.is_visible_on(4, 0b01));
    assert!(!w.is_visible_on(5, 0b10));
    w.hidden = true;
    assert!(!w.is_visible_on(4, 0b10));
}

#[test]
fn queued_events_come_out_in_order() {
    let mut w = Window::new(1);
    w.queue_event(WindowEvent::Init);
    w.queue_event(WindowEvent::Close);
    let evs = w.handle_events();
    assert_eq!(evs, vec![WindowEvent::Init, WindowEvent::Close]);
    assert!(w.handle_events().is_empty());
}

#[test]
fn output_tag_switches_back_and_forth() {
    let mut o = Output::new(0);
    o.set_tag(0b0110);
    assert_eq!(o.tag, 0b0110);
    assert_eq!(o.main_tag, 0b0010);
    o.switch_to_previous_tag();
    assert_eq!(o.tag, 1);
    o.switch_to_previous_tag();
    assert_eq!(o.tag, 0b0110);
    assert_eq!(o.main_tag, 0b0010);
}

#[test]
fn output_ignores_an_empty_tag_set() {
    let mut o = Output::new(0);
    o.set_tag(0);
    assert_eq!(o.tag, 1);
    o.toggle_tag(1);
    assert_eq!(o.tag, 1);
    o.toggle_tag(0b100);
    assert_eq!(o.tag, 0b101);
    assert_eq!(o.main_tag, 1);
}

#[test]
fn usable_area_prefers_the_exclusive_area() {
    let mut o = Output::new(0);
    o.update_dimensions(800, 600);
    assert_eq!(o.usable_area(), (0, 0, 800, 600));
    o.update_exclusive_area(0, 30, 800, 570);
    assert_eq!(o.usable_area(), (0, 30, 800, 570));
}

#[test]
fn invalid_regex_is_refused() {
    assert!(Pattern::regex("(unclosed").is_none());
    assert!(Pattern::regex("[a-z]+").is_some());
    assert!(Pattern::regex("^fo+$").unwrap().matches("foooo"));
    assert!(!Pattern::regex("^fo+$").unwrap().matches("bar"));
}

#[test]
fn trim_drops_surrounding_whitespace() {
    assert_eq!(trim("  foot \t\n"), "foot");
    assert_eq!(trim(""), "");
    assert_eq!(trim(" a b "), "a b");
}

#[test]
fn layout_tags() {
    let cfg = MutableConfig::default();
    assert_eq!(layout_tag(LayoutType::Tile, &cfg), "[]=");
    assert_eq!(layout_tag(LayoutType::Monocle, &cfg), "[=]");
}

fn items(n: usize) -> Vec<MenuItem> {
    (0..n).map(|i| MenuItem { window_id: i * 10, title: format!("w{}", i), hidden: false, active: i == 0 }).collect()
}

#[test]
fn menu_size() {
    assert_eq!(item_height(12), 20);
    assert_eq!(item_height(-20), 1);
    assert_eq!(measure_menu(&items(3), 20, Some(50)), (8 * 2 + 10 + 6 + 50 + 2 + 3, 60 + 2 + 3));
    assert_eq!(measure_menu(&items(0), 20, None), (120 + 3, 1 + 2 + 3));
}

#[test]
fn menu_entries_under_the_pointer() {
    let theme = MenuTheme::from_ui(&UiConfig::default());
    let m = WindowMenu::new(0, items(3), 10, 10, theme, 20, Some(50));
    assert_eq!(m.item_at(5, 1), Some(0));
    assert_eq!(m.item_at(5, 21), Some(1));
    assert_eq!(m.item_at(5, 60), Some(2));
    assert_eq!(m.item_at(0, 5), None);
    assert_eq!(m.item_at(5, 61), None);
}

#[test]
fn menu_cycles_through_entries() {
    let theme = MenuTheme::from_ui(&UiConfig::default());
    let mut m = WindowMenu::new(0, items(3), 0, 0, theme, 20, None);
    assert!(m.select_next());
    assert_eq!(m.hovered, Some(0));
    m.select_next();
    m.select_next();
    assert_eq!(m.hovered, Some(2));
    m.select_next();
    assert_eq!(m.hovered, Some(0));
    assert!(m.select_window(Some(20)));
    assert_eq!(m.hovered, Some(2));
    assert!(!m.select_window(Some(20)));
    m.select_window(Some(99));
    assert_eq!(m.hovered, None);
}

fn bound(keysym: u32, modifiers: u32) -> Vec<rwm::action::Action> {
    rwm::action::default_xkb_bindings()
        .into_iter()
        .filter(|b| b.1 == keysym && b.2 == modifiers)
        .map(|b| b.3)
        .collect()
}

#[test]
fn readme_key_bindings_use_super() {
    let sup = rwm::config::MOD_SUPER;
    let shift = rwm::config::MOD_SHIFT;
    let alt = rwm::config::MOD_ALT;
    let foot = bound(rwm::action::KEY_RETURN, sup | shift);
    assert!(matches!(&foot[..], [rwm::action::Action::Spawn { argv }] if argv == &vec!["foot".to_string()]));
    let launcher = bound(rwm::action::KEY_SPACE, sup);
    assert!(matches!(&launcher[..], [rwm::action::Action::SpawnShell { cmd }] if cmd == "fuzzel"));
    assert!(matches!(&bound(rwm::action::KEY_W, sup)[..], [rwm::action::Action::Close]));
    assert!(matches!(
        &bound(rwm::action::KEY_TAB, sup)[..],
        [rwm::action::Action::FocusIter { direction: rwm::action::Direction::Forward, skip_floating: false }]
    ));
    assert!(matches!(&bound(rwm::action::KEY_RETURN, sup)[..], [rwm::action::Action::ToggleFullscreen { in_window: false }]));
    assert!(matches!(&bound(rwm::action::KEY_UP, sup)[..], [rwm::action::Action::MaximizeFocused]));
    assert!(matches!(&bound(rwm::action::KEY_H, sup)[..], [rwm::action::Action::HideFocused]));
    assert!(matches!(
        &bound(rwm::action::KEY_LEFT, sup | alt)[..],
        [rwm::action::Action::SendToOutput { direction: rwm::action::Direction::Reverse }]
    ));
    // Nothing is bound to the old Alt combinations.
    assert!(bound(rwm::action::KEY_RETURN, alt | shift).is_empty());
    let ptr = rwm::action::default_pointer_bindings();
    assert_eq!(ptr[0].2, sup);
    assert_eq!(ptr[1].2, sup);
}

#[test]
fn whitespace_is_unicode_white_space() {
    for code in 0u32..=0x10FFFF {
        if let Some(c) = char::from_u32(code) {
            let s = format!("{}x{}", c, c);
            assert_eq!(trim(&s), s.trim(), "code point {:#x}", code);
        }
    }
    let ws: Vec<u32> = (0u32..=0x10FFFF).filter_map(char::from_u32).filter(|c| c.is_whitespace()).map(|c| c as u32).collect();
    assert_eq!(ws.len(), 25);
}

#[test]
fn decisions_given_the_regex_outcome() {
    let p = Pattern::regex("^fo+$").unwrap();
    assert!(p.decide("foo", Some(true)));
    assert!(!p.decide("foo", Some(false)));
    assert!(!p.decide("foo", None));
    let lit = Pattern::literal("foot");
    assert!(lit.decide("foot", Some(false)));
    assert!(!lit.decide("bar", Some(true)));
    let none: Option<String> = None;
    assert!(rwm::rule::field_decision(&none, true, Some("x"), Some(true)));
    assert!(!rwm::rule::field_decision(&none, true, Some("x"), None));
    assert!(rwm::rule::field_decision(&none, false, Some("x"), None));
    assert!(!rwm::rule::field_decision(&none, true, None, Some(true)));
    assert!(rwm::rule::field_decision(&Some("a".to_string()), true, Some("a"), Some(false)));
}

#[test]
fn layout_factors_keep_their_defaults() {
    let cfg = MutableConfig::default();
    assert_eq!(f32::from_bits(cfg.tile.mfact), 0.55);
    assert_eq!(f32::from_bits(cfg.scroller.mfact), 0.5);
}

#[test]
fn step_back_leaves_fullscreen_then_maximized_then_hides() {
    let mut w = Window::new(7);
    w.has_rwm_window = true;
    w.fullscreen = FullscreenState::Output(2);
    w.maximized = true;
    w.pre_maximize = Some(SavedGeometry { x: 5, y: 6, width: 300, height: 200, floating: true });
    w.min_width = 10;
    w.min_height = 250;
    assert_eq!(w.step_back(), vec![WindowRequest::ExitFullscreen, WindowRequest::InformNotFullscreen]);
    assert!(matches!(w.fullscreen, FullscreenState::Off));
    assert!(w.maximized);
    assert!(!w.hidden);
    assert_eq!(
        w.step_back(),
        vec![WindowRequest::ProposeDimensions { width: 300, height: 250 }, WindowRequest::InformUnmaximized]
    );
    assert!(!w.maximized);
    assert!(w.pre_maximize.is_none());
    assert_eq!((w.proposed_width, w.proposed_height), (300, 250));
    assert!(!w.hidden);
    assert_eq!(w.step_back(), vec![WindowRequest::Hide]);
    assert!(w.hidden);
    assert!(w.step_back().is_empty());
}

#[test]
fn super_keys_step_back_cycle_an_application_and_snap_halves() {
    let sup = rwm::config::MOD_SUPER;
    assert!(matches!(&bound(rwm::action::KEY_DOWN, sup)[..], [rwm::action::Action::StepBackFocused]));
    assert!(matches!(&bound(rwm::action::KEY_GRAVE, sup)[..], [rwm::action::Action::FocusSameApp]));
    assert!(matches!(
        &bound(rwm::action::KEY_LEFT, sup)[..],
        [rwm::action::Action::SnapHalf { side: rwm::window::Side::Left }]
    ));
    assert!(matches!(
        &bound(rwm::action::KEY_RIGHT, sup)[..],
        [rwm::action::Action::SnapHalf { side: rwm::window::Side::Right }]
    ));
}
