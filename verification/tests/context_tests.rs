use rwm::action::{Action, Step};
use rwm::config::WindowDecoration;
use rwm::context::{decide_interaction, CloseClick, Command, Context, Interaction, ManagerEvent};
use rwm::layout::LayoutType;
use rwm::window::{WindowEvent, WindowRequest};

fn context() -> Context {
    Context::new(Vec::new(), WindowDecoration::Ssd, LayoutType::Tile, 2, 20)
}

fn ids(c: &Context) -> Vec<usize> {
    c.windows.iter().map(|w| w.id).collect()
}

#[test]
fn new_context_is_empty() {
    let c = context();
    assert!(c.windows.is_empty() && c.outputs.is_empty() && c.seats.is_empty());
    assert!(c.running);
    assert_eq!(c.focused_window, None);
}

#[test]
fn windows_get_increasing_ids() {
    let mut c = context();
    assert_eq!(c.create_window(), 0);
    assert_eq!(c.create_window(), 1);
    assert_eq!(ids(&c), vec![0, 1]);
    assert_eq!(c.focus_stack, vec![0, 1]);
    assert!(c.windows[1].floating);
    assert!(c.windows[1].output.is_none());
    assert_eq!(c.windows[1].tag, 1);
}

#[test]
fn created_then_destroyed_window_leaves_no_trace() {
    let mut c = context();
    c.create_window();
    c.focus(0);
    let before_ids = ids(&c);
    let before_stack = c.focus_stack.clone();
    let before_focus = c.focused_window;
    let id = c.create_window();
    c.destroy_window(id);
    assert_eq!(ids(&c), before_ids);
    assert_eq!(c.focus_stack, before_stack);
    assert_eq!(c.focused_window, before_focus);
}

#[test]
fn destroying_the_focused_window_focuses_the_next_in_stack() {
    let mut c = context();
    c.create_window();
    c.create_window();
    c.focus(1);
    assert_eq!(c.focus_stack, vec![1, 0]);
    c.destroy_window(1);
    assert_eq!(c.focused_window, Some(0));
    assert_eq!(c.focus_stack, vec![0]);
    assert!(c.find_window(1).is_none());
}

#[test]
fn focusing_twice_is_focusing_once() {
    let mut c = context();
    c.create_window();
    c.create_window();
    c.create_window();
    c.focus(1);
    let once = c.focus_stack.clone();
    c.focus(1);
    assert_eq!(c.focus_stack, once);
    assert_eq!(c.focus_stack[0], 1);
    assert_eq!(c.focused_window, Some(1));
}

#[test]
fn window_on_current_output_takes_its_main_tag() {
    let mut c = context();
    let o = c.create_output();
    assert_eq!(c.current_output, Some(o));
    let w = c.create_window();
    let i = c.find_window(w).unwrap();
    assert_eq!(c.windows[i].output, Some(o));
    assert_eq!(c.windows[i].tag, c.outputs[0].main_tag);
}

#[test]
fn toggling_floating_twice_restores_the_window() {
    let mut c = context();
    c.create_window();
    c.focus(0);
    let before = c.windows[0].floating;
    c.toggle_floating();
    assert_eq!(c.windows[0].floating, !before);
    c.toggle_floating();
    assert_eq!(c.windows[0].floating, before);
}

#[test]
fn quit_stops_the_manager() {
    let mut c = context();
    let seat = c.create_seat();
    let cmds = c.execute_action(Action::Quit, seat);
    assert!(cmds.is_empty());
    assert!(!c.running);
}

#[test]
fn shell_commands_run_through_sh() {
    let c = context();
    let cmds = c.spawn_shell("echo hi");
    assert_eq!(cmds.len(), 1);
    match &cmds[0] {
        Command::Spawn { argv } => assert_eq!(argv.clone(), vec!["sh".to_string(), "-c".to_string(), "echo hi".to_string()]),
        _ => panic!("expected a spawn"),
    }
    assert!(c.spawn(Vec::new()).is_empty());
    assert_eq!(c.spawn(vec!["foot".to_string()]).len(), 1);
}

#[test]
fn init_event_sizes_decorates_and_focuses() {
    let mut c = context();
    let o = c.create_output();
    c.outputs[0].update_dimensions(1000, 800);
    let seat = c.create_seat();
    let w = c.create_window();
    c.windows[0].queue_event(WindowEvent::Init);
    let cmds = c.handle_manage_start();
    assert!(c.windows[0].unhandled_events.is_empty());
    assert_eq!(c.focused_window, Some(w));
    assert_eq!(cmds.len(), 3);
    assert!(matches!(cmds[0], Command::Window { id: 0, request: WindowRequest::UseSsd }));
    assert!(matches!(cmds[1], Command::Window { id: 0, request: WindowRequest::ProposeDimensions { width: 500, height: 400 } }));
    assert!(matches!(cmds[2], Command::FocusWindow { seat: s, window: 0 } if s == seat));
    assert_eq!(o, 0);
}

#[test]
fn manage_without_events_does_nothing() {
    let mut c = context();
    c.create_window();
    let cmds = c.handle_manage_start();
    assert!(cmds.is_empty());
    assert_eq!(c.focused_window, None);
}

#[test]
fn first_render_shows_every_window() {
    let mut c = context();
    c.create_output();
    c.outputs[0].update_dimensions(1000, 800);
    c.create_window();
    c.windows[0].tag = 2;
    c.windows[0].hidden = true;
    c.handle_render_start();
    assert!(c.startup_unminimize_done);
    assert!(!c.windows[0].hidden);
    // On the next render a window on another tag is hidden.
    c.handle_render_start();
    assert!(c.windows[0].hidden);
}

#[test]
fn moves_far_out_do_not_fit() {
    let mut c = context();
    let seat = c.create_seat();
    c.create_window();
    c.focus(0);
    c.windows[0].x = i32::MAX - 5;
    let far = Action::Move { step: Step { horizontal: 10, vertical: 0 } };
    let near = Action::Move { step: Step { horizontal: -10, vertical: 0 } };
    assert!(!c.action_fits(&far, seat));
    assert!(c.action_fits(&near, seat));
    assert!(c.action_fits(&Action::Quit, seat));
}

#[test]
fn zoom_brings_focused_window_to_front() {
    let mut c = context();
    c.create_window();
    c.create_window();
    c.focus(0);
    c.focus(1);
    c.zoom();
    assert_eq!(c.focus_stack[0], c.focused_window.unwrap());
}

#[test]
fn seats_start_with_the_default_bindings() {
    let c = context();
    let (keys, pointers) = c.setup_seat_bindings(rwm::action::MAIN_MODIFIER, Action::SpawnShell { cmd: "fuzzel".to_string() });
    assert_eq!(keys.len(), 22);
    assert_eq!(pointers.len(), 2);
    assert!(keys.iter().all(|b| !b.enabled));
    assert_eq!(keys[16].keysym, rwm::action::KEY_Q);
    assert!(matches!(keys[16].action, Action::Quit));
    assert!(matches!(keys[19].event, rwm::action::BindingEvent::Released));
    assert_eq!(pointers[1].button, rwm::config::BUTTON_RIGHT);
    assert_eq!(pointers[1].modifiers, rwm::config::MOD_SUPER);
    assert!(matches!(pointers[1].action, Action::PointerResize));
}

fn framed_window() -> rwm::window::Window {
    let mut w = rwm::window::Window::new(7);
    w.x = 100;
    w.y = 100;
    w.width = 200;
    w.height = 100;
    w.has_titlebar = true;
    w
}

fn pointer_at(x: i32, y: i32) -> rwm::context::SeatState {
    rwm::context::SeatState { id: 0, pointer_x: x, pointer_y: y, window_below_pointer: Some(7), last_close_click: None }
}

#[test]
fn dragging_the_titlebar_moves_the_window() {
    let w = framed_window();
    assert_eq!(decide_interaction(&w, &pointer_at(200, 90), 4, 20, 0), Interaction::Move { on_row: true });
}

#[test]
fn dragging_an_edge_resizes_the_window() {
    let w = framed_window();
    assert_eq!(decide_interaction(&w, &pointer_at(97, 150), 4, 20, 0), Interaction::Resize { edges: 4 });
    assert_eq!(decide_interaction(&w, &pointer_at(200, 150), 4, 20, 0), Interaction::Nothing);
}

#[test]
fn titlebar_buttons_are_recognised() {
    let w = framed_window();
    assert_eq!(decide_interaction(&w, &pointer_at(110, 90), 4, 20, 0), Interaction::Close { double: false });
    assert_eq!(decide_interaction(&w, &pointer_at(100 + 165, 90), 4, 20, 0), Interaction::Hide);
    assert_eq!(decide_interaction(&w, &pointer_at(100 + 190, 90), 4, 20, 0), Interaction::Maximize);
    let mut st = pointer_at(110, 90);
    st.last_close_click = Some(CloseClick { window: 7, time_ms: 1000 });
    assert_eq!(decide_interaction(&w, &st, 4, 20, 1300), Interaction::Close { double: true });
    assert_eq!(decide_interaction(&w, &st, 4, 20, 1500), Interaction::Close { double: false });
}

#[test]
fn default_context_uses_the_default_configuration() {
    let c = Context::default();
    assert_eq!(c.rules.len(), 6);
    assert_eq!(c.border_width, 4);
    assert!(matches!(c.default_window_decoration, WindowDecoration::Ssd));
    assert!(matches!(c.default_layout, LayoutType::Tile));
    let font_size = f32::from_bits(rwm::config::UiConfig::default().font_size);
    let height = (((0.75 * font_size).round() as i32) * 2 + 1).max(1);
    assert_eq!(c.titlebar_height, height);
    assert_eq!(height, rwm::context::DEFAULT_TITLEBAR_HEIGHT);
}

#[test]
fn windows_of_a_removed_output_are_judged_by_tags() {
    let mut c = context();
    let first = c.create_output();
    let second = c.create_output();
    c.create_window();
    assert_eq!(c.windows[0].output, Some(first));
    c.destroy_output(first);
    assert_eq!(c.windows[0].output, None);
    assert_eq!(c.current_output, Some(second));
    assert!(c.windows[0].is_visible_on(second, c.outputs[0].tag));
}

#[test]
fn manager_finishing_stops_the_manager() {
    let mut c = context();
    assert!(c.handle_manager_event(ManagerEvent::Finished).is_empty());
    assert!(!c.running);
    let mut d = context();
    d.handle_manager_event(ManagerEvent::Unavailable);
    assert!(!d.running);
}

#[test]
fn session_lock_switches_the_seat_mode() {
    let mut c = context();
    let seat = c.create_seat();
    let cmds = c.handle_manager_event(ManagerEvent::SessionLocked);
    assert!(c.session_locked);
    assert!(matches!(cmds[..], [Command::SwitchMode { seat: s, mode: rwm::config::Mode::Lock }] if s == seat));
    let cmds = c.handle_manager_event(ManagerEvent::SessionUnlocked);
    assert!(!c.session_locked);
    assert!(matches!(cmds[..], [Command::SwitchMode { mode: rwm::config::Mode::Default, .. }]));
    let mut d = context();
    assert!(d.handle_manager_event(ManagerEvent::SessionLocked).is_empty());
}

#[test]
fn announced_window_waits_for_its_first_manage() {
    let mut c = context();
    c.handle_manager_event(ManagerEvent::Output);
    c.handle_manager_event(ManagerEvent::Seat);
    c.handle_manager_event(ManagerEvent::Window { titlebar: true });
    assert_eq!(c.windows.len(), 1);
    assert!(c.windows[0].has_titlebar && c.windows[0].has_rwm_node);
    assert_eq!(c.windows[0].unhandled_events, vec![WindowEvent::Init]);
    let cmds = c.handle_manager_event(ManagerEvent::ManageStart);
    assert!(matches!(cmds.last(), Some(Command::FinishManage)));
    assert_eq!(c.focused_window, Some(0));
}

#[test]
fn render_draws_titlebars_above_the_content() {
    let mut c = context();
    c.handle_manager_event(ManagerEvent::Output);
    c.outputs[0].update_dimensions(1000, 800);
    c.handle_manager_event(ManagerEvent::Window { titlebar: true });
    c.handle_manager_event(ManagerEvent::Window { titlebar: false });
    c.windows[0].width = 300;
    c.windows[0].height = 200;
    c.windows[1].width = 300;
    c.windows[1].height = 200;
    c.focus(0);
    let cmds = c.handle_manager_event(ManagerEvent::RenderStart);
    assert!(matches!(cmds.last(), Some(Command::FinishRender)));
    let drawn: Vec<&Command> = cmds.iter().filter(|k| matches!(k, Command::DrawTitlebar { .. })).collect();
    assert_eq!(drawn.len(), 1);
    assert!(matches!(drawn[0], Command::DrawTitlebar { window: 0, focused: true, offset_x: -2, offset_y: -22 }));
}

#[test]
fn main_modifier_and_launcher_can_be_chosen() {
    let c = context();
    let alt = rwm::config::modifier_named("alt").unwrap();
    assert_eq!(alt, rwm::config::MOD_ALT);
    let (keys, pointers) = c.setup_seat_bindings(alt, Action::Spawn { argv: vec!["fuzzel".to_string(), "--dmenu".to_string()] });
    assert_eq!(keys[2].keysym, rwm::action::KEY_W);
    assert_eq!(keys[2].modifiers, alt);
    assert!(matches!(&keys[1].action, Action::Spawn { argv } if argv.len() == 2));
    assert!(pointers.iter().all(|p| p.modifiers == alt));
    assert_eq!(rwm::config::modifier_named("super"), Some(rwm::config::MOD_SUPER));
    assert_eq!(rwm::config::modifier_named("ctrl"), Some(rwm::config::MOD_CTRL));
    assert_eq!(rwm::config::modifier_named("hyper"), None);
}

#[test]
fn step_back_action_unmaximizes_the_focused_window_first() {
    let mut c = context();
    let seat = c.create_seat();
    let id = c.create_window();
    c.focus(id);
    c.windows[0].has_rwm_window = true;
    c.windows[0].maximized = true;
    let cmds = c.execute_action(Action::StepBackFocused, seat);
    assert!(!c.windows[0].maximized);
    assert!(!c.windows[0].hidden);
    assert!(matches!(&cmds[..], [Command::Window { id: i, request: WindowRequest::InformUnmaximized }] if *i == id));
    let cmds = c.execute_action(Action::StepBackFocused, seat);
    assert!(c.windows[0].hidden);
    assert!(matches!(&cmds[..], [Command::Window { id: i, request: WindowRequest::Hide }] if *i == id));
}

#[test]
fn focus_same_app_cycles_through_one_application() {
    let mut c = context();
    let seat = c.create_seat();
    c.create_output();
    for app in ["foot", "firefox", "foot", "kitty"] {
        let id = c.create_window();
        let i = c.find_window(id).unwrap();
        c.windows[i].app_id = Some(app.to_string());
    }
    c.focus(0);
    c.execute_action(Action::FocusSameApp, seat);
    assert_eq!(c.focused_window, Some(2));
    c.execute_action(Action::FocusSameApp, seat);
    assert_eq!(c.focused_window, Some(0));
    c.focus(3);
    let cmds = c.execute_action(Action::FocusSameApp, seat);
    assert_eq!(c.focused_window, Some(3));
    assert_eq!(c.focus_stack[0], 3);
    assert!(matches!(&cmds[..], [Command::FocusWindow { window: 3, .. }]));
    c.windows[3].app_id = None;
    let before = c.focus_stack.clone();
    assert!(c.execute_action(Action::FocusSameApp, seat).is_empty());
    assert_eq!(c.focus_stack, before);
}

#[test]
fn super_left_and_right_snap_to_halves_and_restore() {
    let mut c = context();
    let seat = c.create_seat();
    c.create_output();
    c.outputs[0].x = 0;
    c.outputs[0].y = 0;
    c.outputs[0].width = 1920;
    c.outputs[0].height = 1080;
    let id = c.create_window();
    c.focus(id);
    c.windows[0].has_rwm_window = true;
    c.windows[0].has_rwm_node = true;
    c.windows[0].floating = false;
    c.windows[0].x = 100;
    c.windows[0].y = 50;
    c.windows[0].width = 640;
    c.windows[0].height = 480;
    let b = c.border_width;
    let t = c.titlebar_height;
    let left = rwm::window::Side::Left;
    let right = rwm::window::Side::Right;
    let cmds = c.execute_action(Action::SnapHalf { side: left }, seat);
    let w = &c.windows[0];
    assert!(w.floating);
    assert_eq!((w.x, w.y), (b, b + t));
    assert_eq!((w.proposed_width, w.proposed_height), (960 - 2 * b, 1080 - 2 * b - t));
    assert_eq!(w.snapped, Some(left));
    assert!(matches!(&cmds[..], [
        Command::Window { request: WindowRequest::SetPosition { .. }, .. },
        Command::Window { request: WindowRequest::ProposeDimensions { .. }, .. },
    ]));
    // Snapped left, Super+Right brings the window back.
    let cmds = c.execute_action(Action::SnapHalf { side: right }, seat);
    let w = &c.windows[0];
    assert!(!w.floating);
    assert_eq!((w.x, w.y), (100, 50));
    assert_eq!((w.proposed_width, w.proposed_height), (640, 480));
    assert_eq!(w.snapped, None);
    assert!(w.pre_snap.is_none());
    assert!(matches!(&cmds[..], [
        Command::Window { request: WindowRequest::SetPosition { x: 100, y: 50 }, .. },
        Command::Window { request: WindowRequest::ProposeDimensions { width: 640, height: 480 }, .. },
    ]));
    // From there, Super+Right snaps to the right half.
    c.execute_action(Action::SnapHalf { side: right }, seat);
    let w = &c.windows[0];
    assert_eq!((w.x, w.y), (960 + b, b + t));
    assert_eq!(w.proposed_width, 960 - 2 * b);
    assert_eq!(w.snapped, Some(right));
}
