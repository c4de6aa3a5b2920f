use lib::model::{Command, FOCUSED_BORDER_COLOR, UNFOCUSED_BORDER_COLOR};
use lib::swc::{swc_rectangle, wl_display, SWC_WINDOW_EDGE_AUTO};
use lib::wm::WindowManager;

fn rect(x: i32, y: i32, width: u32, height: u32) -> swc_rectangle {
    swc_rectangle { x, y, width, height }
}

fn grey(window: usize) -> Command {
    Command::SetBorder { window, inner_color: UNFOCUSED_BORDER_COLOR, inner_width: 1, outer_color: 0, outer_width: 0 }
}

fn blue(window: usize) -> Command {
    Command::SetBorder { window, inner_color: FOCUSED_BORDER_COLOR, inner_width: 1, outer_color: 0, outer_width: 0 }
}

fn up(window: usize) -> Command {
    Command::Stack { window, direction: -1 }
}

/// A screen of 1920x1080 with two windows, the second focused.
fn two_windows() -> WindowManager {
    let mut wm = WindowManager::new();
    wm.new_screen(0x10, rect(0, 0, 1920, 1080));
    wm.new_window(0x100, None);
    wm.new_window(0x200, Some(rect(240, 135, 1440, 810)));
    wm
}

#[test]
fn first_window_is_centred_and_focused() {
    let mut wm = WindowManager::new();
    assert_eq!(wm.get_focused_window(), None);
    let s = wm.new_screen(0x10, rect(0, 0, 1920, 1080));
    assert_eq!(s, 0);
    assert_eq!(wm.get_active_screen(), Some(0));
    let a = wm.new_window(0x100, None);
    assert_eq!(a.window, 0);
    assert_eq!(a.pan_screen, Some(0));
    assert_eq!(
        a.commands,
        vec![
            Command::SetStacked { window: 0x100 },
            Command::SetStacked { window: 0x100 },
            Command::SetGeometry { window: 0x100, geometry: rect(240, 135, 1440, 810) },
            Command::Show { window: 0x100 },
            up(0x100),
            blue(0x100),
            Command::Focus { target: Some(0x100) },
        ]
    );
    assert_eq!(wm.get_focused_window(), Some(0));
    assert_eq!(wm.window_screen(0), Some(0));
    assert_eq!(wm.screen_window_handles(0), vec![0x100]);
}

#[test]
fn second_window_goes_beside_the_focused_one() {
    let mut wm = WindowManager::new();
    wm.new_screen(0x10, rect(0, 0, 1920, 1080));
    wm.new_window(0x100, None);
    let a = wm.new_window(0x200, Some(rect(240, 135, 1440, 810)));
    assert_eq!(a.window, 1);
    assert_eq!(
        a.commands,
        vec![
            Command::SetStacked { window: 0x200 },
            Command::SetStacked { window: 0x200 },
            Command::SetGeometry { window: 0x200, geometry: rect(1744, 149, 1440, 810) },
            Command::Show { window: 0x200 },
            grey(0x100),
            up(0x200),
            up(0x200),
            blue(0x200),
            Command::Focus { target: Some(0x200) },
        ]
    );
    assert_eq!(wm.get_focused_window(), Some(1));
    assert_eq!(wm.screen_window_handles(0), vec![0x100, 0x200]);
    assert_eq!(wm.next_spawn_index(), 2);
    assert_eq!(wm.next_spawn_index(), 3);
}

#[test]
fn window_without_screen() {
    let mut wm = WindowManager::new();
    let a = wm.new_window(0x300, None);
    assert_eq!(a.pan_screen, None);
    assert_eq!(
        a.commands,
        vec![Command::SetStacked { window: 0x300 }, blue(0x300), Command::Focus { target: Some(0x300) }]
    );
    assert_eq!(wm.window_screen(a.window), None);
    let d = wm.window_destroy(a.window, &vec![]);
    assert_eq!(d, vec![grey(0x300), Command::Focus { target: None }]);
    assert_eq!(wm.get_focused_window(), None);
    assert!(!wm.is_live(a.window));
}

#[test]
fn panning_centres_the_target() {
    let wm = two_windows();
    let geos = vec![Some(rect(240, 135, 1440, 810)), Some(rect(1744, 149, 1440, 810))];
    let cmds = wm.pan_screen_to_window(0, 1, Some(rect(1744, 149, 1440, 810)), &geos);
    assert_eq!(
        cmds,
        vec![
            Command::SetPosition { window: 0x100, x: -1264, y: 121 },
            Command::SetPosition { window: 0x200, x: 240, y: 135 },
        ]
    );
    // the target's new centre is the screen's centre
    assert_eq!(240 + 1440 / 2, 960);
    assert_eq!(135 + 810 / 2, 540);
}

#[test]
fn panning_skips_unknown_and_centred() {
    let wm = two_windows();
    let geos = vec![None, Some(rect(1744, 149, 1440, 810))];
    let cmds = wm.pan_screen_to_window(0, 1, Some(rect(1744, 149, 1440, 810)), &geos);
    assert_eq!(cmds, vec![Command::SetPosition { window: 0x200, x: 240, y: 135 }]);
    assert_eq!(wm.pan_screen_to_window(0, 1, None, &geos), vec![]);
    assert_eq!(wm.pan_screen_to_window(0, 1, Some(rect(240, 135, 1440, 810)), &geos), vec![]);
}

#[test]
fn focus_next_then_prev_comes_back() {
    let mut wm = two_windows();
    assert_eq!(wm.adjacent_window(0, 1, true), Some(0));
    assert_eq!(wm.adjacent_window(0, 0, false), Some(1));
    let next = wm.focus_next_handler(1);
    assert_eq!(next, vec![grey(0x200), up(0x100), up(0x100), blue(0x100), Command::Focus { target: Some(0x100) }]);
    assert_eq!(wm.get_focused_window(), Some(0));
    wm.focus_prev_handler(1);
    assert_eq!(wm.get_focused_window(), Some(1));
    assert_eq!(wm.focus_next_handler(0), vec![]);
    assert_eq!(wm.get_focused_window(), Some(1));
}

#[test]
fn cycling_needs_two_windows() {
    let mut wm = WindowManager::new();
    wm.new_screen(0x10, rect(0, 0, 1920, 1080));
    wm.new_window(0x100, None);
    assert_eq!(wm.adjacent_window(0, 0, true), None);
    assert_eq!(wm.focus_next_handler(1), vec![]);
    assert_eq!(wm.pan_to_next_window(1, &vec![None]), vec![]);
}

#[test]
fn pan_to_next_focuses_and_pans() {
    let mut wm = two_windows();
    let geos = vec![Some(rect(-1264, 121, 1440, 810)), Some(rect(240, 135, 1440, 810))];
    let cmds = wm.pan_to_next_window(1, &geos);
    assert_eq!(
        cmds,
        vec![
            grey(0x200),
            up(0x100),
            up(0x100),
            blue(0x100),
            Command::Focus { target: Some(0x100) },
            Command::SetPosition { window: 0x100, x: 240, y: 135 },
            Command::SetPosition { window: 0x200, x: 1744, y: 149 },
        ]
    );
    assert_eq!(wm.get_focused_window(), Some(0));
}

#[test]
fn destroying_the_focused_window_hands_the_focus_over() {
    let mut wm = two_windows();
    let geos = vec![Some(rect(-1264, 121, 1440, 810)), Some(rect(240, 135, 1440, 810))];
    let cmds = wm.window_destroy(1, &geos);
    assert_eq!(
        cmds,
        vec![
            grey(0x200),
            up(0x100),
            up(0x100),
            blue(0x100),
            Command::Focus { target: Some(0x100) },
            Command::SetPosition { window: 0x100, x: 240, y: 135 },
            Command::SetPosition { window: 0x200, x: 1744, y: 149 },
            Command::Hide { window: 0x200 },
        ]
    );
    assert_eq!(wm.get_focused_window(), Some(0));
    assert!(!wm.is_live(1));
    assert_eq!(wm.screen_window_handles(0), vec![0x100]);
    // the freed identifier is given to the next window
    let a = wm.new_window(0x300, None);
    assert_eq!(a.window, 1);
}

#[test]
fn destroying_another_window_keeps_the_focus() {
    let mut wm = two_windows();
    let cmds = wm.window_destroy(0, &vec![None, None]);
    assert_eq!(cmds, vec![Command::Hide { window: 0x100 }]);
    assert_eq!(wm.get_focused_window(), Some(1));
    assert_eq!(wm.screen_window_handles(0), vec![0x200]);
}

#[test]
fn last_active_prefers_focus_history() {
    let mut wm = WindowManager::new();
    wm.new_screen(0x10, rect(0, 0, 1920, 1080));
    wm.new_window(0x100, None);
    wm.new_window(0x200, None);
    wm.new_window(0x300, None);
    wm.focus(Some(0));
    wm.focus(Some(2));
    assert_eq!(wm.last_active_window_on_screen(0, 2), Some(0));
    assert_eq!(wm.last_active_window_on_screen(0, 0), Some(2));
    assert_eq!(wm.last_active_window_on_screen(7, 0), None);
}

#[test]
fn fullscreen_round_trip_restores_geometry() {
    let mut wm = two_windows();
    let on = wm.toggle_fullscreen(1, Some(rect(1744, 149, 1440, 810)));
    assert_eq!(on, vec![Command::SetGeometry { window: 0x200, geometry: rect(0, 0, 1920, 1080) }]);
    let moved = wm.screen_usable_geometry_changed(0, rect(0, 30, 1920, 1050));
    assert_eq!(moved, vec![Command::SetGeometry { window: 0x200, geometry: rect(0, 30, 1920, 1050) }]);
    let off = wm.toggle_fullscreen(1, None);
    assert_eq!(
        off,
        vec![
            Command::SetStacked { window: 0x200 },
            Command::SetGeometry { window: 0x200, geometry: rect(1744, 149, 1440, 810) },
        ]
    );
    assert_eq!(wm.toggle_fullscreen(0, None), vec![]);
}

#[test]
fn leaving_fullscreen_without_saved_geometry_places_anew() {
    let mut wm = two_windows();
    wm.screen_usable_geometry_changed(0, rect(0, 30, 1920, 1050));
    wm.toggle_fullscreen(1, None);
    let off = wm.toggle_fullscreen(1, None);
    assert_eq!(
        off,
        vec![
            Command::SetStacked { window: 0x200 },
            Command::SetGeometry { window: 0x200, geometry: rect(296, 217, 1440, 787) },
        ]
    );
}

#[test]
fn key_move_press_and_release() {
    let mut wm = two_windows();
    let press = wm.key_move_handler(1, None);
    assert_eq!(
        press,
        vec![grey(0x200), up(0x200), up(0x200), blue(0x200), Command::Focus { target: Some(0x200) }, Command::BeginMove {
            window: 0x200,
        }]
    );
    assert_eq!(wm.get_moving_window(), Some(1));
    let release = wm.key_move_handler(0, None);
    assert_eq!(release, vec![Command::EndMove { window: 0x200 }]);
    assert_eq!(wm.get_moving_window(), None);
    assert_eq!(wm.key_move_handler(0, None), vec![]);
}

#[test]
fn key_resize_ends_a_move() {
    let mut wm = two_windows();
    wm.key_move_handler(1, None);
    let press = wm.key_resize_handler(1, None);
    assert_eq!(press.last(), Some(&Command::BeginResize { window: 0x200, edges: SWC_WINDOW_EDGE_AUTO }));
    assert_eq!(wm.get_moving_window(), None);
    assert_eq!(wm.get_resizing_window(), Some(1));
    assert_eq!(wm.key_resize_handler(0, None), vec![Command::EndResize { window: 0x200 }]);
}

#[test]
fn mouse_resize_uses_the_window_under_the_pointer() {
    let mut wm = two_windows();
    assert_eq!(wm.window_at_cursor(Some(0x100)), Some(0));
    assert_eq!(wm.window_at_cursor(Some(0x999)), None);
    assert_eq!(wm.window_at_cursor(None), None);
    let press = wm.mouse_resize_handler(1, Some(0x100));
    assert_eq!(press.last(), Some(&Command::BeginResize { window: 0x100, edges: SWC_WINDOW_EDGE_AUTO }));
    assert_eq!(wm.get_focused_window(), Some(0));
    assert_eq!(wm.mouse_resize_handler(1, Some(0x999)), vec![]);
}

#[test]
fn fullscreen_windows_are_not_grabbed() {
    let mut wm = two_windows();
    wm.toggle_fullscreen(1, None);
    assert_eq!(wm.key_move_handler(1, None), vec![]);
    assert_eq!(wm.get_moving_window(), None);
    assert_eq!(wm.move_left(1, Some(rect(0, 0, 10, 10))), vec![]);
}

#[test]
fn find_window_by_handle() {
    let wm = two_windows();
    assert_eq!(wm.find_window_by_swc(0, Some(0x200)), Some(1));
    assert_eq!(wm.find_window_by_swc(0, Some(0x999)), None);
    assert_eq!(wm.find_window_by_swc(0, None), None);
    assert_eq!(wm.find_window_by_swc(5, Some(0x200)), None);
}

#[test]
fn keyboard_moves_and_resizes() {
    let wm = two_windows();
    let g = Some(rect(10, 20, 100, 100));
    assert_eq!(wm.move_left(1, g), vec![Command::SetPosition { window: 0x200, x: -54, y: 20 }]);
    assert_eq!(wm.move_right(1, g), vec![Command::SetPosition { window: 0x200, x: 74, y: 20 }]);
    assert_eq!(wm.move_up(1, g), vec![Command::SetPosition { window: 0x200, x: 10, y: -44 }]);
    assert_eq!(wm.move_down(1, g), vec![Command::SetPosition { window: 0x200, x: 10, y: 84 }]);
    assert_eq!(wm.move_down(0, g), vec![]);
    assert_eq!(wm.move_down(1, None), vec![]);
    assert_eq!(wm.resize_wider(1, Some(rect(0, 0, 500, 400))), vec![Command::SetSize { window: 0x200, width: 548, height: 400 }]);
    assert_eq!(wm.resize_narrower(1, Some(rect(0, 0, 150, 400))), vec![Command::SetSize { window: 0x200, width: 120, height: 400 }]);
    assert_eq!(wm.resize_taller(1, Some(rect(0, 0, 500, 400))), vec![Command::SetSize { window: 0x200, width: 500, height: 448 }]);
    assert_eq!(wm.resize_shorter(1, Some(rect(0, 0, 500, 100))), vec![Command::SetSize { window: 0x200, width: 500, height: 90 }]);
    assert_eq!(wm.move_focused_window(i32::MAX, 0, Some(rect(1, 0, 5, 5))), vec![Command::SetPosition {
        window: 0x200,
        x: i32::MIN,
        y: 0,
    }]);
}

#[test]
fn quit_and_close() {
    let mut wm = two_windows();
    assert_eq!(wm.get_display(), None);
    assert_eq!(wm.quit(1), vec![]);
    wm.set_display(Some(wl_display::Address(0xd00d)));
    assert_eq!(wm.get_display(), Some(wl_display::Address(0xd00d)));
    assert_eq!(wm.quit(1), vec![Command::TerminateDisplay { display: wl_display::Address(0xd00d) }]);
    assert_eq!(wm.quit(0), vec![]);
    assert_eq!(wm.close_window(1), vec![Command::Close { window: 0x200 }]);
    assert_eq!(wm.close_window(0), vec![]);
    let empty = WindowManager::new();
    assert_eq!(empty.close_window(1), vec![]);
}

#[test]
fn entering_screens_and_focusing_nothing() {
    let mut wm = two_windows();
    let second = wm.new_screen(0x20, rect(1920, 0, 1280, 1024));
    assert_eq!(second, 1);
    assert_eq!(wm.get_active_screen(), Some(1));
    wm.screen_entered(0);
    assert_eq!(wm.get_active_screen(), Some(0));
    let none = wm.focus(None);
    assert_eq!(none, vec![grey(0x200), Command::Focus { target: None }]);
    assert_eq!(wm.get_focused_window(), None);
}

#[test]
fn focus_next_and_prev_on_a_screen() {
    let mut wm = two_windows();
    assert_eq!(
        wm.focus_next(0, 0),
        vec![grey(0x200), up(0x200), up(0x200), blue(0x200), Command::Focus { target: Some(0x200) }]
    );
    assert_eq!(wm.get_focused_window(), Some(1));
    wm.focus_prev(0, 1);
    assert_eq!(wm.get_focused_window(), Some(0));
    assert_eq!(wm.focus_next(0, 9), vec![]);
    assert_eq!(wm.get_focused_window(), Some(0));
}

#[test]
fn entering_a_window_focuses_it() {
    let mut wm = two_windows();
    let cmds = wm.window_entered(0);
    assert_eq!(cmds, vec![grey(0x200), up(0x100), up(0x100), blue(0x100), Command::Focus { target: Some(0x100) }]);
    assert_eq!(wm.get_focused_window(), Some(0));
    // focusing the focused window again repeats the same commands
    let again = wm.window_entered(0);
    assert_eq!(again, vec![grey(0x100), up(0x100), up(0x100), blue(0x100), Command::Focus { target: Some(0x100) }]);
}
