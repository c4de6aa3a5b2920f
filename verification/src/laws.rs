//! Properties of the window manager that hold across events and calls.

use vstd::prelude::*;
use crate::idlist::{without, lemma_without, lemma_push_contains};
use crate::model::{
    WindowId, ScreenId, WmView, Window, Command, GrabKind, pan_delta, geo_at, lemma_with_focus_wf, lemma_forgetting_wf,
    lemma_last_active, lemma_off_screen_wf, lemma_slot_freed_wf, lemma_window_added_wf, lemma_on_screen_wf,
    lemma_with_window_wf,
};
use crate::swc::swc_rectangle;
use crate::geometry::{
    wrap_i32, center_of, lemma_wrap_offset, lemma_wrap_periodic, lemma_wrap_small, centered_placement_of,
    placement_extent_of, spawn_offset_of,
};

verus! {

proof fn lemma_without_pushed(h: Seq<WindowId>, w: WindowId)
    ensures
        without(without(h, w).push(w), w) == without(h, w),
{
    lemma_without(h, w);
    let x = without(h, w);
    assert(x.push(w).drop_last() =~= x);
    assert(without(x.push(w), w) == without(x, w));
    lemma_without(x, w);
}

/// Focusing a live window makes it the focused window and the most recent entry
/// of the focus history, where it appears once; the other entries keep their
/// order; the state stays consistent.
pub proof fn law_focus_moves_to_front(v: WmView, w: WindowId)
    requires
        v.wf(),
        v.live(w),
    ensures
        v.with_focus(Some(w)).focused == Some(w),
        v.with_focus(Some(w)).history.last() == w,
        v.with_focus(Some(w)).history.no_duplicates(),
        without(v.with_focus(Some(w)).history, w) == without(v.history, w),
        v.with_focus(Some(w)).wf(),
{
    lemma_with_focus_wf(v, Some(w));
    lemma_without_pushed(v.history, w);
}

/// Focusing the same window twice is the same as focusing it once.
pub proof fn law_focus_idempotent(v: WmView, w: WindowId)
    ensures
        v.with_focus(Some(w)).with_focus(Some(w)) == v.with_focus(Some(w)),
{
    lemma_without_pushed(v.history, w);
    assert(v.with_focus(Some(w)).with_focus(Some(w)) =~= v.with_focus(Some(w)));
}

/// In a list without repetitions, the first index of the element at `j` is `j`.
proof fn lemma_index_of_no_dups(ws: Seq<WindowId>, j: int)
    requires
        ws.no_duplicates(),
        0 <= j < ws.len(),
    ensures
        ws.index_of_first(ws[j]) == Some(j),
{
    ws.index_of_first_ensures(ws[j]);
    assert(ws.contains(ws[j]));
}

/// On a screen with several windows, the window before the window after `w` is
/// `w` again, and the other way round.
pub proof fn law_adjacent_inverse(v: WmView, s: ScreenId, w: WindowId)
    requires
        v.wf(),
        v.is_screen(s),
        v.screen_windows(s).contains(w),
        v.screen_windows(s).len() > 1,
    ensures
        v.adjacent(s, w, true) is Some,
        v.adjacent(s, w, false) is Some,
        v.adjacent(s, v.adjacent(s, w, true)->0, false) == Some(w),
        v.adjacent(s, v.adjacent(s, w, false)->0, true) == Some(w),
{
    let ws = v.screen_windows(s);
    assert(ws.no_duplicates());
    ws.index_of_first_ensures(w);
    let i = ws.index_of_first(w)->0;
    let len = ws.len() as int;
    let j = (i + 1) % len;
    if i + 1 < len {
        assert((i + 1) % len == i + 1) by (nonlinear_arith)
            requires
                0 <= i + 1 < len,
        ;
    } else {
        assert((i + 1) % len == 0) by (nonlinear_arith)
            requires
                i + 1 == len,
                len > 0,
        ;
    }
    lemma_index_of_no_dups(ws, j);
    let k = if i > 0 { i - 1 } else { len - 1 };
    lemma_index_of_no_dups(ws, k);
    if i > 0 {
        assert((k + 1) % len == i) by (nonlinear_arith)
            requires
                k + 1 == i,
                0 <= i < len,
        ;
    } else {
        assert((k + 1) % len == 0) by (nonlinear_arith)
            requires
                k + 1 == len,
                len > 0,
        ;
    }
}

/// Moving the focus to the next window of the screen and then to the previous
/// one gives the focus back to the window that had it.
pub proof fn law_focus_next_then_prev(v: WmView)
    requires
        v.wf(),
        v.cycle_target(true) is Some,
    ensures
        v.after_cycle(1, true).after_cycle(1, false).focused == v.focused,
        v.after_cycle(1, true).after_cycle(1, false).wf(),
{
    let f = v.focused->0;
    let s = v.window(f).screen->0;
    let n = (v.cycle_target(true)->0).1;
    assert(v.screen_windows(s).contains(f)) by {
        assert(v.slots[f as int] == v.slots[f as int]);
    }
    law_adjacent_inverse(v, s, f);
    let ws = v.screen_windows(s);
    ws.index_of_first_ensures(f);
    let i = ws.index_of_first(f)->0;
    assert(ws[(i + 1) % (ws.len() as int)] == n);
    assert(v.screens[s as int].windows[(i + 1) % (ws.len() as int)] == n);
    assert(v.live(n) && v.window(n).screen == Some(s));
    let u = v.after_cycle(1, true);
    lemma_with_focus_wf(v, Some(n));
    assert(u.focused == Some(n));
    assert(u.screens == v.screens && u.slots == v.slots);
    assert(u.adjacent(s, n, false) == v.adjacent(s, n, false));
    assert(u.cycle_target(false) == Some((s, f)));
    lemma_with_focus_wf(u, Some(f));
}

/// The window under the pointer is a live window of the active screen with the
/// reported handle.
pub proof fn law_window_at_is_on_active_screen(v: WmView, hit: Option<usize>)
    requires
        v.wf(),
    ensures
        v.window_at(hit) matches Some(w) ==> {
            &&& v.live(w)
            &&& v.window(w).swc == hit->0
            &&& v.window(w).screen == v.active_screen
        },
{
    if let Some(s) = v.active_screen {
        if let Some(h) = hit {
            lemma_first_with_handle(v, v.screen_windows(s), s, h);
        }
    }
}

proof fn lemma_first_with_handle(v: WmView, ws: Seq<WindowId>, s: ScreenId, h: usize)
    requires
        v.wf(),
        v.is_screen(s),
        forall|i: int| 0 <= i < ws.len() ==> v.screen_windows(s).contains(#[trigger] ws[i]),
    ensures
        v.first_with_handle(ws, h) matches Some(w) ==> {
            &&& v.live(w)
            &&& v.window(w).swc == h
            &&& v.window(w).screen == Some(s)
        },
    decreases ws.len(),
{
    if ws.len() > 0 {
        assert(v.screen_windows(s).contains(ws[0]));
        let j = choose|j: int| 0 <= j < v.screen_windows(s).len() && v.screen_windows(s)[j] == ws[0];
        assert(v.screens[s as int].windows[j] == ws[0]);
        assert forall|i: int| 0 <= i < ws.drop_first().len() implies v.screen_windows(s).contains(#[trigger] ws.drop_first()[i]) by {
            assert(ws.drop_first()[i] == ws[i + 1]);
        }
        lemma_first_with_handle(v, ws.drop_first(), s, h);
    }
}

proof fn lemma_pan_axis(uo: i32, ue: u32, to: i32, te: u32)
    ensures
        center_of(wrap_i32(to + wrap_i32(center_of(uo, ue) - center_of(to, te))), te) == center_of(uo, ue),
{
    let m: int = 0x1_0000_0000;
    let h: int = (te / 2) as int;
    let uc: int = center_of(uo, ue) as int;
    let a1: int = to + h;
    lemma_wrap_offset(a1);
    let q1: int = (a1 + 0x8000_0000) / m;
    let tc: int = center_of(to, te) as int;
    assert(tc == a1 - m * q1);
    let a2: int = uc - tc;
    lemma_wrap_offset(a2);
    let q2: int = (a2 + 0x8000_0000) / m;
    let d: int = wrap_i32(a2) as int;
    assert(d == a2 - m * q2);
    let a3: int = to + d;
    lemma_wrap_offset(a3);
    let q3: int = (a3 + 0x8000_0000) / m;
    let nx: int = wrap_i32(a3) as int;
    assert(nx == a3 - m * q3);
    assert(nx + h == uc + m * (q1 - q2 - q3)) by (nonlinear_arith)
        requires
            nx == a3 - m * q3,
            a3 == to + d,
            d == a2 - m * q2,
            a2 == uc - tc,
            tc == a1 - m * q1,
            a1 == to + h,
    ;
    lemma_wrap_periodic(uc, q1 - q2 - q3);
    lemma_wrap_small(uc);
}

/// Panning by `pan_delta(usable, target)` brings the centre of `target` to the
/// centre of `usable` on both axes, whatever the coordinates (all sums wrapping
/// in `i32`).
pub proof fn law_pan_centers_target(usable: swc_rectangle, target: swc_rectangle)
    ensures
        center_of(wrap_i32(target.x + pan_delta(usable, target).0), target.width) == center_of(usable.x, usable.width),
        center_of(wrap_i32(target.y + pan_delta(usable, target).1), target.height) == center_of(usable.y, usable.height),
{
    lemma_pan_axis(usable.x, usable.width, target.x, target.width);
    lemma_pan_axis(usable.y, usable.height, target.y, target.height);
}

/// Once window `w` is destroyed nothing refers to it any more: it is not live,
/// not on any screen, not in the focus history, not focused, moved or resized.
/// Every other window is kept as it was, the focus stays where it was unless
/// `w` had it, and the state stays consistent.
pub proof fn law_destroy_forgets(v: WmView, w: WindowId)
    requires
        v.wf(),
        v.live(w),
    ensures
        !v.after_destroy(w).live(w),
        !v.after_destroy(w).history.contains(w),
        v.after_destroy(w).focused != Some(w),
        v.after_destroy(w).moving != Some(w),
        v.after_destroy(w).resizing != Some(w),
        forall|s: ScreenId| #[trigger] v.after_destroy(w).is_screen(s) ==> !v.after_destroy(w).screen_windows(s).contains(w),
        forall|x: WindowId| x != w && #[trigger] v.live(x) ==> v.after_destroy(w).live(x) && v.after_destroy(w).window(x) == v.window(x),
        v.focused != Some(w) ==> v.after_destroy(w).focused == v.focused,
        v.after_destroy(w).wf(),
{
    let p = v.forgetting(w);
    lemma_forgetting_wf(v, w);
    lemma_without(v.history, w);
    let f = if v.focused == Some(w) { p.with_focus(v.successor(w)) } else { p };
    if v.focused == Some(w) {
        if let Some(s) = v.window(w).screen {
            lemma_last_active(p, s, w);
        }
        lemma_with_focus_wf(p, v.successor(w));
        if let Some(nx) = v.successor(w) {
            lemma_without(p.history, nx);
            lemma_push_contains(without(p.history, nx), nx);
        }
    }
    assert(f.wf());
    assert(f.slots == v.slots && f.screens == v.screens);
    let g = match v.window(w).screen {
        Some(s) => f.with_window_off_screen(s, w),
        None => f,
    };
    if let Some(s) = v.window(w).screen {
        lemma_off_screen_wf(f, s, w);
    }
    assert(g.wf());
    assert(!g.history.contains(w));
    lemma_slot_freed_wf(g, w);
    let n = v.after_destroy(w);
    assert forall|s: ScreenId| #[trigger] n.is_screen(s) implies !n.screen_windows(s).contains(w) by {
        if n.screen_windows(s).contains(w) {
            let i = choose|i: int| 0 <= i < n.screen_windows(s).len() && n.screen_windows(s)[i] == w;
            assert(n.screens[s as int].windows[i] == w);
        }
    }
    assert forall|x: WindowId| x != w && #[trigger] v.live(x) implies n.live(x) && n.window(x) == v.window(x) by {
        assert(n.slots[x as int] == v.slots[x as int]);
    }
}

/// The first free slot of a state.
proof fn lemma_free_slot(v: WmView)
    ensures
        0 <= v.free_slot() <= v.slots.len(),
        v.free_slot() < v.slots.len() ==> v.slots[v.free_slot()] is None,
        forall|j: int| 0 <= j < v.free_slot() ==> v.slots[j] is Some,
{
    if exists|i: int| 0 <= i < v.slots.len() && v.slots[i] is None {
        let i0 = choose|i: int| 0 <= i < v.slots.len() && v.slots[i] is None;
        lemma_least_free(v, i0);
    }
}

proof fn lemma_least_free(v: WmView, i0: int)
    requires
        0 <= i0 < v.slots.len(),
        v.slots[i0] is None,
    ensures
        exists|i: int| 0 <= i < v.slots.len() && v.slots[i] is None
            && forall|j: int| 0 <= j < i ==> v.slots[j] is Some,
    decreases i0,
{
    if forall|j: int| 0 <= j < i0 ==> v.slots[j] is Some {
    } else {
        let j = choose|j: int| 0 <= j < i0 && !(v.slots[j] is Some);
        lemma_least_free(v, j);
    }
}

/// A new window takes a free identifier, lands last on the active screen (if
/// any), is neither fullscreen nor has anything saved, and receives the focus;
/// the state stays consistent.
pub proof fn law_new_window_focused(v: WmView, swc: usize, focused_geometry: Option<swc_rectangle>)
    requires
        v.wf(),
        v.slots.len() <= usize::MAX,
    ensures
        !v.live(v.free_slot() as usize),
        v.after_new_window(swc, focused_geometry).live(v.free_slot() as usize),
        v.after_new_window(swc, focused_geometry).window(v.free_slot() as usize) == (Window {
            screen: v.active_screen,
            ..WmView::fresh_window(swc)
        }),
        v.after_new_window(swc, focused_geometry).focused == Some(v.free_slot() as usize),
        v.after_new_window(swc, focused_geometry).history.last() == v.free_slot() as usize,
        v.active_screen matches Some(s) ==> v.after_new_window(swc, focused_geometry).screen_windows(s).last()
            == v.free_slot() as usize,
        v.after_new_window(swc, focused_geometry).wf(),
{
    lemma_free_slot(v);
    let id = v.free_slot() as usize;
    lemma_window_added_wf(v, id, swc);
    let added = v.with_window_added(swc);
    assert(added == v.with_window_at(id as int, swc));
    let placed = match v.active_screen {
        Some(s) => added.with_window_on_screen(s, id).with_spawn_advanced(),
        None => added,
    };
    if let Some(s) = v.active_screen {
        lemma_on_screen_wf(added, s, id);
    }
    assert(placed.wf());
    lemma_with_focus_wf(placed, Some(id));
}

/// Entering fullscreen with a reported geometry and leaving it again puts the
/// window back at that geometry, restacked, without using up a placement; the
/// window ends as it was apart from the saved geometry.
pub proof fn law_fullscreen_round_trip(v: WmView, geometry: swc_rectangle, later: Option<swc_rectangle>)
    requires
        v.wf(),
        v.focused is Some,
        v.window(v.focused->0).screen is Some,
        !v.window(v.focused->0).fullscreen,
    ensures
        v.after_toggle_fullscreen(1, Some(geometry)).window(v.focused->0).fullscreen,
        v.after_toggle_fullscreen(1, Some(geometry)).toggle_fullscreen_commands(1, later) == seq![
            Command::SetStacked { window: v.window(v.focused->0).swc },
            Command::SetGeometry { window: v.window(v.focused->0).swc, geometry },
        ],
        v.after_toggle_fullscreen(1, Some(geometry)).after_toggle_fullscreen(1, later).window(v.focused->0) == (Window {
            saved_geometry: geometry,
            has_saved_geometry: false,
            ..v.window(v.focused->0)
        }),
        v.after_toggle_fullscreen(1, Some(geometry)).after_toggle_fullscreen(1, later).spawn_index == v.spawn_index,
        v.after_toggle_fullscreen(1, Some(geometry)).after_toggle_fullscreen(1, later).wf(),
{
    let f = v.focused->0;
    assert(v.slots[f as int] == v.slots[f as int]);
    let win = v.window(f);
    let entering = Window { fullscreen: true, saved_geometry: geometry, has_saved_geometry: true, ..win };
    lemma_with_window_wf(v, f, entering);
    let u = v.after_toggle_fullscreen(1, Some(geometry));
    assert(u == v.with_window(f, entering));
    let done = Window { fullscreen: false, has_saved_geometry: false, ..entering };
    lemma_with_window_wf(u, f, done);
}

/// Pressing a grab binding starts the operation on its target, which gets the
/// focus; releasing it then ends that same operation on that window.
pub proof fn law_grab_then_release(v: WmView, hit: Option<usize>, via_focus: bool, kind: GrabKind, released: u32, hit2: Option<usize>)
    requires
        v.wf(),
        v.grab_target(hit, via_focus) is Some,
        released != 1,
    ensures
        v.after_grab(1, hit, via_focus, kind).grabbed(kind) == v.grab_target(hit, via_focus),
        v.after_grab(1, hit, via_focus, kind).focused == v.grab_target(hit, via_focus),
        v.after_grab(1, hit, via_focus, kind).grab_commands(released, hit2, via_focus, kind) == seq![
            match kind {
                GrabKind::Move => Command::EndMove { window: v.window(v.grab_target(hit, via_focus)->0).swc },
                GrabKind::Resize => Command::EndResize { window: v.window(v.grab_target(hit, via_focus)->0).swc },
            },
        ],
        v.after_grab(1, hit, via_focus, kind).after_grab(released, hit2, via_focus, kind).grabbed(kind) is None,
{
}

proof fn lemma_shift_contains(v: WmView, ws: Seq<WindowId>, geos: Seq<Option<swc_rectangle>>, dx: i32, dy: i32, i: int)
    requires
        0 <= i < ws.len(),
        !v.window(ws[i]).fullscreen,
        geo_at(geos, i) is Some,
    ensures
        v.shift_commands(ws, geos, dx, dy).contains(Command::SetPosition {
            window: v.window(ws[i]).swc,
            x: wrap_i32((geo_at(geos, i)->0).x + dx),
            y: wrap_i32((geo_at(geos, i)->0).y + dy),
        }),
    decreases ws.len(),
{
    let c = Command::SetPosition {
        window: v.window(ws[i]).swc,
        x: wrap_i32((geo_at(geos, i)->0).x + dx),
        y: wrap_i32((geo_at(geos, i)->0).y + dy),
    };
    let rest = v.shift_commands(ws.drop_last(), geos, dx, dy);
    if i == ws.len() - 1 {
        let r = rest.push(c);
        assert(r[rest.len() as int] == c);
    } else {
        assert(ws.drop_last()[i] == ws[i]);
        lemma_shift_contains(v, ws.drop_last(), geos, dx, dy, i);
        let k = choose|k: int| 0 <= k < rest.len() && rest[k] == c;
        let full = v.shift_commands(ws, geos, dx, dy);
        assert(full == rest || full == rest.push(full.last()));
        assert(full[k] == c);
    }
}

/// Panning a screen to one of its windows whose geometry is reported moves that
/// window so that its centre is the centre of the screen's usable area (unless
/// it is fullscreen or centred already).
pub proof fn law_pan_centers_window(v: WmView, s: ScreenId, i: int, geos: Seq<Option<swc_rectangle>>)
    requires
        v.wf(),
        v.is_screen(s),
        0 <= i < v.screen_windows(s).len(),
        geo_at(geos, i) is Some,
        !v.window(v.screen_windows(s)[i]).fullscreen,
        pan_delta(v.screens[s as int].usable_geometry, geo_at(geos, i)->0) != (0i32, 0i32),
    ensures
        ({
            let target = v.screen_windows(s)[i];
            let t = geo_at(geos, i)->0;
            let u = v.screens[s as int].usable_geometry;
            let d = pan_delta(u, t);
            &&& v.pan_commands(s, target, Some(t), geos).contains(Command::SetPosition {
                window: v.window(target).swc,
                x: wrap_i32(t.x + d.0),
                y: wrap_i32(t.y + d.1),
            })
            &&& center_of(wrap_i32(t.x + d.0), t.width) == center_of(u.x, u.width)
            &&& center_of(wrap_i32(t.y + d.1), t.height) == center_of(u.y, u.height)
        }),
{
    let t = geo_at(geos, i)->0;
    let u = v.screens[s as int].usable_geometry;
    let d = pan_delta(u, t);
    lemma_shift_contains(v, v.screen_windows(s), geos, d.0, d.1, i);
    law_pan_centers_target(u, t);
}

/// The history search ignores the window it excludes, so taking that window
/// out of the history first changes nothing.
proof fn lemma_last_focused_without(v: WmView, h: Seq<WindowId>, s: ScreenId, w: WindowId)
    ensures
        v.last_focused_on(without(h, w), s, w) == v.last_focused_on(h, s, w),
    decreases h.len(),
{
    if h.len() > 0 {
        lemma_last_focused_without(v, h.drop_last(), s, w);
        if h.last() != w {
            let x = without(h.drop_last(), w);
            assert(x.push(h.last()).drop_last() =~= x);
        }
    }
}

/// What the history search finds: an entry on `s` other than `w` after which
/// no entry is on `s` and other than `w`; it finds one whenever there is one.
proof fn lemma_last_focused_characterized(v: WmView, h: Seq<WindowId>, s: ScreenId, w: WindowId)
    ensures
        (exists|i: int| 0 <= i < h.len() && h[i] != w && #[trigger] v.window(h[i]).screen == Some(s))
            ==> v.last_focused_on(h, s, w) is Some,
        v.last_focused_on(h, s, w) matches Some(x) ==> exists|j: int| {
            &&& 0 <= j < h.len()
            &&& h[j] == x
            &&& x != w
            &&& v.window(x).screen == Some(s)
            &&& forall|k: int| j < k < h.len() ==> h[k] == w || v.window(#[trigger] h[k]).screen != Some(s)
        },
    decreases h.len(),
{
    if h.len() > 0 {
        let d = h.drop_last();
        lemma_last_focused_characterized(v, d, s, w);
        let n = h.len() - 1;
        if h[n] != w && v.window(h[n]).screen == Some(s) {
            assert(v.last_focused_on(h, s, w) == Some(h[n]));
        } else {
            if exists|i: int| 0 <= i < h.len() && h[i] != w && #[trigger] v.window(h[i]).screen == Some(s) {
                let i = choose|i: int| 0 <= i < h.len() && h[i] != w && #[trigger] v.window(h[i]).screen == Some(s);
                assert(i != n);
                assert(d[i] == h[i]);
            }
            if let Some(x) = v.last_focused_on(h, s, w) {
                let j = choose|j: int| {
                    &&& 0 <= j < d.len()
                    &&& d[j] == x
                    &&& x != w
                    &&& v.window(x).screen == Some(s)
                    &&& forall|k: int| j < k < d.len() ==> d[k] == w || v.window(#[trigger] d[k]).screen != Some(s)
                };
                assert(h[j] == x);
                assert forall|k: int| j < k < h.len() implies h[k] == w || v.window(#[trigger] h[k]).screen != Some(s) by {
                    if k < n {
                        assert(d[k] == h[k]);
                    }
                }
            }
        }
    }
}

/// When the focused window `w` is destroyed and the focus history holds
/// another window of its screen, the focus goes to the most recently focused
/// such window: an entry of the history, on that screen, with no later entry of
/// the history on that screen other than `w`.
pub proof fn law_destroy_returns_focus_to_last_focused(v: WmView, w: WindowId, s: ScreenId)
    requires
        v.wf(),
        v.live(w),
        v.focused == Some(w),
        v.window(w).screen == Some(s),
        exists|i: int| 0 <= i < v.history.len() && v.history[i] != w && #[trigger] v.window(v.history[i]).screen == Some(s),
    ensures
        exists|j: int| {
            &&& 0 <= j < v.history.len()
            &&& v.after_destroy(w).focused == Some(v.history[j])
            &&& v.history[j] != w
            &&& v.window(v.history[j]).screen == Some(s)
            &&& forall|k: int| j < k < v.history.len()
                ==> v.history[k] == w || v.window(#[trigger] v.history[k]).screen != Some(s)
        },
{
    let p = v.forgetting(w);
    assert(v.slots[w as int] == v.slots[w as int]);
    lemma_last_focused_without(v, v.history, s, w);
    assert(p.slots == v.slots);
    assert(p.last_focused_on(p.history, s, w) == v.last_focused_on(without(v.history, w), s, w)) by {
        lemma_last_focused_same_slots(p, v, without(v.history, w), s, w);
    }
    lemma_last_focused_characterized(v, v.history, s, w);
    assert(v.successor(w) == v.last_focused_on(v.history, s, w));
    let n = v.successor(w);
    let g = p.with_focus(n).with_window_off_screen(s, w);
    assert(v.after_destroy(w).focused == n);
}

proof fn lemma_last_focused_same_slots(a: WmView, b: WmView, h: Seq<WindowId>, s: ScreenId, w: WindowId)
    requires
        a.slots == b.slots,
    ensures
        a.last_focused_on(h, s, w) == b.last_focused_on(h, s, w),
    decreases h.len(),
{
    if h.len() > 0 {
        lemma_last_focused_same_slots(a, b, h.drop_last(), s, w);
    }
}

/// A window that appears while the focused window is fullscreen is centred on
/// the active screen (shifted by the spawn offset), whatever geometry is
/// reported for the focused window.
pub proof fn law_new_window_over_fullscreen_is_centred(
    v: WmView,
    swc: usize,
    focused_geometry: Option<swc_rectangle>,
)
    requires
        v.wf(),
        v.slots.len() <= usize::MAX,
        v.active_screen is Some,
        v.focused is Some,
        v.window(v.focused->0).fullscreen,
    ensures
        v.new_window_commands(swc, focused_geometry)[2] == ({
            let u = v.screens[v.active_screen->0 as int].usable_geometry;
            Command::SetGeometry {
                window: swc,
                geometry: centered_placement_of(
                    u,
                    placement_extent_of(u.width, 480),
                    placement_extent_of(u.height, 320),
                    spawn_offset_of(v.spawn_index),
                ),
            }
        }),
{
    lemma_free_slot(v);
    let id = v.free_slot() as usize;
    let f = v.focused->0;
    assert(f != id);
    let s = v.active_screen->0;
    let on = v.with_window_added(swc).with_window_on_screen(s, id);
    assert(on.slots[f as int] == v.slots[f as int]);
}

/// Every command of a pan is a `SetPosition` of a window of the panned screen
/// that is not fullscreen.
pub proof fn law_pan_moves_only_windows_not_fullscreen(
    v: WmView,
    s: ScreenId,
    target: WindowId,
    target_geometry: Option<swc_rectangle>,
    geos: Seq<Option<swc_rectangle>>,
)
    ensures
        forall|k: int| 0 <= k < v.pan_commands(s, target, target_geometry, geos).len() ==> {
            let c = #[trigger] v.pan_commands(s, target, target_geometry, geos)[k];
            &&& c is SetPosition
            &&& exists|i: int| {
                &&& 0 <= i < v.screen_windows(s).len()
                &&& !v.window(v.screen_windows(s)[i]).fullscreen
                &&& v.window(v.screen_windows(s)[i]).swc == c->SetPosition_window
            }
        },
{
    if !v.window(target).fullscreen && target_geometry is Some {
        let d = pan_delta(v.screens[s as int].usable_geometry, target_geometry->0);
        lemma_shift_only_windows_not_fullscreen(v, v.screen_windows(s), geos, d.0, d.1);
    }
}

proof fn lemma_shift_only_windows_not_fullscreen(
    v: WmView,
    ws: Seq<WindowId>,
    geos: Seq<Option<swc_rectangle>>,
    dx: i32,
    dy: i32,
)
    ensures
        forall|k: int| 0 <= k < v.shift_commands(ws, geos, dx, dy).len() ==> {
            let c = #[trigger] v.shift_commands(ws, geos, dx, dy)[k];
            &&& c is SetPosition
            &&& exists|i: int| {
                &&& 0 <= i < ws.len()
                &&& !v.window(ws[i]).fullscreen
                &&& v.window(ws[i]).swc == c->SetPosition_window
            }
        },
    decreases ws.len(),
{
    if ws.len() > 0 {
        let d = ws.drop_last();
        lemma_shift_only_windows_not_fullscreen(v, d, geos, dx, dy);
        let rest = v.shift_commands(d, geos, dx, dy);
        let full = v.shift_commands(ws, geos, dx, dy);
        assert forall|k: int| 0 <= k < full.len() implies {
            let c = #[trigger] full[k];
            &&& c is SetPosition
            &&& exists|i: int| {
                &&& 0 <= i < ws.len()
                &&& !v.window(ws[i]).fullscreen
                &&& v.window(ws[i]).swc == c->SetPosition_window
            }
        } by {
            if k < rest.len() {
                assert(full[k] == rest[k]);
                let c = rest[k];
                let i = choose|i: int| {
                    &&& 0 <= i < d.len()
                    &&& !v.window(d[i]).fullscreen
                    &&& v.window(d[i]).swc == c->SetPosition_window
                };
                assert(ws[i] == d[i]);
            } else {
                assert(ws[ws.len() - 1] == ws.last());
            }
        }
    }
}

/// On a screen with at least two windows, the window after the `i`-th is the
/// `(i + 1)`-th (the first after the last) and the window before it is the
/// `(i - 1)`-th (the last before the first).
pub proof fn law_adjacent_is_next_in_list(v: WmView, s: ScreenId, i: int)
    requires
        v.wf(),
        v.is_screen(s),
        v.screen_windows(s).len() >= 2,
        0 <= i < v.screen_windows(s).len(),
    ensures
        v.adjacent(s, v.screen_windows(s)[i], true)
            == Some(v.screen_windows(s)[(i + 1) % (v.screen_windows(s).len() as int)]),
        v.adjacent(s, v.screen_windows(s)[i], false)
            == Some(v.screen_windows(s)[(i + v.screen_windows(s).len() - 1) % (v.screen_windows(s).len() as int)]),
{
    let ws = v.screen_windows(s);
    let len = ws.len() as int;
    assert(ws.no_duplicates());
    lemma_index_of_no_dups(ws, i);
    if i > 0 {
        assert((i + len - 1) % len == i - 1) by (nonlinear_arith)
            requires
                0 < i < len,
        ;
    } else {
        assert((i + len - 1) % len == len - 1) by (nonlinear_arith)
            requires
                i == 0,
                len > 0,
        ;
    }
}

/// Focus-next moves the focus from the `i`-th window of the focused window's
/// screen to the `(i + 1)`-th (the first after the last), and focus-previous
/// to the `(i - 1)`-th (the last before the first).
pub proof fn law_cycle_moves_focus_along_list(v: WmView, i: int)
    requires
        v.wf(),
        v.focused is Some,
        v.window(v.focused->0).screen is Some,
        v.screen_windows(v.window(v.focused->0).screen->0).len() >= 2,
        0 <= i < v.screen_windows(v.window(v.focused->0).screen->0).len(),
        v.screen_windows(v.window(v.focused->0).screen->0)[i] == v.focused->0,
    ensures
        ({
            let ws = v.screen_windows(v.window(v.focused->0).screen->0);
            &&& v.after_cycle(1, true).focused == Some(ws[(i + 1) % (ws.len() as int)])
            &&& v.after_cycle(1, false).focused == Some(ws[(i + ws.len() - 1) % (ws.len() as int)])
        }),
{
    let f = v.focused->0;
    assert(v.slots[f as int] == v.slots[f as int]);
    law_adjacent_is_next_in_list(v, v.window(f).screen->0, i);
}

/// Grabbing from the keyboard acts on the focused window when there is one,
/// whatever is under the pointer: on it unless it is fullscreen, in which case
/// nothing is grabbed.
pub proof fn law_keyboard_grab_takes_the_focused_window(v: WmView, hit: Option<usize>, kind: GrabKind)
    requires
        v.focused is Some,
    ensures
        v.grab_target(hit, true) == (if v.window(v.focused->0).fullscreen { None } else { v.focused }),
        !v.window(v.focused->0).fullscreen ==> v.after_grab(1, hit, true, kind).grabbed(kind) == v.focused,
        !v.window(v.focused->0).fullscreen ==> v.after_grab(1, hit, true, kind).focused == v.focused,
        v.window(v.focused->0).fullscreen ==> v.after_grab(1, hit, true, kind) == v,
{
}

} // verus!
