//! The window manager as seen in contracts: its state, the commands it gives
//! the compositor, and what each event does to the state and asks of the
//! compositor.

use vstd::prelude::*;
use crate::swc::{swc_rectangle, wl_display, SWC_WINDOW_EDGE_AUTO};
use crate::geometry::{
    placement_extent_of, spawn_offset_of, beside_placement_of, centered_placement_of, PLACEMENT_MIN_WIDTH,
    PLACEMENT_MIN_HEIGHT, wrap_i32, center_of, resized_extent_of, MIN_WINDOW_WIDTH, MIN_WINDOW_HEIGHT,
};
use crate::idlist::{without, last_other, lemma_without, lemma_push_contains, lemma_last_other};

verus! {

/// Identifies a window the manager knows of.
pub type WindowId = usize;
/// Identifies a screen the manager knows of.
pub type ScreenId = usize;

/// Border colour of a window that does not have the focus.
pub const UNFOCUSED_BORDER_COLOR: u32 = 0xff888888;
/// Border colour of the window that has the focus.
pub const FOCUSED_BORDER_COLOR: u32 = 0xff333388;

/// A request to the compositor. `window` is the compositor's handle of a window.
#[derive(Debug, Clone, Copy, PartialEq, Eq, Structural)]
pub enum Command {
    SetStacked { window: usize },
    Show { window: usize },
    Hide { window: usize },
    SetGeometry { window: usize, geometry: swc_rectangle },
    SetPosition { window: usize, x: i32, y: i32 },
    SetSize { window: usize, width: u32, height: u32 },
    SetBorder { window: usize, inner_color: u32, inner_width: u32, outer_color: u32, outer_width: u32 },
    /// Give the keyboard focus to a window, or to none.
    Focus { target: Option<usize> },
    /// Move a window one place in the stacking order (negative: towards the top).
    Stack { window: usize, direction: i32 },
    BeginMove { window: usize },
    EndMove { window: usize },
    BeginResize { window: usize, edges: u32 },
    EndResize { window: usize },
    Close { window: usize },
    TerminateDisplay { display: wl_display },
}

/// What the manager keeps of a window.
#[derive(Debug, Clone, Copy, PartialEq, Eq, Structural)]
pub struct Window {
    /// The compositor's handle of the window.
    pub swc: usize,
    /// The screen the window is on, if any.
    pub screen: Option<ScreenId>,
    pub fullscreen: bool,
    /// Geometry to restore when leaving fullscreen.
    pub saved_geometry: swc_rectangle,
    pub has_saved_geometry: bool,
}

/// A screen as seen in contracts.
#[verifier::ext_equal]
pub struct ScreenView {
    pub swc: usize,
    pub usable_geometry: swc_rectangle,
    pub windows: Seq<WindowId>,
}

/// The whole manager as seen in contracts. A window's identifier is its index
/// in `slots`; a free slot is `None`. A screen's identifier is its index in
/// `screens`.
#[verifier::ext_equal]
pub struct WmView {
    pub display: Option<wl_display>,
    pub screens: Seq<ScreenView>,
    pub slots: Seq<Option<Window>>,
    pub focused: Option<WindowId>,
    pub active_screen: Option<ScreenId>,
    pub spawn_index: u32,
    pub moving: Option<WindowId>,
    pub resizing: Option<WindowId>,
    /// Windows in the order they last received the focus, most recent last.
    pub history: Seq<WindowId>,
}

impl WmView {
    pub open spec fn live(self, w: WindowId) -> bool {
        (w as int) < self.slots.len() && self.slots[w as int] is Some
    }

    pub open spec fn window(self, w: WindowId) -> Window {
        self.slots[w as int]->0
    }

    pub open spec fn is_screen(self, s: ScreenId) -> bool {
        (s as int) < self.screens.len()
    }

    pub open spec fn screen_windows(self, s: ScreenId) -> Seq<WindowId> {
        self.screens[s as int].windows
    }

    /// The consistency every reachable state has: a window is listed on a screen
    /// exactly when it records that screen, no list holds a window twice, and
    /// every identifier held anywhere names a live window or an existing screen.
    pub open spec fn wf(self) -> bool {
        &&& forall|s: ScreenId, i: int|
            #![trigger self.screens[s as int].windows[i]]
            self.is_screen(s) && 0 <= i < self.screens[s as int].windows.len() ==> {
                &&& self.live(self.screens[s as int].windows[i])
                &&& self.window(self.screens[s as int].windows[i]).screen == Some(s)
            }
        &&& forall|s: ScreenId|
            #![trigger self.screens[s as int]]
            self.is_screen(s) ==> self.screens[s as int].windows.no_duplicates()
        &&& forall|w: WindowId|
            #![trigger self.slots[w as int]]
            self.live(w) && self.window(w).screen is Some ==> {
                &&& self.is_screen(self.window(w).screen->0)
                &&& self.screen_windows(self.window(w).screen->0).contains(w)
            }
        &&& self.history.no_duplicates()
        &&& forall|i: int| #![trigger self.history[i]] 0 <= i < self.history.len() ==> self.live(self.history[i])
        &&& (self.focused matches Some(f) ==> self.live(f))
        &&& (self.moving matches Some(m) ==> self.live(m))
        &&& (self.resizing matches Some(r) ==> self.live(r))
        &&& (self.active_screen matches Some(s) ==> self.is_screen(s))
    }

    /// The focused window, if any, is the most recent entry of the focus history.
    pub open spec fn focus_recorded(self) -> bool {
        self.focused matches Some(f) ==> self.history.len() > 0 && self.history.last() == f
    }

    /// The state after `target` receives the focus: it becomes the focused
    /// window and moves to the end of the focus history.
    pub open spec fn with_focus(self, target: Option<WindowId>) -> WmView {
        WmView {
            focused: target,
            history: match target {
                Some(w) => without(self.history, w).push(w),
                None => self.history,
            },
            ..self
        }
    }

    /// Bringing `w` to the top: one step up per window on its screen.
    pub open spec fn raise_commands(self, w: WindowId) -> Seq<Command> {
        match self.window(w).screen {
            Some(s) => Seq::new(
                self.screen_windows(s).len(),
                |i: int| Command::Stack { window: self.window(w).swc, direction: -1i32 },
            ),
            None => Seq::empty(),
        }
    }

    /// What focusing `target` asks of the compositor: the old focused window's
    /// border turns grey; the new one is raised, gets the focused border and the
    /// keyboard focus (or the focus goes to no window).
    pub open spec fn focus_commands(self, target: Option<WindowId>) -> Seq<Command> {
        let unfocus = match self.focused {
            Some(f) => seq![Command::SetBorder {
                window: self.window(f).swc,
                inner_color: UNFOCUSED_BORDER_COLOR,
                inner_width: 1,
                outer_color: 0,
                outer_width: 0,
            }],
            None => Seq::empty(),
        };
        unfocus + match target {
            Some(w) => self.raise_commands(w) + seq![
                Command::SetBorder {
                    window: self.window(w).swc,
                    inner_color: FOCUSED_BORDER_COLOR,
                    inner_width: 1,
                    outer_color: 0,
                    outer_width: 0,
                },
                Command::Focus { target: Some(self.window(w).swc) },
            ],
            None => seq![Command::Focus { target: None }],
        }
    }

    /// The most recently focused window of `history` that is on screen `s` and
    /// is not `excluding`.
    pub open spec fn last_focused_on(self, history: Seq<WindowId>, s: ScreenId, excluding: WindowId) -> Option<WindowId>
        decreases history.len(),
    {
        if history.len() == 0 {
            None
        } else if history.last() != excluding && self.window(history.last()).screen == Some(s) {
            Some(history.last())
        } else {
            self.last_focused_on(history.drop_last(), s, excluding)
        }
    }

    /// The window of screen `s`, other than `excluding`, that most recently had
    /// the focus; failing that, the newest such window on `s`.
    pub open spec fn last_active_on(self, s: ScreenId, excluding: WindowId) -> Option<WindowId> {
        if !self.is_screen(s) {
            None
        } else {
            match self.last_focused_on(self.history, s, excluding) {
                Some(w) => Some(w),
                None => last_other(self.screen_windows(s), excluding),
            }
        }
    }
}


impl WmView {
    /// A window as first seen: on no screen, not fullscreen, nothing saved.
    pub open spec fn fresh_window(swc: usize) -> Window {
        Window {
            swc,
            screen: None,
            fullscreen: false,
            saved_geometry: swc_rectangle { x: 0, y: 0, width: 0, height: 0 },
            has_saved_geometry: false,
        }
    }

    /// The slot a new window takes: the first free one, else a new one at the end.
    pub open spec fn free_slot(self) -> int {
        if exists|i: int| 0 <= i < self.slots.len() && self.slots[i] is None {
            choose|i: int| 0 <= i < self.slots.len() && self.slots[i] is None
                && forall|j: int| 0 <= j < i ==> self.slots[j] is Some
        } else {
            self.slots.len() as int
        }
    }

    /// A fresh window with handle `swc` in slot `id` (`id` at most one past the end).
    pub open spec fn with_window_at(self, id: int, swc: usize) -> WmView {
        WmView {
            slots: if id < self.slots.len() {
                self.slots.update(id, Some(Self::fresh_window(swc)))
            } else {
                self.slots.push(Some(Self::fresh_window(swc)))
            },
            ..self
        }
    }

    pub open spec fn with_window_added(self, swc: usize) -> WmView {
        self.with_window_at(self.free_slot(), swc)
    }

    pub open spec fn with_spawn_advanced(self) -> WmView {
        WmView {
            spawn_index: if self.spawn_index == u32::MAX { 0 } else { (self.spawn_index + 1) as u32 },
            ..self
        }
    }

    /// Window `w` listed last on screen `s` and recording it.
    pub open spec fn with_window_on_screen(self, s: ScreenId, w: WindowId) -> WmView {
        WmView {
            screens: self.screens.update(
                s as int,
                ScreenView { windows: self.screens[s as int].windows.push(w), ..self.screens[s as int] },
            ),
            slots: self.slots.update(w as int, Some(Window { screen: Some(s), ..self.window(w) })),
            ..self
        }
    }

    /// Window `w` taken off screen `s` and recording no screen.
    pub open spec fn with_window_off_screen(self, s: ScreenId, w: WindowId) -> WmView {
        WmView {
            screens: self.screens.update(
                s as int,
                ScreenView { windows: without(self.screens[s as int].windows, w), ..self.screens[s as int] },
            ),
            slots: self.slots.update(w as int, Some(Window { screen: None, ..self.window(w) })),
            ..self
        }
    }

    /// Where window `w` goes when placed on screen `s`, `focused_geometry` being
    /// what the compositor reports of the focused window: beside the focused
    /// window when that is another, non-fullscreen window on `s` whose geometry
    /// is known, else centred on `s`; either way shifted by the spawn offset.
    pub open spec fn placement(self, s: ScreenId, w: WindowId, focused_geometry: Option<swc_rectangle>) -> swc_rectangle {
        let usable = self.screens[s as int].usable_geometry;
        let width = placement_extent_of(usable.width, PLACEMENT_MIN_WIDTH);
        let height = placement_extent_of(usable.height, PLACEMENT_MIN_HEIGHT);
        let offset = spawn_offset_of(self.spawn_index);
        if self.focused is Some && self.focused->0 != w && self.window(self.focused->0).screen == Some(s)
            && !self.window(self.focused->0).fullscreen && focused_geometry is Some {
            beside_placement_of(focused_geometry->0, width, height, offset)
        } else {
            centered_placement_of(usable, width, height, offset)
        }
    }

    /// `SetGeometry` to `g` for each fullscreen window among `ws`, in order.
    pub open spec fn fullscreen_commands(self, ws: Seq<WindowId>, g: swc_rectangle) -> Seq<Command>
        decreases ws.len(),
    {
        if ws.len() == 0 {
            Seq::empty()
        } else {
            let rest = self.fullscreen_commands(ws.drop_last(), g);
            if self.window(ws.last()).fullscreen {
                rest.push(Command::SetGeometry { window: self.window(ws.last()).swc, geometry: g })
            } else {
                rest
            }
        }
    }

    /// The first of `ws` whose compositor handle is `handle`.
    pub open spec fn first_with_handle(self, ws: Seq<WindowId>, handle: usize) -> Option<WindowId>
        decreases ws.len(),
    {
        if ws.len() == 0 {
            None
        } else if self.window(ws[0]).swc == handle {
            Some(ws[0])
        } else {
            self.first_with_handle(ws.drop_first(), handle)
        }
    }

    /// The window of screen `s` with compositor handle `handle`.
    pub open spec fn find_by_handle(self, s: ScreenId, handle: Option<usize>) -> Option<WindowId> {
        match handle {
            Some(h) => if self.is_screen(s) { self.first_with_handle(self.screen_windows(s), h) } else { None },
            None => None,
        }
    }

    /// The window under the pointer: the window of the active screen with the
    /// handle that the compositor reports there.
    pub open spec fn window_at(self, hit: Option<usize>) -> Option<WindowId> {
        match self.active_screen {
            Some(s) => self.find_by_handle(s, hit),
            None => None,
        }
    }

    pub open spec fn with_new_screen(self, swc: usize, usable: swc_rectangle) -> WmView {
        WmView {
            screens: self.screens.push(ScreenView { swc, usable_geometry: usable, windows: Seq::empty() }),
            active_screen: Some(self.screens.len() as usize),
            ..self
        }
    }

    pub open spec fn with_usable_geometry(self, s: ScreenId, usable: swc_rectangle) -> WmView {
        WmView {
            screens: self.screens.update(s as int, ScreenView { usable_geometry: usable, ..self.screens[s as int] }),
            ..self
        }
    }

    /// The state after a window with handle `swc` appears, given what the
    /// compositor reports of the focused window's geometry.
    pub open spec fn after_new_window(self, swc: usize, focused_geometry: Option<swc_rectangle>) -> WmView {
        let id = self.free_slot() as usize;
        let added = self.with_window_added(swc);
        let placed = match self.active_screen {
            Some(s) => added.with_window_on_screen(s, id).with_spawn_advanced(),
            None => added,
        };
        placed.with_focus(Some(id))
    }

    /// The commands of a window with handle `swc` appearing.
    pub open spec fn new_window_commands(self, swc: usize, focused_geometry: Option<swc_rectangle>) -> Seq<Command> {
        let id = self.free_slot() as usize;
        let added = self.with_window_added(swc);
        match self.active_screen {
            Some(s) => {
                let on = added.with_window_on_screen(s, id);
                seq![
                    Command::SetStacked { window: swc },
                    Command::SetStacked { window: swc },
                    Command::SetGeometry { window: swc, geometry: on.placement(s, id, focused_geometry) },
                    Command::Show { window: swc },
                ] + on.with_spawn_advanced().focus_commands(Some(id))
            },
            None => seq![Command::SetStacked { window: swc }] + added.focus_commands(Some(id)),
        }
    }
}


/// The geometry reported for the `i`-th window of a list, `None` where the
/// report is missing.
pub open spec fn geo_at(geos: Seq<Option<swc_rectangle>>, i: int) -> Option<swc_rectangle> {
    if 0 <= i < geos.len() { geos[i] } else { None }
}

/// How far everything moves so that the centre of `target` comes to the centre
/// of `usable` (each coordinate wrapping in `i32`).
pub open spec fn pan_delta(usable: swc_rectangle, target: swc_rectangle) -> (i32, i32) {
    (
        wrap_i32(center_of(usable.x, usable.width) - center_of(target.x, target.width)),
        wrap_i32(center_of(usable.y, usable.height) - center_of(target.y, target.height)),
    )
}

impl WmView {
    /// `SetPosition` by `(dx, dy)` for each window of `ws` that is not fullscreen
    /// and whose geometry is reported in `geos` (aligned with `ws`), in order.
    pub open spec fn shift_commands(self, ws: Seq<WindowId>, geos: Seq<Option<swc_rectangle>>, dx: i32, dy: i32) -> Seq<Command>
        decreases ws.len(),
    {
        if ws.len() == 0 {
            Seq::empty()
        } else {
            let rest = self.shift_commands(ws.drop_last(), geos, dx, dy);
            let w = ws.last();
            match geo_at(geos, ws.len() - 1) {
                Some(g) => if !self.window(w).fullscreen {
                    rest.push(Command::SetPosition {
                        window: self.window(w).swc,
                        x: wrap_i32(g.x + dx),
                        y: wrap_i32(g.y + dy),
                    })
                } else {
                    rest
                },
                None => rest,
            }
        }
    }

    /// Panning screen `s` so that `target` (reported at `target_geometry`) is
    /// centred: every window on `s` that is not fullscreen and whose geometry is
    /// reported in `geos` moves by the same amount. Nothing moves when the target
    /// is fullscreen, its geometry is unknown, or it is centred already.
    pub open spec fn pan_commands(
        self,
        s: ScreenId,
        target: WindowId,
        target_geometry: Option<swc_rectangle>,
        geos: Seq<Option<swc_rectangle>>,
    ) -> Seq<Command> {
        if self.window(target).fullscreen {
            Seq::empty()
        } else {
            match target_geometry {
                None => Seq::empty(),
                Some(t) => {
                    let d = pan_delta(self.screens[s as int].usable_geometry, t);
                    if d.0 == 0 && d.1 == 0 {
                        Seq::empty()
                    } else {
                        self.shift_commands(self.screen_windows(s), geos, d.0, d.1)
                    }
                },
            }
        }
    }

    /// The geometry reported in `geos` for window `w` of screen `s`.
    pub open spec fn reported_geometry(self, s: ScreenId, w: WindowId, geos: Seq<Option<swc_rectangle>>) -> Option<swc_rectangle> {
        match self.screen_windows(s).index_of_first(w) {
            Some(i) => geo_at(geos, i),
            None => None,
        }
    }

    /// Window `w` no longer moving, resizing or in the focus history.
    pub open spec fn forgetting(self, w: WindowId) -> WmView {
        WmView {
            moving: if self.moving == Some(w) { None } else { self.moving },
            resizing: if self.resizing == Some(w) { None } else { self.resizing },
            history: without(self.history, w),
            ..self
        }
    }

    /// The window that gets the focus when the focused window `w` goes away: the
    /// last active other window of its screen.
    pub open spec fn successor(self, w: WindowId) -> Option<WindowId> {
        match self.window(w).screen {
            Some(s) => self.forgetting(w).last_active_on(s, w),
            None => None,
        }
    }

    /// The state after window `w` is destroyed.
    pub open spec fn after_destroy(self, w: WindowId) -> WmView {
        let p = self.forgetting(w);
        let f = if self.focused == Some(w) { p.with_focus(self.successor(w)) } else { p };
        let g = match self.window(w).screen {
            Some(s) => f.with_window_off_screen(s, w),
            None => f,
        };
        WmView { slots: g.slots.update(w as int, None), ..g }
    }

    /// The commands of window `w` being destroyed, `geos` being the geometries
    /// reported for the windows of its screen (aligned with that screen's list).
    /// When `w` had the focus, it passes on and the screen pans to the new
    /// focused window; then `w` is hidden.
    pub open spec fn destroy_commands(self, w: WindowId, geos: Seq<Option<swc_rectangle>>) -> Seq<Command> {
        let p = self.forgetting(w);
        let next = self.successor(w);
        let handover = if self.focused == Some(w) {
            p.focus_commands(next) + match self.window(w).screen {
                Some(s) => match next {
                    Some(n) => p.with_focus(next).pan_commands(s, n, self.reported_geometry(s, n, geos), geos),
                    None => Seq::empty(),
                },
                None => Seq::empty(),
            }
        } else {
            Seq::empty()
        };
        handover + match self.window(w).screen {
            Some(s) => seq![Command::Hide { window: self.window(w).swc }],
            None => Seq::empty(),
        }
    }
}


/// Which interactive operation a grab starts.
#[derive(Debug, Clone, Copy, PartialEq, Eq, Structural)]
pub enum GrabKind {
    Move,
    Resize,
}

impl WmView {
    /// The window `forward` (or backward) of `w` in the list of screen `s`,
    /// cyclically; `None` when the screen has at most one window or `w` is not
    /// on it.
    pub open spec fn adjacent(self, s: ScreenId, w: WindowId, forward: bool) -> Option<WindowId> {
        let ws = self.screen_windows(s);
        if !self.is_screen(s) || ws.len() <= 1 {
            None
        } else {
            match ws.index_of_first(w) {
                Some(i) => Some(
                    if forward {
                        ws[(i + 1) % (ws.len() as int)]
                    } else if i > 0 {
                        ws[i - 1]
                    } else {
                        ws[ws.len() - 1]
                    },
                ),
                None => None,
            }
        }
    }

    /// The screen of the focused window and the window next to it there.
    pub open spec fn cycle_target(self, forward: bool) -> Option<(ScreenId, WindowId)> {
        match self.focused {
            Some(f) => match self.window(f).screen {
                Some(s) => match self.adjacent(s, f, forward) {
                    Some(n) => Some((s, n)),
                    None => None,
                },
                None => None,
            },
            None => None,
        }
    }

    /// The state after a key press (`state == 1`) that moves the focus along the
    /// focused window's screen.
    pub open spec fn after_cycle(self, state: u32, forward: bool) -> WmView {
        if state == 1 && self.cycle_target(forward) is Some {
            self.with_focus(Some((self.cycle_target(forward)->0).1))
        } else {
            self
        }
    }

    pub open spec fn cycle_commands(self, state: u32, forward: bool) -> Seq<Command> {
        if state == 1 && self.cycle_target(forward) is Some {
            self.focus_commands(Some((self.cycle_target(forward)->0).1))
        } else {
            Seq::empty()
        }
    }

    /// As `cycle_commands`, followed by panning the screen to the newly focused
    /// window.
    pub open spec fn cycle_pan_commands(self, state: u32, forward: bool, geos: Seq<Option<swc_rectangle>>) -> Seq<Command> {
        if state == 1 && self.cycle_target(forward) is Some {
            let (s, n) = self.cycle_target(forward)->0;
            self.focus_commands(Some(n)) + self.with_focus(Some(n)).pan_commands(s, n, self.reported_geometry(s, n, geos), geos)
        } else {
            Seq::empty()
        }
    }

    /// The window a grab acts on: the focused window when `via_focus` and there
    /// is one, else the window under the pointer; never a fullscreen window.
    pub open spec fn grab_target(self, hit: Option<usize>, via_focus: bool) -> Option<WindowId> {
        let candidate = if via_focus && self.focused is Some { self.focused } else { self.window_at(hit) };
        match candidate {
            Some(w) => if self.window(w).fullscreen { None } else { Some(w) },
            None => None,
        }
    }

    /// The window an interactive operation of `kind` is under way on.
    pub open spec fn grabbed(self, kind: GrabKind) -> Option<WindowId> {
        match kind {
            GrabKind::Move => self.moving,
            GrabKind::Resize => self.resizing,
        }
    }

    /// The state after a grab binding of `kind` is pressed (`state == 1`) or
    /// released.
    pub open spec fn after_grab(self, state: u32, hit: Option<usize>, via_focus: bool, kind: GrabKind) -> WmView {
        if state == 1 {
            match self.grab_target(hit, via_focus) {
                Some(t) => WmView {
                    moving: if kind == GrabKind::Move { Some(t) } else { None },
                    resizing: if kind == GrabKind::Resize { Some(t) } else { None },
                    ..self
                }.with_focus(Some(t)),
                None => self,
            }
        } else {
            match kind {
                GrabKind::Move => WmView { moving: None, ..self },
                GrabKind::Resize => WmView { resizing: None, ..self },
            }
        }
    }

    pub open spec fn grab_commands(self, state: u32, hit: Option<usize>, via_focus: bool, kind: GrabKind) -> Seq<Command> {
        if state == 1 {
            match self.grab_target(hit, via_focus) {
                Some(t) => self.focus_commands(Some(t)) + seq![
                    match kind {
                        GrabKind::Move => Command::BeginMove { window: self.window(t).swc },
                        GrabKind::Resize => Command::BeginResize { window: self.window(t).swc, edges: SWC_WINDOW_EDGE_AUTO },
                    },
                ],
                None => Seq::empty(),
            }
        } else {
            match self.grabbed(kind) {
                Some(g) => seq![
                    match kind {
                        GrabKind::Move => Command::EndMove { window: self.window(g).swc },
                        GrabKind::Resize => Command::EndResize { window: self.window(g).swc },
                    },
                ],
                None => Seq::empty(),
            }
        }
    }

    /// Moving the focused window by `(dx, dy)` from its reported geometry.
    pub open spec fn move_commands(self, dx: i32, dy: i32, geometry: Option<swc_rectangle>) -> Seq<Command> {
        match self.focused {
            Some(f) => if self.window(f).fullscreen {
                Seq::empty()
            } else {
                match geometry {
                    Some(g) => seq![Command::SetPosition {
                        window: self.window(f).swc,
                        x: wrap_i32(g.x + dx),
                        y: wrap_i32(g.y + dy),
                    }],
                    None => Seq::empty(),
                }
            },
            None => Seq::empty(),
        }
    }

    /// Resizing the focused window by `(dw, dh)` from its reported geometry, to
    /// no less than the minimum size.
    pub open spec fn resize_commands(self, dw: i32, dh: i32, geometry: Option<swc_rectangle>) -> Seq<Command> {
        match self.focused {
            Some(f) => if self.window(f).fullscreen {
                Seq::empty()
            } else {
                match geometry {
                    Some(g) => seq![Command::SetSize {
                        window: self.window(f).swc,
                        width: resized_extent_of(g.width, dw, MIN_WINDOW_WIDTH),
                        height: resized_extent_of(g.height, dh, MIN_WINDOW_HEIGHT),
                    }],
                    None => Seq::empty(),
                }
            },
            None => Seq::empty(),
        }
    }

    pub open spec fn with_window(self, w: WindowId, win: Window) -> WmView {
        WmView { slots: self.slots.update(w as int, Some(win)), ..self }
    }

    /// The state after the fullscreen key is pressed (`state == 1`), `geometry`
    /// being what the compositor reports of the focused window's geometry. A
    /// focused window on a screen leaves fullscreen (forgetting its saved
    /// geometry, and using up a spawn index when none was saved) or enters it
    /// (saving its geometry when reported).
    pub open spec fn after_toggle_fullscreen(self, state: u32, geometry: Option<swc_rectangle>) -> WmView {
        if state == 1 && self.focused is Some && self.window(self.focused->0).screen is Some {
            let f = self.focused->0;
            let win = self.window(f);
            if win.fullscreen {
                let placed = if win.has_saved_geometry { self } else { self.with_spawn_advanced() };
                placed.with_window(f, Window { fullscreen: false, has_saved_geometry: false, ..win })
            } else {
                let saved = match geometry {
                    Some(g) => Window { saved_geometry: g, has_saved_geometry: true, ..win },
                    None => win,
                };
                self.with_window(f, Window { fullscreen: true, ..saved })
            }
        } else {
            self
        }
    }

    /// The commands of the fullscreen key: leaving fullscreen restacks the
    /// window and restores its saved geometry (or places it anew); entering it
    /// covers the usable area of the window's screen.
    pub open spec fn toggle_fullscreen_commands(self, state: u32, geometry: Option<swc_rectangle>) -> Seq<Command> {
        if state == 1 && self.focused is Some && self.window(self.focused->0).screen is Some {
            let f = self.focused->0;
            let win = self.window(f);
            let s = win.screen->0;
            if win.fullscreen {
                let restored = if win.has_saved_geometry {
                    win.saved_geometry
                } else {
                    self.with_window(f, Window { fullscreen: false, ..win }).placement(s, f, None)
                };
                seq![
                    Command::SetStacked { window: win.swc },
                    Command::SetGeometry { window: win.swc, geometry: restored },
                ]
            } else {
                seq![Command::SetGeometry { window: win.swc, geometry: self.screens[s as int].usable_geometry }]
            }
        } else {
            Seq::empty()
        }
    }
}

/// Focusing keeps the state consistent.
pub proof fn lemma_with_focus_wf(v: WmView, target: Option<WindowId>)
    requires
        v.wf(),
        target matches Some(w) ==> v.live(w),
    ensures
        v.with_focus(target).wf(),
{
    if let Some(w) = target {
        lemma_without(v.history, w);
        let h = without(v.history, w);
        lemma_push_contains(h, w);
        let n = h.push(w);
        assert forall|i: int| 0 <= i < n.len() implies v.live(#[trigger] n[i]) by {
            if i < h.len() {
                assert(h.contains(h[i]));
                assert(v.history.contains(h[i]));
            }
        }
        assert forall|i: int, j: int| 0 <= i < n.len() && 0 <= j < n.len() && i != j implies n[i] != n[j] by {
            if i < h.len() && j < h.len() {
            } else if i == h.len() {
                assert(h.contains(h[j]));
            } else {
                assert(h.contains(h[i]));
            }
        }
    }
}

/// Putting a window that is on no screen onto a screen keeps the state
/// consistent.
pub proof fn lemma_on_screen_wf(v: WmView, s: ScreenId, w: WindowId)
    requires
        v.wf(),
        v.live(w),
        v.window(w).screen is None,
        v.is_screen(s),
    ensures
        v.with_window_on_screen(s, w).wf(),
        !v.screen_windows(s).contains(w),
{
    let n = v.with_window_on_screen(s, w);
    assert(!v.screen_windows(s).contains(w)) by {
        if v.screen_windows(s).contains(w) {
            let i = choose|i: int| 0 <= i < v.screen_windows(s).len() && v.screen_windows(s)[i] == w;
            assert(v.screens[s as int].windows[i] == w);
        }
    }
    lemma_push_contains(v.screen_windows(s), w);
    assert forall|t: ScreenId, i: int|
        n.is_screen(t) && 0 <= i < n.screens[t as int].windows.len() implies {
            &&& n.live(#[trigger] n.screens[t as int].windows[i])
            &&& n.window(n.screens[t as int].windows[i]).screen == Some(t)
        } by {
        if t == s && i == v.screens[t as int].windows.len() {
            assert(n.screens[t as int].windows[i] == w);
        } else {
            assert(n.screens[t as int].windows[i] == v.screens[t as int].windows[i]);
            let x = v.screens[t as int].windows[i];
            if x == w {
                assert(v.window(x).screen == Some(t));
            }
        }
    }
    assert forall|t: ScreenId| n.is_screen(t) implies #[trigger] n.screens[t as int].windows.no_duplicates() by {
        if t == s {
            let l = n.screens[t as int].windows;
            assert(v.screens[t as int].windows.no_duplicates());
            assert forall|i: int, j: int| 0 <= i < l.len() && 0 <= j < l.len() && i != j implies l[i] != l[j] by {
                if i == l.len() - 1 {
                    assert(v.screen_windows(s)[j] == l[j]);
                } else if j == l.len() - 1 {
                    assert(v.screen_windows(s)[i] == l[i]);
                } else {
                    assert(v.screens[t as int].windows[i] == l[i]);
                    assert(v.screens[t as int].windows[j] == l[j]);
                }
            }
        } else {
            assert(n.screens[t as int] == v.screens[t as int]);
        }
    }
    assert forall|x: WindowId| n.live(x) && n.window(x).screen is Some implies {
        &&& n.is_screen(n.window(x).screen->0)
        &&& n.screen_windows(n.window(x).screen->0).contains(x)
    } by {
        if x == w {
            assert(n.screens[s as int].windows[v.screens[s as int].windows.len() as int] == w);
        } else {
            assert(#[trigger] v.slots[x as int] == n.slots[x as int]);
            let t = v.window(x).screen->0;
            if t == s {
                assert(v.screen_windows(s).contains(x));
            }
        }
    }
    assert forall|i: int| 0 <= i < n.history.len() implies n.live(#[trigger] n.history[i]) by {
        assert(v.live(v.history[i]));
    }
}

/// Adding a fresh window in a free slot keeps the state consistent.
#[verifier::spinoff_prover]
pub proof fn lemma_window_added_wf(v: WmView, id: usize, swc: usize)
    requires
        v.wf(),
        id <= v.slots.len(),
        id < v.slots.len() ==> v.slots[id as int] is None,
    ensures
        v.with_window_at(id as int, swc).wf(),
        v.with_window_at(id as int, swc).live(id),
        v.with_window_at(id as int, swc).window(id) == WmView::fresh_window(swc),
        forall|x: WindowId| #[trigger] v.live(x) ==> x != id && v.with_window_at(id as int, swc).slots[x as int] == v.slots[x as int],
{
    let n = v.with_window_at(id as int, swc);
    assert forall|x: WindowId| #[trigger] v.live(x) implies x != id && n.slots[x as int] == v.slots[x as int] by {
    }
    assert forall|t: ScreenId, i: int|
        n.is_screen(t) && 0 <= i < n.screens[t as int].windows.len() implies {
            &&& n.live(#[trigger] n.screens[t as int].windows[i])
            &&& n.window(n.screens[t as int].windows[i]).screen == Some(t)
        } by {
        let x = v.screens[t as int].windows[i];
        assert(v.live(x));
        assert(n.slots[x as int] == v.slots[x as int]);
    }
    assert forall|x: WindowId| n.live(x) && n.window(x).screen is Some implies {
        &&& n.is_screen(n.window(x).screen->0)
        &&& n.screen_windows(n.window(x).screen->0).contains(x)
    } by {
        if x as int != id {
            assert(#[trigger] v.slots[x as int] == n.slots[x as int]);
        }
    }
    assert forall|i: int| 0 <= i < n.history.len() implies n.live(#[trigger] n.history[i]) by {
        let x = v.history[i];
        assert(v.live(x));
        assert(n.slots[x as int] == v.slots[x as int]);
    }
    if let Some(f) = n.focused {
        assert(n.slots[f as int] == v.slots[f as int]);
    }
    if let Some(f) = n.moving {
        assert(n.slots[f as int] == v.slots[f as int]);
    }
    if let Some(f) = n.resizing {
        assert(n.slots[f as int] == v.slots[f as int]);
    }
}

/// Forgetting a window keeps the state consistent.
pub proof fn lemma_forgetting_wf(v: WmView, w: WindowId)
    requires
        v.wf(),
    ensures
        v.forgetting(w).wf(),
        !v.forgetting(w).history.contains(w),
{
    let n = v.forgetting(w);
    lemma_without(v.history, w);
    assert forall|i: int| 0 <= i < n.history.len() implies n.live(#[trigger] n.history[i]) by {
        assert(n.history.contains(n.history[i]));
        assert(v.history.contains(n.history[i]));
    }
}

/// Where the history search finds its window.
pub proof fn lemma_last_focused_on(v: WmView, h: Seq<WindowId>, s: ScreenId, excluding: WindowId)
    requires
        v.wf(),
        forall|i: int| 0 <= i < h.len() ==> v.live(#[trigger] h[i]),
    ensures
        v.last_focused_on(h, s, excluding) matches Some(x) ==> {
            &&& v.live(x)
            &&& x != excluding
            &&& v.window(x).screen == Some(s)
        },
    decreases h.len(),
{
    if h.len() > 0 {
        assert(v.live(h[h.len() - 1]));
        lemma_last_focused_on(v, h.drop_last(), s, excluding);
    }
}

/// The last active window of a screen is another live window on it.
pub proof fn lemma_last_active(v: WmView, s: ScreenId, excluding: WindowId)
    requires
        v.wf(),
    ensures
        v.last_active_on(s, excluding) matches Some(x) ==> {
            &&& v.live(x)
            &&& x != excluding
            &&& v.window(x).screen == Some(s)
            &&& v.screen_windows(s).contains(x)
        },
{
    if v.is_screen(s) {
        lemma_last_focused_on(v, v.history, s, excluding);
        lemma_last_other(v.screen_windows(s), excluding);
        if let Some(x) = v.last_active_on(s, excluding) {
            if v.last_focused_on(v.history, s, excluding) is None {
                let i = choose|i: int| 0 <= i < v.screen_windows(s).len() && v.screen_windows(s)[i] == x;
                assert(v.screens[s as int].windows[i] == x);
            }
            assert(v.live(x));
            assert(v.slots[x as int] == v.slots[x as int]);
        }
    }
}

/// Taking a window off its screen keeps the state consistent.
#[verifier::spinoff_prover]
pub proof fn lemma_off_screen_wf(v: WmView, s: ScreenId, w: WindowId)
    requires
        v.wf(),
        v.live(w),
        v.window(w).screen == Some(s),
    ensures
        v.with_window_off_screen(s, w).wf(),
        v.screen_windows(s).contains(w),
{
    assert(v.slots[w as int] == v.slots[w as int]);
    let n = v.with_window_off_screen(s, w);
    let l = v.screen_windows(s);
    lemma_without(l, w);
    assert(v.screens[s as int] == v.screens[s as int]);
    assert forall|t: ScreenId, i: int|
        n.is_screen(t) && 0 <= i < n.screens[t as int].windows.len() implies {
            &&& n.live(#[trigger] n.screens[t as int].windows[i])
            &&& n.window(n.screens[t as int].windows[i]).screen == Some(t)
        } by {
        if t == s {
            let x = n.screens[t as int].windows[i];
            assert(without(l, w).contains(x));
            let j = choose|j: int| 0 <= j < l.len() && l[j] == x;
            assert(v.screens[t as int].windows[j] == x);
            assert(x != w);
            assert(n.slots[x as int] == v.slots[x as int]);
            assert(n.window(x).screen == Some(s));
            assert(t == s);
        } else {
            assert(n.screens[t as int].windows[i] == v.screens[t as int].windows[i]);
            let x = v.screens[t as int].windows[i];
            assert(v.window(x).screen == Some(t));
            assert(x != w);
            assert(n.slots[x as int] == v.slots[x as int]);
        }
    }
    assert forall|t: ScreenId| n.is_screen(t) implies #[trigger] n.screens[t as int].windows.no_duplicates() by {
        if t != s {
            assert(n.screens[t as int] == v.screens[t as int]);
        }
    }
    assert forall|x: WindowId| n.live(x) && n.window(x).screen is Some implies {
        &&& n.is_screen(n.window(x).screen->0)
        &&& n.screen_windows(n.window(x).screen->0).contains(x)
    } by {
        assert(#[trigger] v.slots[x as int] == n.slots[x as int]);
        let t = v.window(x).screen->0;
        if t == s {
            assert(v.screen_windows(s).contains(x));
        }
    }
    assert forall|i: int| 0 <= i < n.history.len() implies n.live(#[trigger] n.history[i]) by {
        assert(v.live(v.history[i]));
    }
}

/// Freeing the slot of a window that nothing refers to keeps the state
/// consistent.
#[verifier::spinoff_prover]
pub proof fn lemma_slot_freed_wf(v: WmView, w: WindowId)
    requires
        v.wf(),
        v.live(w),
        v.window(w).screen is None,
        !v.history.contains(w),
        v.focused != Some(w),
        v.moving != Some(w),
        v.resizing != Some(w),
    ensures
        (WmView { slots: v.slots.update(w as int, None), ..v }).wf(),
{
    let n = WmView { slots: v.slots.update(w as int, None), ..v };
    assert forall|t: ScreenId, i: int|
        n.is_screen(t) && 0 <= i < n.screens[t as int].windows.len() implies {
            &&& n.live(#[trigger] n.screens[t as int].windows[i])
            &&& n.window(n.screens[t as int].windows[i]).screen == Some(t)
        } by {
        let x = v.screens[t as int].windows[i];
        assert(v.window(x).screen == Some(t));
        assert(x != w);
    }
    assert forall|x: WindowId| n.live(x) && n.window(x).screen is Some implies {
        &&& n.is_screen(n.window(x).screen->0)
        &&& n.screen_windows(n.window(x).screen->0).contains(x)
    } by {
        assert(#[trigger] v.slots[x as int] == n.slots[x as int]);
    }
    assert forall|i: int| 0 <= i < n.history.len() implies n.live(#[trigger] n.history[i]) by {
        assert(v.live(v.history[i]));
        assert(v.history.contains(v.history[i]));
    }
}

/// Replacing a window's record by one on the same screen keeps the state
/// consistent.
pub proof fn lemma_with_window_wf(v: WmView, w: WindowId, win: Window)
    requires
        v.wf(),
        v.live(w),
        win.screen == v.window(w).screen,
    ensures
        v.with_window(w, win).wf(),
{
    let n = v.with_window(w, win);
    assert(v.slots[w as int] == v.slots[w as int]);
    assert forall|t: ScreenId, i: int|
        n.is_screen(t) && 0 <= i < n.screens[t as int].windows.len() implies {
            &&& n.live(#[trigger] n.screens[t as int].windows[i])
            &&& n.window(n.screens[t as int].windows[i]).screen == Some(t)
        } by {
        let x = v.screens[t as int].windows[i];
        assert(v.live(x));
    }
    assert forall|x: WindowId| n.live(x) && n.window(x).screen is Some implies {
        &&& n.is_screen(n.window(x).screen->0)
        &&& n.screen_windows(n.window(x).screen->0).contains(x)
    } by {
        assert(#[trigger] v.slots[x as int] == v.slots[x as int]);
    }
    assert forall|i: int| 0 <= i < n.history.len() implies n.live(#[trigger] n.history[i]) by {
        assert(v.live(v.history[i]));
    }
}

} // verus!
