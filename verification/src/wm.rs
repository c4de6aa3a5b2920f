//! The window manager's state: screens, the windows on them, which window has
//! the focus, the order in which windows had it, and the interactive move or
//! resize under way. Each handler takes the state and what the compositor
//! reported, updates the state, and returns the commands that the compositor is
//! to carry out, in order (see `crate::model` for what each one does).

use vstd::prelude::*;
use crate::swc::{swc_rectangle, wl_display, SWC_WINDOW_EDGE_AUTO};
use crate::geometry::{
    placement_extent, spawn_offset, beside_placement, centered_placement, PLACEMENT_MIN_WIDTH, PLACEMENT_MIN_HEIGHT,
    center, sub_wrapping, add_wrapping, resized_extent, MIN_WINDOW_WIDTH, MIN_WINDOW_HEIGHT, MOVE_STEP, RESIZE_STEP,
};
use crate::idlist::{
    without, remove_all, find_last_other, position, lemma_without, lemma_push_contains,
};
use crate::model::{
    WindowId, ScreenId, Command, Window, ScreenView, WmView, GrabKind, geo_at, UNFOCUSED_BORDER_COLOR,
    FOCUSED_BORDER_COLOR, lemma_with_focus_wf, lemma_on_screen_wf, lemma_window_added_wf, lemma_forgetting_wf,
    lemma_last_active, lemma_off_screen_wf, lemma_slot_freed_wf, lemma_with_window_wf,
};

verus! {

/// What the manager keeps of a screen.
pub struct Screen {
    /// The compositor's handle of the screen.
    pub swc: usize,
    /// The part of the screen that windows may use.
    pub usable_geometry: swc_rectangle,
    /// The windows on the screen, oldest first.
    pub windows: Vec<WindowId>,
}

impl Screen {
    pub open spec fn view(&self) -> ScreenView {
        ScreenView { swc: self.swc, usable_geometry: self.usable_geometry, windows: self.windows@ }
    }
}

/// What the manager answers when a window appears.
pub struct Arrival {
    /// The identifier given to the window.
    pub window: WindowId,
    /// What the compositor is to do, in order.
    pub commands: Vec<Command>,
    /// The screen to pan to the new window next, once the compositor has done
    /// the commands (see `WindowManager::pan_screen_to_window`).
    pub pan_screen: Option<ScreenId>,
}

/// The window manager.
pub struct WindowManager {
    display: Option<wl_display>,
    screens: Vec<Screen>,
    slots: Vec<Option<Window>>,
    focused: Option<WindowId>,
    active_screen: Option<ScreenId>,
    spawn_index: u32,
    moving: Option<WindowId>,
    resizing: Option<WindowId>,
    history: Vec<WindowId>,
}

impl View for WindowManager {
    type V = WmView;

    closed spec fn view(&self) -> WmView {
        WmView {
            display: self.display,
            screens: self.screens@.map_values(|sc: Screen| sc.view()),
            slots: self.slots@,
            focused: self.focused,
            active_screen: self.active_screen,
            spawn_index: self.spawn_index,
            moving: self.moving,
            resizing: self.resizing,
            history: self.history@,
        }
    }
}

impl WindowManager {
    /// A manager with no display, screen or window.
    pub fn new() -> (r: Self)
        ensures
            r@.wf(),
            r@.display is None,
            r@.screens.len() == 0,
            r@.slots.len() == 0,
            r@.focused is None,
            r@.active_screen is None,
            r@.spawn_index == 0,
            r@.moving is None,
            r@.resizing is None,
            r@.history.len() == 0,
            r@.focus_recorded(),
    {
        WindowManager {
            display: None,
            screens: Vec::new(),
            slots: Vec::new(),
            focused: None,
            active_screen: None,
            spawn_index: 0,
            moving: None,
            resizing: None,
            history: Vec::new(),
        }
    }

    pub fn get_display(&self) -> (r: Option<wl_display>)
        ensures
            r == self@.display,
    {
        self.display
    }

    pub fn set_display(&mut self, display: Option<wl_display>)
        requires
            old(self)@.wf(),
        ensures
            final(self)@ == (WmView { display, ..old(self)@ }),
            final(self)@.wf(),
            old(self)@.focus_recorded() ==> final(self)@.focus_recorded(),
    {
        self.display = display;
    }

    pub fn get_focused_window(&self) -> (r: Option<WindowId>)
        ensures
            r == self@.focused,
    {
        self.focused
    }

    pub fn get_active_screen(&self) -> (r: Option<ScreenId>)
        ensures
            r == self@.active_screen,
    {
        self.active_screen
    }

    pub fn get_moving_window(&self) -> (r: Option<WindowId>)
        ensures
            r == self@.moving,
    {
        self.moving
    }

    pub fn get_resizing_window(&self) -> (r: Option<WindowId>)
        ensures
            r == self@.resizing,
    {
        self.resizing
    }

    /// The index of the next placement, which is then counted up (wrapping).
    pub fn next_spawn_index(&mut self) -> (r: u32)
        requires
            old(self)@.wf(),
        ensures
            r == old(self)@.spawn_index,
            final(self)@ == (WmView {
                spawn_index: if old(self)@.spawn_index == u32::MAX { 0 } else { (old(self)@.spawn_index + 1) as u32 },
                ..old(self)@
            }),
            final(self)@.wf(),
            old(self)@.focus_recorded() ==> final(self)@.focus_recorded(),
    {
        let current = self.spawn_index;
        self.spawn_index = current.wrapping_add(1);
        current
    }

    /// The record of live window `w`.
    fn window(&self, w: WindowId) -> (r: Window)
        requires
            self@.live(w),
        ensures
            r == self@.window(w),
    {
        self.slots[w].unwrap()
    }

    /// Records that `w` received the focus.
    fn note_window_focus(&mut self, w: WindowId)
        ensures
            final(self)@ == (WmView { history: without(old(self)@.history, w).push(w), ..old(self)@ }),
    {
        let mut h = remove_all(&self.history, w);
        h.push(w);
        self.history = h;
    }

    /// Forgets that `w` ever had the focus.
    fn remove_window_from_focus_history(&mut self, w: WindowId)
        ensures
            final(self)@ == (WmView { history: without(old(self)@.history, w), ..old(self)@ }),
    {
        self.history = remove_all(&self.history, w);
    }

    /// `self@.screens[s]` is the view of the stored screen `s`.
    proof fn lemma_screen_view(&self, s: ScreenId)
        requires
            (s as int) < self.screens@.len(),
        ensures
            self@.screens[s as int] == self.screens@[s as int].view(),
            self@.screens.len() == self.screens@.len(),
    {
    }

    /// The window of `screen`, other than `excluding`, that most recently had the
    /// focus; failing that, the newest other window on `screen`; `None` for an
    /// unknown screen.
    pub fn last_active_window_on_screen(&self, screen: ScreenId, excluding: WindowId) -> (r: Option<WindowId>)
        requires
            self@.wf(),
        ensures
            r == self@.last_active_on(screen, excluding),
    {
        if screen >= self.screens.len() {
            return None;
        }
        let ghost v = self@;
        let mut i: usize = self.history.len();
        assert(v.history.subrange(0, i as int) =~= v.history);
        while i > 0
            invariant
                v == self@,
                v.wf(),
                i <= self.history@.len(),
                v.history == self.history@,
                v.last_focused_on(v.history, screen, excluding)
                    == v.last_focused_on(v.history.subrange(0, i as int), screen, excluding),
            decreases i,
        {
            assert(v.history.subrange(0, i as int).drop_last() =~= v.history.subrange(0, i - 1));
            let c = self.history[i - 1];
            assert(v.live(c));
            if c != excluding && self.window(c).screen == Some(screen) {
                return Some(c);
            }
            i -= 1;
        }
        proof { self.lemma_screen_view(screen); }
        find_last_other(&self.screens[screen].windows, excluding)
    }

    /// Appends the commands that bring `w` to the top of its screen.
    fn push_raise(&self, w: WindowId, out: &mut Vec<Command>)
        requires
            self@.wf(),
            self@.live(w),
        ensures
            final(out)@ == old(out)@ + self@.raise_commands(w),
    {
        let win = self.window(w);
        match win.screen {
            Some(s) => {
                proof { self.lemma_screen_view(s); }
                let n = self.screens[s].windows.len();
                let ghost start = out@;
                let mut k: usize = 0;
                while k < n
                    invariant
                        k <= n,
                        n == self@.screen_windows(s).len(),
                        win == self@.window(w),
                        win.screen == Some(s),
                        out@ == start + Seq::new(k as nat, |i: int| Command::Stack { window: win.swc, direction: -1i32 }),
                    decreases n - k,
                {
                    out.push(Command::Stack { window: win.swc, direction: -1 });
                    k += 1;
                    assert(out@ =~= start + Seq::new(k as nat, |i: int| Command::Stack { window: win.swc, direction: -1i32 }));
                }
                assert(out@ =~= start + self@.raise_commands(w));
            },
            None => {
                assert(out@ =~= old(out)@ + self@.raise_commands(w));
            },
        }
    }

    /// Appends the commands of focusing `target` and focuses it.
    fn focus_into(&mut self, target: Option<WindowId>, out: &mut Vec<Command>)
        requires
            old(self)@.wf(),
            target matches Some(w) ==> old(self)@.live(w),
        ensures
            final(self)@ == old(self)@.with_focus(target),
            final(out)@ == old(out)@ + old(self)@.focus_commands(target),
            final(self)@.wf(),
    {
        let ghost v = self@;
        let ghost start = out@;
        match self.focused {
            Some(f) => {
                let fw = self.window(f);
                out.push(Command::SetBorder {
                    window: fw.swc,
                    inner_color: UNFOCUSED_BORDER_COLOR,
                    inner_width: 1,
                    outer_color: 0,
                    outer_width: 0,
                });
            },
            None => {},
        }
        let ghost mid = out@;
        match target {
            Some(w) => {
                self.push_raise(w, out);
                let tw = self.window(w);
                out.push(Command::SetBorder {
                    window: tw.swc,
                    inner_color: FOCUSED_BORDER_COLOR,
                    inner_width: 1,
                    outer_color: 0,
                    outer_width: 0,
                });
                out.push(Command::Focus { target: Some(tw.swc) });
                self.focused = Some(w);
                self.note_window_focus(w);
            },
            None => {
                out.push(Command::Focus { target: None });
                self.focused = None;
            },
        }
        assert(out@ =~= start + v.focus_commands(target));
        proof { lemma_with_focus_wf(v, target); }
        assert(self@ =~= v.with_focus(target));
    }

    /// Gives the focus to `target` (or takes it from every window).
    pub fn focus(&mut self, target: Option<WindowId>) -> (r: Vec<Command>)
        requires
            old(self)@.wf(),
            target matches Some(w) ==> old(self)@.live(w),
        ensures
            final(self)@ == old(self)@.with_focus(target),
            r@ == old(self)@.focus_commands(target),
            final(self)@.wf(),
            old(self)@.focus_recorded() ==> final(self)@.focus_recorded(),
    {
        let mut out: Vec<Command> = Vec::new();
        self.focus_into(target, &mut out);
        assert(out@ =~= Seq::<Command>::empty() + old(self)@.focus_commands(target));
        out
    }

    /// Registers a new screen with handle `swc` and usable area `usable`; it
    /// becomes the active screen.
    pub fn new_screen(&mut self, swc: usize, usable: swc_rectangle) -> (r: ScreenId)
        requires
            old(self)@.wf(),
        ensures
            r == old(self)@.screens.len(),
            final(self)@ == old(self)@.with_new_screen(swc, usable),
            final(self)@.wf(),
            old(self)@.focus_recorded() ==> final(self)@.focus_recorded(),
    {
        let ghost v = self@;
        let id = self.screens.len();
        self.screens.push(Screen { swc, usable_geometry: usable, windows: Vec::new() });
        self.active_screen = Some(id);
        assert(self@.screens =~= v.screens.push(ScreenView { swc, usable_geometry: usable, windows: Seq::empty() }));
        assert(self@ =~= v.with_new_screen(swc, usable));
        let ghost n = self@;
        assert forall|s: ScreenId, i: int|
            n.is_screen(s) && 0 <= i < n.screens[s as int].windows.len() implies {
                &&& n.live(#[trigger] n.screens[s as int].windows[i])
                &&& n.window(n.screens[s as int].windows[i]).screen == Some(s)
            } by {
            assert(s < v.screens.len());
            assert(n.screens[s as int] == v.screens[s as int]);
        }
        assert forall|s: ScreenId| n.is_screen(s) implies #[trigger] n.screens[s as int].windows.no_duplicates() by {
            if s < v.screens.len() {
                assert(n.screens[s as int] == v.screens[s as int]);
            }
        }
        assert forall|w: WindowId| n.live(w) && n.window(w).screen is Some implies {
            &&& n.is_screen(n.window(w).screen->0)
            &&& n.screen_windows(n.window(w).screen->0).contains(w)
        } by {
            assert(v.live(w) && #[trigger] v.slots[w as int] == n.slots[w as int]);
            assert(n.screens[n.window(w).screen->0 as int] == v.screens[n.window(w).screen->0 as int]);
        }
        id
    }

    /// Screen `screen` became the one the user is on.
    pub fn screen_entered(&mut self, screen: ScreenId)
        requires
            old(self)@.wf(),
            old(self)@.is_screen(screen),
        ensures
            final(self)@ == (WmView { active_screen: Some(screen), ..old(self)@ }),
            final(self)@.wf(),
            old(self)@.focus_recorded() ==> final(self)@.focus_recorded(),
    {
        self.active_screen = Some(screen);
    }

    /// The compositor handle of screen `screen`.
    pub fn screen_handle(&self, screen: ScreenId) -> (r: usize)
        requires
            self@.is_screen(screen),
        ensures
            r == self@.screens[screen as int].swc,
    {
        proof { self.lemma_screen_view(screen); }
        self.screens[screen].swc
    }

    pub fn is_screen(&self, screen: ScreenId) -> (r: bool)
        ensures
            r == self@.is_screen(screen),
    {
        screen < self.screens.len()
    }

    pub fn is_live(&self, window: WindowId) -> (r: bool)
        ensures
            r == self@.live(window),
    {
        window < self.slots.len() && self.slots[window].is_some()
    }

    /// The usable area of `screen` changed to `usable`: fullscreen windows on it
    /// are resized to cover the new area.
    pub fn screen_usable_geometry_changed(&mut self, screen: ScreenId, usable: swc_rectangle) -> (r: Vec<Command>)
        requires
            old(self)@.wf(),
            old(self)@.is_screen(screen),
        ensures
            final(self)@ == old(self)@.with_usable_geometry(screen, usable),
            r@ == old(self)@.fullscreen_commands(old(self)@.screen_windows(screen), usable),
            final(self)@.wf(),
            old(self)@.focus_recorded() ==> final(self)@.focus_recorded(),
    {
        let ghost v = self@;
        proof { self.lemma_screen_view(screen); }
        self.screens[screen].usable_geometry = usable;
        assert(self@.screens =~= v.with_usable_geometry(screen, usable).screens);
        assert(self@ =~= v.with_usable_geometry(screen, usable));
        let ghost n = self@;
        assert forall|s: ScreenId, i: int|
            n.is_screen(s) && 0 <= i < n.screens[s as int].windows.len() implies {
                &&& n.live(#[trigger] n.screens[s as int].windows[i])
                &&& n.window(n.screens[s as int].windows[i]).screen == Some(s)
            } by {
            assert(n.screens[s as int].windows == v.screens[s as int].windows);
        }
        assert forall|s: ScreenId| n.is_screen(s) implies #[trigger] n.screens[s as int].windows.no_duplicates() by {
            assert(n.screens[s as int].windows == v.screens[s as int].windows);
        }
        assert forall|w: WindowId| n.live(w) && n.window(w).screen is Some implies {
            &&& n.is_screen(n.window(w).screen->0)
            &&& n.screen_windows(n.window(w).screen->0).contains(w)
        } by {
            assert(v.live(w) && #[trigger] v.slots[w as int] == n.slots[w as int]);
            assert(n.screens[n.window(w).screen->0 as int].windows == v.screens[n.window(w).screen->0 as int].windows);
        }
        proof { self.lemma_screen_view(screen); }
        let mut out: Vec<Command> = Vec::new();
        let n_windows = self.screens[screen].windows.len();
        let ghost ws = v.screen_windows(screen);
        let mut i: usize = 0;
        while i < n_windows
            invariant
                n == self@,
                n.wf(),
                v.slots == n.slots,
                ws == v.screen_windows(screen),
                ws == self.screens@[screen as int].windows@,
                (screen as int) < self.screens@.len(),
                n_windows == ws.len(),
                i <= n_windows,
                out@ == v.fullscreen_commands(ws.subrange(0, i as int), usable),
            decreases n_windows - i,
        {
            assert(ws.subrange(0, i + 1).drop_last() =~= ws.subrange(0, i as int));
            let w = self.screens[screen].windows[i];
            assert(n.screens[screen as int].windows[i as int] == w);
            let win = self.window(w);
            if win.fullscreen {
                out.push(Command::SetGeometry { window: win.swc, geometry: usable });
            }
            i += 1;
        }
        assert(ws.subrange(0, n_windows as int) =~= ws);
        out
    }

    /// The window of `screen` whose compositor handle is `handle` (the first one,
    /// oldest first); `None` when there is none or no handle.
    pub fn find_window_by_swc(&self, screen: ScreenId, handle: Option<usize>) -> (r: Option<WindowId>)
        requires
            self@.wf(),
        ensures
            r == self@.find_by_handle(screen, handle),
    {
        let h = match handle {
            Some(h) => h,
            None => return None,
        };
        assert(handle == Some(h));
        if screen >= self.screens.len() {
            return None;
        }
        proof { self.lemma_screen_view(screen); }
        let ghost v = self@;
        let ghost ws = v.screen_windows(screen);
        let n = self.screens[screen].windows.len();
        let mut i: usize = 0;
        assert(ws.subrange(0, n as int) =~= ws);
        while i < n
            invariant
                v == self@,
                v.wf(),
                v.is_screen(screen),
                ws == v.screen_windows(screen),
                ws == self.screens@[screen as int].windows@,
                (screen as int) < self.screens@.len(),
                n == ws.len(),
                i <= n,
                v.first_with_handle(ws, h) == v.first_with_handle(ws.subrange(i as int, n as int), h),
                handle == Some(h),
            decreases n - i,
        {
            assert(ws.subrange(i as int, n as int).drop_first() =~= ws.subrange(i + 1, n as int));
            let w = self.screens[screen].windows[i];
            assert(v.screens[screen as int].windows[i as int] == w);
            assert(ws.subrange(i as int, n as int)[0] == w);
            if self.window(w).swc == h {
                assert(v.window(w).swc == h);
                assert(v.first_with_handle(ws.subrange(i as int, n as int), h) == Some(w));
                return Some(w);
            }
            i += 1;
        }
        None
    }

    /// The window under the pointer, `hit` being the handle of the window that
    /// the compositor reports under the pointer, if any.
    pub fn window_at_cursor(&self, hit: Option<usize>) -> (r: Option<WindowId>)
        requires
            self@.wf(),
        ensures
            r == self@.window_at(hit),
    {
        match self.active_screen {
            Some(s) => self.find_window_by_swc(s, hit),
            None => None,
        }
    }

    /// Where window `w` is placed on screen `s`; uses up one spawn index.
    fn place_window(&mut self, s: ScreenId, w: WindowId, focused_geometry: Option<swc_rectangle>) -> (g: swc_rectangle)
        requires
            old(self)@.wf(),
            old(self)@.is_screen(s),
            old(self)@.live(w),
        ensures
            g == old(self)@.placement(s, w, focused_geometry),
            final(self)@ == old(self)@.with_spawn_advanced(),
            final(self)@.wf(),
    {
        proof { self.lemma_screen_view(s); }
        let usable = self.screens[s].usable_geometry;
        let width = placement_extent(usable.width, PLACEMENT_MIN_WIDTH);
        let height = placement_extent(usable.height, PLACEMENT_MIN_HEIGHT);
        let index = self.next_spawn_index();
        let offset = spawn_offset(index);
        if let Some(f) = self.focused {
            if f != w {
                let fw = self.window(f);
                if fw.screen == Some(s) && !fw.fullscreen {
                    if let Some(beside) = focused_geometry {
                        return beside_placement(beside, width, height, offset);
                    }
                }
            }
        }
        centered_placement(usable, width, height, offset)
    }

    /// The first free slot, or one past the end.
    fn first_free_slot(&self) -> (id: usize)
        ensures
            id == self@.free_slot(),
            id <= self@.slots.len(),
            id < self@.slots.len() ==> self@.slots[id as int] is None,
    {
        let mut id: usize = 0;
        while id < self.slots.len() && self.slots[id].is_some()
            invariant
                id <= self.slots@.len(),
                forall|j: int| 0 <= j < id ==> self.slots@[j] is Some,
            decreases self.slots.len() - id,
        {
            id += 1;
        }
        proof {
            let v = self@;
            if id < self.slots.len() {
                assert(v.slots[id as int] is None);
                let c = choose|i: int| 0 <= i < v.slots.len() && v.slots[i] is None
                    && forall|j: int| 0 <= j < i ==> v.slots[j] is Some;
                assert(c == id as int) by {
                    if c < id {
                        assert(v.slots[c] is Some);
                    } else if c > id {
                        assert(v.slots[id as int] is Some);
                    }
                }
            } else {
                assert(!exists|i: int| 0 <= i < v.slots.len() && v.slots[i] is None);
            }
        }
        id
    }

    /// Records a fresh window with handle `swc` in the first free slot.
    fn add_window(&mut self, swc: usize) -> (id: WindowId)
        requires
            old(self)@.wf(),
        ensures
            id == old(self)@.free_slot(),
            final(self)@ == old(self)@.with_window_added(swc),
            final(self)@.wf(),
            final(self)@.live(id),
            final(self)@.window(id) == WmView::fresh_window(swc),
    {
        let ghost v = self@;
        let id = self.first_free_slot();
        let fresh = Window {
            swc,
            screen: None,
            fullscreen: false,
            saved_geometry: swc_rectangle { x: 0, y: 0, width: 0, height: 0 },
            has_saved_geometry: false,
        };
        if id < self.slots.len() {
            self.slots[id] = Some(fresh);
        } else {
            self.slots.push(Some(fresh));
        }
        assert(self@ =~= v.with_window_added(swc));
        proof { lemma_window_added_wf(v, id, swc); }
        id
    }

    /// Puts window `w`, which is on no screen, onto screen `s`: it is stacked,
    /// placed and shown.
    fn screen_add_window(&mut self, s: ScreenId, w: WindowId, focused_geometry: Option<swc_rectangle>, out: &mut Vec<Command>)
        requires
            old(self)@.wf(),
            old(self)@.is_screen(s),
            old(self)@.live(w),
            old(self)@.window(w).screen is None,
        ensures
            final(self)@ == old(self)@.with_window_on_screen(s, w).with_spawn_advanced(),
            final(out)@ == old(out)@ + seq![
                Command::SetStacked { window: old(self)@.window(w).swc },
                Command::SetGeometry {
                    window: old(self)@.window(w).swc,
                    geometry: old(self)@.with_window_on_screen(s, w).placement(s, w, focused_geometry),
                },
                Command::Show { window: old(self)@.window(w).swc },
            ],
            final(self)@.wf(),
    {
        let ghost v = self@;
        proof { self.lemma_screen_view(s); lemma_on_screen_wf(v, s, w); }
        let win = self.window(w);
        self.slots[w] = Some(Window { screen: Some(s), ..win });
        self.screens[s].windows.push(w);
        assert(self@.screens =~= v.with_window_on_screen(s, w).screens);
        assert(self@ =~= v.with_window_on_screen(s, w));
        out.push(Command::SetStacked { window: win.swc });
        let g = self.place_window(s, w, focused_geometry);
        out.push(Command::SetGeometry { window: win.swc, geometry: g });
        out.push(Command::Show { window: win.swc });
    }

    /// A window with compositor handle `swc` appeared. `focused_geometry` is what
    /// the compositor reports of the geometry of the focused window (`None` if
    /// nothing is focused or the query failed). The window is put on the active
    /// screen, if any, placed and shown, and receives the focus.
    pub fn new_window(&mut self, swc: usize, focused_geometry: Option<swc_rectangle>) -> (r: Arrival)
        requires
            old(self)@.wf(),
        ensures
            r.window == old(self)@.free_slot(),
            final(self)@ == old(self)@.after_new_window(swc, focused_geometry),
            r.commands@ == old(self)@.new_window_commands(swc, focused_geometry),
            r.pan_screen == old(self)@.active_screen,
            final(self)@.wf(),
            old(self)@.focus_recorded() ==> final(self)@.focus_recorded(),
    {
        let ghost v = self@;
        let id = self.add_window(swc);
        let ghost added = self@;
        let mut out: Vec<Command> = Vec::new();
        out.push(Command::SetStacked { window: swc });
        let ghost placed_cmds: Seq<Command>;
        match self.active_screen {
            Some(s) => {
                self.screen_add_window(s, id, focused_geometry, &mut out);
                proof {
                    placed_cmds = seq![
                        Command::SetStacked { window: swc },
                        Command::SetGeometry {
                            window: swc,
                            geometry: added.with_window_on_screen(s, id).placement(s, id, focused_geometry),
                        },
                        Command::Show { window: swc },
                    ];
                }
                assert(out@ =~= seq![Command::SetStacked { window: swc }] + placed_cmds);
            },
            None => {
                proof { placed_cmds = Seq::empty(); }
                assert(out@ =~= seq![Command::SetStacked { window: swc }] + placed_cmds);
            },
        }
        let ghost placed = self@;
        self.focus_into(Some(id), &mut out);
        assert(out@ =~= seq![Command::SetStacked { window: swc }] + placed_cmds + placed.focus_commands(Some(id)));
        assert(out@ =~= v.new_window_commands(swc, focused_geometry));
        Arrival { window: id, commands: out, pan_screen: self.active_screen }
    }

    /// Appends the commands of panning `screen` to `target`.
    fn pan_into(
        &self,
        screen: ScreenId,
        target: WindowId,
        target_geometry: Option<swc_rectangle>,
        geos: &Vec<Option<swc_rectangle>>,
        out: &mut Vec<Command>,
    )
        requires
            self@.wf(),
            self@.is_screen(screen),
            self@.live(target),
        ensures
            final(out)@ == old(out)@ + self@.pan_commands(screen, target, target_geometry, geos@),
    {
        let ghost v = self@;
        let ghost start = out@;
        if self.window(target).fullscreen {
            assert(out@ =~= start + v.pan_commands(screen, target, target_geometry, geos@));
            return;
        }
        let t = match target_geometry {
            Some(t) => t,
            None => {
                assert(out@ =~= start + v.pan_commands(screen, target, target_geometry, geos@));
                return;
            },
        };
        proof { self.lemma_screen_view(screen); }
        let usable = self.screens[screen].usable_geometry;
        let dx = sub_wrapping(center(usable.x, usable.width), center(t.x, t.width));
        let dy = sub_wrapping(center(usable.y, usable.height), center(t.y, t.height));
        if dx == 0 && dy == 0 {
            assert(out@ =~= start + v.pan_commands(screen, target, target_geometry, geos@));
            return;
        }
        let ghost ws = v.screen_windows(screen);
        let n = self.screens[screen].windows.len();
        let mut i: usize = 0;
        while i < n
            invariant
                v == self@,
                v.wf(),
                v.is_screen(screen),
                ws == v.screen_windows(screen),
                ws == self.screens@[screen as int].windows@,
                (screen as int) < self.screens@.len(),
                n == ws.len(),
                i <= n,
                out@ == start + v.shift_commands(ws.subrange(0, i as int), geos@, dx, dy),
            decreases n - i,
        {
            assert(ws.subrange(0, i + 1).drop_last() =~= ws.subrange(0, i as int));
            let w = self.screens[screen].windows[i];
            assert(v.screens[screen as int].windows[i as int] == w);
            let g = if i < geos.len() { geos[i] } else { None };
            assert(g == geo_at(geos@, ws.subrange(0, i + 1).len() - 1));
            let win = self.window(w);
            match g {
                Some(g) => {
                    if !win.fullscreen {
                        out.push(Command::SetPosition {
                            window: win.swc,
                            x: add_wrapping(g.x, dx),
                            y: add_wrapping(g.y, dy),
                        });
                    }
                },
                None => {},
            }
            i += 1;
        }
        assert(ws.subrange(0, n as int) =~= ws);
    }

    /// The commands that pan `screen` so that `target` comes to its centre.
    /// `target_geometry` is what the compositor reports of the target's geometry
    /// and `geos` what it reports of each window of the screen, in the order of
    /// `screen_window_handles(screen)` (`None` where the query failed).
    pub fn pan_screen_to_window(
        &self,
        screen: ScreenId,
        target: WindowId,
        target_geometry: Option<swc_rectangle>,
        geos: &Vec<Option<swc_rectangle>>,
    ) -> (r: Vec<Command>)
        requires
            self@.wf(),
            self@.is_screen(screen),
            self@.live(target),
        ensures
            r@ == self@.pan_commands(screen, target, target_geometry, geos@),
    {
        let mut out: Vec<Command> = Vec::new();
        self.pan_into(screen, target, target_geometry, geos, &mut out);
        assert(out@ =~= self@.pan_commands(screen, target, target_geometry, geos@));
        out
    }

    /// The compositor handles of the windows of `screen`, oldest first (empty
    /// for an unknown screen).
    pub fn screen_window_handles(&self, screen: ScreenId) -> (r: Vec<usize>)
        requires
            self@.wf(),
        ensures
            self@.is_screen(screen) ==> r@ == self@.screen_windows(screen).map_values(|w: WindowId| self@.window(w).swc),
            !self@.is_screen(screen) ==> r@.len() == 0,
    {
        let mut r: Vec<usize> = Vec::new();
        if screen >= self.screens.len() {
            return r;
        }
        proof { self.lemma_screen_view(screen); }
        let ghost v = self@;
        let ghost ws = v.screen_windows(screen);
        let n = self.screens[screen].windows.len();
        let mut i: usize = 0;
        while i < n
            invariant
                v == self@,
                v.wf(),
                v.is_screen(screen),
                ws == v.screen_windows(screen),
                ws == self.screens@[screen as int].windows@,
                (screen as int) < self.screens@.len(),
                n == ws.len(),
                i <= n,
                r@ == ws.subrange(0, i as int).map_values(|w: WindowId| v.window(w).swc),
            decreases n - i,
        {
            let w = self.screens[screen].windows[i];
            assert(v.screens[screen as int].windows[i as int] == w);
            r.push(self.window(w).swc);
            i += 1;
            assert(r@ =~= ws.subrange(0, i as int).map_values(|w: WindowId| v.window(w).swc));
        }
        assert(ws.subrange(0, n as int) =~= ws);
        r
    }

    /// The screen window `w` is on, if any.
    pub fn window_screen(&self, w: WindowId) -> (r: Option<ScreenId>)
        requires
            self@.live(w),
        ensures
            r == self@.window(w).screen,
    {
        self.window(w).screen
    }

    /// The compositor handle of window `w`.
    pub fn window_handle(&self, w: WindowId) -> (r: usize)
        requires
            self@.live(w),
        ensures
            r == self@.window(w).swc,
    {
        self.window(w).swc
    }

    /// Takes window `w` off screen `s`; hides it if it was listed there.
    fn screen_remove_window(&mut self, s: ScreenId, w: WindowId, out: &mut Vec<Command>)
        requires
            old(self)@.wf(),
            old(self)@.live(w),
            old(self)@.window(w).screen == Some(s),
        ensures
            final(self)@ == old(self)@.with_window_off_screen(s, w),
            final(out)@ == old(out)@ + seq![Command::Hide { window: old(self)@.window(w).swc }],
            final(self)@.wf(),
    {
        let ghost v = self@;
        proof { lemma_off_screen_wf(v, s, w); self.lemma_screen_view(s); lemma_without(v.screen_windows(s), w); }
        let win = self.window(w);
        self.slots[w] = Some(Window { screen: None, ..win });
        let before = self.screens[s].windows.len();
        let kept = remove_all(&self.screens[s].windows, w);
        let after = kept.len();
        self.screens[s].windows = kept;
        if after != before {
            out.push(Command::Hide { window: win.swc });
        }
        assert(self@.screens =~= v.with_window_off_screen(s, w).screens);
        assert(self@ =~= v.with_window_off_screen(s, w));
    }

    /// Window `w` was destroyed. `geos` is what the compositor reports of the
    /// geometry of each window of `w`'s screen, in the order of
    /// `screen_window_handles` (`None` where the query failed). If `w` had the
    /// focus, the focus passes to the last active other window of its screen and
    /// the screen pans to that window; `w` is taken off its screen and forgotten.
    pub fn window_destroy(&mut self, w: WindowId, geos: &Vec<Option<swc_rectangle>>) -> (r: Vec<Command>)
        requires
            old(self)@.wf(),
            old(self)@.live(w),
        ensures
            final(self)@ == old(self)@.after_destroy(w),
            r@ == old(self)@.destroy_commands(w, geos@),
            final(self)@.wf(),
            old(self)@.focus_recorded() ==> final(self)@.focus_recorded(),
    {
        let ghost v = self@;
        let win = self.window(w);
        let was_focused = match self.focused {
            Some(f) => f == w,
            None => false,
        };
        match self.moving {
            Some(m) => if m == w { self.moving = None; },
            None => {},
        }
        match self.resizing {
            Some(m) => if m == w { self.resizing = None; },
            None => {},
        }
        self.remove_window_from_focus_history(w);
        assert(self@ =~= v.forgetting(w));
        proof { lemma_forgetting_wf(v, w); }
        let ghost p = self@;
        let mut out: Vec<Command> = Vec::new();
        if was_focused {
            let next = match win.screen {
                Some(s) => self.last_active_window_on_screen(s, w),
                None => None,
            };
            assert(next == v.successor(w));
            proof {
                if let Some(s) = win.screen {
                    lemma_last_active(p, s, w);
                }
            }
            self.focus_into(next, &mut out);
            let ghost focused_state = self@;
            match win.screen {
                Some(s) => match next {
                    Some(n) => {
                        proof { self.lemma_screen_view(s); }
                        let idx = position(&self.screens[s].windows, n);
                        let tg = match idx {
                            Some(i) => if i < geos.len() { geos[i] } else { None },
                            None => None,
                        };
                        assert(tg == v.reported_geometry(s, n, geos@));
                        self.pan_into(s, n, tg, geos, &mut out);
                    },
                    None => {},
                },
                None => {},
            }
            assert(out@ =~= v.destroy_commands(w, geos@).subrange(0, out@.len() as int)) by {
                assert(out@ =~= p.focus_commands(next) + match win.screen {
                    Some(s) => match next {
                        Some(n) => focused_state.pan_commands(s, n, v.reported_geometry(s, n, geos@), geos@),
                        None => Seq::empty(),
                    },
                    None => Seq::empty(),
                });
            }
        }
        let ghost handed = out@;
        match win.screen {
            Some(s) => {
                self.screen_remove_window(s, w, &mut out);
            },
            None => {},
        }
        assert(out@ =~= v.destroy_commands(w, geos@));
        let ghost g = self@;
        proof {
            lemma_without(v.history, w);
            if was_focused {
                lemma_last_active(p, v.window(w).screen->0, w);
                if let Some(nx) = v.successor(w) {
                    lemma_without(p.history, nx);
                    lemma_push_contains(without(p.history, nx), nx);
                }
            }
            lemma_slot_freed_wf(g, w);
        }
        self.slots[w] = None;
        assert(self@ =~= v.after_destroy(w));
        out
    }

    /// The window next to `w` on `screen`, forwards or backwards, cyclically.
    pub fn adjacent_window(&self, screen: ScreenId, w: WindowId, forward: bool) -> (r: Option<WindowId>)
        requires
            self@.wf(),
        ensures
            r == self@.adjacent(screen, w, forward),
            r matches Some(n) ==> {
                &&& self@.live(n)
                &&& self@.screen_windows(screen).contains(n)
                &&& self@.window(n).screen == Some(screen)
            },
    {
        if screen >= self.screens.len() {
            return None;
        }
        proof { self.lemma_screen_view(screen); }
        let ghost ws = self@.screen_windows(screen);
        let windows = &self.screens[screen].windows;
        let len = windows.len();
        if len <= 1 {
            return None;
        }
        match position(windows, w) {
            Some(i) => {
                proof { ws.index_of_first_ensures(w); }
                let index = if forward {
                    (i + 1) % len
                } else if i > 0 {
                    i - 1
                } else {
                    len - 1
                };
                assert(self@.screens[screen as int].windows[index as int] == ws[index as int]);
                Some(windows[index])
            },
            None => None,
        }
    }

    /// The focused window's screen and the window next to it there.
    fn cycle_target(&self, forward: bool) -> (r: Option<(ScreenId, WindowId)>)
        requires
            self@.wf(),
        ensures
            r == self@.cycle_target(forward),
            r matches Some((s, n)) ==> self@.is_screen(s) && self@.live(n) && self@.screen_windows(s).contains(n),
    {
        let f = match self.focused {
            Some(f) => f,
            None => return None,
        };
        let s = match self.window(f).screen {
            Some(s) => s,
            None => return None,
        };
        match self.adjacent_window(s, f, forward) {
            Some(n) => Some((s, n)),
            None => None,
        }
    }

    /// A focus-next key (`state == 1`: pressed): the focus moves to the next
    /// window of the focused window's screen.
    pub fn focus_next_handler(&mut self, state: u32) -> (r: Vec<Command>)
        requires
            old(self)@.wf(),
        ensures
            final(self)@ == old(self)@.after_cycle(state, true),
            r@ == old(self)@.cycle_commands(state, true),
            final(self)@.wf(),
            old(self)@.focus_recorded() ==> final(self)@.focus_recorded(),
    {
        self.cycle_focus(state, true)
    }

    /// A focus-previous key (`state == 1`: pressed): the focus moves to the
    /// previous window of the focused window's screen.
    pub fn focus_prev_handler(&mut self, state: u32) -> (r: Vec<Command>)
        requires
            old(self)@.wf(),
        ensures
            final(self)@ == old(self)@.after_cycle(state, false),
            r@ == old(self)@.cycle_commands(state, false),
            final(self)@.wf(),
            old(self)@.focus_recorded() ==> final(self)@.focus_recorded(),
    {
        self.cycle_focus(state, false)
    }

    fn cycle_focus(&mut self, state: u32, forward: bool) -> (r: Vec<Command>)
        requires
            old(self)@.wf(),
        ensures
            final(self)@ == old(self)@.after_cycle(state, forward),
            r@ == old(self)@.cycle_commands(state, forward),
            final(self)@.wf(),
    {
        if state != 1 {
            return Vec::new();
        }
        let f = match self.focused {
            Some(f) => f,
            None => return Vec::new(),
        };
        let s = match self.window(f).screen {
            Some(s) => s,
            None => return Vec::new(),
        };
        if forward {
            self.focus_next(s, f)
        } else {
            self.focus_prev(s, f)
        }
    }

    /// Focuses the window after `window` on `screen` (cyclically); nothing
    /// happens when the screen has at most one window or `window` is not on it.
    pub fn focus_next(&mut self, screen: ScreenId, window: WindowId) -> (r: Vec<Command>)
        requires
            old(self)@.wf(),
        ensures
            final(self)@ == match old(self)@.adjacent(screen, window, true) {
                Some(n) => old(self)@.with_focus(Some(n)),
                None => old(self)@,
            },
            r@ == match old(self)@.adjacent(screen, window, true) {
                Some(n) => old(self)@.focus_commands(Some(n)),
                None => Seq::empty(),
            },
            final(self)@.wf(),
    {
        match self.adjacent_window(screen, window, true) {
            Some(n) => self.focus(Some(n)),
            None => Vec::new(),
        }
    }

    /// Focuses the window before `window` on `screen` (cyclically); nothing
    /// happens when the screen has at most one window or `window` is not on it.
    pub fn focus_prev(&mut self, screen: ScreenId, window: WindowId) -> (r: Vec<Command>)
        requires
            old(self)@.wf(),
        ensures
            final(self)@ == match old(self)@.adjacent(screen, window, false) {
                Some(n) => old(self)@.with_focus(Some(n)),
                None => old(self)@,
            },
            r@ == match old(self)@.adjacent(screen, window, false) {
                Some(n) => old(self)@.focus_commands(Some(n)),
                None => Seq::empty(),
            },
            final(self)@.wf(),
    {
        match self.adjacent_window(screen, window, false) {
            Some(n) => self.focus(Some(n)),
            None => Vec::new(),
        }
    }

    /// The pointer entered `window`: it gets the focus.
    pub fn window_entered(&mut self, window: WindowId) -> (r: Vec<Command>)
        requires
            old(self)@.wf(),
            old(self)@.live(window),
        ensures
            final(self)@ == old(self)@.with_focus(Some(window)),
            r@ == old(self)@.focus_commands(Some(window)),
            final(self)@.wf(),
            old(self)@.focus_recorded() ==> final(self)@.focus_recorded(),
    {
        self.focus(Some(window))
    }

    /// A pan-to-next key (`state == 1`: pressed): the focus moves to the next
    /// window of the focused window's screen and the screen pans to it. `geos`
    /// is what the compositor reports of the windows of that screen, in the
    /// order of `screen_window_handles`.
    pub fn pan_to_next_window(&mut self, state: u32, geos: &Vec<Option<swc_rectangle>>) -> (r: Vec<Command>)
        requires
            old(self)@.wf(),
        ensures
            final(self)@ == old(self)@.after_cycle(state, true),
            r@ == old(self)@.cycle_pan_commands(state, true, geos@),
            final(self)@.wf(),
            old(self)@.focus_recorded() ==> final(self)@.focus_recorded(),
    {
        self.cycle_and_pan(state, true, geos)
    }

    /// A pan-to-previous key: as `pan_to_next_window`, backwards.
    pub fn pan_to_prev_window(&mut self, state: u32, geos: &Vec<Option<swc_rectangle>>) -> (r: Vec<Command>)
        requires
            old(self)@.wf(),
        ensures
            final(self)@ == old(self)@.after_cycle(state, false),
            r@ == old(self)@.cycle_pan_commands(state, false, geos@),
            final(self)@.wf(),
            old(self)@.focus_recorded() ==> final(self)@.focus_recorded(),
    {
        self.cycle_and_pan(state, false, geos)
    }

    fn cycle_and_pan(&mut self, state: u32, forward: bool, geos: &Vec<Option<swc_rectangle>>) -> (r: Vec<Command>)
        requires
            old(self)@.wf(),
        ensures
            final(self)@ == old(self)@.after_cycle(state, forward),
            r@ == old(self)@.cycle_pan_commands(state, forward, geos@),
            final(self)@.wf(),
    {
        let mut out: Vec<Command> = Vec::new();
        if state != 1 {
            return out;
        }
        let ghost v = self@;
        match self.cycle_target(forward) {
            Some((s, n)) => {
                proof { self.lemma_screen_view(s); }
                let idx = position(&self.screens[s].windows, n);
                let tg = match idx {
                    Some(i) => if i < geos.len() { geos[i] } else { None },
                    None => None,
                };
                assert(tg == v.reported_geometry(s, n, geos@));
                self.focus_into(Some(n), &mut out);
                self.pan_into(s, n, tg, geos, &mut out);
                assert(out@ =~= v.cycle_pan_commands(state, forward, geos@));
            },
            None => {},
        }
        out
    }

    /// The window a grab acts on.
    fn grab_target(&self, hit: Option<usize>, via_focus: bool) -> (r: Option<WindowId>)
        requires
            self@.wf(),
        ensures
            r == self@.grab_target(hit, via_focus),
            r matches Some(t) ==> self@.live(t),
    {
        let candidate = match self.focused {
            Some(f) => if via_focus { Some(f) } else { self.window_at_cursor(hit) },
            None => self.window_at_cursor(hit),
        };
        proof {
            if let Some(w) = self@.window_at(hit) {
                let s = self@.active_screen->0;
                self.lemma_first_with_handle(self@.screen_windows(s), s, hit->0);
            }
        }
        match candidate {
            Some(w) => if self.window(w).fullscreen { None } else { Some(w) },
            None => None,
        }
    }

    /// A handle search on a screen finds a window of that screen.
    proof fn lemma_first_with_handle(&self, ws: Seq<WindowId>, s: ScreenId, h: usize)
        requires
            self@.wf(),
            self@.is_screen(s),
            forall|i: int| 0 <= i < ws.len() ==> self@.screen_windows(s).contains(#[trigger] ws[i]),
        ensures
            self@.first_with_handle(ws, h) matches Some(w) ==> self@.live(w),
        decreases ws.len(),
    {
        if ws.len() > 0 {
            assert(self@.screen_windows(s).contains(ws[0]));
            let j = choose|j: int| 0 <= j < self@.screen_windows(s).len() && self@.screen_windows(s)[j] == ws[0];
            assert(self@.screens[s as int].windows[j] == ws[0]);
            assert forall|i: int| 0 <= i < ws.drop_first().len() implies self@.screen_windows(s).contains(#[trigger] ws.drop_first()[i]) by {
                assert(ws.drop_first()[i] == ws[i + 1]);
            }
            self.lemma_first_with_handle(ws.drop_first(), s, h);
        }
    }

    /// A grab binding of `kind`: on press (`state == 1`) the target window (see
    /// `WmView::grab_target`) gets the focus and the operation begins on it; on
    /// release the operation under way, if any, ends.
    fn grab(&mut self, state: u32, hit: Option<usize>, via_focus: bool, kind: GrabKind) -> (r: Vec<Command>)
        requires
            old(self)@.wf(),
        ensures
            final(self)@ == old(self)@.after_grab(state, hit, via_focus, kind),
            r@ == old(self)@.grab_commands(state, hit, via_focus, kind),
            final(self)@.wf(),
    {
        let ghost v = self@;
        let mut out: Vec<Command> = Vec::new();
        if state == 1 {
            match self.grab_target(hit, via_focus) {
                Some(t) => {
                    let swc = self.window(t).swc;
                    match kind {
                        GrabKind::Move => {
                            self.resizing = None;
                            self.moving = Some(t);
                        },
                        GrabKind::Resize => {
                            self.moving = None;
                            self.resizing = Some(t);
                        },
                    }
                    let ghost grabbed = self@;
                    assert(grabbed.focus_commands(Some(t)) == v.focus_commands(Some(t)));
                    self.focus_into(Some(t), &mut out);
                    match kind {
                        GrabKind::Move => out.push(Command::BeginMove { window: swc }),
                        GrabKind::Resize => out.push(Command::BeginResize { window: swc, edges: SWC_WINDOW_EDGE_AUTO }),
                    }
                    assert(self@ =~= v.after_grab(state, hit, via_focus, kind));
                },
                None => {},
            }
        } else {
            match kind {
                GrabKind::Move => match self.moving {
                    Some(m) => {
                        out.push(Command::EndMove { window: self.window(m).swc });
                        self.moving = None;
                    },
                    None => {},
                },
                GrabKind::Resize => match self.resizing {
                    Some(m) => {
                        out.push(Command::EndResize { window: self.window(m).swc });
                        self.resizing = None;
                    },
                    None => {},
                },
            }
            assert(self@ =~= v.after_grab(state, hit, via_focus, kind));
        }
        assert(out@ =~= v.grab_commands(state, hit, via_focus, kind));
        out
    }

    /// The move key: `hit` is the handle of the window under the pointer, used
    /// when nothing is focused.
    pub fn key_move_handler(&mut self, state: u32, hit: Option<usize>) -> (r: Vec<Command>)
        requires
            old(self)@.wf(),
        ensures
            final(self)@ == old(self)@.after_grab(state, hit, true, GrabKind::Move),
            r@ == old(self)@.grab_commands(state, hit, true, GrabKind::Move),
            final(self)@.wf(),
            old(self)@.focus_recorded() ==> final(self)@.focus_recorded(),
    {
        self.grab(state, hit, true, GrabKind::Move)
    }

    /// The resize key: `hit` is the handle of the window under the pointer, used
    /// when nothing is focused.
    pub fn key_resize_handler(&mut self, state: u32, hit: Option<usize>) -> (r: Vec<Command>)
        requires
            old(self)@.wf(),
        ensures
            final(self)@ == old(self)@.after_grab(state, hit, true, GrabKind::Resize),
            r@ == old(self)@.grab_commands(state, hit, true, GrabKind::Resize),
            final(self)@.wf(),
            old(self)@.focus_recorded() ==> final(self)@.focus_recorded(),
    {
        self.grab(state, hit, true, GrabKind::Resize)
    }

    /// The resize button: acts on the window under the pointer (`hit`).
    pub fn mouse_resize_handler(&mut self, state: u32, hit: Option<usize>) -> (r: Vec<Command>)
        requires
            old(self)@.wf(),
        ensures
            final(self)@ == old(self)@.after_grab(state, hit, false, GrabKind::Resize),
            r@ == old(self)@.grab_commands(state, hit, false, GrabKind::Resize),
            final(self)@.wf(),
            old(self)@.focus_recorded() ==> final(self)@.focus_recorded(),
    {
        self.grab(state, hit, false, GrabKind::Resize)
    }

    /// Moves the focused window by `(dx, dy)`; `geometry` is what the compositor
    /// reports of its geometry.
    pub fn move_focused_window(&self, dx: i32, dy: i32, geometry: Option<swc_rectangle>) -> (r: Vec<Command>)
        requires
            self@.wf(),
        ensures
            r@ == self@.move_commands(dx, dy, geometry),
    {
        let mut out: Vec<Command> = Vec::new();
        if let Some(f) = self.focused {
            let w = self.window(f);
            if !w.fullscreen {
                if let Some(g) = geometry {
                    out.push(Command::SetPosition { window: w.swc, x: add_wrapping(g.x, dx), y: add_wrapping(g.y, dy) });
                }
            }
        }
        assert(out@ =~= self@.move_commands(dx, dy, geometry));
        out
    }

    /// Resizes the focused window by `(dw, dh)`, to no less than the minimum
    /// size; `geometry` is what the compositor reports of its geometry.
    pub fn resize_focused_window(&self, dw: i32, dh: i32, geometry: Option<swc_rectangle>) -> (r: Vec<Command>)
        requires
            self@.wf(),
        ensures
            r@ == self@.resize_commands(dw, dh, geometry),
    {
        let mut out: Vec<Command> = Vec::new();
        if let Some(f) = self.focused {
            let w = self.window(f);
            if !w.fullscreen {
                if let Some(g) = geometry {
                    out.push(Command::SetSize {
                        window: w.swc,
                        width: resized_extent(g.width, dw, MIN_WINDOW_WIDTH),
                        height: resized_extent(g.height, dh, MIN_WINDOW_HEIGHT),
                    });
                }
            }
        }
        assert(out@ =~= self@.resize_commands(dw, dh, geometry));
        out
    }

    /// Key moving the focused window left by `MOVE_STEP` (`state == 1`: pressed).
    pub fn move_left(&self, state: u32, geometry: Option<swc_rectangle>) -> (r: Vec<Command>)
        requires
            self@.wf(),
        ensures
            r@ == if state == 1 { self@.move_commands(-64i32, 0i32, geometry) } else { Seq::empty() },
    {
        if state == 1 {
            self.move_focused_window(-MOVE_STEP, 0, geometry)
        } else {
            Vec::new()
        }
    }

    /// Key moving the focused window right by `MOVE_STEP` (`state == 1`: pressed).
    pub fn move_right(&self, state: u32, geometry: Option<swc_rectangle>) -> (r: Vec<Command>)
        requires
            self@.wf(),
        ensures
            r@ == if state == 1 { self@.move_commands(64i32, 0i32, geometry) } else { Seq::empty() },
    {
        if state == 1 {
            self.move_focused_window(MOVE_STEP, 0, geometry)
        } else {
            Vec::new()
        }
    }

    /// Key moving the focused window up by `MOVE_STEP` (`state == 1`: pressed).
    pub fn move_up(&self, state: u32, geometry: Option<swc_rectangle>) -> (r: Vec<Command>)
        requires
            self@.wf(),
        ensures
            r@ == if state == 1 { self@.move_commands(0i32, -64i32, geometry) } else { Seq::empty() },
    {
        if state == 1 {
            self.move_focused_window(0, -MOVE_STEP, geometry)
        } else {
            Vec::new()
        }
    }

    /// Key moving the focused window down by `MOVE_STEP` (`state == 1`: pressed).
    pub fn move_down(&self, state: u32, geometry: Option<swc_rectangle>) -> (r: Vec<Command>)
        requires
            self@.wf(),
        ensures
            r@ == if state == 1 { self@.move_commands(0i32, 64i32, geometry) } else { Seq::empty() },
    {
        if state == 1 {
            self.move_focused_window(0, MOVE_STEP, geometry)
        } else {
            Vec::new()
        }
    }

    /// Key making the focused window narrower by `RESIZE_STEP` (`state == 1`: pressed).
    pub fn resize_narrower(&self, state: u32, geometry: Option<swc_rectangle>) -> (r: Vec<Command>)
        requires
            self@.wf(),
        ensures
            r@ == if state == 1 { self@.resize_commands(-48i32, 0i32, geometry) } else { Seq::empty() },
    {
        if state == 1 {
            self.resize_focused_window(-RESIZE_STEP, 0, geometry)
        } else {
            Vec::new()
        }
    }

    /// Key making the focused window wider by `RESIZE_STEP` (`state == 1`: pressed).
    pub fn resize_wider(&self, state: u32, geometry: Option<swc_rectangle>) -> (r: Vec<Command>)
        requires
            self@.wf(),
        ensures
            r@ == if state == 1 { self@.resize_commands(48i32, 0i32, geometry) } else { Seq::empty() },
    {
        if state == 1 {
            self.resize_focused_window(RESIZE_STEP, 0, geometry)
        } else {
            Vec::new()
        }
    }

    /// Key making the focused window taller by `RESIZE_STEP` (`state == 1`: pressed).
    pub fn resize_taller(&self, state: u32, geometry: Option<swc_rectangle>) -> (r: Vec<Command>)
        requires
            self@.wf(),
        ensures
            r@ == if state == 1 { self@.resize_commands(0i32, 48i32, geometry) } else { Seq::empty() },
    {
        if state == 1 {
            self.resize_focused_window(0, RESIZE_STEP, geometry)
        } else {
            Vec::new()
        }
    }

    /// Key making the focused window shorter by `RESIZE_STEP` (`state == 1`: pressed).
    pub fn resize_shorter(&self, state: u32, geometry: Option<swc_rectangle>) -> (r: Vec<Command>)
        requires
            self@.wf(),
        ensures
            r@ == if state == 1 { self@.resize_commands(0i32, -48i32, geometry) } else { Seq::empty() },
    {
        if state == 1 {
            self.resize_focused_window(0, -RESIZE_STEP, geometry)
        } else {
            Vec::new()
        }
    }

    /// The quit key (`state == 1`: pressed): the display is terminated.
    pub fn quit(&self, state: u32) -> (r: Vec<Command>)
        ensures
            r@ == if state == 1 && self@.display is Some {
                seq![Command::TerminateDisplay { display: self@.display->0 }]
            } else {
                Seq::empty()
            },
    {
        let mut out: Vec<Command> = Vec::new();
        if state == 1 {
            if let Some(d) = self.display {
                out.push(Command::TerminateDisplay { display: d });
            }
        }
        assert(out@ =~= (if state == 1 && self@.display is Some {
            seq![Command::TerminateDisplay { display: self@.display->0 }]
        } else {
            Seq::<Command>::empty()
        }));
        out
    }

    /// The close key (`state == 1`: pressed): the focused window is asked to
    /// close.
    pub fn close_window(&self, state: u32) -> (r: Vec<Command>)
        requires
            self@.wf(),
        ensures
            r@ == if state == 1 && self@.focused is Some {
                seq![Command::Close { window: self@.window(self@.focused->0).swc }]
            } else {
                Seq::empty()
            },
    {
        let mut out: Vec<Command> = Vec::new();
        if state == 1 {
            if let Some(f) = self.focused {
                out.push(Command::Close { window: self.window(f).swc });
            }
        }
        assert(out@ =~= (if state == 1 && self@.focused is Some {
            seq![Command::Close { window: self@.window(self@.focused->0).swc }]
        } else {
            Seq::<Command>::empty()
        }));
        out
    }

    /// The fullscreen key (`state == 1`: pressed); `geometry` is what the
    /// compositor reports of the focused window's geometry.
    pub fn toggle_fullscreen(&mut self, state: u32, geometry: Option<swc_rectangle>) -> (r: Vec<Command>)
        requires
            old(self)@.wf(),
        ensures
            final(self)@ == old(self)@.after_toggle_fullscreen(state, geometry),
            r@ == old(self)@.toggle_fullscreen_commands(state, geometry),
            final(self)@.wf(),
            old(self)@.focus_recorded() ==> final(self)@.focus_recorded(),
    {
        let ghost v = self@;
        let mut out: Vec<Command> = Vec::new();
        if state != 1 {
            return out;
        }
        let f = match self.focused {
            Some(f) => f,
            None => return out,
        };
        let win = self.window(f);
        let s = match win.screen {
            Some(s) => s,
            None => return out,
        };
        if win.fullscreen {
            let leaving = Window { fullscreen: false, ..win };
            proof { lemma_with_window_wf(v, f, leaving); }
            self.slots[f] = Some(leaving);
            assert(self@ =~= v.with_window(f, leaving));
            out.push(Command::SetStacked { window: win.swc });
            if win.has_saved_geometry {
                out.push(Command::SetGeometry { window: win.swc, geometry: win.saved_geometry });
            } else {
                let g = self.place_window(s, f, None);
                out.push(Command::SetGeometry { window: win.swc, geometry: g });
            }
            let ghost placed = self@;
            let done = Window { fullscreen: false, has_saved_geometry: false, ..win };
            proof { lemma_with_window_wf(placed, f, done); }
            self.slots[f] = Some(done);
            assert(self@ =~= v.after_toggle_fullscreen(state, geometry));
        } else {
            let saved = match geometry {
                Some(g) => Window { saved_geometry: g, has_saved_geometry: true, ..win },
                None => win,
            };
            let entering = Window { fullscreen: true, ..saved };
            proof { lemma_with_window_wf(v, f, entering); self.lemma_screen_view(s); }
            self.slots[f] = Some(entering);
            out.push(Command::SetGeometry { window: win.swc, geometry: self.screens[s].usable_geometry });
            assert(self@ =~= v.after_toggle_fullscreen(state, geometry));
        }
        assert(out@ =~= v.toggle_fullscreen_commands(state, geometry));
        out
    }
}

} // verus!
