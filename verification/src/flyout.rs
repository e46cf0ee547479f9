use vstd::prelude::*;

verus! {

/// The widgets on the bar, each with its own flyout panel.
#[derive(Debug, Clone, Copy, PartialEq, Eq, Hash, Structural)]
pub enum WidgetKind {
    System,
    Network,
    Audio,
    Media,
    Device,
}

/// Whether the flyout is open, shown and current, around the window it lives in (`W`
/// identifies a window).
#[derive(Debug)]
pub struct FlyoutState<W> {
    /// The flyout window, once one has been opened.
    pub window: Option<W>,
    /// The widget whose panel the flyout shows.
    pub active_widget: Option<WidgetKind>,
    /// Whether the flyout is opening or open, as opposed to closing or closed.
    pub target_open: bool,
    /// Whether the flyout window is on screen (it stays so while the close animates).
    pub visible: bool,
    /// Counts the open and close requests; the window ignores updates older than the
    /// last one it applied.
    pub generation: u64,
}

/// What the caller does after a decision.
#[derive(Debug)]
pub enum FlyoutAction<W> {
    /// Nothing.
    Nothing,
    /// Report that the bar's position is not known yet, so the flyout has nowhere to go.
    AnchorNotReady,
    /// Start the opening animation and open a flyout window; report it with
    /// `window_created`.
    OpenWindow,
    /// Start the opening animation, size the window and show it at `generation`.
    Show { window: W, generation: u64 },
    /// Start the closing animation and update the window, still shown, at `generation`.
    Hide { window: W, generation: u64 },
    /// Update the window at `generation`, shown or hidden.
    Sync { window: W, visible: bool, generation: u64 },
    /// Size the window to the panel.
    Resize { window: W },
    /// Size the window to the panel and update it, shown, at `generation`.
    ResizeAndSync { window: W, generation: u64 },
}

/// The generation after `g`: one more, wrapping around past zero, which is skipped.
pub open spec fn next_generation(g: u64) -> u64 {
    if g == u64::MAX {
        1
    } else {
        (g + 1) as u64
    }
}

impl<W: Copy> FlyoutState<W> {
    /// A window is on screen only once it exists.
    pub open spec fn wf(self) -> bool {
        self.visible ==> self.window is Some
    }

    /// No window, nothing selected, closed.
    pub fn new() -> (r: Self)
        ensures
            r.wf(),
            r.window is None,
            r.active_widget is None,
            !r.target_open,
            !r.visible,
            r.generation == 0,
    {
        FlyoutState {
            window: None,
            active_widget: None,
            target_open: false,
            visible: false,
            generation: 0,
        }
    }

    /// Advances the generation and returns it.
    pub fn next_flyout_generation(&mut self) -> (r: u64)
        ensures
            r == next_generation(old(self).generation),
            final(self).generation == r,
            r != 0,
            r != old(self).generation,
            final(self).window == old(self).window,
            final(self).active_widget == old(self).active_widget,
            final(self).target_open == old(self).target_open,
            final(self).visible == old(self).visible,
    {
        self.generation = self.generation.wrapping_add(1);
        if self.generation == 0 {
            self.generation = 1;
        }
        self.generation
    }

    /// Opens the flyout: nothing happens until the bar's position is known; with a
    /// window it is shown at once, otherwise one is opened.
    pub open spec fn spec_open(self, anchor_ready: bool) -> (Self, FlyoutAction<W>) {
        if !anchor_ready {
            (self, FlyoutAction::AnchorNotReady)
        } else {
            let g = next_generation(self.generation);
            match self.window {
                Some(w) => (
                    FlyoutState { target_open: true, visible: true, generation: g, ..self },
                    FlyoutAction::Show { window: w, generation: g },
                ),
                None => (
                    FlyoutState { target_open: true, generation: g, ..self },
                    FlyoutAction::OpenWindow,
                ),
            }
        }
    }

    pub fn open_flyout(&mut self, anchor_ready: bool) -> (r: FlyoutAction<W>)
        requires
            old(self).wf(),
        ensures
            final(self).wf(),
            (*final(self), r) == old(self).spec_open(anchor_ready),
    {
        if !anchor_ready {
            return FlyoutAction::AnchorNotReady;
        }
        self.target_open = true;
        let generation = self.next_flyout_generation();
        match self.window {
            Some(w) => {
                self.visible = true;
                FlyoutAction::Show { window: w, generation }
            },
            None => FlyoutAction::OpenWindow,
        }
    }

    /// Closes the flyout, when there is a window: it stays on screen while the closing
    /// animation runs.
    pub open spec fn spec_close(self) -> (Self, FlyoutAction<W>) {
        match self.window {
            None => (self, FlyoutAction::Nothing),
            Some(w) => {
                let g = next_generation(self.generation);
                (
                    FlyoutState { target_open: false, generation: g, ..self },
                    FlyoutAction::Hide { window: w, generation: g },
                )
            },
        }
    }

    pub fn close_flyout(&mut self) -> (r: FlyoutAction<W>)
        requires
            old(self).wf(),
        ensures
            final(self).wf(),
            (*final(self), r) == old(self).spec_close(),
    {
        match self.window {
            None => FlyoutAction::Nothing,
            Some(w) => {
                self.target_open = false;
                let generation = self.next_flyout_generation();
                FlyoutAction::Hide { window: w, generation }
            },
        }
    }

    /// Whether the flyout is showing `widget`'s panel or opening to it.
    pub open spec fn showing(self, widget: WidgetKind) -> bool {
        self.active_widget == Some(widget) && (self.target_open || self.visible)
    }

    /// A click on a widget: the flyout switches to its panel, and closes instead when it
    /// was already showing that panel.
    pub open spec fn spec_select(self, widget: WidgetKind, anchor_ready: bool) -> (Self, FlyoutAction<W>) {
        let selected = FlyoutState { active_widget: Some(widget), ..self };
        if self.showing(widget) {
            selected.spec_close()
        } else {
            selected.spec_open(anchor_ready)
        }
    }

    pub fn select_widget(&mut self, widget: WidgetKind, anchor_ready: bool) -> (r: FlyoutAction<W>)
        requires
            old(self).wf(),
        ensures
            final(self).wf(),
            (*final(self), r) == old(self).spec_select(widget, anchor_ready),
            final(self).active_widget == Some(widget),
            (r is Hide) == (old(self).window is Some && old(self).active_widget == Some(widget) && (
            old(self).target_open || old(self).visible)),
            old(self).window is Some && anchor_ready && !(old(self).active_widget == Some(widget)
                && (old(self).target_open || old(self).visible)) ==> final(self).target_open
                && final(self).visible && r == (FlyoutAction::Show {
                window: old(self).window.unwrap(),
                generation: final(self).generation,
            }),
    {
        proof {
            lemma_click_closes_only_open_panel(*self, widget, anchor_ready);
        }
        let is_same_open = self.active_widget == Some(widget) && (self.target_open
            || self.visible);
        self.active_widget = Some(widget);
        if is_same_open {
            self.close_flyout()
        } else {
            self.open_flyout(anchor_ready)
        }
    }

    /// Records the window opened for an `OpenWindow`.
    pub fn window_created(&mut self, window: W)
        requires
            old(self).wf(),
        ensures
            final(self).wf(),
            *final(self) == (FlyoutState { window: Some(window), ..*old(self) }),
    {
        self.window = Some(window);
    }

    /// The flyout window has appeared: it is shown when the flyout is meant to be open.
    pub open spec fn spec_window_opened(self, window: W) -> (Self, FlyoutAction<W>) {
        let s = FlyoutState { window: Some(window), ..self };
        if self.target_open {
            (
                FlyoutState { visible: true, ..s },
                FlyoutAction::Sync { window, visible: true, generation: self.generation },
            )
        } else {
            (s, FlyoutAction::Nothing)
        }
    }

    pub fn window_opened(&mut self, window: W) -> (r: FlyoutAction<W>)
        requires
            old(self).wf(),
        ensures
            final(self).wf(),
            (*final(self), r) == old(self).spec_window_opened(window),
    {
        self.window = Some(window);
        if self.target_open {
            self.visible = true;
            FlyoutAction::Sync { window, visible: true, generation: self.generation }
        } else {
            FlyoutAction::Nothing
        }
    }

    /// An animation frame: while animating or open the window is updated; once a close
    /// has finished animating the window is hidden.
    pub open spec fn spec_tick(self, animating: bool) -> (Self, FlyoutAction<W>) {
        match self.window {
            None => (self, FlyoutAction::Nothing),
            Some(w) => if animating || (self.target_open && self.visible) {
                (self, FlyoutAction::Sync { window: w, visible: true, generation: self.generation })
            } else if !self.target_open && self.visible {
                (
                    FlyoutState { visible: false, ..self },
                    FlyoutAction::Sync { window: w, visible: false, generation: self.generation },
                )
            } else {
                (self, FlyoutAction::Nothing)
            },
        }
    }

    pub fn tick(&mut self, animating: bool) -> (r: FlyoutAction<W>)
        requires
            old(self).wf(),
        ensures
            final(self).wf(),
            (*final(self), r) == old(self).spec_tick(animating),
    {
        let w = match self.window {
            None => {
                return FlyoutAction::Nothing;
            },
            Some(w) => w,
        };
        if animating {
            return FlyoutAction::Sync { window: w, visible: true, generation: self.generation };
        }
        if self.target_open && self.visible {
            return FlyoutAction::Sync { window: w, visible: true, generation: self.generation };
        }
        if !self.target_open && self.visible {
            self.visible = false;
            return FlyoutAction::Sync { window: w, visible: false, generation: self.generation };
        }
        FlyoutAction::Nothing
    }

    /// The flyout window was closed: there is no window and nothing open.
    pub fn window_closed(&mut self)
        requires
            old(self).wf(),
        ensures
            final(self).wf(),
            *final(self) == (FlyoutState {
                window: None,
                target_open: false,
                visible: false,
                ..*old(self)
            }),
    {
        self.window = None;
        self.target_open = false;
        self.visible = false;
    }

    /// The window asked to close: an open flyout closes.
    pub open spec fn spec_close_requested(self) -> (Self, FlyoutAction<W>) {
        if self.target_open {
            self.spec_close()
        } else {
            (self, FlyoutAction::Nothing)
        }
    }

    pub fn close_requested(&mut self) -> (r: FlyoutAction<W>)
        requires
            old(self).wf(),
        ensures
            final(self).wf(),
            (*final(self), r) == old(self).spec_close_requested(),
    {
        if self.target_open {
            self.close_flyout()
        } else {
            FlyoutAction::Nothing
        }
    }

    /// The window lost focus: an open flyout closes when the settings ask for it.
    pub open spec fn spec_unfocused(self, auto_hide: bool) -> (Self, FlyoutAction<W>) {
        if auto_hide && self.target_open {
            self.spec_close()
        } else {
            (self, FlyoutAction::Nothing)
        }
    }

    pub fn unfocused(&mut self, auto_hide: bool) -> (r: FlyoutAction<W>)
        requires
            old(self).wf(),
        ensures
            final(self).wf(),
            (*final(self), r) == old(self).spec_unfocused(auto_hide),
    {
        if auto_hide && self.target_open {
            self.close_flyout()
        } else {
            FlyoutAction::Nothing
        }
    }

    /// The bar moved or changed size: a shown flyout is updated to follow it.
    pub open spec fn spec_refresh_visible(self) -> FlyoutAction<W> {
        match self.window {
            Some(w) => if self.visible {
                FlyoutAction::Sync { window: w, visible: true, generation: self.generation }
            } else {
                FlyoutAction::Nothing
            },
            None => FlyoutAction::Nothing,
        }
    }

    pub fn refresh_visible_flyout(&self) -> (r: FlyoutAction<W>)
        ensures
            r == self.spec_refresh_visible(),
    {
        match self.window {
            Some(w) => if self.visible {
                FlyoutAction::Sync { window: w, visible: true, generation: self.generation }
            } else {
                FlyoutAction::Nothing
            },
            None => FlyoutAction::Nothing,
        }
    }

    /// Whether animation frames are needed: while the flyout animates, and until a closed
    /// flyout has been taken off screen.
    pub fn needs_frames(&self, animating: bool) -> (r: bool)
        ensures
            r == (animating || (!self.target_open && self.visible)),
    {
        animating || (!self.target_open && self.visible)
    }

    /// The panel's content changed size: the window is resized, and updated when shown.
    pub open spec fn spec_sync_size(self) -> FlyoutAction<W> {
        match self.window {
            Some(w) => if self.visible {
                FlyoutAction::ResizeAndSync { window: w, generation: self.generation }
            } else {
                FlyoutAction::Resize { window: w }
            },
            None => FlyoutAction::Nothing,
        }
    }

    pub fn sync_flyout_size(&self) -> (r: FlyoutAction<W>)
        ensures
            r == self.spec_sync_size(),
    {
        match self.window {
            Some(w) => if self.visible {
                FlyoutAction::ResizeAndSync { window: w, generation: self.generation }
            } else {
                FlyoutAction::Resize { window: w }
            },
            None => FlyoutAction::Nothing,
        }
    }
}

// ---------------------------------------------------------------------------
// Properties of the flyout's decisions
// ---------------------------------------------------------------------------

/// A click on the widget whose panel is showing closes the flyout; a click on any other
/// widget, or on a closed flyout, opens it on that widget's panel once the bar's
/// position is known.
pub proof fn lemma_select_toggles<W: Copy>(s: FlyoutState<W>, widget: WidgetKind, anchor_ready: bool)
    requires
        s.wf(),
        s.window is Some,
    ensures
        ({
            let (t, a) = s.spec_select(widget, anchor_ready);
            &&& t.active_widget == Some(widget)
            &&& s.showing(widget) ==> !t.target_open && a is Hide
            &&& !s.showing(widget) && anchor_ready ==> t.target_open && t.visible && a is Show
            &&& !s.showing(widget) && !anchor_ready ==> t.target_open == s.target_open
        }),
{
}

/// A click closes the flyout exactly when it has a window and the clicked widget's panel
/// is open or still on screen; any other click, with a window and the bar in place,
/// shows the clicked widget's panel with a fresh generation.
pub proof fn lemma_click_closes_only_open_panel<W: Copy>(
    s: FlyoutState<W>,
    widget: WidgetKind,
    anchor_ready: bool,
)
    requires
        s.wf(),
    ensures
        ({
            let (t, a) = s.spec_select(widget, anchor_ready);
            &&& t.active_widget == Some(widget)
            &&& (a is Hide) == (s.window is Some && s.active_widget == Some(widget) && (s.target_open
                || s.visible))
            &&& s.window is Some && anchor_ready && !(s.active_widget == Some(widget) && (
            s.target_open || s.visible)) ==> t.target_open && t.visible && t.generation
                != s.generation && a == (FlyoutAction::Show {
                window: s.window.unwrap(),
                generation: t.generation,
            })
        }),
{
}

/// Frames, focus loss and close requests: a frame never opens, closes or retargets the
/// flyout and can only take it off screen, which it does once a close has finished
/// animating; focus loss closes an open flyout only when the settings ask for it; a close
/// request closes an open flyout; what a closed flyout receives changes nothing.
pub proof fn lemma_frames_focus_and_close_requests<W: Copy>(
    s: FlyoutState<W>,
    animating: bool,
    auto_hide: bool,
)
    requires
        s.wf(),
    ensures
        ({
            let (t, a) = s.spec_tick(animating);
            &&& t.window == s.window && t.active_widget == s.active_widget
            &&& t.target_open == s.target_open && t.generation == s.generation
            &&& t.visible ==> s.visible
            &&& (s.target_open || animating) ==> t.visible == s.visible
            &&& s.window is Some && !animating && !s.target_open ==> !t.visible
            &&& a matches FlyoutAction::Sync { window, visible, generation } ==> window
                == s.window.unwrap() && visible == (animating || s.target_open) && generation
                == s.generation
            &&& !(a is Sync) ==> a is Nothing
        }),
        ({
            let (t, a) = s.spec_unfocused(auto_hide);
            &&& auto_hide && s.target_open && s.window is Some ==> !t.target_open && a
                == (FlyoutAction::Hide { window: s.window.unwrap(), generation: t.generation })
                && t.generation != s.generation
            &&& !(auto_hide && s.target_open) ==> t == s && a is Nothing
        }),
        ({
            let (t, a) = s.spec_close_requested();
            &&& s.target_open && s.window is Some ==> !t.target_open && a == (FlyoutAction::Hide {
                window: s.window.unwrap(),
                generation: t.generation,
            }) && t.generation != s.generation
            &&& !s.target_open ==> t == s && a is Nothing
        }),
{
}

/// Two clicks on a widget whose panel is not showing, with the bar in place and a
/// window present, open the flyout and then leave it closing.
pub proof fn lemma_double_click_closes<W: Copy>(s: FlyoutState<W>, widget: WidgetKind)
    requires
        s.wf(),
        s.window is Some,
    ensures
        ({
            let (t, _) = s.spec_select(widget, true);
            let (u, _) = t.spec_select(widget, true);
            !s.showing(widget) ==> !u.target_open
        }),
{
}

/// Every open or close moves the generation to a new, nonzero value, and every update
/// sent to the window carries the generation the state holds afterwards.
pub proof fn lemma_generations<W: Copy>(s: FlyoutState<W>, anchor_ready: bool, animating: bool)
    requires
        s.wf(),
    ensures
        ({
            let (t, a) = s.spec_open(anchor_ready);
            anchor_ready ==> t.generation != 0 && t.generation != s.generation && (a matches FlyoutAction::Show { generation, .. } ==> generation == t.generation)
        }),
        ({
            let (t, a) = s.spec_close();
            s.window is Some ==> t.generation != 0 && t.generation != s.generation && (a matches FlyoutAction::Hide { generation, .. } ==> generation == t.generation)
        }),
        ({
            let (t, a) = s.spec_tick(animating);
            a matches FlyoutAction::Sync { generation, .. } ==> generation == t.generation
        }),
{
}

/// Once a close has finished animating, the next frame takes the flyout off screen.
pub proof fn lemma_closed_flyout_hides<W: Copy>(s: FlyoutState<W>)
    requires
        s.wf(),
        !s.target_open,
    ensures
        !s.spec_tick(false).0.visible,
{
}

/// Whether a flyout window that last took an update of generation `stored` takes one
/// of generation `incoming`: updates older than the last one are dropped.
pub fn accepts_generation(stored: u64, incoming: u64) -> (r: bool)
    ensures
        r == (incoming >= stored),
{
    incoming >= stored
}

/// What a flyout window last took: a value, and the generation of the update that
/// carried it.
#[derive(Debug, Clone, Copy)]
pub struct Generational<T> {
    pub value: T,
    pub generation: u64,
}

impl<T> Generational<T> {
    /// The first update a window takes.
    pub fn new(value: T, generation: u64) -> (r: Self)
        ensures
            r == (Generational { value, generation }),
    {
        Generational { value, generation }
    }

    /// Offers an update: one of an older generation than the stored one is dropped and
    /// leaves everything unchanged; any other replaces the value and the generation.
    /// Returns whether it was taken. The stored generation never decreases.
    pub fn offer(&mut self, value: T, generation: u64) -> (r: bool)
        ensures
            r == (generation >= old(self).generation),
            r ==> *final(self) == (Generational { value, generation }),
            !r ==> *final(self) == *old(self),
            final(self).generation >= old(self).generation,
    {
        if !accepts_generation(self.generation, generation) {
            return false;
        }
        self.value = value;
        self.generation = generation;
        true
    }
}

// ---------------------------------------------------------------------------
// Following the wallpaper
// ---------------------------------------------------------------------------

/// Whether a palette reload is under way; the wallpaper is checked for changes only
/// when none is.
#[derive(Debug, Clone, Copy, PartialEq, Eq, Structural)]
pub struct WallpaperWatch {
    pub reload_pending: bool,
}

impl WallpaperWatch {
    /// A reload is pending from the start: the first palette is being sampled.
    pub fn new() -> (r: Self)
        ensures
            r.reload_pending,
    {
        WallpaperWatch { reload_pending: true }
    }

    /// A periodic check: whether to read the wallpaper's signature now.
    pub fn check(&self) -> (r: bool)
        ensures
            r == !self.reload_pending,
    {
        !self.reload_pending
    }

    /// The signature was read; `changed` when it differs from the one the palette was
    /// sampled from, or there is none yet. Returns whether to sample the palette again.
    pub fn signature_loaded(&mut self, changed: bool) -> (r: bool)
        ensures
            r == changed,
            final(self).reload_pending == (old(self).reload_pending || changed),
    {
        if changed {
            self.reload_pending = true;
        }
        changed
    }

    /// The palette was sampled, or sampling failed: no reload is pending any more.
    pub fn palette_loaded(&mut self)
        ensures
            !final(self).reload_pending,
    {
        self.reload_pending = false;
    }
}

} // verus!
