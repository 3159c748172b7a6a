//! Which widget the pointer is over, which one it pressed, which one was
//! clicked this frame, and which one has keyboard focus.
use vstd::prelude::*;
use crate::api::{PointerButtonState, SurfaceId};
use crate::geometry::Bounds;
use crate::input::{
    KeyboardModifiers, spec_holds, spec_slot_view, KeyboardEvent, KeyboardEventKind, KeyboardState, WidgetId,
    WidgetInteraction,
};

verus! {

/// The element under a point: the child indices from the root to it (the
/// root is the empty path) and its bounds.
#[derive(Debug, PartialEq, Eq)]
pub struct Hit {
    pub path: Vec<usize>,
    pub bounds: Bounds,
}

impl Clone for Hit {
    fn clone(&self) -> (r: Self)
        ensures
            r.path@ == self.path@,
            r.bounds == self.bounds,
    {
        let mut path: Vec<usize> = Vec::new();
        let mut i: usize = 0;
        while i < self.path.len()
            invariant
                i <= self.path.len(),
                path@ == self.path@.subrange(0, i as int),
            decreases self.path.len() - i,
        {
            path.push(self.path[i]);
            i = i + 1;
        }
        Hit { path, bounds: self.bounds }
    }
}

impl Default for Hit {
    fn default() -> (r: Self)
        ensures
            r.path@ == Seq::<usize>::empty(),
            r.bounds == (Bounds { x: 0, y: 0, width: 0, height: 0 }),
    {
        Hit { path: Vec::new(), bounds: Bounds::new(0, 0, 0, 0) }
    }
}

/// The hit as plain values: its path and bounds.
pub open spec fn spec_hit_view(hit: Option<Hit>) -> Option<(Seq<usize>, Bounds)> {
    match hit {
        Some(h) => Some((h.path@, h.bounds)),
        None => None,
    }
}

fn clone_hit(hit: &Option<Hit>) -> (r: Option<Hit>)
    ensures
        spec_hit_view(r) == spec_hit_view(*hit),
{
    match hit {
        Some(h) => Some(h.clone()),
        None => None,
    }
}

fn clone_id(slot: &Option<WidgetId>) -> (r: Option<WidgetId>)
    ensures
        spec_slot_view(r) == spec_slot_view(*slot),
{
    match slot {
        Some(w) => Some(w.clone()),
        None => None,
    }
}

fn same_slot(a: &Option<WidgetId>, b: &Option<WidgetId>) -> (r: bool)
    ensures
        r == (spec_slot_view(*a) == spec_slot_view(*b)),
{
    match (a, b) {
        (Some(x), Some(y)) => x.same(y),
        (None, None) => true,
        _ => false,
    }
}

fn holds(slot: &Option<WidgetId>, id: &WidgetId) -> (r: bool)
    ensures
        r == spec_holds(*slot, id@),
{
    match slot {
        Some(w) => w.same(id),
        None => false,
    }
}

/// The pointer's surface, the element it is over and the one it pressed,
/// and the button it holds. Its position and scroll are kept by the caller.
#[derive(Debug, PartialEq, Eq)]
pub struct PointerState {
    pub surface: Option<SurfaceId>,
    pub hovered: Option<Hit>,
    pub pressed: Option<Hit>,
    pub pressed_button: Option<u32>,
}

impl Default for PointerState {
    fn default() -> (r: Self)
        ensures
            r.surface is None,
            r.hovered is None,
            r.pressed is None,
            r.pressed_button is None,
    {
        PointerState { surface: None, hovered: None, pressed: None, pressed_button: None }
    }
}

/// The widgets an input state singles out, as plain values: the one under
/// the pointer, the pressed one, the one clicked this frame, the focused
/// one, and the held button.
pub struct InputFocus {
    pub hot: Option<Seq<char>>,
    pub active: Option<Seq<char>>,
    pub clicked: Option<Seq<char>>,
    pub focused: Option<Seq<char>>,
    pub pressed_button: Option<u32>,
}

/// A press of `button` makes the hot widget active.
pub open spec fn spec_press(f: InputFocus, button: u32) -> InputFocus {
    InputFocus { active: f.hot, pressed_button: Some(button), ..f }
}

/// A release of `button` clicks the active widget if that button was the
/// pressed one and the widget is still hot, and ends the press either way.
pub open spec fn spec_release(f: InputFocus, button: u32) -> InputFocus {
    InputFocus {
        clicked: if f.pressed_button == Some(button) && f.active == f.hot {
            f.active
        } else {
            f.clicked
        },
        active: None,
        pressed_button: None,
        ..f
    }
}

/// Taking the click on `id`, if there is one.
pub open spec fn spec_consume_click(f: InputFocus, id: Seq<char>) -> InputFocus {
    if f.clicked == Some(id) {
        InputFocus { clicked: None, ..f }
    } else {
        f
    }
}

/// The pointer and keyboard state that decides which widget is hot (under
/// the pointer), active (pressed), clicked and focused.
pub struct InputState {
    pointer: PointerState,
    keyboard: KeyboardState,
    active: Option<WidgetId>,
    hot: Option<WidgetId>,
    clicked: Option<WidgetId>,
}

impl InputState {
    pub closed spec fn spec_focus(&self) -> InputFocus {
        InputFocus {
            hot: spec_slot_view(self.hot),
            active: spec_slot_view(self.active),
            clicked: spec_slot_view(self.clicked),
            focused: spec_slot_view(self.keyboard.focused),
            pressed_button: self.pointer.pressed_button,
        }
    }

    pub closed spec fn spec_surface(&self) -> Option<SurfaceId> {
        self.pointer.surface
    }

    pub closed spec fn spec_hovered(&self) -> Option<(Seq<usize>, Bounds)> {
        spec_hit_view(self.pointer.hovered)
    }

    pub closed spec fn spec_pressed(&self) -> Option<(Seq<usize>, Bounds)> {
        spec_hit_view(self.pointer.pressed)
    }

    pub closed spec fn spec_keyboard(&self) -> KeyboardState {
        self.keyboard
    }

    /// Nothing hot, active, clicked, focused, hovered or pressed.
    pub fn new() -> (r: Self)
        ensures
            r.spec_focus() == (InputFocus { hot: None, active: None, clicked: None, focused: None, pressed_button: None }),
            r.spec_surface() is None,
            r.spec_hovered() is None,
            r.spec_pressed() is None,
            r.spec_keyboard().surface is None,
            r.spec_keyboard().focused is None,
            r.spec_keyboard().modifiers == (KeyboardModifiers {
                ctrl: false,
                alt: false,
                shift: false,
                caps_lock: false,
                logo: false,
                num_lock: false,
            }),
            r.spec_keyboard().events@.len() == 0,
    {
        InputState {
            pointer: PointerState::default(),
            keyboard: KeyboardState::default(),
            active: None,
            hot: None,
            clicked: None,
        }
    }

    pub fn pointer(&self) -> (r: &PointerState)
        ensures
            r.surface == self.spec_surface(),
            spec_hit_view(r.hovered) == self.spec_hovered(),
            spec_hit_view(r.pressed) == self.spec_pressed(),
            r.pressed_button == self.spec_focus().pressed_button,
    {
        &self.pointer
    }

    pub fn keyboard(&self) -> (r: &KeyboardState)
        ensures
            *r == self.spec_keyboard(),
            spec_slot_view(r.focused) == self.spec_focus().focused,
    {
        &self.keyboard
    }

    pub fn hot(&self) -> (r: Option<&WidgetId>)
        ensures
            spec_ref_view(r) == self.spec_focus().hot,
    {
        self.hot.as_ref()
    }

    pub fn active(&self) -> (r: Option<&WidgetId>)
        ensures
            spec_ref_view(r) == self.spec_focus().active,
    {
        self.active.as_ref()
    }

    pub fn focused(&self) -> (r: Option<&WidgetId>)
        ensures
            spec_ref_view(r) == self.spec_focus().focused,
    {
        self.keyboard.focused.as_ref()
    }

    pub fn clicked_id(&self) -> (r: Option<&WidgetId>)
        ensures
            spec_ref_view(r) == self.spec_focus().clicked,
    {
        self.clicked.as_ref()
    }

    pub fn set_focus(&mut self, id: WidgetId)
        ensures
            final(self).spec_focus() == (InputFocus { focused: Some(id@), ..old(self).spec_focus() }),
            final(self).spec_keyboard().surface == old(self).spec_keyboard().surface,
            final(self).spec_keyboard().events == old(self).spec_keyboard().events,
            final(self).spec_keyboard().modifiers == old(self).spec_keyboard().modifiers,
            final(self).spec_hovered() == old(self).spec_hovered(),
            final(self).spec_pressed() == old(self).spec_pressed(),
            final(self).spec_surface() == old(self).spec_surface(),
    {
        self.keyboard.focused = Some(id);
    }

    pub fn clear_focus(&mut self)
        ensures
            final(self).spec_focus() == (InputFocus { focused: None, ..old(self).spec_focus() }),
            final(self).spec_keyboard().surface == old(self).spec_keyboard().surface,
            final(self).spec_keyboard().events == old(self).spec_keyboard().events,
            final(self).spec_keyboard().modifiers == old(self).spec_keyboard().modifiers,
            final(self).spec_hovered() == old(self).spec_hovered(),
            final(self).spec_pressed() == old(self).spec_pressed(),
            final(self).spec_surface() == old(self).spec_surface(),
    {
        self.keyboard.focused = None;
    }

    /// Forgets this frame's click and keyboard events.
    pub fn clear_frame_events(&mut self)
        ensures
            final(self).spec_focus() == (InputFocus { clicked: None, ..old(self).spec_focus() }),
            final(self).spec_keyboard().events@.len() == 0,
            final(self).spec_keyboard().surface == old(self).spec_keyboard().surface,
            final(self).spec_keyboard().modifiers == old(self).spec_keyboard().modifiers,
            final(self).spec_keyboard().focused == old(self).spec_keyboard().focused,
            final(self).spec_hovered() == old(self).spec_hovered(),
            final(self).spec_pressed() == old(self).spec_pressed(),
            final(self).spec_surface() == old(self).spec_surface(),
    {
        self.clicked = None;
        self.keyboard.events.clear();
    }

    /// The pointer entered `surface` or moved on it; `position_changed` says
    /// whether its position differs from the last one. Returns whether
    /// anything changed.
    pub fn pointer_moved(&mut self, surface: SurfaceId, position_changed: bool) -> (r: bool)
        ensures
            r == (old(self).spec_surface() != Some(surface) || position_changed),
            final(self).spec_surface() == Some(surface),
            final(self).spec_focus() == old(self).spec_focus(),
            final(self).spec_hovered() == old(self).spec_hovered(),
            final(self).spec_pressed() == old(self).spec_pressed(),
            final(self).spec_keyboard() == old(self).spec_keyboard(),
    {
        let changed = match self.pointer.surface {
            Some(current) => current.0 != surface.0,
            None => true,
        } || position_changed;
        self.pointer.surface = Some(surface);
        changed
    }

    /// The pointer left the surfaces: nothing is under it any more.
    /// `had_position` says whether a position was known. Returns whether
    /// anything changed.
    pub fn pointer_left(&mut self, had_position: bool) -> (r: bool)
        ensures
            r == (old(self).spec_surface() is Some || had_position || old(self).spec_focus().hot is Some
                || old(self).spec_hovered() is Some),
            final(self).spec_surface() is None,
            final(self).spec_hovered() is None,
            final(self).spec_focus() == (InputFocus { hot: None, ..old(self).spec_focus() }),
            final(self).spec_pressed() == old(self).spec_pressed(),
            final(self).spec_keyboard() == old(self).spec_keyboard(),
    {
        let changed = self.pointer.surface.is_some() || had_position || self.hot.is_some()
            || self.pointer.hovered.is_some();
        self.pointer.surface = None;
        self.pointer.hovered = None;
        self.hot = None;
        changed
    }

    /// A pointer button was pressed or released (see `spec_press` and
    /// `spec_release`); a press also remembers the element under the
    /// pointer. Always asks for a redraw.
    pub fn pointer_button(&mut self, button: u32, state: PointerButtonState) -> (r: bool)
        ensures
            r,
            final(self).spec_hovered() == old(self).spec_hovered(),
            final(self).spec_surface() == old(self).spec_surface(),
            final(self).spec_keyboard() == old(self).spec_keyboard(),
            state == PointerButtonState::Pressed ==> {
                &&& final(self).spec_focus() == spec_press(old(self).spec_focus(), button)
                &&& final(self).spec_pressed() == old(self).spec_hovered()
            },
            state == PointerButtonState::Released ==> {
                &&& final(self).spec_focus() == spec_release(old(self).spec_focus(), button)
                &&& final(self).spec_pressed() is None
            },
    {
        match state {
            PointerButtonState::Pressed => {
                self.pointer.pressed = clone_hit(&self.pointer.hovered);
                self.pointer.pressed_button = Some(button);
                self.active = clone_id(&self.hot);
                true
            },
            PointerButtonState::Released => {
                let same_button = match self.pointer.pressed_button {
                    Some(pressed) => pressed == button,
                    None => false,
                };
                if same_button && same_slot(&self.active, &self.hot) {
                    self.clicked = clone_id(&self.active);
                }
                self.pointer.pressed = None;
                self.pointer.pressed_button = None;
                self.active = None;
                true
            },
        }
    }

    /// Takes in a keyboard event (see `KeyboardState::handle_event`).
    pub fn handle_keyboard_event(&mut self, event: KeyboardEvent) -> (r: bool)
        ensures
            r,
            final(self).spec_keyboard().events@ == old(self).spec_keyboard().events@.push(event),
            final(self).spec_keyboard().surface == match event.kind {
                KeyboardEventKind::Enter { .. } => event.surface,
                KeyboardEventKind::Leave => if old(self).spec_keyboard().surface == event.surface {
                    None
                } else {
                    old(self).spec_keyboard().surface
                },
                _ => old(self).spec_keyboard().surface,
            },
            final(self).spec_keyboard().modifiers == match event.kind {
                KeyboardEventKind::Modifiers { modifiers, .. } => modifiers,
                _ => old(self).spec_keyboard().modifiers,
            },
            final(self).spec_focus() == (InputFocus {
                focused: if event.kind is Leave && old(self).spec_keyboard().surface == event.surface {
                    None
                } else {
                    old(self).spec_focus().focused
                },
                ..old(self).spec_focus()
            }),
            final(self).spec_hovered() == old(self).spec_hovered(),
            final(self).spec_pressed() == old(self).spec_pressed(),
            final(self).spec_surface() == old(self).spec_surface(),
    {
        self.keyboard.handle_event(event)
    }

    /// Records what a hit test found under the pointer: the element, and the
    /// id of the widget there, if it has one.
    pub fn set_hovered(&mut self, hovered: Option<Hit>, hot: Option<WidgetId>)
        ensures
            final(self).spec_hovered() == spec_hit_view(hovered),
            final(self).spec_focus() == (InputFocus { hot: spec_slot_view(hot), ..old(self).spec_focus() }),
            final(self).spec_surface() == old(self).spec_surface(),
            final(self).spec_pressed() == old(self).spec_pressed(),
            final(self).spec_keyboard() == old(self).spec_keyboard(),
    {
        self.pointer.hovered = hovered;
        self.hot = hot;
    }

    /// How the widget `id` is being interacted with.
    pub fn interaction(&self, id: &WidgetId) -> (r: WidgetInteraction)
        ensures
            r.hovered == (self.spec_focus().hot == Some(id@)),
            r.pressed == (self.spec_focus().active == Some(id@)),
            r.clicked == (self.spec_focus().clicked == Some(id@)),
            r.focused == (self.spec_focus().focused == Some(id@)),
            !r.disabled,
    {
        WidgetInteraction {
            hovered: holds(&self.hot, id),
            pressed: holds(&self.active, id),
            clicked: holds(&self.clicked, id),
            focused: holds(&self.keyboard.focused, id),
            disabled: false,
        }
    }

    /// Takes this frame's click if it was on `id`.
    pub fn consume_click(&mut self, id: &WidgetId) -> (r: bool)
        ensures
            r == (old(self).spec_focus().clicked == Some(id@)),
            final(self).spec_focus() == spec_consume_click(old(self).spec_focus(), id@),
            final(self).spec_hovered() == old(self).spec_hovered(),
            final(self).spec_pressed() == old(self).spec_pressed(),
            final(self).spec_surface() == old(self).spec_surface(),
            final(self).spec_keyboard() == old(self).spec_keyboard(),
            !r ==> *final(self) == *old(self),
    {
        if holds(&self.clicked, id) {
            self.clicked = None;
            true
        } else {
            false
        }
    }

    pub fn is_hovered(&self, id: &WidgetId) -> (r: bool)
        ensures
            r == (self.spec_focus().hot == Some(id@)),
    {
        holds(&self.hot, id)
    }

    pub fn is_pressed(&self, id: &WidgetId) -> (r: bool)
        ensures
            r == (self.spec_focus().active == Some(id@)),
    {
        holds(&self.active, id)
    }

    pub fn was_clicked(&self, id: &WidgetId) -> (r: bool)
        ensures
            r == (self.spec_focus().clicked == Some(id@)),
    {
        holds(&self.clicked, id)
    }
}

/// What a pointer event is, as far as dragging and clicking go.
#[derive(Clone, Copy, Debug, PartialEq, Eq, Structural)]
pub enum PointerPhase {
    Enter,
    Leave,
    Motion,
    Pressed,
    Released,
    Scroll,
}

/// The element a pointer event drags and the one it clicks, if any.
#[derive(Debug)]
pub struct PointerTargets {
    pub drag: Option<Hit>,
    pub click: Option<Hit>,
}

/// Whether two child-index paths are the same.
pub fn same_path(a: &Vec<usize>, b: &Vec<usize>) -> (r: bool)
    ensures
        r == (a@ == b@),
{
    if a.len() != b.len() {
        return false;
    }
    let mut i: usize = 0;
    while i < a.len()
        invariant
            a@.len() == b@.len(),
            i <= a.len(),
            forall|j: int| 0 <= j < i ==> a@[j] == b@[j],
        decreases a.len() - i,
    {
        if a[i] != b[i] {
            return false;
        }
        i = i + 1;
    }
    assert(a@ =~= b@);
    true
}

pub open spec fn spec_drag_target(
    phase: PointerPhase,
    pressed: Option<(Seq<usize>, Bounds)>,
    hovered: Option<(Seq<usize>, Bounds)>,
) -> Option<(Seq<usize>, Bounds)> {
    if phase == PointerPhase::Motion || phase == PointerPhase::Pressed {
        if pressed is Some {
            pressed
        } else {
            hovered
        }
    } else {
        None
    }
}

pub open spec fn spec_click_target(
    phase: PointerPhase,
    pressed_before: Option<(Seq<usize>, Bounds)>,
    hovered: Option<(Seq<usize>, Bounds)>,
) -> Option<(Seq<usize>, Bounds)> {
    match (pressed_before, hovered) {
        (Some(p), Some(h)) => if phase == PointerPhase::Released && p.0 == h.0 {
            hovered
        } else {
            None
        },
        _ => None,
    }
}

/// Decides what a pointer event does to the elements under it, from the
/// element pressed before the event and the pressed and hovered elements
/// after it: moving or pressing drags the pressed element (else the
/// hovered one); releasing over the element that was pressed clicks it.
pub fn pointer_targets(
    phase: PointerPhase,
    pressed_before: &Option<Hit>,
    pressed: &Option<Hit>,
    hovered: &Option<Hit>,
) -> (r: PointerTargets)
    ensures
        spec_hit_view(r.drag) == spec_drag_target(phase, spec_hit_view(*pressed), spec_hit_view(*hovered)),
        spec_hit_view(r.click) == spec_click_target(phase, spec_hit_view(*pressed_before), spec_hit_view(*hovered)),
{
    let dragging = match phase {
        PointerPhase::Motion | PointerPhase::Pressed => true,
        _ => false,
    };
    let drag = if dragging {
        match pressed {
            Some(_) => clone_hit(pressed),
            None => clone_hit(hovered),
        }
    } else {
        None
    };
    let click = match (pressed_before, hovered) {
        (Some(p), Some(h)) => {
            let released = match phase {
                PointerPhase::Released => true,
                _ => false,
            };
            if released && same_path(&p.path, &h.path) {
                Some(h.clone())
            } else {
                None
            }
        },
        _ => None,
    };
    PointerTargets { drag, click }
}

/// No pointer event both drags and clicks.
pub proof fn lemma_drag_and_click_exclusive(
    phase: PointerPhase,
    pressed_before: Option<(Seq<usize>, Bounds)>,
    pressed: Option<(Seq<usize>, Bounds)>,
    hovered: Option<(Seq<usize>, Bounds)>,
)
    ensures
        spec_drag_target(phase, pressed, hovered) is None || spec_click_target(phase, pressed_before, hovered) is None,
{
}

/// Which of its interaction styles an element takes.
#[derive(Clone, Copy, Debug, PartialEq, Eq, Structural)]
pub enum InteractionStyle {
    Pressed,
    Hovered,
    Unchanged,
}

/// Whether `prefix` starts `path`.
pub fn path_starts_with(path: &Vec<usize>, prefix: &Vec<usize>) -> (r: bool)
    ensures
        r == prefix@.is_prefix_of(path@),
{
    if prefix.len() > path.len() {
        return false;
    }
    let mut i: usize = 0;
    while i < prefix.len()
        invariant
            prefix@.len() <= path@.len(),
            i <= prefix.len(),
            forall|j: int| 0 <= j < i ==> prefix@[j] == path@[j],
        decreases prefix.len() - i,
    {
        if prefix[i] != path[i] {
            return false;
        }
        i = i + 1;
    }
    assert(prefix@ =~= path@.subrange(0, prefix@.len() as int));
    true
}

/// The element at `path` takes its pressed style when the pressed element
/// lies within it, else its hovered style when the hovered element does.
pub fn interaction_style_for(path: &Vec<usize>, hovered: &Option<Hit>, pressed: &Option<Hit>) -> (r: InteractionStyle)
    ensures
        r == (if pressed matches Some(p) && path@.is_prefix_of(p.path@) {
            InteractionStyle::Pressed
        } else if hovered matches Some(h) && path@.is_prefix_of(h.path@) {
            InteractionStyle::Hovered
        } else {
            InteractionStyle::Unchanged
        }),
{
    let in_pressed = match pressed {
        Some(p) => path_starts_with(&p.path, path),
        None => false,
    };
    if in_pressed {
        return InteractionStyle::Pressed;
    }
    let in_hovered = match hovered {
        Some(h) => path_starts_with(&h.path, path),
        None => false,
    };
    if in_hovered {
        InteractionStyle::Hovered
    } else {
        InteractionStyle::Unchanged
    }
}

/// The characters of a borrowed id, if any.
pub open spec fn spec_ref_view(slot: Option<&WidgetId>) -> Option<Seq<char>> {
    match slot {
        Some(w) => Some(w@),
        None => None,
    }
}

/// Pressing a button over a widget and releasing it while the widget is
/// still under the pointer clicks that widget.
pub proof fn lemma_press_release_clicks(f: InputFocus, button: u32, id: Seq<char>)
    requires
        f.hot == Some(id),
    ensures
        spec_release(spec_press(f, button), button).clicked == Some(id),
        spec_release(spec_press(f, button), button).active is None,
{
}

/// A press that ends over another widget, or with another button, clicks
/// nothing.
pub proof fn lemma_release_elsewhere_does_not_click(
    f: InputFocus,
    button: u32,
    other_button: u32,
    moved_to: Option<Seq<char>>,
)
    requires
        moved_to != f.hot || other_button != button,
    ensures
        spec_release(InputFocus { hot: moved_to, ..spec_press(f, button) }, other_button).clicked == f.clicked,
{
}

/// A click is taken at most once.
pub proof fn lemma_click_consumed_once(f: InputFocus, id: Seq<char>)
    ensures
        spec_consume_click(f, id).clicked != Some(id),
        f.clicked != Some(id) ==> spec_consume_click(f, id) == f,
{
}

} // verus!
