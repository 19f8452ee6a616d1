//! The pointer bookkeeping of a page: where an event goes, and which widgets
//! learn that they are hovered or pressed.
//!
//! A page hands each event to `route_pointer_event` before its event pass,
//! runs the pass (or delivers the event to the widget that holds the pointer
//! capture), and then hands the state the pass left to
//! `settle_pointer_event`, which says which widgets to notify.
use crate::geometry::Point;
use crate::layout::tree::ElId;
use vstd::prelude::*;

verus! {

/// A mouse button.
#[derive(Clone, Copy, Debug, PartialEq, Eq, Structural)]
pub enum MouseButton {
    Left,
    Right,
    Middle,
}

/// What the pointer bookkeeping sees of an event.
#[derive(Clone, Copy, Debug, PartialEq, Eq, Structural)]
pub enum PointerEvent {
    /// The mouse moved to a point.
    MouseMove(Point),
    /// A mouse button went down at a point.
    ButtonDown(MouseButton, Point),
    /// A mouse button went up at a point.
    ButtonUp(MouseButton, Point),
    /// Any other mouse event (a turn of the wheel, ...).
    OtherMouse,
    /// The encoder or key that activates the focused widget went down.
    Press,
    /// That encoder or key went up.
    Release,
    /// Any event that is not of the mouse nor a press.
    Other,
}

/// The pointer state of a page.
#[derive(Clone, Copy, Debug, PartialEq, Eq)]
pub struct PointerState {
    /// Where the mouse was last seen.
    pub pos: Option<Point>,
    /// The widget under the mouse.
    pub hovered: Option<ElId>,
    /// The widget the mouse pressed.
    pub pressed: Option<ElId>,
    /// The widget that holds the pointer capture: it gets every mouse event.
    pub captured_by: Option<ElId>,
    /// The focused widget.
    pub focused: Option<ElId>,
    /// Whether the focused widget is pressed by the encoder or a key.
    pub focus_pressed: bool,
}

/// A notification to a widget that its hovered or pressed state changed.
#[derive(Clone, Copy, Debug, PartialEq, Eq, Structural)]
pub enum WidgetUpdate {
    HoverChange(ElId, bool),
    PressChange(ElId, bool),
}

/// Where an event goes.
#[derive(Clone, Copy, Debug, PartialEq, Eq, Structural)]
pub enum Route {
    /// To the widget that holds the pointer capture, and to no other.
    Captured(ElId),
    /// Through the event pass over the whole tree.
    Pass,
}

/// What a page does with an event before its event pass.
#[derive(Clone, Debug)]
pub struct Dispatch {
    /// The pointer state the pass (or the captor) runs with.
    pub state: PointerState,
    pub route: Route,
    /// The widgets to notify once the captor got the event.
    pub updates: Vec<WidgetUpdate>,
}

/// What a page does after its event pass.
#[derive(Clone, Debug)]
pub struct Settled {
    pub state: PointerState,
    /// The widgets to notify, in order.
    pub updates: Vec<WidgetUpdate>,
    /// Whether the event goes on to the page's global handling.
    pub unhandled: bool,
}

/// Whether an event is a mouse event.
pub open spec fn is_mouse(ev: PointerEvent) -> bool {
    match ev {
        PointerEvent::MouseMove(_) | PointerEvent::ButtonDown(_, _) | PointerEvent::ButtonUp(_, _)
        | PointerEvent::OtherMouse => true,
        _ => false,
    }
}

/// The notifications of a change of the widget under the mouse from `old`
/// to `new`: the one left first, then the one entered.
pub open spec fn spec_hover_changes(old: Option<ElId>, new: Option<ElId>) -> Seq<WidgetUpdate> {
    if old == new {
        Seq::empty()
    } else {
        (match old {
            Some(l) => seq![WidgetUpdate::HoverChange(l, false)],
            None => Seq::empty(),
        }) + (match new {
            Some(e) => seq![WidgetUpdate::HoverChange(e, true)],
            None => Seq::empty(),
        })
    }
}

/// The notifications of a change of the pressed widget from `old` to `new`:
/// the one released first, then the one pressed.
pub open spec fn spec_press_changes(old: Option<ElId>, new: Option<ElId>) -> Seq<WidgetUpdate> {
    if old == new {
        Seq::empty()
    } else {
        (match old {
            Some(l) => seq![WidgetUpdate::PressChange(l, false)],
            None => Seq::empty(),
        }) + (match new {
            Some(e) => seq![WidgetUpdate::PressChange(e, true)],
            None => Seq::empty(),
        })
    }
}

/// What a change of the hovered widget from `old` to `new` notifies: nobody
/// when it stays; otherwise the widget left (if any) first, told it is no
/// longer hovered, whether or not a widget is entered, and then the widget
/// entered (if any), told it is hovered; nothing else.
pub proof fn lemma_hover_notifications(old: Option<ElId>, new: Option<ElId>)
    ensures
        spec_hover_changes(old, new).len() == (if old != new && old is Some { 1int } else { 0 }) + (if old != new
            && new is Some { 1int } else { 0 }),
        old != new && old is Some ==> spec_hover_changes(old, new)[0] == WidgetUpdate::HoverChange(old.unwrap(), false),
        old != new && new is Some ==> spec_hover_changes(old, new).last() == WidgetUpdate::HoverChange(new.unwrap(), true),
{
}

/// What a change of the pressed widget from `old` to `new` notifies: nobody
/// when it stays; otherwise the widget released (if any) first, told it is
/// no longer pressed, and then the widget pressed (if any); nothing else.
pub proof fn lemma_press_notifications(old: Option<ElId>, new: Option<ElId>)
    ensures
        spec_press_changes(old, new).len() == (if old != new && old is Some { 1int } else { 0 }) + (if old != new
            && new is Some { 1int } else { 0 }),
        old != new && old is Some ==> spec_press_changes(old, new)[0] == WidgetUpdate::PressChange(old.unwrap(), false),
        old != new && new is Some ==> spec_press_changes(old, new).last() == WidgetUpdate::PressChange(new.unwrap(), true),
{
}

/// What goes to the widget holding the pointer capture: every move, press
/// and release of a mouse button and every other mouse event; never an
/// encoder or key press or release, nor an event that is not of the mouse.
pub proof fn lemma_captured_events(pt: Point, b: MouseButton)
    ensures
        is_mouse(PointerEvent::MouseMove(pt)),
        is_mouse(PointerEvent::ButtonDown(b, pt)),
        is_mouse(PointerEvent::ButtonUp(b, pt)),
        is_mouse(PointerEvent::OtherMouse),
        !is_mouse(PointerEvent::Press),
        !is_mouse(PointerEvent::Release),
        !is_mouse(PointerEvent::Other),
{
}

fn same_id(a: Option<ElId>, b: Option<ElId>) -> (r: bool)
    ensures
        r == (a == b),
{
    match (a, b) {
        (Some(x), Some(y)) => x == y,
        (None, None) => true,
        _ => false,
    }
}

fn changes(old: Option<ElId>, new: Option<ElId>, hover: bool) -> (r: Vec<WidgetUpdate>)
    ensures
        hover ==> r@ == spec_hover_changes(old, new),
        !hover ==> r@ == spec_press_changes(old, new),
{
    let mut out: Vec<WidgetUpdate> = Vec::new();
    if !same_id(old, new) {
        if let Some(l) = old {
            out.push(if hover { WidgetUpdate::HoverChange(l, false) } else { WidgetUpdate::PressChange(l, false) });
        }
        if let Some(e) = new {
            out.push(if hover { WidgetUpdate::HoverChange(e, true) } else { WidgetUpdate::PressChange(e, true) });
        }
    }
    proof {
        if old != new {
            assert(out@ =~= (if hover { spec_hover_changes(old, new) } else { spec_press_changes(old, new) }));
        }
    }
    out
}

/// Decides where the event `ev` goes, before the event pass.
///
/// While a widget holds the pointer capture, every mouse event goes to it
/// alone, without hit testing and without a change of the hovered widget;
/// a move records the mouse's place, and a release of a button ends the
/// capture and the press, telling the pressed widget that it is no longer
/// pressed. Otherwise the event goes through the pass; a move records the
/// mouse's place and clears the hovered widget, for the pass to find it
/// again.
pub fn route_pointer_event(s: PointerState, ev: PointerEvent) -> (r: Dispatch)
    ensures
        s.captured_by.is_some() && is_mouse(ev) ==> {
            &&& r.route == Route::Captured(s.captured_by.unwrap())
            &&& r.state.pos == (match ev {
                PointerEvent::MouseMove(pt) => Some(pt),
                _ => s.pos,
            })
            &&& r.state.hovered == s.hovered
            &&& r.state.focused == s.focused
            &&& r.state.focus_pressed == s.focus_pressed
            &&& if ev is ButtonUp {
                &&& r.state.captured_by.is_none()
                &&& r.state.pressed.is_none()
                &&& r.updates@ == (match s.pressed {
                    Some(p) => seq![WidgetUpdate::PressChange(p, false)],
                    None => Seq::empty(),
                })
            } else {
                &&& r.state.captured_by == s.captured_by
                &&& r.state.pressed == s.pressed
                &&& r.updates@.len() == 0
            }
        },
        !(s.captured_by.is_some() && is_mouse(ev)) ==> {
            &&& r.route == Route::Pass
            &&& r.updates@.len() == 0
            &&& r.state == (match ev {
                PointerEvent::MouseMove(pt) => PointerState { pos: Some(pt), hovered: None, ..s },
                _ => s,
            })
        },
{
    let mouse = match ev {
        PointerEvent::MouseMove(_) | PointerEvent::ButtonDown(_, _) | PointerEvent::ButtonUp(_, _)
        | PointerEvent::OtherMouse => true,
        _ => false,
    };
    if let Some(c) = s.captured_by {
        if mouse {
            let mut state = s;
            let mut updates: Vec<WidgetUpdate> = Vec::new();
            if let PointerEvent::MouseMove(pt) = ev {
                state.pos = Some(pt);
            }
            if let PointerEvent::ButtonUp(_, _) = ev {
                state.captured_by = None;
                if let Some(p) = state.pressed {
                    updates.push(WidgetUpdate::PressChange(p, false));
                    state.pressed = None;
                }
                proof {
                    assert(updates@ =~= (match s.pressed {
                        Some(p) => seq![WidgetUpdate::PressChange(p, false)],
                        None => Seq::<WidgetUpdate>::empty(),
                    }));
                }
            }
            return Dispatch { state, route: Route::Captured(c), updates };
        }
    }
    let mut state = s;
    if let PointerEvent::MouseMove(pt) = ev {
        state.pos = Some(pt);
        state.hovered = None;
    }
    Dispatch { state, route: Route::Pass, updates: Vec::new() }
}

/// Decides, after the event pass, which widgets learn of the event `ev`:
/// `before` is the state the page had before `route_pointer_event`, `after`
/// the one the pass left, and `captured` whether a widget captured the event.
///
/// After a move, the widget left and the widget entered, if the hovered
/// widget changed; after a press of the left button, the widget released and
/// the widget pressed, if the pressed widget changed; after a press of the
/// encoder or key that the focused widget took, that widget; after its
/// release, the focused widget, whose press then ends. A move never goes on
/// to the global handling; another event does when no widget captured it.
pub fn settle_pointer_event(before: PointerState, after: PointerState, ev: PointerEvent, captured: bool) -> (r: Settled)
    ensures
        r.unhandled == (!(ev is MouseMove) && !captured),
        match ev {
            PointerEvent::MouseMove(_) => r.state == after && r.updates@ == spec_hover_changes(before.hovered, after.hovered),
            PointerEvent::ButtonDown(MouseButton::Left, _) => r.state == after && r.updates@ == spec_press_changes(
                before.pressed,
                after.pressed,
            ),
            PointerEvent::Press => r.state == after && r.updates@ == (if after.focus_pressed && after.focused.is_some() {
                seq![WidgetUpdate::PressChange(after.focused.unwrap(), true)]
            } else {
                Seq::empty()
            }),
            PointerEvent::Release => if after.focus_pressed {
                &&& r.state == (PointerState { focus_pressed: false, ..after })
                &&& r.updates@ == (match after.focused {
                    Some(f) => seq![WidgetUpdate::PressChange(f, false)],
                    None => Seq::empty(),
                })
            } else {
                r.state == after && r.updates@.len() == 0
            },
            _ => r.state == after && r.updates@.len() == 0,
        },
{
    let mut state = after;
    let mut updates: Vec<WidgetUpdate> = Vec::new();
    let mut is_move = false;
    match ev {
        PointerEvent::MouseMove(_) => {
            is_move = true;
            updates = changes(before.hovered, after.hovered, true);
        },
        PointerEvent::ButtonDown(MouseButton::Left, _) => {
            updates = changes(before.pressed, after.pressed, false);
        },
        PointerEvent::Press => {
            if after.focus_pressed {
                if let Some(f) = after.focused {
                    updates.push(WidgetUpdate::PressChange(f, true));
                }
            }
            proof {
                assert(updates@ =~= (if after.focus_pressed && after.focused.is_some() {
                    seq![WidgetUpdate::PressChange(after.focused.unwrap(), true)]
                } else {
                    Seq::<WidgetUpdate>::empty()
                }));
            }
        },
        PointerEvent::Release => {
            if after.focus_pressed {
                if let Some(f) = after.focused {
                    updates.push(WidgetUpdate::PressChange(f, false));
                }
                state.focus_pressed = false;
                proof {
                    assert(updates@ =~= (match after.focused {
                        Some(f) => seq![WidgetUpdate::PressChange(f, false)],
                        None => Seq::<WidgetUpdate>::empty(),
                    }));
                }
            }
        },
        _ => {},
    }
    Settled { state, updates, unhandled: !is_move && !captured }
}

} // verus!
