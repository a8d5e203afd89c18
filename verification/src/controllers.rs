//! The decisions of the picker's controllers: what each one does on an event
//! of the driver, as a value for the driver to act on.

use crate::item::{duplicate_option, Item};
use crate::selection::{signal_spec, steps, FilteredSelectionState, Input, Signal};
use vstd::prelude::*;

verus! {

/// The keys that the picker reacts to.
#[derive(Clone, Copy, Debug, PartialEq, Eq, Structural)]
pub enum Key {
    ArrowUp,
    ArrowDown,
    Enter,
    Escape,
    Other,
}

/// An event of the driver, as far as the controllers tell events apart.
#[derive(Clone, Copy, Debug, PartialEq, Eq, Structural)]
pub enum Event {
    /// The window is on screen.
    WindowConnected,
    KeyDown(Key),
    KeyUp(Key),
    /// The request to take the keyboard focus has arrived.
    FocusRequested,
    Other,
}

/// A change in a widget's life cycle.
#[derive(Clone, Copy, Debug, PartialEq, Eq, Structural)]
pub enum LifeCycle {
    FocusChanged(bool),
    Other,
}

/// What the driver does once a key may have ended the session.
#[derive(Debug, PartialEq, Eq)]
pub enum Done<Sel> {
    /// The session goes on.
    Continue,
    /// The session ends; the value, if any, is its printed result.
    Quit(Option<Sel>),
}

/// Takes the keyboard focus as soon as the window is connected.
pub struct TakeFocus;

impl TakeFocus {
    /// Whether to request the focus on `event`.
    pub fn event(&self, event: &Event) -> (request_focus: bool)
        ensures
            request_focus == (*event == Event::WindowConnected),
    {
        match event {
            Event::WindowConnected => true,
            _ => false,
        }
    }
}

/// Hands the focus that it receives on to another widget, named by an
/// identifier of the driver's.
pub struct SendFocus<Id> {
    delegate: Id,
}

impl<Id> SendFocus<Id> {
    /// The widget that the focus is handed to.
    pub closed spec fn target(&self) -> Id {
        self.delegate
    }

    pub fn new(to: Id) -> (controller: Self)
        ensures
            controller.target() == to,
    {
        SendFocus { delegate: to }
    }

    /// The widget to send a focus request to, where `event` gave this one
    /// the focus.
    pub fn lifecycle(&self, event: &LifeCycle) -> (send_to: Option<&Id>)
        ensures
            send_to == if *event == LifeCycle::FocusChanged(true) {
                Some(&self.target())
            } else {
                None
            },
    {
        match event {
            LifeCycle::FocusChanged(true) => Some(&self.delegate),
            _ => None,
        }
    }
}

/// Takes the focus when asked to by a `SendFocus`.
pub struct GetFocus;

impl GetFocus {
    /// Whether to request the focus on `event`.
    pub fn event(&self, event: &Event) -> (request_focus: bool)
        ensures
            request_focus == (*event == Event::FocusRequested),
    {
        match event {
            Event::FocusRequested => true,
            _ => false,
        }
    }
}

/// Clears the chosen value when Escape is released.
pub struct EscClears;

impl EscClears {
    /// Whether `event` clears the selection.
    pub fn event(&self, event: &Event) -> (clear: bool)
        ensures
            clear == (*event == Event::KeyUp(Key::Escape)),
    {
        match event {
            Event::KeyUp(Key::Escape) => true,
            _ => false,
        }
    }
}

/// Prints the chosen value when Enter is released.
pub struct EnterPrints;

impl EnterPrints {
    /// The value to print on `event`, if any.
    pub fn event<Sel: Item>(&self, event: &Event, selected: &Option<Sel>) -> (print: Option<Sel>)
        ensures
            print == if *event == Event::KeyUp(Key::Enter) {
                *selected
            } else {
                None
            },
    {
        match event {
            Event::KeyUp(Key::Enter) => duplicate_option(selected),
            _ => None,
        }
    }
}

/// Ends the session when Enter or Escape is released.
pub struct DoneKeys;

impl DoneKeys {
    /// Whether `event` ends the session, and with which result.
    pub fn event<Sel: Item>(&self, event: &Event, selected: &Option<Sel>) -> (done: Done<Sel>)
        ensures
            done == if *event == Event::KeyUp(Key::Enter) || *event == Event::KeyUp(Key::Escape) {
                Done::Quit(*selected)
            } else {
                Done::Continue
            },
    {
        match event {
            Event::KeyUp(Key::Enter) | Event::KeyUp(Key::Escape) => Done::Quit(
                duplicate_option(selected),
            ),
            _ => Done::Continue,
        }
    }
}

/// Scrolls the row of the chosen value into view.
pub struct ScrollSelected;

impl ScrollSelected {
    /// Whether the row that shows `item` is the row of the selection.
    pub fn update<Sel: Item>(&self, selection: &Option<Sel>, item: &Sel) -> (scroll: bool)
        ensures
            scroll == (*selection matches Some(v) && v.same_as(item)),
    {
        match selection {
            Some(v) => v.same(item),
            None => false,
        }
    }
}

/// The input that an event stands for: an arrow key going down moves the
/// cursor, no other event is an input.
pub open spec fn input_of<Sel>(event: Event) -> Option<Input<Sel>> {
    match event {
        Event::KeyDown(Key::ArrowUp) => Some(Input::MoveUp),
        Event::KeyDown(Key::ArrowDown) => Some(Input::MoveDown),
        _ => None,
    }
}

/// Moves the cursor with the arrow keys.
pub struct MoveSelection;

impl MoveSelection {
    /// Applies `event` to the session: an arrow key going down moves the
    /// cursor, any other event leaves the session as it is.
    pub fn event<Sel: Item>(
        &self,
        state: &mut FilteredSelectionState<Sel>,
        event: &Event,
    ) -> (signal: Signal)
        ensures
            match input_of::<Sel>(*event) {
                Some(input) => {
                    &&& steps(old(state).session(), input, final(state).session())
                    &&& final(state).is_consistent()
                    &&& signal == signal_spec(
                        old(state).cursor(),
                        final(state).cursor(),
                        old(state).selection(),
                        final(state).selection(),
                    )
                },
                None => *final(state) == *old(state) && signal == Signal::Unchanged,
            },
    {
        match event {
            Event::KeyDown(Key::ArrowUp) => state.move_up(),
            Event::KeyDown(Key::ArrowDown) => state.move_down(),
            _ => Signal::Unchanged,
        }
    }
}

} // verus!
