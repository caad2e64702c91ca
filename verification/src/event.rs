use vstd::prelude::*;
use crate::text::texts;

verus! {

/// What a raw filesystem event reports to have happened.
#[derive(Debug, PartialEq, Eq, Clone, Copy, Structural)]
pub enum EventKind {
    /// The native facility gave no kind.
    Any,
    /// A path was opened, read or closed.
    Access,
    /// A path was created.
    Create,
    /// The content or the name of a path changed.
    Modify,
    /// Only the metadata of a path changed.
    Metadata,
    /// A path was removed.
    Remove,
    /// Anything else.
    Other,
}

impl EventKind {
    /// Whether events of this kind ask for a sync: creations, modifications
    /// and removals do, every other kind is filtered out.
    pub open spec fn is_change(self) -> bool {
        self is Create || self is Modify || self is Remove
    }

    /// Whether events of this kind ask for a sync.
    pub fn changes(&self) -> (b: bool)
        ensures
            b == self.is_change(),
    {
        match self {
            EventKind::Create => true,
            EventKind::Modify => true,
            EventKind::Remove => true,
            _ => false,
        }
    }
}

/// One raw filesystem event: the paths it touches and its kind.
#[derive(Debug, PartialEq, Eq)]
pub struct ChangeEvent {
    pub paths: Vec<String>,
    pub kind: EventKind,
}

/// What an event is, as plain values.
pub struct ChangeEventView {
    pub paths: Seq<Seq<char>>,
    pub kind: EventKind,
}

impl View for ChangeEvent {
    type V = ChangeEventView;

    open spec fn view(&self) -> ChangeEventView {
        ChangeEventView { paths: texts(self.paths@), kind: self.kind }
    }
}

/// The events of a list, as plain values.
pub open spec fn events_view(events: Seq<ChangeEvent>) -> Seq<ChangeEventView> {
    events.map_values(|e: ChangeEvent| e@)
}

/// What the driver of a watch session reports back to it once it has
/// carried out a script: what the last action of the script waited for, or
/// how the script went where it held nothing to wait for.
#[derive(Debug, PartialEq, Eq)]
pub enum Input {
    /// The script was carried out, and it held nothing to wait for.
    Ready,
    /// A watch of the script could not be registered.
    WatchFailed,
    /// One event arrived while the session waited.
    Event(ChangeEvent),
    /// The debounce window is over: the events that arrived during it, and
    /// whether the stream was found closed.
    Drained { events: Vec<ChangeEvent>, disconnected: bool },
    /// The shutdown signal arrived, or the stream of events is closed.
    Shutdown,
}

/// What an input is, as plain values.
pub enum InputView {
    Ready,
    WatchFailed,
    Event(ChangeEventView),
    Drained { events: Seq<ChangeEventView>, disconnected: bool },
    Shutdown,
}

impl View for Input {
    type V = InputView;

    open spec fn view(&self) -> InputView {
        match *self {
            Input::Ready => InputView::Ready,
            Input::WatchFailed => InputView::WatchFailed,
            Input::Event(event) => InputView::Event(event@),
            Input::Drained { events, disconnected } => InputView::Drained {
                events: events_view(events@),
                disconnected,
            },
            Input::Shutdown => InputView::Shutdown,
        }
    }
}

} // verus!
