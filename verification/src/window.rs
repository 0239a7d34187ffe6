//! What the engine reports to its host about the window.

use vstd::prelude::*;
use vstd::std_specs::convert::FromSpecImpl;

verus! {

/// A notification for the host of the engine.
#[derive(Clone, Copy, PartialEq, Eq, Structural, Debug)]
pub enum Event {
    Created,
    Resized(Size),
    Destroyed,
}

/// The size of the window's drawable area, in pixels.
#[derive(Clone, Copy, PartialEq, Eq, Structural, Debug)]
pub struct Size {
    pub width: u32,
    pub height: u32,
}

impl Size {
    pub fn new(width: u32, height: u32) -> (size: Self)
        ensures
            size == (Size { width, height }),
    {
        Self { width, height }
    }

    /// Whether nothing can be drawn at this size.
    pub open spec fn spec_is_empty(self) -> bool {
        self.width == 0 || self.height == 0
    }

    /// Whether nothing can be drawn at this size: one side is zero.
    pub fn is_empty(&self) -> (empty: bool)
        ensures
            empty == self.spec_is_empty(),
    {
        self.width == 0 || self.height == 0
    }
}

impl Default for Size {
    /// The empty size.
    fn default() -> (size: Self)
        ensures
            size == (Size { width: 0, height: 0 }),
    {
        Size { width: 0, height: 0 }
    }
}

impl From<(u32, u32)> for Size {
    fn from(tuple: (u32, u32)) -> (size: Self) {
        Size::new(tuple.0, tuple.1)
    }
}

impl FromSpecImpl<(u32, u32)> for Size {
    open spec fn obeys_from_spec() -> bool {
        true
    }

    open spec fn from_spec(tuple: (u32, u32)) -> Self {
        Size { width: tuple.0, height: tuple.1 }
    }
}

impl From<Size> for (u32, u32) {
    fn from(size: Size) -> (tuple: Self) {
        (size.width, size.height)
    }
}

impl FromSpecImpl<Size> for (u32, u32) {
    open spec fn obeys_from_spec() -> bool {
        true
    }

    open spec fn from_spec(size: Size) -> Self {
        (size.width, size.height)
    }
}


/// What the window system reports to the event loop.
#[derive(Clone, Copy, PartialEq, Eq, Structural, Debug)]
pub enum Signal {
    /// The loop has started.
    Started,
    /// The user asked to close the window.
    CloseRequested,
    /// The window has the given size now.
    Resized(Size),
    /// All pending events are handled; the window has the given size.
    Idle(Size),
    /// The loop is about to end.
    Stopped,
    /// Anything else.
    Other,
}

/// Work on the window or the renderer that the event loop does for the
/// engine.
#[derive(Clone, Copy, PartialEq, Eq, Structural, Debug)]
pub enum Work {
    /// Make the window visible.
    Show,
    /// Rebuild what depends on the size of the window.
    Resize(Size),
    /// Draw a frame.
    Render(Size),
}

/// What the event loop does next: first it tells the host, then it does the
/// work, then it leaves the loop, as far as each is asked for.
#[derive(Clone, Copy, PartialEq, Eq, Structural, Debug)]
pub struct Directive {
    pub notify: Option<Event>,
    pub work: Option<Work>,
    pub exit: bool,
}

/// The directive that asks for nothing.
pub open spec fn nothing_to_do() -> Directive {
    Directive { notify: None, work: None, exit: false }
}

/// What a signal of the window system calls for. A window without area is
/// neither resized for nor drawn to: the host hears of the empty size, and
/// that is all.
pub open spec fn called_for(signal: Signal) -> Directive {
    match signal {
        Signal::Started => Directive {
            notify: Some(Event::Created),
            work: Some(Work::Show),
            exit: false,
        },
        Signal::CloseRequested => Directive { notify: None, work: None, exit: true },
        Signal::Resized(size) => if size.spec_is_empty() {
            Directive {
                notify: Some(Event::Resized(Size { width: 0, height: 0 })),
                work: None,
                exit: false,
            }
        } else {
            Directive { notify: None, work: Some(Work::Resize(size)), exit: false }
        },
        Signal::Idle(size) => if size.spec_is_empty() {
            nothing_to_do()
        } else {
            Directive { notify: None, work: Some(Work::Render(size)), exit: false }
        },
        Signal::Stopped => Directive { notify: Some(Event::Destroyed), work: None, exit: false },
        Signal::Other => nothing_to_do(),
    }
}

/// What follows a piece of work: a failure of the renderer ends the loop, a
/// resize that went through is reported to the host, and nothing else has a
/// sequel.
pub open spec fn follows(work: Work, succeeded: bool) -> Directive {
    match work {
        Work::Show => nothing_to_do(),
        Work::Resize(size) => if succeeded {
            Directive { notify: Some(Event::Resized(size)), work: None, exit: false }
        } else {
            Directive { notify: None, work: None, exit: true }
        },
        Work::Render(_) => if succeeded {
            nothing_to_do()
        } else {
            Directive { notify: None, work: None, exit: true }
        },
    }
}

/// Decides what the event loop does for a signal of the window system.
pub fn plan(signal: Signal) -> (directive: Directive)
    ensures
        directive == called_for(signal),
{
    match signal {
        Signal::Started => Directive {
            notify: Some(Event::Created),
            work: Some(Work::Show),
            exit: false,
        },
        Signal::CloseRequested => Directive { notify: None, work: None, exit: true },
        Signal::Resized(size) => {
            if size.is_empty() {
                Directive { notify: Some(Event::Resized(Size::default())), work: None, exit: false }
            } else {
                Directive { notify: None, work: Some(Work::Resize(size)), exit: false }
            }
        },
        Signal::Idle(size) => {
            if size.is_empty() {
                Directive { notify: None, work: None, exit: false }
            } else {
                Directive { notify: None, work: Some(Work::Render(size)), exit: false }
            }
        },
        Signal::Stopped => Directive { notify: Some(Event::Destroyed), work: None, exit: false },
        Signal::Other => Directive { notify: None, work: None, exit: false },
    }
}

/// Decides what the event loop does once a piece of work has succeeded or
/// failed.
pub fn settle(work: Work, succeeded: bool) -> (directive: Directive)
    ensures
        directive == follows(work, succeeded),
{
    match work {
        Work::Show => Directive { notify: None, work: None, exit: false },
        Work::Resize(size) => {
            if succeeded {
                Directive { notify: Some(Event::Resized(size)), work: None, exit: false }
            } else {
                Directive { notify: None, work: None, exit: true }
            }
        },
        Work::Render(_) => Directive { notify: None, work: None, exit: !succeeded },
    }
}

/// The renderer never works on a window without area, and a failure of the
/// renderer always ends the loop.
pub proof fn lemma_loop_is_safe(signal: Signal, work: Work)
    ensures
        called_for(signal).work matches Some(Work::Resize(size)) ==> !size.spec_is_empty(),
        called_for(signal).work matches Some(Work::Render(size)) ==> !size.spec_is_empty(),
        work !is Show ==> follows(work, false).exit,
        !follows(work, true).exit,
{
}

} // verus!
