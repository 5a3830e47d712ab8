//! What apps and the kernel say to each other.

use vstd::prelude::*;

use crate::ui::Region;

verus! {

#[derive(Debug, Clone, Copy, PartialEq, Eq, Structural)]
pub enum AppId {
    Home,
    Files,
    Reader,
    Settings,
    Upload,
}

/// Where to go after an event.
#[derive(Debug, Clone, Copy, PartialEq, Eq, Structural)]
pub enum Transition {
    Stay,
    Push(AppId),
    Pop,
    Home,
}

/// What the screen needs.
#[derive(Debug, Clone, Copy, PartialEq, Eq, Structural)]
pub enum Redraw {
    Nothing,
    Partial(Region),
    Full,
}

/// A setting that an app changed from its quick menu.
#[derive(Debug, Clone, Copy, PartialEq, Eq, Structural)]
pub enum PendingSetting {
    BookFontSize(u8),
}

/// A change of the active app.
#[derive(Debug, Clone, Copy, PartialEq, Eq, Structural)]
pub struct NavEvent {
    pub from: AppId,
    pub to: AppId,
    pub suspend: bool,
    pub resume: bool,
}

/// A wish of an app about the screen.
#[derive(Debug, Clone, Copy, PartialEq, Eq, Structural)]
pub enum Wish {
    MarkDirty(Region),
    FullRedraw,
}

/// What apps ask of the system while they handle an event, in order, and the
/// message that one app leaves for the next.
pub struct AppContext {
    pub wishes: Vec<Wish>,
    pub message: Vec<u8>,
}

/// The value of a context.
pub struct ContextView {
    pub wishes: Seq<Wish>,
    pub message: Seq<u8>,
}

impl View for AppContext {
    type V = ContextView;

    open spec fn view(&self) -> ContextView {
        ContextView { wishes: self.wishes@, message: self.message@ }
    }
}

impl ContextView {
    pub open spec fn dirty(self, r: Region) -> ContextView {
        ContextView { wishes: self.wishes.push(Wish::MarkDirty(r)), ..self }
    }

    pub open spec fn full(self) -> ContextView {
        ContextView { wishes: self.wishes.push(Wish::FullRedraw), ..self }
    }

    pub open spec fn with_message(self, m: Seq<u8>) -> ContextView {
        ContextView { message: m, ..self }
    }
}

impl AppContext {
    pub fn new() -> (r: AppContext)
        ensures
            r@ == (ContextView { wishes: Seq::empty(), message: Seq::empty() }),
    {
        AppContext { wishes: Vec::new(), message: Vec::new() }
    }

    pub fn mark_dirty(&mut self, region: Region)
        ensures
            final(self)@ == old(self)@.dirty(region),
    {
        self.wishes.push(Wish::MarkDirty(region));
    }

    pub fn request_full_redraw(&mut self)
        ensures
            final(self)@ == old(self)@.full(),
    {
        self.wishes.push(Wish::FullRedraw);
    }

    pub fn set_message(&mut self, message: &[u8])
        ensures
            final(self)@ == old(self)@.with_message(message@),
    {
        let mut m: Vec<u8> = Vec::new();
        m.extend_from_slice(message);
        proof {
            assert(m@ =~= message@);
        }
        self.message = m;
    }
}

} // verus!
