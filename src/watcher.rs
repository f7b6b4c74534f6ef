//! Change events of a watched Location and the queue that holds them until
//! they are drained. The notification source itself runs outside; each
//! debounced notification it delivers is classified here.

use vstd::prelude::*;
use crate::chars::{chars_eq, chars_of, views};
use crate::ignore::{components, path_components};
use crate::location::system_dir_name;

verus! {

/// A change under a watched root.
#[derive(Debug, Clone, PartialEq, Eq)]
pub enum FsEvent {
    /// A file or folder was created.
    Created(String),
    /// A file was modified.
    Modified(String),
    /// A file or folder was deleted.
    Deleted(String),
    /// A file or folder was renamed.
    Renamed { from: String, to: String },
}

/// The kinds of debounced notification the source delivers.
#[derive(Debug, Clone, Copy, PartialEq, Eq, Structural)]
pub enum DebouncedKind {
    /// Some change, of a kind the source does not tell.
    Any,
    /// A change that is still going on.
    AnyContinuous,
}

/// Whether a path has the system directory's basename as a component.
pub fn in_system_dir_path(path: &str) -> (r: bool)
    ensures
        r == components(path@).contains(system_dir_name()),
{
    let cs = path_components(&chars_of(path));
    let sd: Vec<char> = vec!['.', 'f', 'r', 'a', 'c', 't', 'a'];
    assert(sd@ =~= system_dir_name());
    let mut i: usize = 0;
    while i < cs.len()
        invariant
            i <= cs.len(),
            views(cs@) == components(path@),
            sd@ == system_dir_name(),
            forall|j: int| 0 <= j < i ==> cs@[j]@ != system_dir_name(),
        decreases cs.len() - i,
    {
        if chars_eq(&cs[i], &sd) {
            assert(views(cs@)[i as int] == system_dir_name());
            return true;
        }
        i = i + 1;
    }
    assert(!views(cs@).contains(system_dir_name())) by {
        if views(cs@).contains(system_dir_name()) {
            let j = choose|j: int| 0 <= j < views(cs@).len() && views(cs@)[j] == system_dir_name();
            assert(cs@[j]@ == system_dir_name());
        }
    }
    false
}

/// The event a debounced notification becomes: none inside the system
/// directory; for a change of unknown kind, Modified while the path still
/// exists and Deleted once it is gone; Modified for a continuing change.
pub fn classify_event(path: String, kind: DebouncedKind, exists: bool) -> (r: Option<FsEvent>)
    ensures
        components(path@).contains(system_dir_name()) ==> r.is_none(),
        !components(path@).contains(system_dir_name()) ==> r == Some(
            if kind == DebouncedKind::Any && !exists {
                FsEvent::Deleted(path)
            } else {
                FsEvent::Modified(path)
            },
        ),
{
    if in_system_dir_path(path.as_str()) {
        return None;
    }
    match kind {
        DebouncedKind::Any => if exists {
            Some(FsEvent::Modified(path))
        } else {
            Some(FsEvent::Deleted(path))
        },
        DebouncedKind::AnyContinuous => Some(FsEvent::Modified(path)),
    }
}

/// The events of a watcher waiting to be drained. Once stopped the queue
/// stays empty.
#[derive(Debug)]
pub struct EventQueue {
    events: Vec<FsEvent>,
    stopped: bool,
}

impl EventQueue {
    /// The pending events, oldest first.
    pub closed spec fn pending(&self) -> Seq<FsEvent> {
        self.events@
    }

    /// Whether the watcher was stopped.
    pub closed spec fn is_stopped(&self) -> bool {
        self.stopped
    }

    /// A stopped queue holds nothing.
    pub closed spec fn wf(&self) -> bool {
        self.stopped ==> self.events@.len() == 0
    }

    /// An empty, running queue.
    pub fn new() -> (r: Self)
        ensures
            r.wf(),
            r.pending() == Seq::<FsEvent>::empty(),
            !r.is_stopped(),
    {
        EventQueue { events: Vec::new(), stopped: false }
    }

    /// Queues an event; a stopped queue drops it.
    pub fn push(&mut self, event: FsEvent)
        requires
            old(self).wf(),
        ensures
            final(self).wf(),
            final(self).is_stopped() == old(self).is_stopped(),
            !old(self).is_stopped() ==> final(self).pending() == old(self).pending().push(event),
            old(self).is_stopped() ==> final(self).pending() == old(self).pending(),
    {
        if !self.stopped {
            self.events.push(event);
        }
    }

    /// Takes every pending event, oldest first, and leaves the queue empty.
    pub fn drain_events(&mut self) -> (r: Vec<FsEvent>)
        requires
            old(self).wf(),
        ensures
            final(self).wf(),
            r@ == old(self).pending(),
            old(self).is_stopped() ==> r@.len() == 0,
            final(self).pending() == Seq::<FsEvent>::empty(),
            final(self).is_stopped() == old(self).is_stopped(),
    {
        let mut taken: Vec<FsEvent> = Vec::new();
        std::mem::swap(&mut taken, &mut self.events);
        taken
    }

    /// Whether events are waiting, without taking them.
    pub fn has_pending_events(&self) -> (r: bool)
        ensures
            r == (self.pending().len() > 0),
    {
        self.events.len() > 0
    }

    /// Stops the watcher for good: pending events are dropped and none are queued after.
    pub fn stop(&mut self)
        ensures
            final(self).wf(),
            final(self).is_stopped(),
            final(self).pending() == Seq::<FsEvent>::empty(),
    {
        self.stopped = true;
        self.events = Vec::new();
    }
}

} // verus!
