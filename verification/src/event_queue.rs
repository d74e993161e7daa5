//! The buffer between the OS watcher's relay thread and the event processor:
//! a strict first-in-first-out queue of raw filesystem events. Pushing and
//! popping state exactly how the buffered sequence changes, so processing
//! order equals arrival order.
use vstd::prelude::*;

verus! {

/// A debounced filesystem event, as the processing pipeline sees it: the
/// kinds that touch a file's record each carry the affected path; every
/// other kind is observed and discarded.
pub enum FsEvent {
    NoticeWrite(String),
    Write(String),
    Create(String),
    Other,
}

/// The mathematical value of one event.
pub ghost enum FsEventView {
    NoticeWrite(Seq<char>),
    Write(Seq<char>),
    Create(Seq<char>),
    Other,
}

impl View for FsEvent {
    type V = FsEventView;

    open spec fn view(&self) -> FsEventView {
        match self {
            FsEvent::NoticeWrite(p) => FsEventView::NoticeWrite(p@),
            FsEvent::Write(p) => FsEventView::Write(p@),
            FsEvent::Create(p) => FsEventView::Create(p@),
            FsEvent::Other => FsEventView::Other,
        }
    }
}

/// An unbounded first-in-first-out buffer of filesystem events.
pub struct EventQueue {
    pub events: Vec<FsEvent>,
}

impl View for EventQueue {
    type V = Seq<FsEventView>;

    open spec fn view(&self) -> Seq<FsEventView> {
        Seq::new(self.events@.len(), |i: int| self.events@[i]@)
    }
}

impl EventQueue {
    pub fn new() -> (q: Self)
        ensures
            q@ =~= Seq::<FsEventView>::empty(),
    {
        EventQueue { events: Vec::new() }
    }

    pub fn len(&self) -> (n: usize)
        ensures
            n == self@.len(),
    {
        self.events.len()
    }

    /// Appends an event at the back of the buffer; nothing already buffered
    /// moves.
    pub fn push_back(&mut self, event: FsEvent)
        ensures
            final(self)@ == old(self)@.push(event@),
    {
        let ghost pre = self@;
        self.events.push(event);
        proof {
            assert(self@ =~= pre.push(event@));
        }
    }

    /// Removes and returns the oldest buffered event, or `None` when the
    /// buffer is empty; the rest keep their order.
    pub fn pop_front(&mut self) -> (r: Option<FsEvent>)
        ensures
            match r {
                Some(ev) => old(self)@.len() > 0 && ev@ == old(self)@[0] && final(self)@ == old(
                    self,
                )@.subrange(1, old(self)@.len() as int),
                None => old(self)@.len() == 0 && final(self)@ == old(self)@,
            },
    {
        if self.events.len() == 0 {
            proof {
                assert(self@ =~= old(self)@);
            }
            None
        } else {
            let ev = self.events.remove(0);
            proof {
                assert(self@ =~= old(self)@.subrange(1, old(self)@.len() as int));
            }
            Some(ev)
        }
    }
}

} // verus!
