//! Waiting for the device's reply to a command.
use vstd::prelude::*;
use crate::event::{Event, EventView};
use crate::host::Error;
use crate::text::owned;

verus! {

/// Events that are neither the awaited reply nor an error are skipped; after
/// this many the wait fails.
pub const MAX_SKIPPED_EVENTS: u32 = 64;

/// The reply a command waits for.
#[derive(Debug, Clone, Copy, PartialEq, Eq, Structural)]
pub enum Awaited {
    Ack,
    Status,
}

/// A wait in progress: what is awaited and how many events were read.
#[derive(Debug, Clone, Copy, PartialEq, Eq, Structural)]
pub struct ReplyWait {
    pub awaited: Awaited,
    pub seen: u32,
}

/// What one event does to a wait.
#[derive(Debug, Clone)]
pub enum WaitStep {
    /// The awaited reply arrived.
    Done(Event),
    /// The device answered with an error, or too many other events came.
    Failed(Error),
    /// Read another event.
    Pending,
}

pub open spec fn is_awaited(a: Awaited, ev: EventView) -> bool {
    match a {
        Awaited::Ack => ev is Ack,
        Awaited::Status => ev is Status,
    }
}

/// The message when the awaited reply never came.
pub open spec fn missing_text(a: Awaited) -> Seq<char> {
    match a {
        Awaited::Ack => "expected ack"@,
        Awaited::Status => "expected status"@,
    }
}

impl ReplyWait {
    pub fn new(awaited: Awaited) -> (w: Self)
        ensures
            w.awaited == awaited,
            w.seen == 0,
    {
        ReplyWait { awaited, seen: 0 }
    }

    /// Takes the next event: the awaited one ends the wait, an error event
    /// fails it with the device's message, any other is skipped, and the
    /// 64th event read without an answer fails the wait.
    pub fn step(&mut self, ev: Event) -> (r: WaitStep)
        requires
            old(self).seen < MAX_SKIPPED_EVENTS,
        ensures
            final(self).awaited == old(self).awaited,
            is_awaited(old(self).awaited, ev@) ==> (r matches WaitStep::Done(e) && e == ev),
            ev@ matches EventView::Error { msg } ==> (r matches WaitStep::Failed(Error::Msg(m)) && m@ == msg),
            !is_awaited(old(self).awaited, ev@) && !(ev@ is Error) ==> final(self).seen == old(self).seen + 1 && (
            if final(self).seen >= MAX_SKIPPED_EVENTS {
                r matches WaitStep::Failed(Error::Msg(m)) && m@ == missing_text(old(self).awaited)
            } else {
                r is Pending
            }),
    {
        let hit = match self.awaited {
            Awaited::Ack => matches!(ev, Event::Ack),
            Awaited::Status => matches!(ev, Event::Status(_)),
        };
        if hit {
            return WaitStep::Done(ev);
        }
        match ev {
            Event::Error { msg } => WaitStep::Failed(Error::Msg(msg)),
            _ => {
                self.seen = self.seen + 1;
                if self.seen >= MAX_SKIPPED_EVENTS {
                    match self.awaited {
                        Awaited::Ack => WaitStep::Failed(Error::msg("expected ack")),
                        Awaited::Status => WaitStep::Failed(Error::msg("expected status")),
                    }
                } else {
                    WaitStep::Pending
                }
            },
        }
    }
}

} // verus!
