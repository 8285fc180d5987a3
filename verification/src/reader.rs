//! The bookkeeping of one connection's reader.
//!
//! A reader owns the inbound direction of one connection. It announces the
//! connection, then turns each chunk that it reads into an event for the
//! server, and reports the end of the connection once. The reading and the
//! sending are the caller's; what to send, and when to stop, is decided
//! here.
use crate::addr::ClientKey;
use crate::model::EventView;
use crate::server::Event;
use crate::text::{sanitize, sanitized};
use vstd::prelude::*;

verus! {

/// Where a reader is in its life.
#[derive(Clone, Copy, Debug, PartialEq, Eq, Structural)]
pub enum ReaderState {
    /// The connection has not been announced yet.
    Starting,
    /// The connection is announced and is being read.
    Running,
    /// The reader is done: it reads and reports nothing more.
    Stopped,
}

/// The state of a reader after the attempt to hand its announcement to the
/// server: without the announcement it cannot go on.
pub open spec fn after_announcement(state: ReaderState, enqueued: bool) -> ReaderState {
    if state == ReaderState::Starting {
        if enqueued {
            ReaderState::Running
        } else {
            ReaderState::Stopped
        }
    } else {
        state
    }
}

/// What a reader reports for a read that gave `chunk`: the sanitized chunk
/// as a message, or, for a read of no bytes, the end of the connection. A
/// reader that is not running reports nothing.
pub open spec fn report_of_read(key: ClientKey, state: ReaderState, chunk: Seq<u8>) -> Option<
    EventView,
> {
    if state != ReaderState::Running {
        None
    } else if chunk.len() > 0 {
        Some(EventView::MessageReceived { key, bytes: sanitized(chunk) })
    } else {
        Some(EventView::Disconnected { key })
    }
}

/// The state of a reader after a read that gave `chunk`.
pub open spec fn after_read(state: ReaderState, chunk: Seq<u8>) -> ReaderState {
    if state == ReaderState::Running && chunk.len() == 0 {
        ReaderState::Stopped
    } else {
        state
    }
}

/// What a reader reports for a read that failed: the end of the connection,
/// if it was running.
pub open spec fn report_of_failure(key: ClientKey, state: ReaderState) -> Option<EventView> {
    if state == ReaderState::Running {
        Some(EventView::Disconnected { key })
    } else {
        None
    }
}

/// The state of a reader after a read that failed.
pub open spec fn after_failure(state: ReaderState) -> ReaderState {
    if state == ReaderState::Running {
        ReaderState::Stopped
    } else {
        state
    }
}

/// The state of a reader after the attempt to hand a report to the server.
pub open spec fn after_delivery(state: ReaderState, enqueued: bool) -> ReaderState {
    if enqueued {
        state
    } else {
        ReaderState::Stopped
    }
}

/// The reader of the connection `key`.
pub struct Reader {
    key: ClientKey,
    state: ReaderState,
}

impl Reader {
    /// The connection that is read.
    pub closed spec fn key(&self) -> ClientKey {
        self.key
    }

    /// Where the reader is in its life.
    pub closed spec fn state(&self) -> ReaderState {
        self.state
    }

    /// A reader for the connection `key`, which is yet to be announced.
    pub fn new(key: ClientKey) -> (reader: Reader)
        ensures
            reader.key() == key,
            reader.state() == ReaderState::Starting,
    {
        Reader { key, state: ReaderState::Starting }
    }

    /// The connection that is read.
    pub fn client_key(&self) -> (key: ClientKey)
        ensures
            key == self.key(),
    {
        self.key
    }

    /// Where the reader is in its life.
    pub fn current_state(&self) -> (state: ReaderState)
        ensures
            state == self.state(),
    {
        self.state
    }

    /// Whether the reader should read on.
    pub fn is_running(&self) -> (running: bool)
        ensures
            running == (self.state() == ReaderState::Running),
    {
        self.state == ReaderState::Running
    }

    /// Records whether the announcement reached the server's queue.
    pub fn announced(&mut self, enqueued: bool)
        ensures
            final(self).key() == old(self).key(),
            final(self).state() == after_announcement(old(self).state(), enqueued),
    {
        if self.state == ReaderState::Starting {
            if enqueued {
                self.state = ReaderState::Running;
            } else {
                self.state = ReaderState::Stopped;
            }
        }
    }

    /// Takes the bytes of one successful read and returns what is to be
    /// reported to the server.
    pub fn on_read(&mut self, chunk: &[u8]) -> (report: Option<Event>)
        ensures
            final(self).key() == old(self).key(),
            final(self).state() == after_read(old(self).state(), chunk@),
            match report {
                Some(event) => Some(event@) == report_of_read(
                    old(self).key(),
                    old(self).state(),
                    chunk@,
                ),
                None => report_of_read(old(self).key(), old(self).state(), chunk@) is None,
            },
    {
        if self.state != ReaderState::Running {
            None
        } else if chunk.len() > 0 {
            Some(Event::MessageReceived { key: self.key, bytes: sanitize(chunk) })
        } else {
            self.state = ReaderState::Stopped;
            Some(Event::Disconnected { key: self.key })
        }
    }

    /// Takes note of a read that failed and returns what is to be reported
    /// to the server.
    pub fn on_read_failure(&mut self) -> (report: Option<Event>)
        ensures
            final(self).key() == old(self).key(),
            final(self).state() == after_failure(old(self).state()),
            match report {
                Some(event) => Some(event@) == report_of_failure(
                    old(self).key(),
                    old(self).state(),
                ),
                None => report_of_failure(old(self).key(), old(self).state()) is None,
            },
    {
        if self.state == ReaderState::Running {
            self.state = ReaderState::Stopped;
            Some(Event::Disconnected { key: self.key })
        } else {
            None
        }
    }

    /// Records whether a report reached the server's queue: a reader that
    /// cannot reach the server stops.
    pub fn delivered(&mut self, enqueued: bool)
        ensures
            final(self).key() == old(self).key(),
            final(self).state() == after_delivery(old(self).state(), enqueued),
    {
        if !enqueued {
            self.state = ReaderState::Stopped;
        }
    }
}

} // verus!
