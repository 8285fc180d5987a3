//! The server: the one owner of the client registry and the ban list.
//!
//! The server handles one event at a time. It decides and records; the
//! caller performs what the outcome asks for.
use crate::addr::{ClientKey, Origin};
use crate::bans::BanRegistry;
use crate::clients::{ClientEntry, ClientRegistry};
use crate::config::{elapsed_since, Config};
use crate::model::{EventView, OutcomeView, State};
use crate::notice::{render_ban_notice, render_rejection_notice};
use crate::text::decodes_as_text;
use vstd::prelude::*;

verus! {

/// What the readers and the acceptor report to the server.
#[derive(Debug, PartialEq, Eq)]
pub enum Event {
    /// A connection has been accepted; `peer` is its address, or `None`
    /// where the address could not be resolved.
    Connected { peer: Option<ClientKey> },
    /// The connection of `key` has ended.
    Disconnected { key: ClientKey },
    /// One chunk of bytes has arrived from `key`.
    MessageReceived { key: ClientKey, bytes: Vec<u8> },
}

impl View for Event {
    type V = EventView;

    open spec fn view(&self) -> EventView {
        match *self {
            Event::Connected { peer } => EventView::Connected { peer },
            Event::Disconnected { key } => EventView::Disconnected { key },
            Event::MessageReceived { key, bytes } => EventView::MessageReceived {
                key,
                bytes: bytes@,
            },
        }
    }
}

/// What the server did with an event, and what is left for the caller to
/// do.
#[derive(Debug, PartialEq, Eq)]
pub enum Outcome {
    /// Nothing was done and nothing is to be done.
    Ignored,
    /// The connection `key` is now a registered client.
    Admitted { key: ClientKey },
    /// The connection `key` was turned away: its origin is banned for
    /// another `left` milliseconds. The caller sends it `notice` and closes
    /// it.
    Rejected { key: ClientKey, left: u64, notice: Vec<u8> },
    /// The client `key` was taken out of the registry.
    Removed { key: ClientKey },
    /// The client `key` got a strike and now has `strikes` of them.
    Struck { key: ClientKey, strikes: u32 },
    /// The client `key` got the strike that bans it, and is no longer
    /// registered. The caller sends it `notice` and closes its connection in
    /// both directions.
    Banned { key: ClientKey, notice: Vec<u8> },
    /// The caller writes `bytes` to each of `recipients`. A write that fails
    /// is skipped; the others are still made.
    Broadcast { sender: ClientKey, recipients: Vec<ClientKey>, bytes: Vec<u8> },
}

impl View for Outcome {
    type V = OutcomeView;

    open spec fn view(&self) -> OutcomeView {
        match *self {
            Outcome::Ignored => OutcomeView::Ignored,
            Outcome::Admitted { key } => OutcomeView::Admitted { key },
            Outcome::Rejected { key, left, notice } => OutcomeView::Rejected {
                key,
                left,
                notice: notice@,
            },
            Outcome::Removed { key } => OutcomeView::Removed { key },
            Outcome::Struck { key, strikes } => OutcomeView::Struck { key, strikes },
            Outcome::Banned { key, notice } => OutcomeView::Banned { key, notice: notice@ },
            Outcome::Broadcast { sender, recipients, bytes } => OutcomeView::Broadcast {
                sender,
                recipients: recipients@.to_set(),
                bytes: bytes@,
            },
        }
    }
}

impl Outcome {
    /// No client is named twice among the recipients of a broadcast.
    pub open spec fn names_each_recipient_once(&self) -> bool {
        match *self {
            Outcome::Broadcast { recipients, .. } => recipients@.no_duplicates(),
            _ => true,
        }
    }
}

/// The state that all events act on.
pub struct Server {
    config: Config,
    clients: ClientRegistry,
    bans: BanRegistry,
}

impl View for Server {
    type V = State;

    /// The server as a state of the model.
    open spec fn view(&self) -> State {
        State { clients: self.clients()@, bans: self.bans()@ }
    }
}

impl Server {
    /// The limits that the server applies.
    pub closed spec fn config(&self) -> Config {
        self.config
    }

    /// The registry of admitted clients.
    pub closed spec fn clients(&self) -> ClientRegistry {
        self.clients
    }

    /// The ban list.
    pub closed spec fn bans(&self) -> BanRegistry {
        self.bans
    }

    /// Both registries hold each key once, and bans last as long as the
    /// configuration says.
    pub open spec fn wf(&self) -> bool {
        &&& self.clients().wf()
        &&& self.bans().wf()
        &&& self.bans().limit() == self.config().ban_limit
    }

    /// A server with no clients and no bans.
    pub fn new(config: Config) -> (server: Server)
        ensures
            server.wf(),
            server.config() == config,
            server@ == State::empty(),
    {
        Server { config, clients: ClientRegistry::new(), bans: BanRegistry::new(config.ban_limit) }
    }

    /// The limits that the server applies.
    pub fn limits(&self) -> (config: Config)
        ensures
            config == self.config(),
    {
        self.config
    }

    /// The entry of the client `key`, if it is registered.
    pub fn client(&self, key: ClientKey) -> (entry: Option<ClientEntry>)
        requires
            self.wf(),
        ensures
            entry == self@.clients.get(key),
    {
        self.clients.get(key)
    }

    /// The number of registered clients.
    pub fn client_count(&self) -> (count: usize)
        requires
            self.wf(),
        ensures
            count == self@.clients.dom().len(),
    {
        self.clients.len()
    }

    /// When the recorded ban of `origin` began, if one is recorded.
    pub fn banned_at(&self, origin: Origin) -> (at: Option<u64>)
        requires
            self.wf(),
        ensures
            at == self@.bans.get(origin),
    {
        self.bans.banned_at(origin)
    }

    /// Handles the announcement of a connection whose address is `peer`.
    ///
    /// A connection without an address is ignored. One whose origin is
    /// banned at `now` is rejected with the time that is left. Any other is
    /// admitted with a fresh entry, and a ban of its origin that has run out
    /// is forgotten.
    pub fn connect(&mut self, peer: Option<ClientKey>, now: u64) -> (outcome: Outcome)
        requires
            old(self).wf(),
        ensures
            final(self).wf(),
            final(self).config() == old(self).config(),
            final(self)@ == old(self)@.connect(old(self).config(), peer, now),
            outcome@ == old(self)@.connect_outcome(old(self).config(), peer, now),
    {
        match peer {
            None => Outcome::Ignored,
            Some(key) => match self.bans.is_banned(key.origin, now) {
                Some(left) => Outcome::Rejected {
                    key,
                    left,
                    notice: render_rejection_notice(left),
                },
                None => {
                    self.clients.insert(key, ClientEntry { last_message: now, strikes: 0 });
                    Outcome::Admitted { key }
                },
            },
        }
    }

    /// Handles the end of the connection of `key`: the client is taken out
    /// of the registry. Where it is not registered, nothing changes.
    pub fn disconnect(&mut self, key: ClientKey) -> (outcome: Outcome)
        requires
            old(self).wf(),
        ensures
            final(self).wf(),
            final(self).config() == old(self).config(),
            final(self)@ == old(self)@.disconnect(key),
            outcome@ == old(self)@.disconnect_outcome(key),
    {
        match self.clients.remove(key) {
            Some(_) => Outcome::Removed { key },
            None => Outcome::Ignored,
        }
    }

    /// Handles one chunk of bytes from `key`.
    ///
    /// A chunk from an unregistered client is ignored. One that comes too
    /// soon after the sender's last accepted message, or that is not text,
    /// earns a strike, and the strike that reaches the limit bans the
    /// sender's origin from `now` on and removes the sender. Any other chunk
    /// is accepted: the sender's rate window restarts at `now`, and the chunk
    /// goes, unchanged, to every other registered client.
    pub fn message(&mut self, key: ClientKey, bytes: Vec<u8>, now: u64) -> (outcome: Outcome)
        requires
            old(self).wf(),
        ensures
            final(self).wf(),
            final(self).config() == old(self).config(),
            final(self)@ == old(self)@.message(old(self).config(), key, bytes@, now),
            outcome@ == old(self)@.message_outcome(old(self).config(), key, bytes@, now),
            outcome.names_each_recipient_once(),
    {
        match self.clients.get(key) {
            None => Outcome::Ignored,
            Some(entry) => {
                let too_soon = elapsed_since(now, entry.last_message) < self.config.message_rate;
                if too_soon || !decodes_as_text(bytes.as_slice()) {
                    if self.config.strike_limit == 0 || entry.strikes >= self.config.strike_limit
                        - 1 {
                        self.bans.ban(key.origin, now);
                        self.clients.remove(key);
                        Outcome::Banned { key, notice: render_ban_notice() }
                    } else {
                        let strikes = entry.strikes + 1;
                        self.clients.insert(
                            key,
                            ClientEntry { last_message: entry.last_message, strikes },
                        );
                        Outcome::Struck { key, strikes }
                    }
                } else {
                    let recipients = self.clients.others(key);
                    self.clients.insert(
                        key,
                        ClientEntry { last_message: now, strikes: entry.strikes },
                    );
                    Outcome::Broadcast { sender: key, recipients, bytes }
                }
            },
        }
    }

    /// Handles `event` at the time `now`: the next state and the outcome are
    /// those that the model gives for the state before.
    pub fn handle_event(&mut self, event: Event, now: u64) -> (outcome: Outcome)
        requires
            old(self).wf(),
        ensures
            final(self).wf(),
            final(self).config() == old(self).config(),
            final(self)@ == old(self)@.step(old(self).config(), event@, now),
            outcome@ == old(self)@.outcome(old(self).config(), event@, now),
            outcome.names_each_recipient_once(),
    {
        match event {
            Event::Connected { peer } => self.connect(peer, now),
            Event::Disconnected { key } => self.disconnect(key),
            Event::MessageReceived { key, bytes } => self.message(key, bytes, now),
        }
    }
}

} // verus!
