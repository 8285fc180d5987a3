//! The relay as a mathematical state machine.
//!
//! A state is a pair of finite maps; an event and the time at which it is
//! handled determine the next state and what the server answers. The
//! executable server is specified against these functions, and the theorems
//! of this crate are stated over them.
use crate::addr::{ClientKey, Origin};
use crate::bans::active_ban;
use crate::clients::ClientEntry;
use crate::config::{elapsed, Config};
use crate::notice::{ban_notice, rejection_notice};
use vstd::prelude::*;
use vstd::utf8::valid_utf8;

verus! {

/// What a server holds: the admitted clients and the recorded bans.
pub struct State {
    /// The entry of each admitted client.
    pub clients: Map<ClientKey, ClientEntry>,
    /// For each origin with a recorded ban, the time at which it began.
    pub bans: Map<Origin, u64>,
}

/// An event, as the server's rules read it.
pub enum EventView {
    /// A connection has been accepted; `peer` is its address, or `None`
    /// where the address could not be resolved.
    Connected { peer: Option<ClientKey> },
    /// The connection of `key` has ended.
    Disconnected { key: ClientKey },
    /// One chunk of bytes has arrived from `key`.
    MessageReceived { key: ClientKey, bytes: Seq<u8> },
}

/// An outcome, as the server's rules state it.
pub enum OutcomeView {
    /// Nothing was done and nothing is to be done.
    Ignored,
    /// The connection `key` is now a registered client.
    Admitted { key: ClientKey },
    /// The connection `key` was turned away: its origin is banned for
    /// another `left` milliseconds. `notice` is to be sent to it, and the
    /// connection closed.
    Rejected { key: ClientKey, left: u64, notice: Seq<u8> },
    /// The client `key` was taken out of the registry.
    Removed { key: ClientKey },
    /// The client `key` got a strike and now has `strikes` of them.
    Struck { key: ClientKey, strikes: u32 },
    /// The client `key` got the strike that bans it. `notice` is to be sent
    /// to it, and its connection closed in both directions.
    Banned { key: ClientKey, notice: Seq<u8> },
    /// `bytes` are to be written to every client in `recipients`.
    Broadcast { sender: ClientKey, recipients: Set<ClientKey>, bytes: Seq<u8> },
}

/// The entry that a client has right after admission at `now`.
pub open spec fn fresh_entry(now: u64) -> ClientEntry {
    ClientEntry { last_message: now, strikes: 0 }
}

/// A message counts as abuse when it follows the sender's last accepted
/// message by less than the message rate, or does not decode as text.
pub open spec fn is_abuse(config: Config, entry: ClientEntry, bytes: Seq<u8>, now: u64) -> bool {
    elapsed(now, entry.last_message) < config.message_rate || !valid_utf8(bytes)
}

impl State {
    /// The state of a server that has seen no event.
    pub open spec fn empty() -> State {
        State { clients: Map::empty(), bans: Map::empty() }
    }

    /// The state after a connection with address `peer` was announced.
    pub open spec fn connect(self, config: Config, peer: Option<ClientKey>, now: u64) -> State {
        match peer {
            None => self,
            Some(key) => match active_ban(self.bans, config.ban_limit, key.origin, now) {
                Some(_) => self,
                None => State {
                    clients: self.clients.insert(key, fresh_entry(now)),
                    bans: self.bans.remove(key.origin),
                },
            },
        }
    }

    /// What the server answers to the announcement of a connection.
    pub open spec fn connect_outcome(
        self,
        config: Config,
        peer: Option<ClientKey>,
        now: u64,
    ) -> OutcomeView {
        match peer {
            None => OutcomeView::Ignored,
            Some(key) => match active_ban(self.bans, config.ban_limit, key.origin, now) {
                Some(left) => OutcomeView::Rejected { key, left, notice: rejection_notice(left) },
                None => OutcomeView::Admitted { key },
            },
        }
    }

    /// The state after the connection of `key` ended.
    pub open spec fn disconnect(self, key: ClientKey) -> State {
        State { clients: self.clients.remove(key), bans: self.bans }
    }

    /// What the server answers to the end of a connection.
    pub open spec fn disconnect_outcome(self, key: ClientKey) -> OutcomeView {
        if self.clients.contains_key(key) {
            OutcomeView::Removed { key }
        } else {
            OutcomeView::Ignored
        }
    }

    /// The state after `bytes` arrived from `key`.
    pub open spec fn message(self, config: Config, key: ClientKey, bytes: Seq<u8>, now: u64) -> State {
        if !self.clients.contains_key(key) {
            self
        } else {
            let entry = self.clients[key];
            if is_abuse(config, entry, bytes, now) {
                if entry.strikes + 1 >= config.strike_limit {
                    State {
                        clients: self.clients.remove(key),
                        bans: self.bans.insert(key.origin, now),
                    }
                } else {
                    State {
                        clients: self.clients.insert(
                            key,
                            ClientEntry {
                                last_message: entry.last_message,
                                strikes: (entry.strikes + 1) as u32,
                            },
                        ),
                        bans: self.bans,
                    }
                }
            } else {
                State {
                    clients: self.clients.insert(
                        key,
                        ClientEntry { last_message: now, strikes: entry.strikes },
                    ),
                    bans: self.bans,
                }
            }
        }
    }

    /// What the server answers to `bytes` from `key`.
    pub open spec fn message_outcome(
        self,
        config: Config,
        key: ClientKey,
        bytes: Seq<u8>,
        now: u64,
    ) -> OutcomeView {
        if !self.clients.contains_key(key) {
            OutcomeView::Ignored
        } else {
            let entry = self.clients[key];
            if is_abuse(config, entry, bytes, now) {
                if entry.strikes + 1 >= config.strike_limit {
                    OutcomeView::Banned { key, notice: ban_notice() }
                } else {
                    OutcomeView::Struck { key, strikes: (entry.strikes + 1) as u32 }
                }
            } else {
                OutcomeView::Broadcast {
                    sender: key,
                    recipients: self.clients.dom().remove(key),
                    bytes,
                }
            }
        }
    }

    /// The state after `event` was handled at `now`.
    pub open spec fn step(self, config: Config, event: EventView, now: u64) -> State {
        match event {
            EventView::Connected { peer } => self.connect(config, peer, now),
            EventView::Disconnected { key } => self.disconnect(key),
            EventView::MessageReceived { key, bytes } => self.message(config, key, bytes, now),
        }
    }

    /// What the server answers to `event` at `now`.
    pub open spec fn outcome(self, config: Config, event: EventView, now: u64) -> OutcomeView {
        match event {
            EventView::Connected { peer } => self.connect_outcome(config, peer, now),
            EventView::Disconnected { key } => self.disconnect_outcome(key),
            EventView::MessageReceived { key, bytes } => self.message_outcome(
                config,
                key,
                bytes,
                now,
            ),
        }
    }
}

} // verus!
