//! What holds of the relay whatever the events are.
//!
//! The theorems are stated over the model of the server, which is what
//! the executable server is specified to follow, and over the registries.
use crate::addr::ClientKey;
use crate::assoc::{keys_of, lemma_domain};
use crate::bans::remaining;
use crate::clients::{ClientEntry, ClientRegistry};
use crate::config::{elapsed, Config};
use crate::model::{fresh_entry, is_abuse, EventView, OutcomeView, State};
use crate::notice::{ban_notice, rejection_notice};
use crate::reader::{
    after_failure,
    after_read,
    report_of_failure,
    report_of_read,
    ReaderState,
};
use vstd::prelude::*;
use vstd::utf8::valid_utf8;

verus! {

/// An event together with the time at which the server handles it.
pub struct Occurrence {
    pub event: EventView,
    pub at: u64,
}

/// The state that a server reaches from `state` by handling the events of
/// `trace` one after the other, in order.
pub open spec fn run(config: Config, state: State, trace: Seq<Occurrence>) -> State
    decreases trace.len(),
{
    if trace.len() == 0 {
        state
    } else {
        run(config, state, trace.drop_last()).step(config, trace.last().event, trace.last().at)
    }
}

/// Every registered client has fewer strikes than the limit, or none.
pub open spec fn strikes_below_limit(config: Config, state: State) -> bool {
    forall|key: ClientKey| #[trigger]
        state.clients.contains_key(key) ==> state.clients[key].strikes == 0
            || state.clients[key].strikes < config.strike_limit
}

/// Both maps of the state are finite.
pub open spec fn finite(state: State) -> bool {
    state.clients.dom().finite() && state.bans.dom().finite()
}

/// A well-formed registry holds each client key in exactly one entry: its
/// keys are pairwise distinct, and it has as many entries as it has keys.
pub proof fn theorem_one_entry_per_key(registry: ClientRegistry)
    requires
        registry.wf(),
    ensures
        keys_of(registry.entries()).no_duplicates(),
        keys_of(registry.entries()).to_set() == registry@.dom(),
        registry.entries().len() == registry@.dom().len(),
{
    lemma_domain(registry.entries());
}

/// Handling one event changes the registry at no key but the one that the
/// event names: every other client keeps its entry, and none appears or
/// disappears.
pub proof fn theorem_step_touches_one_key(
    config: Config,
    state: State,
    event: EventView,
    now: u64,
    other: ClientKey,
)
    requires
        match event {
            EventView::Connected { peer } => peer != Some(other),
            EventView::Disconnected { key } => key != other,
            EventView::MessageReceived { key, .. } => key != other,
        },
    ensures
        state.step(config, event, now).clients.contains_key(other) == state.clients.contains_key(
            other,
        ),
        state.step(config, event, now).clients.get(other) == state.clients.get(other),
{
}

/// Handling one event keeps the state finite and the strikes of every
/// registered client below the limit.
pub proof fn theorem_step_keeps_invariants(config: Config, state: State, event: EventView, now: u64)
    requires
        finite(state),
        strikes_below_limit(config, state),
    ensures
        finite(state.step(config, event, now)),
        strikes_below_limit(config, state.step(config, event, now)),
{
    let next = state.step(config, event, now);
    assert forall|key: ClientKey| #[trigger] next.clients.contains_key(key) implies next.clients[key].strikes
        == 0 || next.clients[key].strikes < config.strike_limit by {
        if state.clients.contains_key(key) {
            assert(state.clients[key].strikes == 0 || state.clients[key].strikes
                < config.strike_limit);
        }
    }
}

/// Handling two traces one after the other is handling their
/// concatenation: the state depends on the events handled and on their
/// order, and on nothing else.
pub proof fn theorem_run_composes(
    config: Config,
    state: State,
    first: Seq<Occurrence>,
    second: Seq<Occurrence>,
)
    ensures
        run(config, state, first + second) == run(config, run(config, state, first), second),
    decreases second.len(),
{
    if second.len() == 0 {
        assert(first + second =~= first);
    } else {
        assert((first + second).drop_last() =~= first + second.drop_last());
        assert((first + second).last() == second.last());
        theorem_run_composes(config, state, first, second.drop_last());
    }
}

/// Whatever the events and their order, a server that starts without
/// clients stays finite, and no registered client reaches the strike
/// limit.
pub proof fn theorem_run_keeps_invariants(config: Config, trace: Seq<Occurrence>)
    ensures
        finite(run(config, State::empty(), trace)),
        strikes_below_limit(config, run(config, State::empty(), trace)),
    decreases trace.len(),
{
    if trace.len() > 0 {
        theorem_run_keeps_invariants(config, trace.drop_last());
        theorem_step_keeps_invariants(
            config,
            run(config, State::empty(), trace.drop_last()),
            trace.last().event,
            trace.last().at,
        );
    }
}

/// A broadcast never goes back to its sender: the recipients are the
/// clients registered when the message arrived, without the sender.
pub proof fn theorem_no_self_delivery(config: Config, state: State, event: EventView, now: u64)
    ensures
        match state.outcome(config, event, now) {
            OutcomeView::Broadcast { sender, recipients, bytes } => {
                &&& event == (EventView::MessageReceived { key: sender, bytes })
                &&& !recipients.contains(sender)
                &&& recipients == state.clients.dom().remove(sender)
            },
            _ => true,
        },
{
}

/// While a client stays registered its strikes never go down, whatever
/// event is handled, unless the event is a new connection under the
/// client's own key, which replaces the entry.
pub proof fn theorem_strikes_never_decrease(
    config: Config,
    state: State,
    event: EventView,
    now: u64,
    key: ClientKey,
)
    requires
        state.clients.contains_key(key),
        state.step(config, event, now).clients.contains_key(key),
        event != (EventView::Connected { peer: Some(key) }),
    ensures
        state.step(config, event, now).clients[key].strikes >= state.clients[key].strikes,
{
}

/// Over any trace through which a client stays registered and is not
/// connected anew, its strikes at the end are at least its strikes at the
/// start.
pub proof fn theorem_strikes_never_decrease_over_trace(
    config: Config,
    state: State,
    trace: Seq<Occurrence>,
    key: ClientKey,
)
    requires
        forall|n: int|
            0 <= n <= trace.len() ==> (#[trigger] run(config, state, trace.take(n))).clients.contains_key(
                key,
            ),
        forall|n: int|
            0 <= n < trace.len() ==> (#[trigger] trace[n]).event != (EventView::Connected {
                peer: Some(key),
            }),
    ensures
        run(config, state, trace).clients.contains_key(key),
        run(config, state, trace).clients[key].strikes >= state.clients[key].strikes,
    decreases trace.len(),
{
    assert(trace.take(trace.len() as int) =~= trace);
    assert(run(config, state, trace.take(trace.len() as int)).clients.contains_key(key));
    assert(trace.take(0) =~= Seq::<Occurrence>::empty());
    assert(run(config, state, trace.take(0)) == state);
    if trace.len() > 0 {
        let shorter = trace.drop_last();
        assert forall|n: int| 0 <= n <= shorter.len() implies (#[trigger] run(
            config,
            state,
            shorter.take(n),
        )).clients.contains_key(key) by {
            assert(shorter.take(n) =~= trace.take(n));
        }
        assert forall|n: int| 0 <= n < shorter.len() implies (#[trigger] shorter[n]).event != (
        EventView::Connected { peer: Some(key) }) by {
            assert(shorter[n] == trace[n]);
        }
        theorem_strikes_never_decrease_over_trace(config, state, shorter, key);
        assert(trace.last() == trace[trace.len() - 1]);
        theorem_strikes_never_decrease(
            config,
            run(config, state, shorter),
            trace.last().event,
            trace.last().at,
            key,
        );
    }
}

/// The strike that reaches the limit bans: the sender leaves the registry,
/// its origin is recorded as banned from that moment, everyone else keeps
/// their entry, and nothing is broadcast.
pub proof fn theorem_last_strike_bans(
    config: Config,
    state: State,
    key: ClientKey,
    bytes: Seq<u8>,
    now: u64,
)
    requires
        state.clients.contains_key(key),
        is_abuse(config, state.clients[key], bytes, now),
        state.clients[key].strikes + 1 >= config.strike_limit,
    ensures
        !state.message(config, key, bytes, now).clients.contains_key(key),
        state.message(config, key, bytes, now).clients == state.clients.remove(key),
        state.message(config, key, bytes, now).bans == state.bans.insert(key.origin, now),
        state.message_outcome(config, key, bytes, now) == (OutcomeView::Banned {
            key,
            notice: ban_notice(),
        }),
{
}

/// A client that keeps abusing is banned by the strike that reaches the
/// limit and by none before it: of `count` abusive messages in a row, the
/// first `count - 1` each add one strike and change nothing else, and the
/// last one bans, where `count` is what the client was short of the limit.
pub proof fn theorem_strikes_add_up_to_a_ban(
    config: Config,
    state: State,
    key: ClientKey,
    trace: Seq<Occurrence>,
)
    requires
        state.clients.contains_key(key),
        state.clients[key].strikes < config.strike_limit,
        trace.len() == config.strike_limit - state.clients[key].strikes,
        forall|n: int|
            0 <= n < trace.len() ==> match (#[trigger] trace[n]).event {
                EventView::MessageReceived { key: sender, bytes } => sender == key && is_abuse(
                    config,
                    state.clients[key],
                    bytes,
                    trace[n].at,
                ),
                _ => false,
            },
    ensures
        forall|n: int|
            0 <= n < trace.len() ==> (#[trigger] run(config, state, trace.take(n))) == (State {
                clients: state.clients.insert(
                    key,
                    ClientEntry {
                        last_message: state.clients[key].last_message,
                        strikes: (state.clients[key].strikes + n) as u32,
                    },
                ),
                bans: state.bans,
            }),
        run(config, state, trace) == (State {
            clients: state.clients.remove(key),
            bans: state.bans.insert(key.origin, trace.last().at),
        }),
{
    let entry = state.clients[key];
    assert forall|n: int| 0 <= n < trace.len() implies (#[trigger] run(
        config,
        state,
        trace.take(n),
    )) == (State {
        clients: state.clients.insert(
            key,
            ClientEntry { last_message: entry.last_message, strikes: (entry.strikes + n) as u32 },
        ),
        bans: state.bans,
    }) by {
        lemma_strikes_add_up(config, state, key, trace, n);
    }
    let n = trace.len() - 1;
    lemma_strikes_add_up(config, state, key, trace, n);
    assert(trace.drop_last() =~= trace.take(n));
    assert(trace.last() == trace[n]);
    let before = run(config, state, trace.take(n));
    let after = before.step(config, trace.last().event, trace.last().at);
    assert(after.clients =~= state.clients.remove(key));
}

proof fn lemma_strikes_add_up(
    config: Config,
    state: State,
    key: ClientKey,
    trace: Seq<Occurrence>,
    n: int,
)
    requires
        state.clients.contains_key(key),
        0 <= n < trace.len(),
        trace.len() == config.strike_limit - state.clients[key].strikes,
        forall|m: int|
            0 <= m < trace.len() ==> match (#[trigger] trace[m]).event {
                EventView::MessageReceived { key: sender, bytes } => sender == key && is_abuse(
                    config,
                    state.clients[key],
                    bytes,
                    trace[m].at,
                ),
                _ => false,
            },
    ensures
        run(config, state, trace.take(n)) == (State {
            clients: state.clients.insert(
                key,
                ClientEntry {
                    last_message: state.clients[key].last_message,
                    strikes: (state.clients[key].strikes + n) as u32,
                },
            ),
            bans: state.bans,
        }),
    decreases n,
{
    let entry = state.clients[key];
    if n == 0 {
        assert(state.clients.insert(key, entry) =~= state.clients);
    } else {
        lemma_strikes_add_up(config, state, key, trace, n - 1);
        let prefix = trace.take(n);
        assert(prefix.drop_last() =~= trace.take(n - 1));
        assert(prefix.last() == trace[n - 1]);
        let before = run(config, state, trace.take(n - 1));
        let after = before.step(config, trace[n - 1].event, trace[n - 1].at);
        assert(before.clients[key].last_message == entry.last_message);
        assert(after.clients =~= state.clients.insert(
            key,
            ClientEntry { last_message: entry.last_message, strikes: (entry.strikes + n) as u32 },
        ));
    }
}

/// While a ban runs, every connection from the banned origin is turned
/// away: the state stays as it is, and the outcome states the time that is
/// left, which is the length of the ban less the time passed since it
/// began.
pub proof fn theorem_banned_origin_is_rejected(
    config: Config,
    state: State,
    key: ClientKey,
    now: u64,
)
    requires
        state.bans.contains_key(key.origin),
        elapsed(now, state.bans[key.origin]) < config.ban_limit,
    ensures
        state.connect(config, Some(key), now) == state,
        state.connect_outcome(config, Some(key), now) == (OutcomeView::Rejected {
            key,
            left: (config.ban_limit - elapsed(now, state.bans[key.origin])) as u64,
            notice: rejection_notice(
                (config.ban_limit - elapsed(now, state.bans[key.origin])) as u64,
            ),
        }),
{
}

/// The time left of a ban never grows from one attempt to a later one, and
/// shrinks by exactly the time between them once the ban has begun.
pub proof fn theorem_time_left_decreases(limit: u64, banned_at: u64, earlier: u64, later: u64)
    requires
        earlier <= later,
        remaining(limit, banned_at, later) is Some,
    ensures
        remaining(limit, banned_at, earlier) is Some,
        remaining(limit, banned_at, later)->0 <= remaining(limit, banned_at, earlier)->0,
        banned_at <= earlier ==> remaining(limit, banned_at, earlier)->0 - remaining(
            limit,
            banned_at,
            later,
        )->0 == later - earlier,
{
}

/// Once a ban has run out, or where there is none, a connection is
/// admitted as any other: it gets a fresh entry, and the record of the ban
/// is gone.
pub proof fn theorem_unbanned_origin_is_admitted(
    config: Config,
    state: State,
    key: ClientKey,
    now: u64,
)
    requires
        state.bans.contains_key(key.origin) ==> elapsed(now, state.bans[key.origin])
            >= config.ban_limit,
    ensures
        state.connect_outcome(config, Some(key), now) == (OutcomeView::Admitted { key }),
        state.connect(config, Some(key), now).clients == state.clients.insert(
            key,
            fresh_entry(now),
        ),
        !state.connect(config, Some(key), now).bans.contains_key(key.origin),
{
}

/// From the banning strike to the end of the ban: the strike that reaches
/// the limit at `banned_at` bans the sender; a connection from its origin
/// at any `during` before the ban has run out is rejected and leaves the
/// state as it is; a connection at any `after` at which the ban has run out
/// is admitted.
pub proof fn theorem_ban_round_trip(
    config: Config,
    state: State,
    key: ClientKey,
    bytes: Seq<u8>,
    banned_at: u64,
    again: ClientKey,
    during: u64,
    after: u64,
)
    requires
        state.clients.contains_key(key),
        is_abuse(config, state.clients[key], bytes, banned_at),
        state.clients[key].strikes + 1 >= config.strike_limit,
        again.origin == key.origin,
        elapsed(during, banned_at) < config.ban_limit,
        elapsed(after, banned_at) >= config.ban_limit,
    ensures
        ({
            let banned = state.message(config, key, bytes, banned_at);
            let left = (config.ban_limit - elapsed(during, banned_at)) as u64;
            &&& !banned.clients.contains_key(key)
            &&& banned.connect(config, Some(again), during) == banned
            &&& banned.connect_outcome(config, Some(again), during) == (OutcomeView::Rejected {
                key: again,
                left,
                notice: rejection_notice(left),
            })
            &&& banned.connect_outcome(config, Some(again), after) == (OutcomeView::Admitted {
                key: again,
            })
            &&& banned.connect(config, Some(again), after).clients.contains_key(again)
            &&& banned.connect(config, Some(again), after).clients[again] == fresh_entry(after)
        }),
{
}

/// A message of text that keeps the rate is broadcast and restarts the
/// sender's rate window, and the window decides about the next one: text
/// that follows by less than the message rate is a strike and is not
/// broadcast; text that follows by the message rate or more is broadcast
/// and restarts the window again.
pub proof fn theorem_rate_window(
    config: Config,
    state: State,
    key: ClientKey,
    first: Seq<u8>,
    first_at: u64,
    second: Seq<u8>,
    second_at: u64,
)
    requires
        state.clients.contains_key(key),
        valid_utf8(first),
        valid_utf8(second),
        elapsed(first_at, state.clients[key].last_message) >= config.message_rate,
    ensures
        ({
            let entry = state.clients[key];
            let between = state.message(config, key, first, first_at);
            let last = between.message(config, key, second, second_at);
            let answer = between.message_outcome(config, key, second, second_at);
            &&& state.message_outcome(config, key, first, first_at) == (OutcomeView::Broadcast {
                sender: key,
                recipients: state.clients.dom().remove(key),
                bytes: first,
            })
            &&& between.clients.contains_key(key)
            &&& between.clients[key] == (ClientEntry {
                last_message: first_at,
                strikes: entry.strikes,
            })
            &&& elapsed(second_at, first_at) < config.message_rate ==> {
                &&& !(answer is Broadcast)
                &&& if entry.strikes + 1 >= config.strike_limit {
                    answer == (OutcomeView::Banned { key, notice: ban_notice() })
                        && !last.clients.contains_key(key)
                } else {
                    &&& answer == (OutcomeView::Struck { key, strikes: (entry.strikes + 1) as u32 })
                    &&& last.clients.contains_key(key)
                    &&& last.clients[key] == (ClientEntry {
                        last_message: first_at,
                        strikes: (entry.strikes + 1) as u32,
                    })
                }
            }
            &&& elapsed(second_at, first_at) >= config.message_rate ==> {
                &&& answer == (OutcomeView::Broadcast {
                    sender: key,
                    recipients: state.clients.dom().remove(key),
                    bytes: second,
                })
                &&& last.clients.contains_key(key)
                &&& last.clients[key] == (ClientEntry {
                    last_message: second_at,
                    strikes: entry.strikes,
                })
            }
        }),
{
    let between = state.message(config, key, first, first_at);
    assert(between.clients.dom().remove(key) =~= state.clients.dom().remove(key));
}

/// The end of a connection may be reported any number of times: a report
/// for a client that is not registered changes nothing and is ignored, and
/// so a second report does after the first.
pub proof fn theorem_disconnect_is_idempotent(state: State, key: ClientKey)
    ensures
        !state.clients.contains_key(key) ==> state.disconnect(key) == state
            && state.disconnect_outcome(key) == OutcomeView::Ignored,
        state.disconnect(key).disconnect(key) == state.disconnect(key),
        state.disconnect(key).disconnect_outcome(key) == OutcomeView::Ignored,
{
    assert(state.clients.remove(key).remove(key) =~= state.clients.remove(key));
    if !state.clients.contains_key(key) {
        assert(state.clients.remove(key) =~= state.clients);
    }
}

/// A reader reports the end of its connection at most once: with that
/// report it stops, and a stopped reader reports nothing, whatever it is
/// given.
pub proof fn theorem_reader_reports_the_end_once(key: ClientKey, state: ReaderState, chunk: Seq<u8>)
    ensures
        report_of_read(key, state, chunk) == Some(EventView::Disconnected { key }) ==> after_read(
            state,
            chunk,
        ) == ReaderState::Stopped,
        report_of_failure(key, state) is Some ==> after_failure(state) == ReaderState::Stopped,
        report_of_read(key, ReaderState::Stopped, chunk) is None,
        report_of_failure(key, ReaderState::Stopped) is None,
        after_read(ReaderState::Stopped, chunk) == ReaderState::Stopped,
        after_failure(ReaderState::Stopped) == ReaderState::Stopped,
{
}

} // verus!
