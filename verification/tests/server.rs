use chat_relay::addr::{ClientKey, Origin};
use chat_relay::clients::ClientEntry;
use chat_relay::config::{Config, BAN_LIMIT, MESSAGE_RATE, STRIKE_LIMIT};
use chat_relay::server::{Event, Outcome, Server};

fn key(host: u32, port: u16) -> ClientKey {
    ClientKey { origin: Origin::V4(host), port }
}

fn config(strike_limit: u32) -> Config {
    Config { ban_limit: 600_000, message_rate: 1_000, strike_limit }
}

fn connected(key: ClientKey) -> Event {
    Event::Connected { peer: Some(key) }
}

fn message(key: ClientKey, text: &str) -> Event {
    Event::MessageReceived { key, bytes: text.as_bytes().to_vec() }
}

fn sorted(mut keys: Vec<ClientKey>) -> Vec<ClientKey> {
    keys.sort_by_key(|k| k.port);
    keys
}

#[test]
fn default_config_has_the_documented_limits() {
    let config = Config::default();
    assert_eq!(config.ban_limit, 600_000);
    assert_eq!(config.message_rate, 1_000);
    assert_eq!(config.strike_limit, 10);
    assert_eq!(BAN_LIMIT, 600_000);
    assert_eq!(MESSAGE_RATE, 1_000);
    assert_eq!(STRIKE_LIMIT, 10);
    assert_eq!(Server::new(config).limits(), config);
}

#[test]
fn new_server_has_no_clients() {
    let server = Server::new(Config::default());
    assert_eq!(server.client_count(), 0);
    assert_eq!(server.client(key(1, 1)), None);
    assert_eq!(server.banned_at(Origin::V4(1)), None);
}

#[test]
fn hello_reaches_the_others_and_world_is_a_strike() {
    let (a, b, c) = (key(1, 5000), key(2, 5001), key(3, 5002));
    let mut server = Server::new(Config::default());
    assert_eq!(server.handle_event(connected(a), 0), Outcome::Admitted { key: a });
    assert_eq!(server.handle_event(connected(b), 10), Outcome::Admitted { key: b });
    assert_eq!(server.handle_event(connected(c), 20), Outcome::Admitted { key: c });
    assert_eq!(server.client_count(), 3);

    match server.handle_event(message(a, "hello"), 1_000) {
        Outcome::Broadcast { sender, recipients, bytes } => {
            assert_eq!(sender, a);
            assert_eq!(sorted(recipients), vec![b, c]);
            assert_eq!(bytes, b"hello".to_vec());
        }
        other => panic!("expected a broadcast, got {:?}", other),
    }
    assert_eq!(server.client(a), Some(ClientEntry { last_message: 1_000, strikes: 0 }));

    assert_eq!(
        server.handle_event(message(a, "world"), 1_200),
        Outcome::Struck { key: a, strikes: 1 }
    );
    assert_eq!(server.client(a), Some(ClientEntry { last_message: 1_000, strikes: 1 }));
    assert_eq!(server.client(b), Some(ClientEntry { last_message: 10, strikes: 0 }));
    assert_eq!(server.client(c), Some(ClientEntry { last_message: 20, strikes: 0 }));
}

#[test]
fn sender_is_never_among_the_recipients() {
    let mut server = Server::new(Config::default());
    let keys: Vec<ClientKey> = (0..6).map(|i| key(i, 7000 + i as u16)).collect();
    for k in &keys {
        server.handle_event(connected(*k), 0);
    }
    let mut now = 1_000;
    for k in &keys {
        match server.handle_event(message(*k, "hi"), now) {
            Outcome::Broadcast { sender, recipients, .. } => {
                assert_eq!(sender, *k);
                assert!(!recipients.contains(k));
                assert_eq!(recipients.len(), 5);
                let expected: Vec<ClientKey> = keys.iter().copied().filter(|o| o != k).collect();
                assert_eq!(sorted(recipients), expected);
            }
            other => panic!("expected a broadcast, got {:?}", other),
        }
        now += 1;
    }
}

#[test]
fn a_lone_client_broadcasts_to_nobody() {
    let a = key(1, 1);
    let mut server = Server::new(Config::default());
    server.handle_event(connected(a), 0);
    assert_eq!(
        server.handle_event(message(a, "anyone?"), 5_000),
        Outcome::Broadcast { sender: a, recipients: vec![], bytes: b"anyone?".to_vec() }
    );
}

#[test]
fn connecting_twice_keeps_one_entry() {
    let a = key(9, 9);
    let mut server = Server::new(Config::default());
    assert_eq!(server.handle_event(connected(a), 0), Outcome::Admitted { key: a });
    assert_eq!(server.handle_event(message(a, "x"), 1), Outcome::Struck { key: a, strikes: 1 });
    assert_eq!(server.handle_event(connected(a), 50), Outcome::Admitted { key: a });
    assert_eq!(server.client_count(), 1);
    assert_eq!(server.client(a), Some(ClientEntry { last_message: 50, strikes: 0 }));
}

#[test]
fn unresolved_connection_is_ignored() {
    let mut server = Server::new(Config::default());
    assert_eq!(server.handle_event(Event::Connected { peer: None }, 5), Outcome::Ignored);
    assert_eq!(server.client_count(), 0);
}

#[test]
fn message_from_unknown_client_is_ignored() {
    let (a, b) = (key(1, 1), key(2, 2));
    let mut server = Server::new(Config::default());
    server.handle_event(connected(a), 0);
    assert_eq!(server.handle_event(message(b, "hi"), 5_000), Outcome::Ignored);
    assert_eq!(server.client_count(), 1);
    assert_eq!(server.client(a), Some(ClientEntry { last_message: 0, strikes: 0 }));
}

#[test]
fn strikes_only_grow_while_registered() {
    let (a, b) = (key(1, 1), key(2, 2));
    let mut server = Server::new(Config::default());
    server.handle_event(connected(a), 0);
    server.handle_event(connected(b), 0);
    let mut last = 0;
    let events = vec![
        (message(a, "fast"), 10),
        (message(b, "fine"), 2_000),
        (message(a, "fine"), 3_000),
        (Event::Disconnected { key: b }, 3_001),
        (message(a, "fast"), 3_002),
        (Event::Connected { peer: None }, 3_003),
        (message(a, "fine"), 9_000),
        (message(a, "fast"), 9_001),
    ];
    for (event, now) in events {
        server.handle_event(event, now);
        let strikes = server.client(a).expect("a stays registered").strikes;
        assert!(strikes >= last);
        last = strikes;
    }
    assert_eq!(last, 3);
}

#[test]
fn third_strike_bans_and_the_ban_runs_out() {
    let a = key(77, 4000);
    let origin = Origin::V4(77);
    let mut server = Server::new(config(3));
    assert_eq!(server.handle_event(connected(a), 0), Outcome::Admitted { key: a });
    // too fast
    assert_eq!(server.handle_event(message(a, "one"), 100), Outcome::Struck { key: a, strikes: 1 });
    // malformed, though slow enough
    assert_eq!(
        server.handle_event(Event::MessageReceived { key: a, bytes: vec![0xff, 0xfe] }, 5_000),
        Outcome::Struck { key: a, strikes: 2 }
    );
    // an accepted message restarts the window and keeps the strikes
    assert_eq!(
        server.handle_event(message(a, "two and a half"), 5_050),
        Outcome::Broadcast { sender: a, recipients: vec![], bytes: b"two and a half".to_vec() }
    );
    assert_eq!(server.client(a), Some(ClientEntry { last_message: 5_050, strikes: 2 }));
    // too fast again
    assert_eq!(
        server.handle_event(message(a, "three"), 5_100),
        Outcome::Banned { key: a, notice: b"You are banned MF\n".to_vec() }
    );
    assert_eq!(server.client(a), None);
    assert_eq!(server.client_count(), 0);
    assert_eq!(server.banned_at(origin), Some(5_100));

    // the reader notices the closed socket
    assert_eq!(server.handle_event(Event::Disconnected { key: a }, 5_101), Outcome::Ignored);

    let again = key(77, 4001);
    assert_eq!(
        server.handle_event(connected(again), 105_100),
        Outcome::Rejected {
            key: again,
            left: 500_000,
            notice: b"your are banned MF: 500 secs left\n".to_vec()
        }
    );
    assert_eq!(
        server.handle_event(connected(again), 405_600),
        Outcome::Rejected {
            key: again,
            left: 199_500,
            notice: b"your are banned MF: 199 secs left\n".to_vec()
        }
    );
    assert_eq!(
        server.handle_event(connected(again), 605_099),
        Outcome::Rejected {
            key: again,
            left: 1,
            notice: b"your are banned MF: 0 secs left\n".to_vec()
        }
    );
    assert_eq!(server.client_count(), 0);
    assert_eq!(server.banned_at(origin), Some(5_100));

    assert_eq!(server.handle_event(connected(again), 605_100), Outcome::Admitted { key: again });
    assert_eq!(server.client(again), Some(ClientEntry { last_message: 605_100, strikes: 0 }));
    assert_eq!(server.banned_at(origin), None);
}

#[test]
fn remaining_time_never_grows_between_attempts() {
    let a = key(5, 1);
    let mut server = Server::new(config(1));
    server.handle_event(connected(a), 0);
    assert!(matches!(server.handle_event(message(a, "x"), 1), Outcome::Banned { .. }));
    let mut previous = u64::MAX;
    for now in [1u64, 2, 1_000, 1_000, 250_000, 600_000] {
        match server.handle_event(connected(a), now) {
            Outcome::Rejected { left, .. } => {
                assert_eq!(left, 600_000 - (now - 1));
                assert!(left <= previous);
                previous = left;
            }
            other => panic!("expected a rejection, got {:?}", other),
        }
    }
}

#[test]
fn ban_is_by_origin_not_by_port() {
    let (a1, a2, b) = (key(1, 10), key(1, 11), key(2, 10));
    let mut server = Server::new(config(1));
    server.handle_event(connected(a1), 0);
    assert!(matches!(server.handle_event(message(a1, "x"), 1), Outcome::Banned { .. }));
    assert!(matches!(server.handle_event(connected(a2), 2), Outcome::Rejected { .. }));
    assert_eq!(server.handle_event(connected(b), 2), Outcome::Admitted { key: b });
    let v6 = ClientKey { origin: Origin::V6(1), port: 10 };
    assert_eq!(server.handle_event(connected(v6), 2), Outcome::Admitted { key: v6 });
}

#[test]
fn a_second_ban_restarts_the_clock() {
    let (a1, a2) = (key(1, 10), key(1, 11));
    let mut server = Server::new(config(1));
    server.handle_event(connected(a1), 0);
    server.handle_event(connected(a2), 0);
    assert!(matches!(server.handle_event(message(a1, "x"), 100), Outcome::Banned { .. }));
    assert_eq!(server.banned_at(Origin::V4(1)), Some(100));
    assert!(matches!(server.handle_event(message(a2, "x"), 200), Outcome::Banned { .. }));
    assert_eq!(server.banned_at(Origin::V4(1)), Some(200));
}

#[test]
fn zero_strike_limit_bans_on_first_abuse() {
    let a = key(1, 1);
    let mut server = Server::new(config(0));
    server.handle_event(connected(a), 0);
    assert!(matches!(server.handle_event(message(a, "ok"), 1_000), Outcome::Broadcast { .. }));
    assert!(matches!(server.handle_event(message(a, "fast"), 1_001), Outcome::Banned { .. }));
}

#[test]
fn zero_ban_limit_never_rejects() {
    let a = key(1, 1);
    let mut server =
        Server::new(Config { ban_limit: 0, message_rate: 1_000, strike_limit: 1 });
    server.handle_event(connected(a), 0);
    assert!(matches!(server.handle_event(message(a, "x"), 1), Outcome::Banned { .. }));
    assert_eq!(server.handle_event(connected(a), 1), Outcome::Admitted { key: a });
}

#[test]
fn messages_closer_than_the_rate_strike_the_second() {
    let (a, b) = (key(1, 1), key(2, 2));
    let mut server = Server::new(Config::default());
    server.handle_event(connected(a), 0);
    server.handle_event(connected(b), 0);
    assert!(matches!(server.handle_event(message(a, "first"), 1_000), Outcome::Broadcast { .. }));
    assert_eq!(
        server.handle_event(message(a, "second"), 1_999),
        Outcome::Struck { key: a, strikes: 1 }
    );
    // the strike did not move the window
    assert_eq!(server.client(a), Some(ClientEntry { last_message: 1_000, strikes: 1 }));
    assert!(matches!(server.handle_event(message(a, "third"), 2_000), Outcome::Broadcast { .. }));
}

#[test]
fn messages_at_the_rate_are_both_broadcast() {
    let (a, b) = (key(1, 1), key(2, 2));
    let mut server = Server::new(Config::default());
    server.handle_event(connected(a), 0);
    server.handle_event(connected(b), 0);
    assert_eq!(
        server.handle_event(message(a, "first"), 1_000),
        Outcome::Broadcast { sender: a, recipients: vec![b], bytes: b"first".to_vec() }
    );
    assert_eq!(server.client(a), Some(ClientEntry { last_message: 1_000, strikes: 0 }));
    assert_eq!(
        server.handle_event(message(a, "second"), 2_000),
        Outcome::Broadcast { sender: a, recipients: vec![b], bytes: b"second".to_vec() }
    );
    assert_eq!(server.client(a), Some(ClientEntry { last_message: 2_000, strikes: 0 }));
}

#[test]
fn clock_going_backwards_counts_as_no_time_passed() {
    let a = key(1, 1);
    let mut server = Server::new(config(2));
    server.handle_event(connected(a), 10_000);
    assert_eq!(server.handle_event(message(a, "x"), 4_000), Outcome::Struck { key: a, strikes: 1 });
    assert!(matches!(server.handle_event(message(a, "x"), 3_000), Outcome::Banned { .. }));
    assert_eq!(server.banned_at(Origin::V4(1)), Some(3_000));
    assert_eq!(
        server.handle_event(connected(a), 0),
        Outcome::Rejected {
            key: a,
            left: 600_000,
            notice: b"your are banned MF: 600 secs left\n".to_vec()
        }
    );
}

#[test]
fn disconnecting_twice_changes_nothing_more() {
    let (a, b) = (key(1, 1), key(2, 2));
    let mut server = Server::new(Config::default());
    server.handle_event(connected(a), 0);
    server.handle_event(connected(b), 0);
    assert_eq!(server.handle_event(Event::Disconnected { key: a }, 1), Outcome::Removed { key: a });
    assert_eq!(server.client_count(), 1);
    assert_eq!(server.handle_event(Event::Disconnected { key: a }, 2), Outcome::Ignored);
    assert_eq!(server.handle_event(Event::Disconnected { key: a }, 3), Outcome::Ignored);
    assert_eq!(server.client_count(), 1);
    assert_eq!(server.client(a), None);
    assert_eq!(server.client(b), Some(ClientEntry { last_message: 0, strikes: 0 }));
    assert_eq!(server.disconnect(key(3, 3)), Outcome::Ignored);
}

#[test]
fn text_that_is_not_utf8_is_a_strike() {
    let (a, b) = (key(1, 1), key(2, 2));
    let mut server = Server::new(Config::default());
    server.handle_event(connected(a), 0);
    server.handle_event(connected(b), 0);
    // a truncated two-byte sequence
    assert_eq!(server.message(a, vec![b'o', b'k', 0xc3], 5_000), Outcome::Struck { key: a, strikes: 1 });
    // an overlong encoding of '/'
    assert_eq!(server.message(a, vec![0xc0, 0xaf], 10_000), Outcome::Struck { key: a, strikes: 2 });
    // a surrogate
    assert_eq!(server.message(a, vec![0xed, 0xa0, 0x80], 15_000), Outcome::Struck { key: a, strikes: 3 });
    // well-formed text of several widths
    let text = "h\u{e9}llo \u{4e16}\u{754c} \u{1f600}".as_bytes().to_vec();
    assert_eq!(
        server.message(a, text.clone(), 20_000),
        Outcome::Broadcast { sender: a, recipients: vec![b], bytes: text }
    );
}

#[test]
fn empty_message_is_text() {
    let (a, b) = (key(1, 1), key(2, 2));
    let mut server = Server::new(Config::default());
    server.connect(Some(a), 0);
    server.connect(Some(b), 0);
    assert_eq!(
        server.message(a, vec![], 1_000),
        Outcome::Broadcast { sender: a, recipients: vec![b], bytes: vec![] }
    );
}
