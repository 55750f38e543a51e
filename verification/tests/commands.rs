//! Tests for the wire command shapes.

use qcert::command::{Command, PubKey};

#[test]
fn every_command_reports_its_id() {
    let from = PubKey { nonce: 1 };
    let to = PubKey { nonce: 2 };
    let cases: Vec<(Command<&str>, u64)> = vec![
        (Command::Broadcast { inner: "m", from, id: 10 }, 10),
        (Command::Direct { inner: "m", from, to, id: 11 }, 11),
        (Command::Identify { from, id: 12 }, 12),
        (Command::Ping { id: 13 }, 13),
        (Command::Ack { ack_id: 13, id: 14 }, 14),
    ];
    for (command, id) in cases {
        assert_eq!(command.id(), id);
    }
}
