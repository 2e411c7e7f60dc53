use dz_publisher_runtime::duration::Duration;
use dz_publisher_runtime::observer::DisconnectReason;
use dz_publisher_runtime::replay::{
    path_error, settle, Found, IngressError, ReplayInput, UpstreamMessage,
};

fn file(name: &str, bytes: &[u8]) -> Found {
    Found {
        name: name.as_bytes().to_vec(),
        shown: format!("fixtures/{name}"),
        read: Ok(bytes.to_vec()),
    }
}

#[test]
fn payloads_are_replayed_in_name_order_and_once() {
    let mut replay = ReplayInput::open(
        "ws",
        "fixtures",
        vec![file("9.json", b"nine"), file("10.json", b"ten"), file("a", b"")],
    )
    .expect("three payloads");
    assert_eq!(replay.connection(), "ws");
    assert_eq!(replay.remaining(), 3);
    assert_eq!(replay.names(), ["10.json", "9.json", "a"]);
    assert_eq!(
        replay.line("fixtures"),
        "replaying 3 payloads as `ws` from fixtures: 10.json, 9.json, a"
    );
    assert!(replay.connect().is_ok());

    let mut lines = Vec::new();
    let mut bytes = Vec::new();
    for _ in 0..3 {
        let received = replay.recv().expect("a payload is left");
        assert_eq!(received.ts_ns, None);
        bytes.push(received.bytes.clone());
        lines.push(received.line);
    }
    assert_eq!(bytes, [b"ten".to_vec(), b"nine".to_vec(), Vec::new()]);
    assert_eq!(
        lines,
        [
            "  replayed 10.json (3 bytes), 2 left",
            "  replayed 9.json (4 bytes), 1 left",
            "  replayed a (0 bytes), 0 left"
        ]
    );

    // Spent: it ends, it stays ended, and it does not connect again.
    for _ in 0..2 {
        match replay.recv() {
            Err(IngressError::Ended { reason, detail }) => {
                assert_eq!(reason, DisconnectReason::RemoteClose);
                assert_eq!(detail, "the recording's 3 payloads are spent");
            }
            other => panic!("there is nothing left: {other:?}"),
        }
    }
    match replay.connect() {
        Err(IngressError::Fatal { detail }) => {
            assert_eq!(detail, "a replay does not reconnect; its payloads are spent");
        }
        other => panic!("to connect again would be to replay: {other:?}"),
    }
    assert_eq!(replay.remaining(), 0);
}

#[test]
fn a_directory_that_holds_nothing_is_refused() {
    match ReplayInput::open("ws", "fixtures", Vec::new()) {
        Err(IngressError::Fatal { detail }) => {
            assert_eq!(detail, "fixtures holds no payload to replay");
        }
        other => panic!("it would publish nothing: {other:?}"),
    }
}

#[test]
fn the_first_file_that_cannot_be_read_is_named() {
    let unreadable = |name: &str| Found {
        name: name.as_bytes().to_vec(),
        shown: format!("fixtures/{name}"),
        read: Err("permission denied".to_owned()),
    };
    match ReplayInput::open(
        "ws",
        "fixtures",
        vec![unreadable("c"), file("a", b"1"), unreadable("b")],
    ) {
        Err(IngressError::Fatal { detail }) => {
            assert_eq!(detail, "fixtures/b: permission denied");
        }
        other => panic!("a file could not be read: {other:?}"),
    }
    assert_eq!(path_error("fixtures", "not found"), "fixtures: not found");
}

#[test]
fn a_name_that_is_not_text_is_shown_with_what_can_be_read_of_it() {
    let replay = ReplayInput::open(
        "ws",
        "fixtures",
        vec![Found {
            name: vec![b'x', 0xff],
            shown: "fixtures/x".to_owned(),
            read: Ok(Vec::new()),
        }],
    )
    .expect("one payload");
    assert_eq!(replay.names(), ["x\u{fffd}"]);
}

#[test]
fn what_the_adapter_writes_is_kept() {
    let mut replay =
        ReplayInput::open("ws", "fixtures", vec![file("a", b"1")]).expect("one payload");
    replay.send(UpstreamMessage::Text("subscribe:A-B".to_owned()));
    replay.send(UpstreamMessage::Binary(vec![1, 2, 3]));
    assert_eq!(*replay.sent(), ["subscribe:A-B", "3 binary bytes"]);
    assert_eq!(replay.remaining(), 1);
}

#[test]
fn a_replay_settles_before_its_first_payload() {
    assert_eq!(settle(), Duration::from_millis(1_500));
}
