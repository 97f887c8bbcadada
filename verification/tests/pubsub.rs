use redis_aio::connection::{Connection, RedisConnectionInfo};
use redis_aio::exchange::{Reply, Step};
use redis_aio::pubsub::{bytes_eq, make_ack, read_ack, Ack, Frames, Monitor, Msg, PubSub};
use redis_aio::types::{ErrorKind, ProtocolVersion, RedisError};
use redis_aio::value::Value;

fn bulk(text: &str) -> Value {
    Value::BulkString(text.as_bytes().to_vec())
}

fn pubsub(protocol: ProtocolVersion) -> PubSub<u8> {
    Connection::new(&RedisConnectionInfo { db: 0, protocol }, 1u8).into_pubsub()
}

fn first_write(step: Step) -> Vec<u8> {
    match step {
        Step::Write(w) => w.bytes().to_vec(),
        other => panic!("{:?}", other),
    }
}

#[test]
fn bytes_eq_compares_contents() {
    assert!(bytes_eq(b"", b""));
    assert!(bytes_eq(b"abc", b"abc"));
    assert!(!bytes_eq(b"abc", b"abd"));
    assert!(!bytes_eq(b"abc", b"ab"));
    assert!(!bytes_eq(b"", b"a"));
}

#[test]
fn acknowledgements_are_told_by_their_kind() {
    assert_eq!(make_ack(b"unsubscribe", 3), Ack::Unsubscribed(3));
    assert_eq!(make_ack(b"punsubscribe", 0), Ack::PUnsubscribed(0));
    assert_eq!(make_ack(b"subscribe", 1), Ack::Other);
    assert_eq!(make_ack(b"psubscribe", 1), Ack::Other);
    assert_eq!(make_ack(b"u", 0), Ack::Other);
    assert_eq!(make_ack(b"UNSUBSCRIBE", 0), Ack::Other);
    assert_eq!(make_ack(b"", 0), Ack::Other);
}

#[test]
fn legacy_acknowledgements_are_arrays_of_three() {
    let p = ProtocolVersion::RESP2;
    assert_eq!(
        read_ack(p, &Value::Array(vec![bulk("unsubscribe"), bulk("news"), Value::Int(2)])),
        Ack::Unsubscribed(2)
    );
    assert_eq!(
        read_ack(
            p,
            &Value::Array(vec![
                Value::SimpleString(b"punsubscribe".to_vec()),
                Value::Nil,
                Value::Int(0)
            ])
        ),
        Ack::PUnsubscribed(0)
    );
    assert_eq!(
        read_ack(p, &Value::Array(vec![bulk("message"), bulk("news"), Value::Int(2)])),
        Ack::Other
    );
    assert_eq!(read_ack(p, &Value::Array(vec![])), Ack::Malformed);
    assert_eq!(
        read_ack(
            p,
            &Value::Array(vec![bulk("unsubscribe"), Value::Nil, Value::Int(0), Value::Nil])
        ),
        Ack::Malformed
    );
    assert_eq!(read_ack(p, &Value::Nil), Ack::Malformed);
    assert_eq!(
        read_ack(
            p,
            &Value::Push { kind: b"unsubscribe".to_vec(), data: vec![Value::Nil, Value::Int(0)] }
        ),
        Ack::Malformed
    );
}

#[test]
fn richer_acknowledgements_are_push_frames_of_two() {
    let p = ProtocolVersion::RESP3;
    assert_eq!(
        read_ack(
            p,
            &Value::Push { kind: b"unsubscribe".to_vec(), data: vec![bulk("news"), Value::Int(1)] }
        ),
        Ack::Unsubscribed(1)
    );
    assert_eq!(
        read_ack(
            p,
            &Value::Push { kind: b"punsubscribe".to_vec(), data: vec![Value::Nil, Value::Int(0)] }
        ),
        Ack::PUnsubscribed(0)
    );
    assert_eq!(
        read_ack(p, &Value::Push { kind: b"unsubscribe".to_vec(), data: vec![Value::Int(0)] }),
        Ack::Other
    );
    assert_eq!(
        read_ack(
            p,
            &Value::Push {
                kind: b"unsubscribe".to_vec(),
                data: vec![Value::Nil, Value::Int(0), Value::Nil]
            }
        ),
        Ack::Other
    );
    assert_eq!(
        read_ack(p, &Value::Array(vec![bulk("unsubscribe"), Value::Nil, Value::Int(0)])),
        Ack::Other
    );
    assert_eq!(read_ack(p, &Value::Okay), Ack::Other);
}

#[test]
fn subscribe_waits_for_a_reply_under_the_legacy_protocol() {
    let mut ps = pubsub(ProtocolVersion::RESP2);
    let step = ps.subscribe(&[b"news".to_vec()]);
    let w = match step {
        Step::Write(w) => w,
        other => panic!("{:?}", other),
    };
    assert_eq!(w.bytes(), b"*2\r\n$9\r\nSUBSCRIBE\r\n$4\r\nnews\r\n");
    let r = match ps.session().written(w, Ok(())) {
        Step::Read(r) => r,
        other => panic!("{:?}", other),
    };
    let step = ps.session().fed(r, Ok(b"*3\r\n$9\r\nsubscribe\r\n$4\r\nnews\r\n:1\r\n"));
    match step {
        Step::Done(Ok(Reply::Single(Value::Array(items)))) => {
            assert_eq!(items, vec![bulk("subscribe"), bulk("news"), Value::Int(1)])
        }
        other => panic!("{:?}", other),
    }
}

#[test]
fn subscribe_does_not_wait_under_the_richer_protocol() {
    let mut ps = pubsub(ProtocolVersion::RESP3);
    let w = match ps.subscribe(&[b"news".to_vec()]) {
        Step::Write(w) => w,
        other => panic!("{:?}", other),
    };
    assert_eq!(w.bytes(), b"*2\r\n$9\r\nSUBSCRIBE\r\n$4\r\nnews\r\n");
    match ps.session().written(w, Ok(())) {
        Step::Done(Ok(Reply::Single(Value::Nil))) => {}
        other => panic!("{:?}", other),
    }
}

#[test]
fn subscription_commands_carry_their_names() {
    let mut ps = pubsub(ProtocolVersion::RESP3);
    assert_eq!(
        first_write(ps.psubscribe(&[b"n*".to_vec()])),
        b"*2\r\n$10\r\nPSUBSCRIBE\r\n$2\r\nn*\r\n".to_vec()
    );
    assert_eq!(
        first_write(ps.unsubscribe(&[b"news".to_vec()])),
        b"*2\r\n$11\r\nUNSUBSCRIBE\r\n$4\r\nnews\r\n".to_vec()
    );
    assert_eq!(
        first_write(ps.punsubscribe(&[b"n*".to_vec()])),
        b"*2\r\n$12\r\nPUNSUBSCRIBE\r\n$2\r\nn*\r\n".to_vec()
    );
}

#[test]
fn into_connection_hands_the_session_back_and_starts_the_exit() {
    let ps = PubSub::new(Connection::new(
        &RedisConnectionInfo { db: 4, protocol: ProtocolVersion::RESP2 },
        9u8,
    ));
    let (mut con, step) = ps.into_connection();
    assert_eq!(con.get_db(), 4);
    let w = match step {
        Step::Write(w) => w,
        other => panic!("{:?}", other),
    };
    assert_eq!(w.bytes(), b"*1\r\n$11\r\nUNSUBSCRIBE\r\n*1\r\n$12\r\nPUNSUBSCRIBE\r\n");
    let r = match con.written(w, Ok(())) {
        Step::Read(r) => r,
        other => panic!("{:?}", other),
    };
    let step = con.fed(
        r,
        Ok(b"*3\r\n$11\r\nunsubscribe\r\n$-1\r\n:0\r\n*3\r\n$12\r\npunsubscribe\r\n$-1\r\n:0\r\n"),
    );
    assert!(matches!(step, Step::Done(Ok(Reply::Unit))));
    assert!(!con.in_pubsub());
    assert_eq!(con.into_stream(), 9u8);
}

#[test]
fn messages_are_read_from_arrays_and_push_frames() {
    assert_eq!(
        Msg::from_owned_value(Value::Array(vec![bulk("message"), bulk("news"), bulk("hi")])),
        Some(Msg { channel: bulk("news"), payload: bulk("hi"), pattern: None })
    );
    assert_eq!(
        Msg::from_owned_value(Value::Array(vec![
            bulk("pmessage"),
            bulk("n*"),
            bulk("news"),
            bulk("hi")
        ])),
        Some(Msg { channel: bulk("news"), payload: bulk("hi"), pattern: Some(bulk("n*")) })
    );
    assert_eq!(
        Msg::from_owned_value(Value::Push {
            kind: b"message".to_vec(),
            data: vec![bulk("news"), Value::Int(5)]
        }),
        Some(Msg { channel: bulk("news"), payload: Value::Int(5), pattern: None })
    );
    assert_eq!(
        Msg::from_owned_value(Value::Push {
            kind: b"pmessage".to_vec(),
            data: vec![bulk("n*"), bulk("news"), bulk("hi"), bulk("extra")]
        }),
        Some(Msg { channel: bulk("news"), payload: bulk("hi"), pattern: Some(bulk("n*")) })
    );
    assert_eq!(
        Msg::from_owned_value(Value::Array(vec![
            Value::SimpleString(b"message".to_vec()),
            bulk("c"),
            bulk("p")
        ])),
        Some(Msg { channel: bulk("c"), payload: bulk("p"), pattern: None })
    );
}

#[test]
fn frames_that_hold_no_message_give_none() {
    for frame in [
        Value::Nil,
        Value::Okay,
        Value::Int(1),
        Value::Array(vec![]),
        Value::Array(vec![bulk("message")]),
        Value::Array(vec![bulk("message"), bulk("news")]),
        Value::Array(vec![bulk("pmessage"), bulk("n*"), bulk("news")]),
        Value::Array(vec![bulk("subscribe"), bulk("news"), Value::Int(1)]),
        Value::Array(vec![Value::Int(1), bulk("news"), bulk("hi")]),
        Value::Push { kind: b"message".to_vec(), data: vec![bulk("news")] },
        Value::Push { kind: b"pmessage".to_vec(), data: vec![bulk("n*"), bulk("news")] },
        Value::Push { kind: b"invalidate".to_vec(), data: vec![bulk("a"), bulk("b")] },
        Value::ValueSet(vec![bulk("message"), bulk("news"), bulk("hi")]),
    ] {
        assert_eq!(Msg::from_owned_value(frame), None);
    }
}

#[test]
fn the_message_stream_drops_other_frames() {
    let mut ps = pubsub(ProtocolVersion::RESP2);
    let (stream, mut frames) = ps.on_message();
    assert_eq!(*stream, 1u8);
    assert_eq!(frames.next_message(), None);
    frames.feed(b"*3\r\n$9\r\nsubscribe\r\n$4\r\nnews\r\n:1\r\n+OK\r\n*3\r\n$7\r\nmessage\r\n$4\r\nnews\r\n$2\r\nhi\r\n*3\r\n$7\r\nmess");
    assert_eq!(
        frames.next_message(),
        Some(Ok(Msg { channel: bulk("news"), payload: bulk("hi"), pattern: None }))
    );
    assert_eq!(frames.next_message(), None);
    frames.feed(b"age\r\n$4\r\nnews\r\n$3\r\nbye\r\n:7\r\n");
    assert_eq!(
        frames.next_message(),
        Some(Ok(Msg { channel: bulk("news"), payload: bulk("bye"), pattern: None }))
    );
    assert_eq!(frames.next_message(), None);
    assert_eq!(frames.next_value(), None);
}

#[test]
fn the_message_stream_tells_broken_from_unfinished() {
    let broken = Some(Err(RedisError::of_kind(ErrorKind::Protocol)));
    let mut frames = Frames::new();
    frames.feed(b"+OK\r\n?\r\n*3\r\n$7\r\nmessage\r\n$1\r\nc\r\n$1\r\np\r\n");
    assert_eq!(frames.next_message(), broken);
    assert_eq!(frames.next_message(), broken);
    assert_eq!(frames.next_value(), Some(Err(RedisError::of_kind(ErrorKind::Protocol))));

    let mut frames = Frames::new();
    frames.feed(b"+OK\r\n*3\r\n$7\r\nmess");
    assert_eq!(frames.next_message(), None);
    assert_eq!(frames.next_value(), None);
    frames.feed(b"age\r\n$1\r\nc\r\n$1\r\np\r\n");
    assert_eq!(
        frames.next_value(),
        Some(Ok(Value::Array(vec![bulk("message"), bulk("c"), bulk("p")])))
    );
}

#[test]
fn several_channels_go_into_one_command() {
    let mut ps = pubsub(ProtocolVersion::RESP2);
    assert_eq!(
        first_write(ps.subscribe(&[b"a".to_vec(), b"bc".to_vec(), b"".to_vec()])),
        b"*4\r\n$9\r\nSUBSCRIBE\r\n$1\r\na\r\n$2\r\nbc\r\n$0\r\n\r\n".to_vec()
    );
    assert_eq!(
        first_write(ps.punsubscribe(&[b"x*".to_vec(), b"y*".to_vec()])),
        b"*3\r\n$12\r\nPUNSUBSCRIBE\r\n$2\r\nx*\r\n$2\r\ny*\r\n".to_vec()
    );
    assert_eq!(first_write(ps.unsubscribe(&[])), b"*1\r\n$11\r\nUNSUBSCRIBE\r\n".to_vec());
}

#[test]
fn into_on_message_hands_out_the_stream() {
    let (stream, mut frames) = pubsub(ProtocolVersion::RESP3).into_on_message();
    assert_eq!(stream, 1u8);
    frames.feed(b">3\r\n+message\r\n$1\r\nc\r\n$1\r\np\r\n");
    assert_eq!(
        frames.next_message(),
        Some(Ok(Msg { channel: bulk("c"), payload: bulk("p"), pattern: None }))
    );
}

#[test]
fn a_monitor_sends_its_command_and_yields_every_frame() {
    let con = Connection::new(&RedisConnectionInfo { db: 0, protocol: ProtocolVersion::RESP2 }, 2u8);
    let mut monitor = con.into_monitor();
    let w = match monitor.monitor() {
        Step::Write(w) => w,
        other => panic!("{:?}", other),
    };
    assert_eq!(w.bytes(), b"*1\r\n$7\r\nMONITOR\r\n");
    let r = match monitor.session().written(w, Ok(())) {
        Step::Read(r) => r,
        other => panic!("{:?}", other),
    };
    assert!(matches!(
        monitor.session().fed(r, Ok(b"+OK\r\n")),
        Step::Done(Ok(Reply::Single(Value::Okay)))
    ));
    let (stream, mut frames) = monitor.on_message();
    assert_eq!(*stream, 2u8);
    frames.feed(b"+1700000000.1 [0 127.0.0.1:1] \"GET\" \"a\"\r\n:1\r\n+x");
    assert_eq!(
        frames.next_value(),
        Some(Ok(Value::SimpleString(b"1700000000.1 [0 127.0.0.1:1] \"GET\" \"a\"".to_vec())))
    );
    assert_eq!(frames.next_value(), Some(Ok(Value::Int(1))));
    assert_eq!(frames.next_value(), None);
    let (stream, mut frames) = Monitor::new(Connection::new(
        &RedisConnectionInfo { db: 0, protocol: ProtocolVersion::RESP2 },
        3u8,
    ))
    .into_on_message();
    assert_eq!(stream, 3u8);
    assert_eq!(frames.next_value(), None);
}

#[test]
fn on_message_lends_out_the_stream_of_the_session() {
    let mut ps = pubsub(ProtocolVersion::RESP3);
    {
        let (stream, mut frames) = ps.on_message();
        *stream = 40;
        assert_eq!(frames.next_message(), None);
    }
    let (con, _) = ps.into_connection();
    assert_eq!(con.get_db(), 0);
    assert_eq!(con.protocol(), ProtocolVersion::RESP3);
    let mut monitor = con.into_monitor();
    {
        let (stream, mut frames) = monitor.on_message();
        assert_eq!(*stream, 40);
        *stream += 2;
        assert_eq!(frames.next_value(), None);
    }
    let (stream, _) = monitor.into_on_message();
    assert_eq!(stream, 42u8);
}
