use redis_aio::cmd::{cmd, Cmd, Pipeline};
use redis_aio::encoder::encode_value;
use redis_aio::parser::{decode_at, decode_value, Decoded, Decoder};
use redis_aio::types::{clone_bytes, clone_opt_bytes, ErrorKind, RedisError, ServerError};
use redis_aio::wire::{
    write_block, write_bytes, write_crlf, write_decimal, write_header, write_line,
    write_signed_decimal,
};
use redis_aio::value::Value;

fn bulk(text: &str) -> Value {
    Value::BulkString(text.as_bytes().to_vec())
}

fn complete(value: Value, consumed: usize) -> Decoded<Value> {
    Decoded::Complete { value, consumed }
}

fn roundtrips(make: fn() -> Value, wire: &[u8]) {
    assert_eq!(encode_value(&make()), wire.to_vec());
    assert_eq!(decode_value(wire), complete(make(), wire.len()));
    let mut followed = wire.to_vec();
    followed.extend_from_slice(b"+next\r\n");
    assert_eq!(decode_value(&followed), complete(make(), wire.len()));
}

#[test]
fn packs_a_command_as_an_array_of_bulk_strings() {
    let mut c = cmd(b"SET");
    c.arg(b"key");
    c.arg(b"value");
    assert_eq!(
        c.get_packed_command(),
        b"*3\r\n$3\r\nSET\r\n$3\r\nkey\r\n$5\r\nvalue\r\n".to_vec()
    );
}

#[test]
fn packs_a_command_without_arguments() {
    assert_eq!(Cmd::new().get_packed_command(), b"*0\r\n".to_vec());
}

#[test]
fn packs_an_empty_and_a_long_argument() {
    let mut c = cmd(b"APPEND");
    c.arg(b"");
    c.arg(&[b'x'; 12]);
    assert_eq!(
        c.get_packed_command(),
        b"*3\r\n$6\r\nAPPEND\r\n$0\r\n\r\n$12\r\nxxxxxxxxxxxx\r\n".to_vec()
    );
}

#[test]
fn write_packed_command_appends_to_the_buffer() {
    let mut out = b"junk".to_vec();
    cmd(b"PING").write_packed_command(&mut out);
    assert_eq!(out, b"junk*1\r\n$4\r\nPING\r\n".to_vec());
}

#[test]
fn command_flags_are_kept() {
    let mut c = cmd(b"SUBSCRIBE");
    assert!(!c.is_no_response());
    c.set_no_response(true);
    assert!(c.is_no_response());
    c.set_no_response(false);
    assert!(!c.is_no_response());
}

#[test]
fn packs_a_pipeline_in_issue_order() {
    let mut p = Pipeline::new();
    assert_eq!(p.len(), 0);
    assert_eq!(p.get_packed_pipeline(), Vec::<u8>::new());
    let mut set = cmd(b"SET");
    set.arg(b"a");
    set.arg(b"1");
    p.add_command(set);
    p.ignore();
    let mut get = cmd(b"GET");
    get.arg(b"a");
    p.add_command(get);
    assert_eq!(p.len(), 2);
    assert_eq!(
        p.get_packed_pipeline(),
        b"*3\r\n$3\r\nSET\r\n$1\r\na\r\n$1\r\n1\r\n*2\r\n$3\r\nGET\r\n$1\r\na\r\n".to_vec()
    );
    let mut out = b"x".to_vec();
    p.write_packed_pipeline(&mut out);
    assert_eq!(out[0], b'x');
    assert_eq!(out.len(), 1 + p.get_packed_pipeline().len());
}

#[test]
fn ignore_on_an_empty_pipeline_changes_nothing() {
    let mut p = Pipeline::new();
    p.ignore();
    assert_eq!(p, Pipeline::new());
}

#[test]
fn roundtrip_nil() {
    roundtrips(|| Value::Nil, b"$-1\r\n");
}

#[test]
fn roundtrip_integers() {
    roundtrips(|| Value::Int(0), b":0\r\n");
    roundtrips(|| Value::Int(42), b":42\r\n");
    roundtrips(|| Value::Int(-7), b":-7\r\n");
    roundtrips(|| Value::Int(1000), b":1000\r\n");
    roundtrips(|| Value::Int(i64::MAX), b":9223372036854775807\r\n");
    roundtrips(|| Value::Int(i64::MIN), b":-9223372036854775808\r\n");
}

#[test]
fn roundtrip_bulk_string() {
    roundtrips(|| bulk("hello"), b"$5\r\nhello\r\n");
    roundtrips(|| bulk(""), b"$0\r\n\r\n");
    roundtrips(|| Value::BulkString(b"a\r\nb".to_vec()), b"$4\r\na\r\nb\r\n");
}

#[test]
fn roundtrip_array() {
    roundtrips(|| Value::Array(vec![]), b"*0\r\n");
    roundtrips(
        || Value::Array(vec![Value::Int(1), bulk("two"), Value::Nil]),
        b"*3\r\n:1\r\n$3\r\ntwo\r\n$-1\r\n",
    );
    roundtrips(
        || Value::Array(vec![Value::Array(vec![Value::Int(1)]), Value::Array(vec![])]),
        b"*2\r\n*1\r\n:1\r\n*0\r\n",
    );
}

#[test]
fn roundtrip_simple_string_and_ok() {
    roundtrips(|| Value::SimpleString(b"PONG".to_vec()), b"+PONG\r\n");
    roundtrips(|| Value::SimpleString(b"".to_vec()), b"+\r\n");
    roundtrips(|| Value::Okay, b"+OK\r\n");
}

#[test]
fn roundtrip_map() {
    roundtrips(
        || {
            Value::ValueMap(vec![
                (bulk("a"), Value::Int(1)),
                (bulk("b"), Value::Array(vec![Value::Okay])),
            ])
        },
        b"%2\r\n$1\r\na\r\n:1\r\n$1\r\nb\r\n*1\r\n+OK\r\n",
    );
    roundtrips(|| Value::ValueMap(vec![]), b"%0\r\n");
}

#[test]
fn roundtrip_attribute() {
    roundtrips(
        || Value::Attribute {
            data: Box::new(Value::Int(5)),
            attributes: vec![(Value::SimpleString(b"ttl".to_vec()), Value::Int(3600))],
        },
        b"|1\r\n+ttl\r\n:3600\r\n:5\r\n",
    );
}

#[test]
fn roundtrip_set() {
    roundtrips(
        || Value::ValueSet(vec![bulk("x"), bulk("y")]),
        b"~2\r\n$1\r\nx\r\n$1\r\ny\r\n",
    );
}

#[test]
fn roundtrip_double() {
    roundtrips(|| Value::Double(b"3.25".to_vec()), b",3.25\r\n");
    roundtrips(|| Value::Double(b"-inf".to_vec()), b",-inf\r\n");
}

#[test]
fn double_text_reads_as_the_number() {
    match decode_value(b",1.5e2\r\n") {
        Decoded::Complete { value: Value::Double(text), consumed: 8 } => {
            let number: f64 = String::from_utf8(text).unwrap().parse().unwrap();
            assert_eq!(number, 150.0);
        }
        other => panic!("{:?}", other),
    }
}

#[test]
fn roundtrip_boolean() {
    roundtrips(|| Value::Boolean(true), b"#t\r\n");
    roundtrips(|| Value::Boolean(false), b"#f\r\n");
}

#[test]
fn roundtrip_verbatim_string() {
    roundtrips(
        || Value::VerbatimString { format: b"txt".to_vec(), text: b"Some string".to_vec() },
        b"=15\r\ntxt:Some string\r\n",
    );
    roundtrips(
        || Value::VerbatimString { format: b"mkd".to_vec(), text: b"".to_vec() },
        b"=4\r\nmkd:\r\n",
    );
}

#[test]
fn roundtrip_big_number() {
    roundtrips(
        || Value::BigNumber(b"3492890328409238509324850943850943825024385".to_vec()),
        b"(3492890328409238509324850943850943825024385\r\n",
    );
}

#[test]
fn roundtrip_push() {
    roundtrips(
        || Value::Push {
            kind: b"message".to_vec(),
            data: vec![bulk("chan"), bulk("hello")],
        },
        b">3\r\n+message\r\n$4\r\nchan\r\n$5\r\nhello\r\n",
    );
    roundtrips(|| Value::Push { kind: b"ping".to_vec(), data: vec![] }, b">1\r\n+ping\r\n");
}

#[test]
fn roundtrip_server_error() {
    roundtrips(
        || {
            Value::ServerError(ServerError {
                code: b"ERR".to_vec(),
                detail: Some(b"unknown command 'FOO'".to_vec()),
            })
        },
        b"-ERR unknown command 'FOO'\r\n",
    );
    roundtrips(
        || Value::ServerError(ServerError { code: b"NOAUTH".to_vec(), detail: None }),
        b"-NOAUTH\r\n",
    );
    roundtrips(
        || Value::ServerError(ServerError { code: b"ERR".to_vec(), detail: Some(vec![]) }),
        b"-ERR \r\n",
    );
}

#[test]
fn the_text_ok_does_not_come_back_as_a_simple_string() {
    let sent = Value::SimpleString(b"OK".to_vec());
    let wire = encode_value(&sent);
    assert_eq!(wire, b"+OK\r\n".to_vec());
    assert_eq!(decode_value(&wire), complete(Value::Okay, 5));
}

#[test]
fn a_line_break_in_a_simple_string_does_not_come_back() {
    let sent = Value::SimpleString(b"a\r\nb".to_vec());
    let wire = encode_value(&sent);
    assert_eq!(wire, b"+a\r\nb\r\n".to_vec());
    assert_eq!(decode_value(&wire), complete(Value::SimpleString(b"a".to_vec()), 4));
}

#[test]
fn a_lone_carriage_return_stays_in_a_line() {
    roundtrips(|| Value::SimpleString(b"a\rb\r".to_vec()), b"+a\rb\r\r\n");
}

#[test]
fn incomplete_frames_ask_for_more() {
    let frames: [&[u8]; 12] = [
        b"",
        b"+",
        b"+OK",
        b"+OK\r",
        b":12",
        b"$5\r\nhel",
        b"$5\r\nhello",
        b"$5\r\nhello\r",
        b"*2\r\n:1\r\n",
        b"%1\r\n+k\r\n",
        b"|1\r\n+k\r\n:1\r\n",
        b">2\r\n+message\r\n",
    ];
    for frame in frames {
        assert_eq!(decode_value(frame), Decoded::Incomplete, "{:?}", frame);
    }
}

#[test]
fn every_strict_prefix_of_a_frame_is_incomplete() {
    let wire = b"*3\r\n:1\r\n$3\r\ntwo\r\n%1\r\n+k\r\n#t\r\n";
    for cut in 0..wire.len() {
        assert_eq!(decode_value(&wire[..cut]), Decoded::Incomplete, "cut at {}", cut);
    }
    assert!(matches!(decode_value(wire), Decoded::Complete { consumed: 29, .. }));
}

#[test]
fn malformed_frames_are_invalid() {
    let frames: [&[u8]; 16] = [
        b"!oops\r\n",
        b"x",
        b":\r\n",
        b":12a\r\n",
        b":-\r\n",
        b":+5\r\n",
        b":9223372036854775808\r\n",
        b":-9223372036854775809\r\n",
        b":99999999999999999999999999\r\n",
        b"$-2\r\n",
        b"$abc\r\n",
        b"$3\r\nabcde\r\n",
        b"*-1\r\n",
        b"#x\r\n",
        b"=3\r\ntxt\r\n",
        b">0\r\n",
    ];
    for frame in frames {
        assert_eq!(decode_value(frame), Decoded::Invalid, "{:?}", frame);
    }
}

#[test]
fn a_verbatim_string_needs_its_colon() {
    assert_eq!(decode_value(b"=5\r\ntxtxx\r\n"), Decoded::Invalid);
}

#[test]
fn a_push_frame_needs_a_kind_line() {
    assert_eq!(decode_value(b">2\r\n$4\r\nkind\r\n:1\r\n"), Decoded::Invalid);
}

#[test]
fn an_invalid_item_makes_the_aggregate_invalid() {
    assert_eq!(decode_value(b"*2\r\n:1\r\n?\r\n"), Decoded::Invalid);
    assert_eq!(decode_value(b"%1\r\n+k\r\n?\r\n"), Decoded::Invalid);
}

#[test]
fn leading_zeros_and_minus_zero_are_read() {
    assert_eq!(decode_value(b":007\r\n"), complete(Value::Int(7), 6));
    assert_eq!(decode_value(b":-0\r\n"), complete(Value::Int(0), 5));
    assert_eq!(decode_value(b"$03\r\nabc\r\n"), complete(bulk("abc"), 10));
}

#[test]
fn decode_at_reads_from_a_position() {
    let wire = b"+OK\r\n:5\r\n$1\r\nx\r\n";
    assert_eq!(decode_at(wire, 0), complete(Value::Okay, 5));
    assert_eq!(decode_at(wire, 5), complete(Value::Int(5), 4));
    assert_eq!(decode_at(wire, 9), complete(bulk("x"), 7));
    assert_eq!(decode_at(wire, 16), Decoded::Incomplete);
}

#[test]
fn decoder_resumes_across_reads() {
    let mut decoder = Decoder::new();
    assert_eq!(decoder.next_value(), None);
    decoder.feed(b"$5\r\nhe");
    assert_eq!(decoder.next_value(), None);
    decoder.feed(b"llo\r");
    assert_eq!(decoder.next_value(), None);
    decoder.feed(b"\n:1\r\n+O");
    assert_eq!(decoder.next_value(), Some(Ok(bulk("hello"))));
    assert_eq!(decoder.next_value(), Some(Ok(Value::Int(1))));
    assert_eq!(decoder.next_value(), None);
    decoder.feed(b"K\r\n");
    assert_eq!(decoder.next_value(), Some(Ok(Value::Okay)));
    assert_eq!(decoder.next_value(), None);
}

#[test]
fn decoder_gives_the_same_values_however_the_bytes_are_cut() {
    let wire = b"*2\r\n$1\r\na\r\n:10\r\n>2\r\n+invalidate\r\n$-1\r\n#f\r\n";
    for cut in 0..=wire.len() {
        let mut decoder = Decoder::new();
        let mut values = Vec::new();
        decoder.feed(&wire[..cut]);
        while let Some(value) = decoder.next_value() {
            values.push(value.unwrap());
        }
        decoder.feed(&wire[cut..]);
        while let Some(value) = decoder.next_value() {
            values.push(value.unwrap());
        }
        assert_eq!(
            values,
            vec![
                Value::Array(vec![bulk("a"), Value::Int(10)]),
                Value::Push { kind: b"invalidate".to_vec(), data: vec![Value::Nil] },
                Value::Boolean(false),
            ]
        );
    }
}

#[test]
fn decoder_reports_malformed_bytes_and_keeps_them() {
    let mut decoder = Decoder::new();
    decoder.feed(b":1\r\n?what\r\n");
    assert_eq!(decoder.next_value(), Some(Ok(Value::Int(1))));
    let first = decoder.next_value();
    match &first {
        Some(Err(e)) => {
            assert_eq!(e.kind(), ErrorKind::Protocol);
            assert_eq!(e.kind, ErrorKind::Protocol);
        }
        other => panic!("{:?}", other),
    }
    assert_eq!(decoder.next_value(), first);
}

#[test]
fn value_knows_a_push_frame() {
    assert!(Value::Push { kind: b"message".to_vec(), data: vec![] }.is_push());
    assert!(!Value::Array(vec![]).is_push());
    assert!(!Value::Nil.is_push());
}

#[test]
fn decimal_text_has_no_leading_zeros() {
    for (n, text) in [
        (0u128, "0"),
        (7, "7"),
        (10, "10"),
        (99, "99"),
        (100, "100"),
        (1234567890, "1234567890"),
        (u64::MAX as u128, "18446744073709551615"),
        (u128::MAX, "340282366920938463463374607431768211455"),
    ] {
        let mut out = b">".to_vec();
        write_decimal(n, &mut out);
        assert_eq!(out, format!(">{}", text).into_bytes());
    }
}

#[test]
fn signed_decimal_text_has_a_minus_for_negative_numbers() {
    for (n, text) in [
        (0i64, "0"),
        (-1, "-1"),
        (5, "5"),
        (-120, "-120"),
        (i64::MAX, "9223372036854775807"),
        (i64::MIN, "-9223372036854775808"),
    ] {
        let mut out = Vec::new();
        write_signed_decimal(n, &mut out);
        assert_eq!(out, text.as_bytes().to_vec());
    }
}

#[test]
fn framing_primitives_append_their_bytes() {
    let mut out = b"x".to_vec();
    write_crlf(&mut out);
    write_header(b'*', 12, &mut out);
    write_bytes(b"ab", &mut out);
    write_line(b'+', b"PONG", &mut out);
    write_block(b'$', b"hey", &mut out);
    write_block(b'=', b"", &mut out);
    assert_eq!(out, b"x\r\n*12\r\nab+PONG\r\n$3\r\nhey\r\n=0\r\n\r\n".to_vec());
}

#[test]
fn a_clone_holds_what_the_value_holds() {
    let values = vec![
        Value::Nil,
        Value::Int(-3),
        bulk("bytes"),
        Value::SimpleString(b"text".to_vec()),
        Value::Okay,
        Value::Double(b"1.5".to_vec()),
        Value::Boolean(true),
        Value::BigNumber(b"123".to_vec()),
        Value::VerbatimString { format: b"txt".to_vec(), text: b"t".to_vec() },
        Value::ServerError(ServerError { code: b"ERR".to_vec(), detail: Some(b"d".to_vec()) }),
        Value::ServerError(ServerError { code: b"ERR".to_vec(), detail: None }),
        Value::Array(vec![Value::Int(1), Value::Array(vec![bulk("deep"), Value::Nil])]),
        Value::ValueSet(vec![bulk("a"), bulk("b")]),
        Value::ValueMap(vec![(bulk("k"), Value::ValueMap(vec![(Value::Int(1), Value::Okay)]))]),
        Value::Attribute {
            data: Box::new(Value::Array(vec![Value::Int(1)])),
            attributes: vec![(bulk("a"), Value::Boolean(false))],
        },
        Value::Push { kind: b"message".to_vec(), data: vec![bulk("c"), bulk("p")] },
    ];
    for value in &values {
        let copy = value.clone();
        assert_eq!(&copy, value);
        assert_eq!(encode_value(&copy), encode_value(value));
    }
    assert_eq!(values.clone(), values);
}

#[test]
fn copies_of_bytes_and_errors_are_equal_to_them() {
    assert_eq!(clone_bytes(&b"abc".to_vec()), b"abc".to_vec());
    assert_eq!(clone_bytes(&vec![]), Vec::<u8>::new());
    assert_eq!(clone_opt_bytes(&Some(b"x".to_vec())), Some(b"x".to_vec()));
    assert_eq!(clone_opt_bytes(&None), None);
    let server = ServerError { code: b"ERR".to_vec(), detail: Some(b"why".to_vec()) };
    assert_eq!(server.clone(), server);
    let error = RedisError { kind: ErrorKind::Io, code: b"c".to_vec(), detail: None };
    assert_eq!(error.clone(), error);
}

#[test]
fn a_packed_command_reads_as_an_array_of_bulk_strings() {
    let mut c = cmd(b"SET");
    c.arg(b"key");
    c.arg(b"a\r\nb");
    c.arg(b"");
    let wire = c.get_packed_command();
    let array = Value::Array(vec![
        bulk("SET"),
        bulk("key"),
        Value::BulkString(b"a\r\nb".to_vec()),
        bulk(""),
    ]);
    assert_eq!(encode_value(&array), wire);
    assert_eq!(decode_value(&wire), complete(array, wire.len()));
}

#[test]
fn a_frame_that_has_arrived_stays_when_more_bytes_arrive() {
    let wire = b"%1\r\n+k\r\n*2\r\n:1\r\n$2\r\nab\r\n";
    let before = decode_value(wire);
    assert_eq!(
        before,
        complete(
            Value::ValueMap(vec![(
                Value::SimpleString(b"k".to_vec()),
                Value::Array(vec![Value::Int(1), bulk("ab")])
            )]),
            24
        )
    );
    for more in [&b"+"[..], b"\r\n", b"?", b":1\r\n:2\r\n"] {
        let mut longer = wire.to_vec();
        longer.extend_from_slice(more);
        assert_eq!(decode_value(&longer), before);
    }
    let mut invalid = b"*2\r\n:1\r\n?".to_vec();
    assert_eq!(decode_value(&invalid), Decoded::Invalid);
    invalid.extend_from_slice(b"\r\n:2\r\n");
    assert_eq!(decode_value(&invalid), Decoded::Invalid);
}
