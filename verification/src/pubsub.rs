use crate::cmd::{cmd, packed_command};
use crate::connection::{Connection, ConnectionView};
use crate::exchange::{begin, punsubscribe_name, unsubscribe_name, Request, Step, StepView};
use crate::grammar::{after, parse_value, Parsed};
use crate::parser::Decoder;
use crate::types::{protocol_error, ErrorView, ProtocolVersion, RedisResult};
use crate::value::{lemma_view_items, Value, ValueView};
use vstd::prelude::*;

verus! {

/// The kind that acknowledges the end of a channel subscription: `unsubscribe`.
pub open spec fn unsubscribe_kind() -> Seq<u8> {
    seq![117u8, 110u8, 115u8, 117u8, 98u8, 115u8, 99u8, 114u8, 105u8, 98u8, 101u8]
}

/// The kind that acknowledges the end of a pattern subscription: `punsubscribe`.
pub open spec fn punsubscribe_kind() -> Seq<u8> {
    seq![112u8, 117u8, 110u8, 115u8, 117u8, 98u8, 115u8, 99u8, 114u8, 105u8, 98u8, 101u8]
}

/// What a reply means to a session that is leaving pub/sub mode.
#[derive(Clone, Copy, Debug, PartialEq, Eq, Structural)]
pub enum Ack {
    /// A channel subscription ended; the peer reports this many subscriptions left.
    Unsubscribed(i64),
    /// A pattern subscription ended; the peer reports this many subscriptions left.
    PUnsubscribed(i64),
    /// Not an acknowledgement: the reply is passed over.
    Other,
    /// A reply that cannot stand where an acknowledgement is due.
    Malformed,
}

/// The acknowledgement of the given kind and remaining count, if the kind is one.
pub open spec fn ack_of(kind: Seq<u8>, remaining: i64) -> Ack {
    if kind == unsubscribe_kind() {
        Ack::Unsubscribed(remaining)
    } else if kind == punsubscribe_kind() {
        Ack::PUnsubscribed(remaining)
    } else {
        Ack::Other
    }
}

/// How a reply is read while leaving pub/sub mode.
///
/// Under the legacy protocol every reply must be an array of three elements:
/// the kind as a string, the channel, and the remaining count as an integer;
/// anything else is malformed. Under the richer protocol an acknowledgement is
/// a push frame whose payload has exactly two elements, the second one an
/// integer; every other frame is passed over.
pub open spec fn classify_ack(protocol: ProtocolVersion, v: ValueView) -> Ack {
    match protocol {
        ProtocolVersion::RESP2 => match v {
            ValueView::Array(items) => if items.len() == 3 {
                match (items[0], items[2]) {
                    (ValueView::BulkString(kind), ValueView::Int(n)) => ack_of(kind, n),
                    (ValueView::SimpleString(kind), ValueView::Int(n)) => ack_of(kind, n),
                    _ => Ack::Malformed,
                }
            } else {
                Ack::Malformed
            },
            _ => Ack::Malformed,
        },
        ProtocolVersion::RESP3 => match v {
            ValueView::Push { kind, data } => if data.len() == 2 {
                match data[1] {
                    ValueView::Int(n) => ack_of(kind, n),
                    _ => Ack::Other,
                }
            } else {
                Ack::Other
            },
            _ => Ack::Other,
        },
    }
}

/// What is known, while leaving pub/sub mode, after one more acknowledgement:
/// whether the channel subscriptions have been reported to be down to none,
/// whether the pattern subscriptions have, and whether the session is clear.
/// Each kind counts for itself: the session is clear once an acknowledgement
/// of either kind has reported that no subscription is left.
pub open spec fn after_ack(channels_clear: bool, patterns_clear: bool, ack: Ack) -> (
    bool,
    bool,
    bool,
) {
    match ack {
        Ack::Unsubscribed(n) => (
            channels_clear || n == 0,
            patterns_clear,
            (channels_clear || n == 0) && patterns_clear,
        ),
        Ack::PUnsubscribed(n) => (
            channels_clear,
            patterns_clear || n == 0,
            channels_clear && (patterns_clear || n == 0),
        ),
        _ => (channels_clear, patterns_clear, false),
    }
}

/// Whether two byte strings hold the same bytes.
pub fn bytes_eq(a: &[u8], b: &[u8]) -> (r: bool)
    ensures
        r == (a@ == b@),
{
    if a.len() != b.len() {
        return false;
    }
    let mut i: usize = 0;
    while i < a.len()
        invariant
            a@.len() == b@.len(),
            i <= a@.len(),
            forall|j: int| 0 <= j < i ==> a@[j] == b@[j],
        decreases a@.len() - i,
    {
        if a[i] != b[i] {
            return false;
        }
        i = i + 1;
    }
    assert(a@ =~= b@);
    true
}

/// The acknowledgement of the given kind and remaining count.
pub fn make_ack(kind: &[u8], remaining: i64) -> (ack: Ack)
    ensures
        ack == ack_of(kind@, remaining),
{
    let unsubscribe: [u8; 11] = [117, 110, 115, 117, 98, 115, 99, 114, 105, 98, 101];  // "unsubscribe"
    let punsubscribe: [u8; 12] = [112, 117, 110, 115, 117, 98, 115, 99, 114, 105, 98, 101];  // "punsubscribe"
    if bytes_eq(kind, unsubscribe.as_slice()) {
        Ack::Unsubscribed(remaining)
    } else if bytes_eq(kind, punsubscribe.as_slice()) {
        Ack::PUnsubscribed(remaining)
    } else {
        Ack::Other
    }
}

/// Reads a reply as an acknowledgement, under the given protocol version.
pub fn read_ack(protocol: ProtocolVersion, v: &Value) -> (ack: Ack)
    ensures
        ack == classify_ack(protocol, v@),
{
    match protocol {
        ProtocolVersion::RESP2 => match v {
            Value::Array(items) => {
                proof {
                    lemma_view_items(items@);
                }
                if items.len() == 3 {
                    match (&items[0], &items[2]) {
                        (Value::BulkString(kind), Value::Int(n)) => make_ack(kind.as_slice(), *n),
                        (Value::SimpleString(kind), Value::Int(n)) => make_ack(
                            kind.as_slice(),
                            *n,
                        ),
                        _ => Ack::Malformed,
                    }
                } else {
                    Ack::Malformed
                }
            },
            _ => Ack::Malformed,
        },
        ProtocolVersion::RESP3 => match v {
            Value::Push { kind, data } => {
                proof {
                    lemma_view_items(data@);
                }
                if data.len() == 2 {
                    match &data[1] {
                        Value::Int(n) => make_ack(kind.as_slice(), *n),
                        _ => Ack::Other,
                    }
                } else {
                    Ack::Other
                }
            },
            _ => Ack::Other,
        },
    }
}

/// The kind of a message that was published to a channel: `message`.
pub open spec fn message_kind() -> Seq<u8> {
    seq![109u8, 101u8, 115u8, 115u8, 97u8, 103u8, 101u8]
}

/// The kind of a message that matched a pattern: `pmessage`.
pub open spec fn pmessage_kind() -> Seq<u8> {
    seq![112u8, 109u8, 101u8, 115u8, 115u8, 97u8, 103u8, 101u8]
}

/// A message that arrived on a subscription.
#[derive(Clone, Debug, PartialEq, Eq)]
pub struct Msg {
    /// What was published.
    pub payload: Value,
    /// The channel it was published to.
    pub channel: Value,
    /// The pattern that the channel matched, for a pattern subscription.
    pub pattern: Option<Value>,
}

/// The mathematical content of a [`Msg`].
pub struct MsgView {
    pub payload: ValueView,
    pub channel: ValueView,
    pub pattern: Option<ValueView>,
}

impl View for Msg {
    type V = MsgView;

    open spec fn view(&self) -> MsgView {
        MsgView {
            payload: self.payload@,
            channel: self.channel@,
            pattern: match self.pattern {
                Some(p) => Some(p@),
                None => None,
            },
        }
    }
}

/// The content of an optional message.
pub open spec fn opt_msg_view(m: Option<Msg>) -> Option<MsgView> {
    match m {
        Some(m) => Some(m@),
        None => None,
    }
}

/// The message of the given kind whose fields start at `from` in `fields`:
/// channel and payload for `message`; pattern, channel and payload for
/// `pmessage`; none for any other kind or where a field is missing.
pub open spec fn message_from(kind: Seq<u8>, fields: Seq<ValueView>, from: int) -> Option<
    MsgView,
> {
    if kind == message_kind() {
        if fields.len() >= from + 2 {
            Some(MsgView { channel: fields[from], payload: fields[from + 1], pattern: None })
        } else {
            None
        }
    } else if kind == pmessage_kind() {
        if fields.len() >= from + 3 {
            Some(
                MsgView {
                    pattern: Some(fields[from]),
                    channel: fields[from + 1],
                    payload: fields[from + 2],
                },
            )
        } else {
            None
        }
    } else {
        None
    }
}

/// The message that a frame holds, if it holds one.
///
/// A push frame holds a message of its kind, with its payload as the fields.
/// An array holds a message of the kind that its first element names as a
/// string, with the elements after it as the fields. No other frame holds a
/// message.
pub open spec fn message_of(v: ValueView) -> Option<MsgView> {
    match v {
        ValueView::Push { kind, data } => message_from(kind, data, 0),
        ValueView::Array(items) => if items.len() >= 1 {
            match items[0] {
                ValueView::BulkString(kind) => message_from(kind, items, 1),
                ValueView::SimpleString(kind) => message_from(kind, items, 1),
                _ => None,
            }
        } else {
            None
        },
        _ => None,
    }
}

/// How many fields a message has after its kind; none where the kind is not
/// that of a message.
fn message_fields(kind: &[u8]) -> (n: usize)
    ensures
        kind@ == message_kind() ==> n == 2,
        kind@ == pmessage_kind() ==> n == 3,
        kind@ != message_kind() && kind@ != pmessage_kind() ==> n == 0,
{
    let message: [u8; 7] = [109, 101, 115, 115, 97, 103, 101];  // "message"
    let pmessage: [u8; 8] = [112, 109, 101, 115, 115, 97, 103, 101];  // "pmessage"
    if bytes_eq(kind, message.as_slice()) {
        2
    } else if bytes_eq(kind, pmessage.as_slice()) {
        3
    } else {
        0
    }
}

/// Takes the fields of a message with `n` fields out of `fields`, where they
/// start at `from`.
fn take_message(fields: Vec<Value>, from: usize, n: usize) -> (msg: Option<Msg>)
    requires
        from <= 1,
        n == 0 || n == 2 || n == 3,
    ensures
        opt_msg_view(msg) == if n == 2 && fields@.len() >= from + 2 {
            Some(
                MsgView {
                    channel: fields@[from as int]@,
                    payload: fields@[from + 1]@,
                    pattern: None,
                },
            )
        } else if n == 3 && fields@.len() >= from + 3 {
            Some(
                MsgView {
                    pattern: Some(fields@[from as int]@),
                    channel: fields@[from + 1]@,
                    payload: fields@[from + 2]@,
                },
            )
        } else {
            None
        },
{
    let mut fields = fields;
    if n == 0 || fields.len() < from + n {
        return None;
    }
    if n == 2 {
        let payload = fields.remove(from + 1);
        let channel = fields.remove(from);
        Some(Msg { payload, channel, pattern: None })
    } else {
        let payload = fields.remove(from + 2);
        let channel = fields.remove(from + 1);
        let pattern = fields.remove(from);
        Some(Msg { payload, channel, pattern: Some(pattern) })
    }
}

impl Msg {
    /// Reads a frame as a message; a frame that holds none gives nothing.
    pub fn from_owned_value(value: Value) -> (msg: Option<Msg>)
        ensures
            opt_msg_view(msg) == message_of(value@),
    {
        match value {
            Value::Push { kind, data } => {
                proof {
                    lemma_view_items(data@);
                }
                let n = message_fields(kind.as_slice());
                take_message(data, 0, n)
            },
            Value::Array(items) => {
                proof {
                    lemma_view_items(items@);
                }
                if items.len() == 0 {
                    return None;
                }
                let n = match &items[0] {
                    Value::BulkString(kind) => message_fields(kind.as_slice()),
                    Value::SimpleString(kind) => message_fields(kind.as_slice()),
                    _ => 0,
                };
                take_message(items, 1, n)
            },
            _ => None,
        }
    }
}

/// The frames of a stream that is read for its own sake, not for replies:
/// the decoder of that stream, which starts with no bytes.
pub struct Frames {
    decoder: Decoder,
}

impl View for Frames {
    type V = Seq<u8>;

    closed spec fn view(&self) -> Seq<u8> {
        self.decoder@
    }
}

/// The next message that the bytes `inbound` hold, and the bytes that are
/// left after it. Whole frames that hold no message are dropped on the way.
/// Where the bytes end before a frame does, there is nothing yet and the
/// bytes stay: more have to arrive. Where they cannot start a frame, the
/// stream is broken: that is a protocol error, and the bytes stay.
pub open spec fn next_message_of(inbound: Seq<u8>) -> (
    Option<Result<MsgView, ErrorView>>,
    Seq<u8>,
)
    decreases inbound.len(),
{
    match parse_value(inbound) {
        Parsed::Complete { value, consumed } => match message_of(value) {
            Some(m) => (Some(Ok(m)), after(inbound, consumed)),
            None => if 1 <= consumed <= inbound.len() {
                next_message_of(after(inbound, consumed))
            } else {
                (None, inbound)
            },
        },
        Parsed::Incomplete => (None, inbound),
        Parsed::Invalid => (Some(Err(protocol_error())), inbound),
    }
}

/// The next frame that the bytes `inbound` hold, and the bytes that are left
/// after it; nothing yet where the bytes end before a frame does, and a
/// protocol error where they cannot start a frame.
pub open spec fn next_frame_of(inbound: Seq<u8>) -> (
    Option<Result<ValueView, ErrorView>>,
    Seq<u8>,
) {
    match parse_value(inbound) {
        Parsed::Complete { value, consumed } => (Some(Ok(value)), after(inbound, consumed)),
        Parsed::Incomplete => (None, inbound),
        Parsed::Invalid => (Some(Err(protocol_error())), inbound),
    }
}

/// The content of what asking for the next frame yielded.
pub open spec fn next_value_view(v: Option<RedisResult<Value>>) -> Option<
    Result<ValueView, ErrorView>,
> {
    match v {
        Some(Ok(v)) => Some(Ok(v@)),
        Some(Err(e)) => Some(Err(e@)),
        None => None,
    }
}

/// The content of what asking for the next message yielded.
pub open spec fn next_msg_view(m: Option<RedisResult<Msg>>) -> Option<Result<MsgView, ErrorView>> {
    match m {
        Some(Ok(m)) => Some(Ok(m@)),
        Some(Err(e)) => Some(Err(e@)),
        None => None,
    }
}

impl Frames {
    /// The frames of a stream of which nothing has been read yet.
    pub fn new() -> (frames: Frames)
        ensures
            frames@ == Seq::<u8>::empty(),
    {
        Frames { decoder: Decoder::new() }
    }

    /// Takes in the bytes of one read of the stream.
    pub fn feed(&mut self, chunk: &[u8])
        ensures
            final(self)@ == old(self)@ + chunk@,
    {
        self.decoder.feed(chunk);
    }

    /// The next frame, if the bytes taken in so far hold all of it. Nothing
    /// means that more bytes have to arrive; a protocol error means that the
    /// stream is broken.
    pub fn next_value(&mut self) -> (value: Option<RedisResult<Value>>)
        ensures
            (next_value_view(value), final(self)@) == next_frame_of(old(self)@),
    {
        self.decoder.next_value()
    }

    /// The next message, if the bytes taken in so far hold all of it. Frames
    /// before it that hold no message are dropped without a word. Nothing
    /// means that more bytes have to arrive; a protocol error means that the
    /// stream is broken.
    pub fn next_message(&mut self) -> (msg: Option<RedisResult<Msg>>)
        ensures
            (next_msg_view(msg), final(self)@) == next_message_of(old(self)@),
    {
        loop
            invariant
                next_message_of(self@) == next_message_of(old(self)@),
            decreases self@.len(),
        {
            match self.decoder.next_value() {
                Some(Ok(value)) => {
                    match Msg::from_owned_value(value) {
                        Some(msg) => {
                            return Some(Ok(msg));
                        },
                        None => {},
                    }
                },
                Some(Err(e)) => {
                    return Some(Err(e));
                },
                None => {
                    return None;
                },
            }
        }
    }
}

/// The name of the command that subscribes to channels: `SUBSCRIBE`.
pub open spec fn subscribe_name() -> Seq<u8> {
    seq![83u8, 85u8, 66u8, 83u8, 67u8, 82u8, 73u8, 66u8, 69u8]
}

/// The name of the command that subscribes to patterns: `PSUBSCRIBE`.
pub open spec fn psubscribe_name() -> Seq<u8> {
    seq![80u8, 83u8, 85u8, 66u8, 83u8, 67u8, 82u8, 73u8, 66u8, 69u8]
}

/// The arguments of a command as the byte strings that they hold.
pub open spec fn arguments_view(arguments: Seq<Vec<u8>>) -> Seq<Seq<u8>> {
    Seq::new(arguments.len(), |i: int| arguments[i]@)
}

/// The first step of a subscription command with the given name and the
/// given arguments after it, on a session with the given content.
///
/// Under the richer protocol the peer acknowledges such a command only
/// through push frames, so no reply is waited for; under the legacy protocol
/// the reply is read as for any other command.
pub open spec fn subscription_step<C>(
    session: ConnectionView<C>,
    name: Seq<u8>,
    arguments: Seq<Seq<u8>>,
) -> StepView {
    begin(
        Request::Single { no_response: session.protocol != ProtocolVersion::RESP2 },
        session.protocol,
        session.pubsub,
        packed_command(seq![name] + arguments),
    )
}

/// A session in pub/sub mode.
pub struct PubSub<C>(Connection<C>);

impl<C> View for PubSub<C> {
    type V = ConnectionView<C>;

    closed spec fn view(&self) -> ConnectionView<C> {
        self.0@
    }
}

impl<C> PubSub<C> {
    /// Puts a session into pub/sub mode.
    pub fn new(con: Connection<C>) -> (pubsub: Self)
        ensures
            pubsub@ == con@,
    {
        Self(con)
    }

    /// The session, for the driver to report to.
    pub fn session(&mut self) -> (con: &mut Connection<C>)
        ensures
            con@ == old(self)@,
            final(self)@ == final(con)@,
    {
        &mut self.0
    }

    /// Starts a subscription command with the given name and the given
    /// arguments after it.
    fn send(&mut self, name: &[u8], arguments: &[Vec<u8>]) -> (step: Step)
        ensures
            step@ == subscription_step(old(self)@, name@, arguments_view(arguments@)),
            final(self)@ == old(self)@,
    {
        let mut command = cmd(name);
        let mut i: usize = 0;
        while i < arguments.len()
            invariant
                i <= arguments@.len(),
                command@.args == seq![name@] + arguments_view(arguments@).take(i as int),
                !command@.no_response,
            decreases arguments@.len() - i,
        {
            command.arg(arguments[i].as_slice());
            assert(arguments_view(arguments@).take(i + 1) =~= arguments_view(arguments@).take(
                i as int,
            ).push(arguments@[i as int]@));
            i = i + 1;
        }
        assert(arguments_view(arguments@).take(i as int) =~= arguments_view(arguments@));
        match self.0.protocol() {
            ProtocolVersion::RESP2 => {},
            ProtocolVersion::RESP3 => {
                command.set_no_response(true);
            },
        }
        self.0.req_packed_command(&command)
    }

    /// Starts subscribing to the given channels, all in one command.
    pub fn subscribe(&mut self, channels: &[Vec<u8>]) -> (step: Step)
        ensures
            step@ == subscription_step(old(self)@, subscribe_name(), arguments_view(channels@)),
            final(self)@ == old(self)@,
    {
        let name: [u8; 9] = [83, 85, 66, 83, 67, 82, 73, 66, 69];  // "SUBSCRIBE"
        self.send(name.as_slice(), channels)
    }

    /// Starts subscribing to the channels that match the given patterns.
    pub fn psubscribe(&mut self, pchannels: &[Vec<u8>]) -> (step: Step)
        ensures
            step@ == subscription_step(old(self)@, psubscribe_name(), arguments_view(pchannels@)),
            final(self)@ == old(self)@,
    {
        let name: [u8; 10] = [80, 83, 85, 66, 83, 67, 82, 73, 66, 69];  // "PSUBSCRIBE"
        self.send(name.as_slice(), pchannels)
    }

    /// Starts ending the subscriptions to the given channels.
    pub fn unsubscribe(&mut self, channels: &[Vec<u8>]) -> (step: Step)
        ensures
            step@ == subscription_step(old(self)@, unsubscribe_name(), arguments_view(channels@)),
            final(self)@ == old(self)@,
    {
        let name: [u8; 11] = [85, 78, 83, 85, 66, 83, 67, 82, 73, 66, 69];  // "UNSUBSCRIBE"
        self.send(name.as_slice(), channels)
    }

    /// Starts ending the subscriptions to the given patterns.
    pub fn punsubscribe(&mut self, pchannels: &[Vec<u8>]) -> (step: Step)
        ensures
            step@ == subscription_step(old(self)@, punsubscribe_name(), arguments_view(pchannels@)),
            final(self)@ == old(self)@,
    {
        let name: [u8; 12] = [80, 85, 78, 83, 85, 66, 83, 67, 82, 73, 66, 69];  // "PUNSUBSCRIBE"
        self.send(name.as_slice(), pchannels)
    }

    /// The messages of this session's subscriptions: lends out its stream,
    /// and the frames of it from here on, read with a decoder of their own.
    pub fn on_message(&mut self) -> (parts: (&mut C, Frames))
        ensures
            *parts.0 == old(self)@.stream,
            parts.1@ == Seq::<u8>::empty(),
            final(self)@ == (ConnectionView { stream: *final(parts.0), ..old(self)@ }),
    {
        (self.0.stream_mut(), Frames::new())
    }

    /// Gives up the session: hands out its stream, and its frames from here on.
    pub fn into_on_message(self) -> (parts: (C, Frames))
        ensures
            parts.0 == self@.stream,
            parts.1@ == Seq::<u8>::empty(),
    {
        (self.0.into_stream(), Frames::new())
    }

    /// Hands the session back and starts leaving pub/sub mode. However the
    /// exchange ends, the session is the caller's again.
    pub fn into_connection(self) -> (parts: (Connection<C>, Step))
        ensures
            parts.0@ == self@,
            parts.1@ == begin(Request::ExitPubSub, self@.protocol, self@.pubsub, Seq::empty()),
    {
        let mut con = self.0;
        let step = con.exit_pubsub();
        (con, step)
    }
}

/// The name of the command that turns a session into a monitor: `MONITOR`.
pub open spec fn monitor_name() -> Seq<u8> {
    seq![77u8, 79u8, 78u8, 73u8, 84u8, 79u8, 82u8]
}

/// A session that watches the commands which the peer executes.
pub struct Monitor<C>(Connection<C>);

impl<C> View for Monitor<C> {
    type V = ConnectionView<C>;

    closed spec fn view(&self) -> ConnectionView<C> {
        self.0@
    }
}

impl<C> Monitor<C> {
    /// Makes a monitor of a session.
    pub fn new(con: Connection<C>) -> (monitor: Self)
        ensures
            monitor@ == con@,
    {
        Self(con)
    }

    /// The session, for the driver to report to.
    pub fn session(&mut self) -> (con: &mut Connection<C>)
        ensures
            con@ == old(self)@,
            final(self)@ == final(con)@,
    {
        &mut self.0
    }

    /// Starts sending the command that makes the peer stream what it executes.
    pub fn monitor(&mut self) -> (step: Step)
        ensures
            step@ == begin(
                Request::Single { no_response: false },
                old(self)@.protocol,
                old(self)@.pubsub,
                packed_command(seq![monitor_name()]),
            ),
            final(self)@ == old(self)@,
    {
        let name: [u8; 7] = [77, 79, 78, 73, 84, 79, 82];  // "MONITOR"
        let command = cmd(name.as_slice());
        self.0.req_packed_command(&command)
    }

    /// What the peer streams: lends out the session's stream, and the
    /// frames of it from here on, read with a decoder of their own.
    pub fn on_message(&mut self) -> (parts: (&mut C, Frames))
        ensures
            *parts.0 == old(self)@.stream,
            parts.1@ == Seq::<u8>::empty(),
            final(self)@ == (ConnectionView { stream: *final(parts.0), ..old(self)@ }),
    {
        (self.0.stream_mut(), Frames::new())
    }

    /// Gives up the session for what the peer streams: hands out the stream,
    /// and its frames from here on.
    pub fn into_on_message(self) -> (parts: (C, Frames))
        ensures
            parts.0 == self@.stream,
            parts.1@ == Seq::<u8>::empty(),
    {
        (self.0.into_stream(), Frames::new())
    }
}

} // verus!
