use crate::async_std::AsyncStdWrapped;
use crate::cmd::{packed_command, packed_pipeline, Cmd, Pipeline};
use crate::exchange::{
    begin, received, written, written_view, AwaitRead, AwaitWrite, Exchange, ExchangeView,
    ReplyView, Request, Step, StepView,
};
use crate::value::ValueView;
use crate::grammar::{after, parse_value, Parsed};
use crate::parser::Decoder;
use crate::pubsub::{Monitor, PubSub};
use crate::types::{
    bare_error, protocol_error, ErrorKind, ErrorView, ProtocolVersion, RedisError, RedisResult,
};
use vstd::prelude::*;

verus! {

/// What a session is set up with.
#[derive(Clone, Copy, Debug, PartialEq, Eq)]
pub struct RedisConnectionInfo {
    /// The database that is selected at the handshake.
    pub db: i64,
    /// The protocol version that the session speaks.
    pub protocol: ProtocolVersion,
}

/// A session over one duplex stream.
///
/// The session owns the stream but performs no I/O on it: it decides what has
/// to be written and read, and the driver that holds the session does so.
pub struct Connection<C> {
    con: C,
    buf: Vec<u8>,
    decoder: Decoder,
    db: i64,
    // Whether the session was left in pub/sub mode. Checked at the start of
    // every exchange: when raised, the session first tries to leave that mode.
    pubsub: bool,
    protocol: ProtocolVersion,
}

/// The mathematical content of a [`Connection`].
pub struct ConnectionView<C> {
    /// The stream that the session owns.
    pub stream: C,
    /// The selected database.
    pub db: i64,
    /// Whether the session was left in pub/sub mode.
    pub pubsub: bool,
    /// The protocol version of the session.
    pub protocol: ProtocolVersion,
    /// The bytes that have arrived and belong to no reply that was handed out.
    pub inbound: Seq<u8>,
}

impl<C> View for Connection<C> {
    type V = ConnectionView<C>;

    closed spec fn view(&self) -> ConnectionView<C> {
        ConnectionView {
            stream: self.con,
            db: self.db,
            pubsub: self.pubsub,
            protocol: self.protocol,
            inbound: self.decoder@,
        }
    }
}

/// Compiles only where values of `T` can be shared between threads.
pub fn assert_sync<T: Sync>() {
}

/// Compiles only if a session can be shared between threads whenever its
/// stream can.
pub fn test<C: Sync>() {
    assert_sync::<Connection<C>>();
}

impl<C> Connection<C> {
    /// The bytes of the scratch buffer: those of the request that was written
    /// last, kept for their room until the next request is packed.
    pub closed spec fn scratch(&self) -> Seq<u8> {
        self.buf@
    }

    /// A session over `con` that has exchanged nothing yet.
    pub fn new(connection_info: &RedisConnectionInfo, con: C) -> (rv: Connection<C>)
        ensures
            rv@ == (ConnectionView {
                stream: con,
                db: connection_info.db,
                pubsub: false,
                protocol: connection_info.protocol,
                inbound: Seq::empty(),
            }),
            rv.scratch() == Seq::<u8>::empty(),
    {
        Connection {
            con,
            buf: Vec::new(),
            decoder: Decoder::new(),
            db: connection_info.db,
            pubsub: false,
            protocol: connection_info.protocol,
        }
    }

    /// The same session over another stream, made from the old one by `f`.
    pub fn map<D, F: FnOnce(C) -> D>(self, f: F) -> (rv: Connection<D>)
        requires
            f.requires((self@.stream,)),
        ensures
            f.ensures((self@.stream,), rv@.stream),
            rv@.db == self@.db,
            rv@.pubsub == self@.pubsub,
            rv@.protocol == self@.protocol,
            rv@.inbound == self@.inbound,
            rv.scratch() == self.scratch(),
    {
        let Connection { con, buf, decoder, db, pubsub, protocol } = self;
        Connection { con: f(con), buf, decoder, db, pubsub, protocol }
    }

    /// The database that this session has selected.
    pub fn get_db(&self) -> (db: i64)
        ensures
            db == self@.db,
    {
        self.db
    }

    /// The protocol version that this session speaks.
    pub fn protocol(&self) -> (p: ProtocolVersion)
        ensures
            p == self@.protocol,
    {
        self.protocol
    }

    /// Whether the session was left in pub/sub mode.
    pub fn in_pubsub(&self) -> (flag: bool)
        ensures
            flag == self@.pubsub,
    {
        self.pubsub
    }

    /// The stream, for the driver to write to and read from.
    pub fn stream_mut(&mut self) -> (stream: &mut C)
        ensures
            *stream == old(self)@.stream,
            final(self)@ == (ConnectionView { stream: *final(stream), ..old(self)@ }),
            final(self).scratch() == old(self).scratch(),
    {
        &mut self.con
    }

    /// Puts this session into pub/sub mode.
    pub fn into_pubsub(self) -> (pubsub: PubSub<C>)
        ensures
            pubsub@ == self@,
    {
        PubSub::new(self)
    }

    /// Makes a monitor of this session.
    pub fn into_monitor(self) -> (monitor: Monitor<C>)
        ensures
            monitor@ == self@,
    {
        Monitor::new(self)
    }

    /// Gives up the session and hands out its stream.
    pub fn into_stream(self) -> (stream: C)
        ensures
            stream == self@.stream,
    {
        self.con
    }

    /// The scratch buffer, emptied, for the next request to be packed into.
    fn take_buffer(&mut self) -> (out: Vec<u8>)
        ensures
            out@ == Seq::<u8>::empty(),
            final(self).scratch() == Seq::<u8>::empty(),
            final(self)@ == old(self)@,
    {
        let mut out: Vec<u8> = Vec::new();
        std::mem::swap(&mut self.buf, &mut out);
        out.clear();
        out
    }

    /// Starts sending one command.
    ///
    /// The first step is a write: of the packed command, or, where the session
    /// was left in pub/sub mode, of the commands that leave it.
    pub fn req_packed_command(&mut self, cmd: &Cmd) -> (step: Step)
        ensures
            step@ == begin(
                Request::Single { no_response: cmd@.no_response },
                old(self)@.protocol,
                old(self)@.pubsub,
                packed_command(cmd@.args),
            ),
            final(self)@ == old(self)@,
            final(self).scratch() == Seq::<u8>::empty(),
    {
        let mut packed = self.take_buffer();
        cmd.write_packed_command(&mut packed);
        Exchange::start(
            Request::Single { no_response: cmd.is_no_response() },
            self.protocol,
            self.pubsub,
            packed,
        )
    }

    /// Starts sending a pipeline of which `offset` replies are read and
    /// dropped and `count` further replies are collected.
    pub fn req_packed_commands(&mut self, cmd: &Pipeline, offset: usize, count: usize) -> (step:
        Step)
        ensures
            step@ == begin(
                Request::Pipeline { offset, count },
                old(self)@.protocol,
                old(self)@.pubsub,
                packed_pipeline(cmd@.commands),
            ),
            final(self)@ == old(self)@,
            final(self).scratch() == Seq::<u8>::empty(),
    {
        let mut packed = self.take_buffer();
        cmd.write_packed_pipeline(&mut packed);
        Exchange::start(Request::Pipeline { offset, count }, self.protocol, self.pubsub, packed)
    }

    /// Starts leaving pub/sub mode: both unsubscribe commands are written,
    /// whether or not a subscription is active.
    pub fn exit_pubsub(&mut self) -> (step: Step)
        ensures
            step@ == begin(
                Request::ExitPubSub,
                old(self)@.protocol,
                old(self)@.pubsub,
                Seq::empty(),
            ),
            final(self)@ == old(self)@,
            final(self).scratch() == old(self).scratch(),
    {
        Exchange::start(Request::ExitPubSub, self.protocol, self.pubsub, Vec::new())
    }

    /// Hands the exchange the replies that the bytes held so far contain.
    fn drain(&mut self, exchange: AwaitRead) -> (step: Step)
        ensures
            (step@, final(self)@.pubsub, final(self)@.inbound) == drained(
                exchange@,
                old(self)@.pubsub,
                old(self)@.inbound,
            ),
            final(self)@ == (ConnectionView {
                pubsub: final(self)@.pubsub,
                inbound: final(self)@.inbound,
                ..old(self)@
            }),
            final(self).scratch() == old(self).scratch(),
    {
        let mut waiting = exchange;
        loop
            invariant
                self.scratch() == old(self).scratch(),
                drained(waiting@, self@.pubsub, self@.inbound) == drained(
                    exchange@,
                    old(self)@.pubsub,
                    old(self)@.inbound,
                ),
                self@ == (ConnectionView {
                    pubsub: self@.pubsub,
                    inbound: self@.inbound,
                    ..old(self)@
                }),
            decreases self@.inbound.len(),
        {
            match self.decoder.next_value() {
                None => {
                    return Step::Read(waiting);
                },
                Some(response) => {
                    let (step, pubsub) = waiting.received(self.pubsub, response);
                    self.pubsub = pubsub;
                    match step {
                        Step::Read(next) => {
                            waiting = next;
                        },
                        other => {
                            return other;
                        },
                    }
                },
            }
        }
    }

    /// Reports how the write of an exchange went, and returns the next step.
    ///
    /// Where the exchange goes on to read, it is first handed the replies
    /// that the bytes held so far contain; a step that asks to read asks for
    /// more bytes from the stream. The buffer that was written becomes the
    /// scratch buffer of the session.
    pub fn written(&mut self, exchange: AwaitWrite, result: RedisResult<()>) -> (step: Step)
        ensures
            (step@, final(self)@.pubsub, final(self)@.inbound) == after_written(
                exchange@,
                old(self)@.pubsub,
                old(self)@.inbound,
                written_view(result),
            ),
            final(self)@ == (ConnectionView {
                pubsub: final(self)@.pubsub,
                inbound: final(self)@.inbound,
                ..old(self)@
            }),
            final(self).scratch() == exchange@.outbound,
    {
        let (step, pubsub, buffer) = exchange.written(self.pubsub, result);
        self.pubsub = pubsub;
        self.buf = buffer;
        match step {
            Step::Read(waiting) => self.drain(waiting),
            other => other,
        }
    }

    /// Reports what a read from the stream yielded, and returns the next step.
    ///
    /// A failed read is handed to the exchange as such. A read of no bytes
    /// means that the stream has ended, which the exchange sees as a failed
    /// read. Any other bytes are taken in after those held so far, and the
    /// exchange is handed the replies that they now contain.
    pub fn fed(&mut self, exchange: AwaitRead, read: RedisResult<&[u8]>) -> (step: Step)
        ensures
            (step@, final(self)@.pubsub, final(self)@.inbound) == after_read(
                exchange@,
                old(self)@.pubsub,
                old(self)@.inbound,
                read_view(read),
            ),
            final(self)@ == (ConnectionView {
                pubsub: final(self)@.pubsub,
                inbound: final(self)@.inbound,
                ..old(self)@
            }),
            final(self).scratch() == old(self).scratch(),
    {
        match read {
            Err(e) => {
                let (step, pubsub) = exchange.received(self.pubsub, Err(e));
                self.pubsub = pubsub;
                step
            },
            Ok(chunk) => {
                if chunk.len() == 0 {
                    let (step, pubsub) = exchange.received(
                        self.pubsub,
                        Err(RedisError::of_kind(ErrorKind::Io)),
                    );
                    self.pubsub = pubsub;
                    step
                } else {
                    self.decoder.feed(chunk);
                    self.drain(exchange)
                }
            },
        }
    }
}

impl<C> Connection<AsyncStdWrapped<C>> {
    /// A session over a stream of another runtime, wrapped, that has
    /// exchanged nothing yet.
    pub fn new_async_std(connection_info: &RedisConnectionInfo, con: C) -> (rv: Self)
        ensures
            rv@.stream@ == con,
            rv@.db == connection_info.db,
            !rv@.pubsub,
            rv@.protocol == connection_info.protocol,
            rv@.inbound == Seq::<u8>::empty(),
            rv.scratch() == Seq::<u8>::empty(),
    {
        Connection::new(connection_info, AsyncStdWrapped::new(con))
    }
}

/// The error that reports the end of the stream where a reply was due.
pub open spec fn end_of_stream() -> ErrorView {
    bare_error(ErrorKind::Io)
}

/// The content of what a read from the stream yielded.
pub open spec fn read_view(read: RedisResult<&[u8]>) -> Result<Seq<u8>, ErrorView> {
    match read {
        Ok(chunk) => Ok(chunk@),
        Err(e) => Err(e@),
    }
}

/// An exchange that waits for a reply, after it has been handed the replies
/// that the bytes `inbound` contain: the step it has reached, the pub/sub
/// flag, and the bytes that are left.
///
/// Replies are decoded from the front, one by one, and their bytes dropped,
/// for as long as the exchange asks for another and a whole one is there.
/// Bytes that cannot start a reply stay, and the exchange sees them as a
/// failed read.
pub open spec fn drained(x: ExchangeView, pubsub: bool, inbound: Seq<u8>) -> (
    StepView,
    bool,
    Seq<u8>,
)
    decreases inbound.len(),
{
    match parse_value(inbound) {
        Parsed::Incomplete => (StepView::Read(x), pubsub, inbound),
        Parsed::Invalid => {
            let (step, flag) = received(x, pubsub, Err(protocol_error()));
            (step, flag, inbound)
        },
        Parsed::Complete { value, consumed } => {
            let (step, flag) = received(x, pubsub, Ok(value));
            let rest = after(inbound, consumed);
            match step {
                StepView::Read(next) => if 1 <= consumed <= inbound.len() {
                    drained(next, flag, rest)
                } else {
                    (step, flag, rest)
                },
                _ => (step, flag, rest),
            }
        },
    }
}

/// An exchange and its session after a write: the step reached, the pub/sub
/// flag, and the bytes held.
pub open spec fn after_written(
    x: ExchangeView,
    pubsub: bool,
    inbound: Seq<u8>,
    result: Result<(), ErrorView>,
) -> (StepView, bool, Seq<u8>) {
    let (step, flag) = written(x, pubsub, result);
    match step {
        StepView::Read(waiting) => drained(waiting, flag, inbound),
        _ => (step, flag, inbound),
    }
}

/// An exchange and its session after a read from the stream: the step
/// reached, the pub/sub flag, and the bytes held.
pub open spec fn after_read(
    x: ExchangeView,
    pubsub: bool,
    inbound: Seq<u8>,
    read: Result<Seq<u8>, ErrorView>,
) -> (StepView, bool, Seq<u8>) {
    match read {
        Err(e) => {
            let (step, flag) = received(x, pubsub, Err(e));
            (step, flag, inbound)
        },
        Ok(chunk) => if chunk.len() == 0 {
            let (step, flag) = received(x, pubsub, Err(end_of_stream()));
            (step, flag, inbound)
        } else {
            drained(x, pubsub, inbound + chunk)
        },
    }
}

/// A command that expects no response takes no reply from the stream.
///
/// Once such a command has been written, outside of leaving pub/sub mode,
/// it is done with the absence of a value as its result, and the bytes that
/// the session holds are untouched.
pub proof fn no_response_takes_no_reply(x: ExchangeView, pubsub: bool, inbound: Seq<u8>)
    requires
        x.request == (Request::Single { no_response: true }),
        !x.exiting,
    ensures
        after_written(x, pubsub, inbound, Ok(())) == (
            StepView::Done(Ok(ReplyView::Single(ValueView::Nil))),
            pubsub,
            inbound,
        ),
{
}

} // verus!
