use crate::cmd::{cmd, packed_pipeline, CmdView, Pipeline};
use crate::pubsub::{after_ack, classify_ack, read_ack, Ack};
use crate::types::{protocol_error, ErrorKind, ErrorView, ProtocolVersion, RedisError, RedisResult};
use crate::value::{view_items, Value, ValueView};
use vstd::prelude::*;

verus! {

/// What a session is asked to do in one exchange with the peer.
#[derive(Clone, Copy, Debug, PartialEq, Eq, Structural)]
pub enum Request {
    /// One command; `no_response` says that the peer answers it only through push frames.
    Single { no_response: bool },
    /// A pipeline: `offset` replies are read and dropped, then `count` are collected.
    Pipeline { offset: usize, count: usize },
    /// Nothing but leaving pub/sub mode.
    ExitPubSub,
}

/// What a finished exchange hands back.
#[derive(Clone, Debug, PartialEq, Eq)]
pub enum Reply {
    /// Pub/sub mode was left.
    Unit,
    /// The reply to a single command.
    Single(Value),
    /// The collected replies of a pipeline, in issue order.
    Pipeline(Vec<Value>),
}

/// The mathematical content of a [`Reply`].
pub enum ReplyView {
    Unit,
    Single(ValueView),
    Pipeline(Seq<ValueView>),
}

impl View for Reply {
    type V = ReplyView;

    open spec fn view(&self) -> ReplyView {
        match self {
            Reply::Unit => ReplyView::Unit,
            Reply::Single(v) => ReplyView::Single(v@),
            Reply::Pipeline(items) => ReplyView::Pipeline(view_items(items@)),
        }
    }
}

impl Reply {
    /// The reply to a single command, if this is one.
    pub fn into_single(self) -> (value: Option<Value>)
        ensures
            match self {
                Reply::Single(v) => value == Some(v),
                _ => value is None,
            },
    {
        match self {
            Reply::Single(v) => Some(v),
            _ => None,
        }
    }

    /// The collected replies of a pipeline, if this is one.
    pub fn into_pipeline(self) -> (values: Option<Vec<Value>>)
        ensures
            match self {
                Reply::Pipeline(items) => values == Some(items),
                _ => values is None,
            },
    {
        match self {
            Reply::Pipeline(items) => Some(items),
            _ => None,
        }
    }
}

/// The content of what reading one reply yielded.
pub open spec fn response_view(r: RedisResult<Value>) -> Result<ValueView, ErrorView> {
    match r {
        Ok(v) => Ok(v@),
        Err(e) => Err(e@),
    }
}

/// The content of what writing yielded.
pub open spec fn written_view(r: RedisResult<()>) -> Result<(), ErrorView> {
    match r {
        Ok(_) => Ok(()),
        Err(e) => Err(e@),
    }
}

/// The content of how an exchange ended.
pub open spec fn outcome_view(r: RedisResult<Reply>) -> Result<ReplyView, ErrorView> {
    match r {
        Ok(reply) => Ok(reply@),
        Err(e) => Err(e@),
    }
}

/// The content of an optional error.
pub open spec fn opt_error_view(e: Option<RedisError>) -> Option<ErrorView> {
    match e {
        Some(e) => Some(e@),
        None => None,
    }
}

/// The name of the command that ends channel subscriptions: `UNSUBSCRIBE`.
pub open spec fn unsubscribe_name() -> Seq<u8> {
    seq![85u8, 78u8, 83u8, 85u8, 66u8, 83u8, 67u8, 82u8, 73u8, 66u8, 69u8]
}

/// The name of the command that ends pattern subscriptions: `PUNSUBSCRIBE`.
pub open spec fn punsubscribe_name() -> Seq<u8> {
    seq![80u8, 85u8, 78u8, 83u8, 85u8, 66u8, 83u8, 67u8, 82u8, 73u8, 66u8, 69u8]
}

/// The two commands that leave pub/sub mode, without arguments: all channel
/// subscriptions end, then all pattern subscriptions.
pub open spec fn exit_commands() -> Seq<CmdView> {
    seq![
        CmdView { args: seq![unsubscribe_name()], no_response: false },
        CmdView { args: seq![punsubscribe_name()], no_response: false },
    ]
}

/// The bytes that leave pub/sub mode: both commands as one pipeline.
pub open spec fn exit_bytes() -> Seq<u8> {
    packed_pipeline(exit_commands())
}

/// The mathematical content of an exchange in flight.
pub struct ExchangeView {
    /// What was asked.
    pub request: Request,
    /// The protocol version of the session.
    pub protocol: ProtocolVersion,
    /// Whether the session is still leaving pub/sub mode.
    pub exiting: bool,
    /// The bytes of the current write.
    pub outbound: Seq<u8>,
    /// The packed request, waiting while the session leaves pub/sub mode.
    pub command: Seq<u8>,
    /// Whether the channel subscriptions have been reported to be down to none.
    pub channels_clear: bool,
    /// Whether the pattern subscriptions have been reported to be down to none.
    pub patterns_clear: bool,
    /// How many replies are still to be read and dropped.
    pub ignored_left: usize,
    /// How many replies are still to be collected.
    pub observed_left: usize,
    /// The first error met so far.
    pub first_err: Option<ErrorView>,
    /// The replies collected so far.
    pub collected: Seq<ValueView>,
}

/// The mathematical content of a [`Step`].
pub enum StepView {
    Write(ExchangeView),
    Read(ExchangeView),
    Done(Result<ReplyView, ErrorView>),
}

/// The first step of an exchange.
///
/// A session that was left in pub/sub mode, or one that is asked to leave it,
/// first writes the two commands that end all subscriptions; any other session
/// writes the packed request at once.
pub open spec fn begin(
    request: Request,
    protocol: ProtocolVersion,
    pubsub: bool,
    packed: Seq<u8>,
) -> StepView {
    let exiting = pubsub || request is ExitPubSub;
    StepView::Write(
        ExchangeView {
            request,
            protocol,
            exiting,
            outbound: if exiting {
                exit_bytes()
            } else {
                packed
            },
            command: if exiting {
                packed
            } else {
                Seq::empty()
            },
            channels_clear: false,
            patterns_clear: false,
            ignored_left: match request {
                Request::Pipeline { offset, count } => offset,
                _ => 0,
            },
            observed_left: match request {
                Request::Pipeline { offset, count } => count,
                _ => 0,
            },
            first_err: None,
            collected: Seq::empty(),
        },
    )
}

/// How a pipeline ends: with the first error met, if there was one, and with
/// the collected replies otherwise.
pub open spec fn finish(x: ExchangeView) -> Result<ReplyView, ErrorView> {
    match x.first_err {
        Some(e) => Err(e),
        None => Ok(ReplyView::Pipeline(x.collected)),
    }
}

/// The step of a pipeline once a reply has been accounted for: it ends when
/// no reply is left to drop or to collect.
pub open spec fn pipeline_next(x: ExchangeView) -> StepView {
    if x.ignored_left == 0 && x.observed_left == 0 {
        StepView::Done(finish(x))
    } else {
        StepView::Read(x)
    }
}

/// The step after the request itself has been written.
pub open spec fn after_write(x: ExchangeView) -> StepView {
    match x.request {
        Request::Single { no_response } => if no_response {
            StepView::Done(Ok(ReplyView::Single(ValueView::Nil)))
        } else {
            StepView::Read(x)
        },
        Request::Pipeline { offset, count } => pipeline_next(x),
        Request::ExitPubSub => StepView::Done(Ok(ReplyView::Unit)),
    }
}

/// The step after a write, and the pub/sub flag of the session after it.
///
/// A failed write ends the exchange with its error; where it was the write
/// that leaves pub/sub mode, the flag is raised. After a write that went well
/// the exchange holds no outbound bytes any more.
pub open spec fn written(x: ExchangeView, pubsub: bool, result: Result<(), ErrorView>) -> (
    StepView,
    bool,
) {
    match result {
        Err(e) => (StepView::Done(Err(e)), pubsub || x.exiting),
        Ok(_) => {
            let next = ExchangeView { outbound: Seq::empty(), ..x };
            if x.exiting {
                (StepView::Read(next), pubsub)
            } else {
                (after_write(next), pubsub)
            }
        },
    }
}

/// The step once pub/sub mode has been left: the request that was waiting is written.
pub open spec fn exit_complete(x: ExchangeView) -> StepView {
    match x.request {
        Request::ExitPubSub => StepView::Done(Ok(ReplyView::Unit)),
        _ => StepView::Write(
            ExchangeView { exiting: false, outbound: x.command, command: Seq::empty(), ..x },
        ),
    }
}

/// The error that an error reply of the peer stands for; none for any other reply.
pub open spec fn server_error_of(v: ValueView) -> Option<ErrorView> {
    match v {
        ValueView::ServerError { code, detail } => Some(
            ErrorView { kind: ErrorKind::Server, code, detail },
        ),
        _ => None,
    }
}

/// The earlier of two optional errors.
pub open spec fn or_error(first: Option<ErrorView>, next: Option<ErrorView>) -> Option<ErrorView> {
    match first {
        Some(e) => Some(e),
        None => next,
    }
}

/// A pipeline after one more reply has been read.
///
/// While replies are dropped, each one counts, and an error reply of the
/// peer is remembered if it is the first. After that, a push frame is passed
/// over without counting, and every other reply is collected.
pub open spec fn pipeline_received(x: ExchangeView, v: ValueView) -> ExchangeView {
    if x.ignored_left > 0 {
        ExchangeView {
            ignored_left: (x.ignored_left - 1) as usize,
            first_err: or_error(x.first_err, server_error_of(v)),
            ..x
        }
    } else if x.observed_left > 0 {
        match v {
            ValueView::Push { kind, data } => x,
            _ => ExchangeView {
                observed_left: (x.observed_left - 1) as usize,
                collected: x.collected.push(v),
                ..x
            },
        }
    } else {
        x
    }
}

/// How an exchange ends on a failed read: with the first error that it has
/// met, which is that of the read unless an earlier one is remembered.
pub open spec fn aborted(x: ExchangeView, e: ErrorView) -> Result<ReplyView, ErrorView> {
    match x.first_err {
        Some(first) => Err(first),
        None => Err(e),
    }
}

/// The step after one reply was read, and the pub/sub flag of the session after it.
///
/// While the session leaves pub/sub mode, a failed read or a malformed reply
/// ends the exchange and raises the flag; an acknowledgement updates what is
/// known, and once the session is clear the flag is lowered. A single command
/// ends with the first reply that is no push frame, or with a failed read.
/// A pipeline goes on through error replies of the peer, but a failed read
/// ends it at once: no further reply is asked for.
pub open spec fn received(
    x: ExchangeView,
    pubsub: bool,
    response: Result<ValueView, ErrorView>,
) -> (StepView, bool) {
    if x.exiting {
        match response {
            Err(e) => (StepView::Done(Err(e)), true),
            Ok(v) => {
                let ack = classify_ack(x.protocol, v);
                match ack {
                    Ack::Malformed => (StepView::Done(Err(protocol_error())), true),
                    _ => {
                        let (channels, patterns, clear) = after_ack(
                            x.channels_clear,
                            x.patterns_clear,
                            ack,
                        );
                        let next = ExchangeView {
                            channels_clear: channels,
                            patterns_clear: patterns,
                            ..x
                        };
                        if clear {
                            (exit_complete(next), false)
                        } else {
                            (StepView::Read(next), pubsub)
                        }
                    },
                }
            },
        }
    } else {
        match x.request {
            Request::Single { no_response } => match response {
                Err(e) => (StepView::Done(Err(e)), pubsub),
                Ok(ValueView::Push { kind, data }) => (StepView::Read(x), pubsub),
                Ok(v) => (StepView::Done(Ok(ReplyView::Single(v))), pubsub),
            },
            Request::Pipeline { offset, count } => match response {
                Err(e) => (StepView::Done(aborted(x, e)), pubsub),
                Ok(v) => (pipeline_next(pipeline_received(x, v)), pubsub),
            },
            Request::ExitPubSub => (StepView::Done(Ok(ReplyView::Unit)), pubsub),
        }
    }
}

/// An exchange in flight: everything a session remembers between two steps.
#[derive(Debug)]
pub struct Exchange {
    request: Request,
    protocol: ProtocolVersion,
    exiting: bool,
    outbound: Vec<u8>,
    command: Vec<u8>,
    channels_clear: bool,
    patterns_clear: bool,
    ignored_left: usize,
    observed_left: usize,
    first_err: Option<RedisError>,
    collected: Vec<Value>,
}

impl View for Exchange {
    type V = ExchangeView;

    closed spec fn view(&self) -> ExchangeView {
        ExchangeView {
            request: self.request,
            protocol: self.protocol,
            exiting: self.exiting,
            outbound: self.outbound@,
            command: self.command@,
            channels_clear: self.channels_clear,
            patterns_clear: self.patterns_clear,
            ignored_left: self.ignored_left,
            observed_left: self.observed_left,
            first_err: opt_error_view(self.first_err),
            collected: view_items(self.collected@),
        }
    }
}

/// An exchange that waits for its bytes to be written to the stream.
#[derive(Debug)]
pub struct AwaitWrite {
    exchange: Exchange,
}

/// An exchange that waits for the next reply from the stream.
#[derive(Debug)]
pub struct AwaitRead {
    exchange: Exchange,
}

impl View for AwaitWrite {
    type V = ExchangeView;

    closed spec fn view(&self) -> ExchangeView {
        self.exchange@
    }
}

impl View for AwaitRead {
    type V = ExchangeView;

    closed spec fn view(&self) -> ExchangeView {
        self.exchange@
    }
}

/// What the driver of a session has to do next.
#[derive(Debug)]
pub enum Step {
    /// Write all the bytes of the exchange to the stream, then report how it went.
    Write(AwaitWrite),
    /// Read the next reply from the stream, then report it.
    Read(AwaitRead),
    /// Nothing: the exchange has ended.
    Done(RedisResult<Reply>),
}

impl View for Step {
    type V = StepView;

    open spec fn view(&self) -> StepView {
        match self {
            Step::Write(w) => StepView::Write(w@),
            Step::Read(r) => StepView::Read(r@),
            Step::Done(r) => StepView::Done(outcome_view(*r)),
        }
    }
}

/// The bytes that leave pub/sub mode.
pub fn packed_exit() -> (out: Vec<u8>)
    ensures
        out@ == exit_bytes(),
{
    let unsubscribe: [u8; 11] = [85, 78, 83, 85, 66, 83, 67, 82, 73, 66, 69];  // "UNSUBSCRIBE"
    let punsubscribe: [u8; 12] = [80, 85, 78, 83, 85, 66, 83, 67, 82, 73, 66, 69];  // "PUNSUBSCRIBE"
    let mut pipeline = Pipeline::new();
    pipeline.add_command(cmd(unsubscribe.as_slice()));
    pipeline.add_command(cmd(punsubscribe.as_slice()));
    proof {
        reveal_with_fuel(packed_pipeline, 3);
    }
    pipeline.get_packed_pipeline()
}

impl Exchange {
    /// Starts an exchange for a session with the given protocol version and
    /// pub/sub flag; `packed` is the wire form of the request.
    pub fn start(request: Request, protocol: ProtocolVersion, pubsub: bool, packed: Vec<u8>) -> (step:
        Step)
        ensures
            step@ == begin(request, protocol, pubsub, packed@),
    {
        let exiting = pubsub || matches!(request, Request::ExitPubSub);
        let (ignored_left, observed_left): (usize, usize) = match request {
            Request::Pipeline { offset, count } => (offset, count),
            _ => (0, 0),
        };
        let (outbound, command): (Vec<u8>, Vec<u8>) = if exiting {
            (packed_exit(), packed)
        } else {
            (packed, Vec::new())
        };
        let exchange = Exchange {
            request,
            protocol,
            exiting,
            outbound,
            command,
            channels_clear: false,
            patterns_clear: false,
            ignored_left,
            observed_left,
            first_err: None,
            collected: Vec::new(),
        };
        assert(exchange@.collected =~= Seq::<ValueView>::empty());
        Step::Write(AwaitWrite { exchange })
    }

    /// The step of a pipeline once a reply has been accounted for.
    fn next_in_pipeline(self) -> (step: Step)
        ensures
            step@ == pipeline_next(self@),
    {
        if self.ignored_left == 0 && self.observed_left == 0 {
            match self.first_err {
                Some(e) => Step::Done(Err(e)),
                None => Step::Done(Ok(Reply::Pipeline(self.collected))),
            }
        } else {
            Step::Read(AwaitRead { exchange: self })
        }
    }

    /// A pipeline after one more reply has been read.
    fn count_reply(self, item: Value) -> (next: Exchange)
        ensures
            next@ == pipeline_received(self@, item@),
    {
        let mut x = self;
        if x.ignored_left > 0 {
            x.ignored_left = x.ignored_left - 1;
            match item {
                Value::ServerError(err) => {
                    if x.first_err.is_none() {
                        x.first_err = Some(RedisError::from_server(err));
                    }
                },
                _ => {},
            }
        } else if x.observed_left > 0 {
            if !item.is_push() {
                x.observed_left = x.observed_left - 1;
                x.collected.push(item);
                assert(view_items(x.collected@) =~= view_items(self.collected@).push(item@));
            }
        }
        x
    }

    /// How the exchange ends on a failed read.
    fn abort(self, e: RedisError) -> (outcome: RedisResult<Reply>)
        ensures
            outcome_view(outcome) == aborted(self@, e@),
    {
        match self.first_err {
            Some(first) => Err(first),
            None => Err(e),
        }
    }
}

impl AwaitWrite {
    /// The bytes that the driver has to write, all of them.
    pub fn bytes(&self) -> (out: &[u8])
        ensures
            out@ == self@.outbound,
    {
        self.exchange.outbound.as_slice()
    }

    /// Reports how the write went. Returns the next step, the pub/sub flag
    /// that the session has from now on, and the buffer that was written, for
    /// reuse.
    pub fn written(self, pubsub: bool, result: RedisResult<()>) -> (next: (Step, bool, Vec<u8>))
        ensures
            (next.0@, next.1) == written(self@, pubsub, written_view(result)),
            next.2@ == self@.outbound,
    {
        let mut x = self.exchange;
        let mut buffer: Vec<u8> = Vec::new();
        std::mem::swap(&mut x.outbound, &mut buffer);
        match result {
            Err(e) => (Step::Done(Err(e)), pubsub || x.exiting, buffer),
            Ok(_) => {
                if x.exiting {
                    (Step::Read(AwaitRead { exchange: x }), pubsub, buffer)
                } else {
                    match x.request {
                        Request::Single { no_response } => {
                            if no_response {
                                (Step::Done(Ok(Reply::Single(Value::Nil))), pubsub, buffer)
                            } else {
                                (Step::Read(AwaitRead { exchange: x }), pubsub, buffer)
                            }
                        },
                        Request::Pipeline { .. } => (x.next_in_pipeline(), pubsub, buffer),
                        Request::ExitPubSub => (Step::Done(Ok(Reply::Unit)), pubsub, buffer),
                    }
                }
            },
        }
    }
}

impl AwaitRead {
    /// Reports what reading the next reply yielded. Returns the next step and
    /// the pub/sub flag that the session has from now on.
    pub fn received(self, pubsub: bool, response: RedisResult<Value>) -> (next: (Step, bool))
        ensures
            (next.0@, next.1) == received(self@, pubsub, response_view(response)),
    {
        let mut x = self.exchange;
        if x.exiting {
            match response {
                Err(e) => (Step::Done(Err(e)), true),
                Ok(v) => {
                    let ack = read_ack(x.protocol, &v);
                    match ack {
                        Ack::Malformed => (
                            Step::Done(Err(RedisError::of_kind(ErrorKind::Protocol))),
                            true,
                        ),
                        Ack::Unsubscribed(n) => {
                            if n == 0 {
                                x.channels_clear = true;
                            }
                            if x.channels_clear && x.patterns_clear {
                                (x.leave(), false)
                            } else {
                                (Step::Read(AwaitRead { exchange: x }), pubsub)
                            }
                        },
                        Ack::PUnsubscribed(n) => {
                            if n == 0 {
                                x.patterns_clear = true;
                            }
                            if x.channels_clear && x.patterns_clear {
                                (x.leave(), false)
                            } else {
                                (Step::Read(AwaitRead { exchange: x }), pubsub)
                            }
                        },
                        Ack::Other => (Step::Read(AwaitRead { exchange: x }), pubsub),
                    }
                },
            }
        } else {
            match x.request {
                Request::Single { .. } => match response {
                    Err(e) => (Step::Done(Err(e)), pubsub),
                    Ok(v) => {
                        if v.is_push() {
                            (Step::Read(AwaitRead { exchange: x }), pubsub)
                        } else {
                            (Step::Done(Ok(Reply::Single(v))), pubsub)
                        }
                    },
                },
                Request::Pipeline { .. } => match response {
                    Err(e) => (Step::Done(x.abort(e)), pubsub),
                    Ok(item) => (x.count_reply(item).next_in_pipeline(), pubsub),
                },
                Request::ExitPubSub => (Step::Done(Ok(Reply::Unit)), pubsub),
            }
        }
    }
}

impl Exchange {
    /// The step once pub/sub mode has been left.
    fn leave(self) -> (step: Step)
        ensures
            step@ == exit_complete(self@),
    {
        match self.request {
            Request::ExitPubSub => Step::Done(Ok(Reply::Unit)),
            _ => {
                let mut x = self;
                x.exiting = false;
                x.outbound = x.command;
                x.command = Vec::new();
                Step::Write(AwaitWrite { exchange: x })
            },
        }
    }
}

/// How a command that is sent for its effect alone has ended.
pub open spec fn acknowledgement(outcome: Result<ReplyView, ErrorView>) -> Result<(), ErrorView> {
    match outcome {
        Ok(ReplyView::Single(ValueView::ServerError { code, detail })) => Err(
            ErrorView { kind: ErrorKind::Server, code, detail },
        ),
        Ok(_) => Ok(()),
        Err(e) => Err(e),
    }
}

/// Reads the end of an exchange as that of a command which is sent for its
/// effect alone: an error reply of the peer is the error of the command, and
/// any other reply means that it went well.
pub fn acknowledged(outcome: RedisResult<Reply>) -> (r: RedisResult<()>)
    ensures
        written_view(r) == acknowledgement(outcome_view(outcome)),
{
    match outcome {
        Ok(Reply::Single(Value::ServerError(err))) => Err(RedisError::from_server(err)),
        Ok(_) => Ok(()),
        Err(e) => Err(e),
    }
}

} // verus!
