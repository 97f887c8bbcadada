use crate::connection::drained;
use crate::encoder::{encode, encode_items};
use crate::exchange::{
    aborted, exit_complete, finish, or_error, pipeline_next, pipeline_received, received,
    server_error_of, ExchangeView, ReplyView, Request, StepView,
};
use crate::grammar::after;
use crate::roundtrip::{decode_inverts_encode, encodable};
use crate::pubsub::{classify_ack, Ack};
use crate::types::{ErrorView, ProtocolVersion};
use crate::value::ValueView;
use vstd::prelude::*;

verus! {

/// How far an exchange gets on a stream of replies.
pub struct Run {
    /// The step at which the exchange stopped asking for replies, or the
    /// request for one more where the stream ran out first.
    pub step: StepView,
    /// The pub/sub flag of the session at that point.
    pub pubsub: bool,
    /// How many replies of the stream the exchange has taken.
    pub consumed: nat,
}

/// Hands an exchange that waits for a reply the replies of a stream, one by
/// one, for as long as it asks for another.
pub open spec fn run(x: ExchangeView, pubsub: bool, responses: Seq<Result<ValueView, ErrorView>>) -> Run
    decreases responses.len(),
{
    if responses.len() == 0 {
        Run { step: StepView::Read(x), pubsub, consumed: 0 }
    } else {
        let (step, flag) = received(x, pubsub, responses[0]);
        match step {
            StepView::Read(next) => {
                let rest = run(next, flag, responses.skip(1));
                Run { step: rest.step, pubsub: rest.pubsub, consumed: rest.consumed + 1 }
            },
            _ => Run { step, pubsub: flag, consumed: 1 },
        }
    }
}

/// Whether a reply is an out-of-band push frame.
pub open spec fn is_push(response: Result<ValueView, ErrorView>) -> bool {
    response matches Ok(ValueView::Push { kind, data })
}

/// The error that a reply stands for while replies are read and dropped: an
/// error reply of the peer, or a failed read.
pub open spec fn dropped_error(response: Result<ValueView, ErrorView>) -> Option<ErrorView> {
    match response {
        Ok(v) => server_error_of(v),
        Err(e) => Some(e),
    }
}

/// The first error among replies that are read and dropped: a server error
/// or a failed read.
pub open spec fn first_dropped_error(responses: Seq<Result<ValueView, ErrorView>>) -> Option<
    ErrorView,
>
    decreases responses.len(),
{
    if responses.len() == 0 {
        None
    } else {
        or_error(dropped_error(responses[0]), first_dropped_error(responses.skip(1)))
    }
}

/// The error of a failed read.
pub open spec fn read_error(response: Result<ValueView, ErrorView>) -> Option<ErrorView> {
    match response {
        Ok(_) => None,
        Err(e) => Some(e),
    }
}

/// The first failed read among replies.
pub open spec fn first_read_error(responses: Seq<Result<ValueView, ErrorView>>) -> Option<
    ErrorView,
>
    decreases responses.len(),
{
    if responses.len() == 0 {
        None
    } else {
        or_error(read_error(responses[0]), first_read_error(responses.skip(1)))
    }
}

/// The values of a stream that are no push frames, in order.
pub open spec fn replies(responses: Seq<Result<ValueView, ErrorView>>) -> Seq<ValueView>
    decreases responses.len(),
{
    if responses.len() == 0 {
        Seq::empty()
    } else {
        match responses[0] {
            Ok(v) => if is_push(responses[0]) {
                replies(responses.skip(1))
            } else {
                seq![v] + replies(responses.skip(1))
            },
            Err(_) => replies(responses.skip(1)),
        }
    }
}

/// The number of replies of a stream that are no push frames.
pub open spec fn slots(responses: Seq<Result<ValueView, ErrorView>>) -> nat
    decreases responses.len(),
{
    if responses.len() == 0 {
        0
    } else if is_push(responses[0]) {
        slots(responses.skip(1))
    } else {
        1 + slots(responses.skip(1))
    }
}

/// How a pipeline ends on the replies that it drops and those that it
/// observes, where no read fails: with the first error reply among those
/// that it drops, and without one with the replies that it observes.
pub open spec fn pipeline_outcome(
    dropped: Seq<Result<ValueView, ErrorView>>,
    observed: Seq<Result<ValueView, ErrorView>>,
) -> Result<ReplyView, ErrorView> {
    match first_dropped_error(dropped) {
        Some(e) => Err(e),
        None => Ok(ReplyView::Pipeline(replies(observed))),
    }
}

/// Whether an exchange is a pipeline whose request has been written and that
/// has read no reply yet.
pub open spec fn fresh_pipeline(x: ExchangeView, offset: usize, count: usize) -> bool {
    &&& x.request == Request::Pipeline { offset, count }
    &&& !x.exiting
    &&& x.ignored_left == offset
    &&& x.observed_left == count
    &&& x.first_err is None
    &&& x.collected == Seq::<ValueView>::empty()
}

/// Whether an exchange is a single command that waits for its reply.
pub open spec fn awaiting_single(x: ExchangeView) -> bool {
    &&& x.request is Single
    &&& !x.exiting
}

proof fn lemma_no_slots(responses: Seq<Result<ValueView, ErrorView>>)
    requires
        slots(responses) == 0,
        responses.len() > 0 ==> !is_push(responses.last()),
    ensures
        responses.len() == 0,
    decreases responses.len(),
{
    if responses.len() > 1 {
        lemma_no_slots(responses.skip(1));
    }
}

/// How a pipeline ends that has `first_err` as its first error so far and
/// `collected` as its replies so far, on the replies that it still observes.
spec fn observed_outcome(
    first_err: Option<ErrorView>,
    collected: Seq<ValueView>,
    observed: Seq<Result<ValueView, ErrorView>>,
) -> Result<ReplyView, ErrorView> {
    match first_err {
        Some(e) => Err(e),
        None => Ok(ReplyView::Pipeline(collected + replies(observed))),
    }
}

/// A pipeline that drops no more replies takes exactly the replies that it
/// observes, where no read fails.
proof fn lemma_observing_run(
    x: ExchangeView,
    pubsub: bool,
    observed: Seq<Result<ValueView, ErrorView>>,
)
    requires
        x.request is Pipeline,
        !x.exiting,
        x.ignored_left == 0,
        x.observed_left == slots(observed),
        observed.len() > 0,
        !is_push(observed.last()),
        first_read_error(observed) is None,
    ensures
        run(x, pubsub, observed) == (Run {
            step: StepView::Done(observed_outcome(x.first_err, x.collected, observed)),
            pubsub,
            consumed: observed.len(),
        }),
    decreases observed.len(),
{
    let rest = observed.skip(1);
    let v = observed[0]->Ok_0;
    let next = pipeline_received(x, v);
    if rest.len() == 0 {
        assert(slots(rest) == 0);
        assert(replies(rest) =~= Seq::<ValueView>::empty());
    } else {
        assert(rest.last() == observed.last());
        if slots(rest) == 0 {
            lemma_no_slots(rest);
        }
    }
    assert(x.observed_left > 0);
    assert(received(x, pubsub, observed[0]) == (pipeline_next(next), pubsub));
    if is_push(observed[0]) {
        assert(next == x);
        lemma_observing_run(x, pubsub, rest);
    } else {
        assert(next.observed_left == slots(rest));
        assert(x.collected + replies(observed) =~= next.collected + replies(rest));
        if rest.len() == 0 {
            assert(next.collected + replies(rest) =~= next.collected);
            assert(pipeline_next(next) == StepView::Done(finish(next)));
        } else {
            lemma_observing_run(next, pubsub, rest);
        }
    }
}

/// A pipeline takes exactly the replies that it drops and those that it
/// observes, where no read fails.
proof fn lemma_pipeline_run(
    x: ExchangeView,
    pubsub: bool,
    dropped: Seq<Result<ValueView, ErrorView>>,
    observed: Seq<Result<ValueView, ErrorView>>,
)
    requires
        x.request is Pipeline,
        !x.exiting,
        x.ignored_left == dropped.len(),
        x.observed_left == slots(observed),
        observed.len() > 0 ==> !is_push(observed.last()),
        dropped.len() + observed.len() > 0,
        first_read_error(dropped) is None,
        first_read_error(observed) is None,
    ensures
        run(x, pubsub, dropped + observed) == (Run {
            step: StepView::Done(
                observed_outcome(
                    or_error(x.first_err, first_dropped_error(dropped)),
                    x.collected,
                    observed,
                ),
            ),
            pubsub,
            consumed: dropped.len() + observed.len(),
        }),
    decreases dropped.len(),
{
    let all = dropped + observed;
    if dropped.len() == 0 {
        assert(all =~= observed);
        lemma_observing_run(x, pubsub, observed);
    } else {
        let v = dropped[0]->Ok_0;
        let next = pipeline_received(x, v);
        let rest = dropped.skip(1);
        assert(all[0] == dropped[0]);
        assert(all.skip(1) =~= rest + observed);
        assert(received(x, pubsub, all[0]) == (pipeline_next(next), pubsub));
        assert(or_error(x.first_err, first_dropped_error(dropped)) == or_error(
            next.first_err,
            first_dropped_error(rest),
        ));
        if rest.len() == 0 && observed.len() == 0 {
            assert(replies(observed) =~= Seq::<ValueView>::empty());
            assert(next.collected + replies(observed) =~= next.collected);
            assert(pipeline_next(next) == StepView::Done(finish(next)));
        } else {
            if slots(observed) == 0 {
                lemma_no_slots(observed);
            }
            lemma_pipeline_run(next, pubsub, rest, observed);
        }
    }
}

/// A pipeline that still waits for more than `k` replies ends at a failed
/// read at position `k` of a stream on which no earlier read fails.
proof fn lemma_failed_read(
    x: ExchangeView,
    pubsub: bool,
    responses: Seq<Result<ValueView, ErrorView>>,
    k: int,
)
    requires
        x.request is Pipeline,
        !x.exiting,
        0 <= k < responses.len(),
        k < x.ignored_left + x.observed_left,
        responses[k] is Err,
        forall|i: int| 0 <= i < k ==> (#[trigger] responses[i]) is Ok,
    ensures
        run(x, pubsub, responses) == (Run {
            step: StepView::Done(
                failed_outcome(
                    or_error(
                        x.first_err,
                        first_dropped_error(responses.take(dropped_before(k, x.ignored_left))),
                    ),
                    responses[k]->Err_0,
                ),
            ),
            pubsub,
            consumed: (k + 1) as nat,
        }),
    decreases k,
{
    let m = dropped_before(k, x.ignored_left);
    if k == 0 {
        assert(responses.take(m).len() == 0);
        assert(received(x, pubsub, responses[0]) == (
            StepView::Done(aborted(x, responses[0]->Err_0)),
            pubsub,
        ));
    } else {
        let v = responses[0]->Ok_0;
        let next = pipeline_received(x, v);
        let rest = responses.skip(1);
        assert(responses[0] is Ok);
        assert(received(x, pubsub, responses[0]) == (pipeline_next(next), pubsub));
        assert(pipeline_next(next) == StepView::Read(next));
        assert forall|i: int| 0 <= i < k - 1 implies (#[trigger] rest[i]) is Ok by {
            assert(rest[i] == responses[i + 1]);
        }
        assert(rest[k - 1] == responses[k]);
        lemma_failed_read(next, pubsub, rest, k - 1);
        let m_next = dropped_before(k - 1, next.ignored_left);
        if x.ignored_left > 0 {
            assert(m == m_next + 1);
            assert(responses.take(m).skip(1) =~= rest.take(m_next));
            assert(responses.take(m)[0] == responses[0]);
        } else {
            assert(m == 0 && m_next == 0);
            assert(responses.take(m).len() == 0);
            assert(rest.take(m_next).len() == 0);
            assert(next.first_err == x.first_err);
        }
        assert(or_error(x.first_err, first_dropped_error(responses.take(m))) == or_error(
            next.first_err,
            first_dropped_error(rest.take(m_next)),
        ));
    }
}

proof fn lemma_replies_len(responses: Seq<Result<ValueView, ErrorView>>)
    requires
        first_read_error(responses) is None,
    ensures
        replies(responses).len() == slots(responses),
    decreases responses.len(),
{
    if responses.len() > 0 {
        lemma_replies_len(responses.skip(1));
    }
}

/// A pipeline reads exactly the replies that belong to it, whatever they hold.
///
/// Let a pipeline drop `offset` replies and collect `count`, and let the
/// stream hold first the `offset` replies in `dropped` and then those in
/// `observed`, of which `count` are no push frames, the last one among them;
/// let no read fail. Then the pipeline takes all of these replies and no
/// more, and leaves the pub/sub flag as it was. It ends with the first error
/// reply of the peer in `dropped`; without one it ends with the values of
/// `observed` that are no push frames, in order, `count` of them. An error
/// reply in `observed` is one of these values.
pub proof fn pipeline_reads_its_replies(
    x: ExchangeView,
    pubsub: bool,
    offset: usize,
    count: usize,
    dropped: Seq<Result<ValueView, ErrorView>>,
    observed: Seq<Result<ValueView, ErrorView>>,
)
    requires
        fresh_pipeline(x, offset, count),
        offset + count > 0,
        dropped.len() == offset,
        slots(observed) == count,
        observed.len() > 0 ==> !is_push(observed.last()),
        first_read_error(dropped) is None,
        first_read_error(observed) is None,
    ensures
        run(x, pubsub, dropped + observed) == (Run {
            step: StepView::Done(pipeline_outcome(dropped, observed)),
            pubsub,
            consumed: (offset + observed.len()) as nat,
        }),
        replies(observed).len() == count,
{
    if offset == 0 {
        assert(observed.len() > 0);
    }
    lemma_pipeline_run(x, pubsub, dropped, observed);
    assert(x.collected + replies(observed) =~= replies(observed));
    lemma_replies_len(observed);
}

/// How many of the replies before position `k` a pipeline drops that drops
/// `ignored` replies in all.
pub open spec fn dropped_before(k: int, ignored: usize) -> int {
    if k <= ignored {
        k
    } else {
        ignored as int
    }
}

/// How an exchange ends on a failed read with error `e`, where `first_err`
/// is the first error that it has met before.
pub open spec fn failed_outcome(first_err: Option<ErrorView>, e: ErrorView) -> Result<
    ReplyView,
    ErrorView,
> {
    match first_err {
        Some(first) => Err(first),
        None => Err(e),
    }
}

/// A failed read ends a pipeline at once.
///
/// Let a pipeline drop `offset` replies and collect `count`, let the read at
/// position `k` of the stream fail, with `k` below `offset + count`, and let
/// no read before it fail. Then the pipeline takes the replies up to and
/// including that read and asks for no other. It ends with the first error
/// reply of the peer among the replies that it dropped before, and without
/// one with the error of the read.
pub proof fn pipeline_ends_at_a_failed_read(
    x: ExchangeView,
    pubsub: bool,
    offset: usize,
    count: usize,
    responses: Seq<Result<ValueView, ErrorView>>,
    k: int,
)
    requires
        fresh_pipeline(x, offset, count),
        0 <= k < responses.len(),
        k < offset + count,
        responses[k] is Err,
        forall|i: int| 0 <= i < k ==> (#[trigger] responses[i]) is Ok,
    ensures
        run(x, pubsub, responses) == (Run {
            step: StepView::Done(
                failed_outcome(
                    first_dropped_error(responses.take(dropped_before(k, offset))),
                    responses[k]->Err_0,
                ),
            ),
            pubsub,
            consumed: (k + 1) as nat,
        }),
{
    lemma_failed_read(x, pubsub, responses, k);
}

/// A single command ends with the first reply that is no push frame.
///
/// Let the reply at position `k` of the stream be the first that is no push
/// frame. Then the command takes the replies up to and including that one,
/// ends with it, and leaves the pub/sub flag as it was.
pub proof fn single_skips_push_frames(
    x: ExchangeView,
    pubsub: bool,
    responses: Seq<Result<ValueView, ErrorView>>,
    k: int,
)
    requires
        awaiting_single(x),
        0 <= k < responses.len(),
        forall|i: int| 0 <= i < k ==> is_push(#[trigger] responses[i]),
        !is_push(responses[k]),
    ensures
        run(x, pubsub, responses) == (Run {
            step: StepView::Done(
                match responses[k] {
                    Ok(v) => Ok(ReplyView::Single(v)),
                    Err(e) => Err(e),
                },
            ),
            pubsub,
            consumed: (k + 1) as nat,
        }),
    decreases k,
{
    if k > 0 {
        let rest = responses.skip(1);
        assert forall|i: int| 0 <= i < k - 1 implies is_push(#[trigger] rest[i]) by {
            assert(rest[i] == responses[i + 1]);
        }
        single_skips_push_frames(x, pubsub, rest, k - 1);
    }
}

/// The steps at which single commands end that are sent one after another,
/// each reading where the one before it stopped.
pub open spec fn singles(
    commands: Seq<ExchangeView>,
    pubsub: bool,
    responses: Seq<Result<ValueView, ErrorView>>,
) -> Seq<StepView>
    decreases commands.len(),
{
    if commands.len() == 0 {
        Seq::empty()
    } else {
        let first = run(commands[0], pubsub, responses);
        seq![first.step] + singles(
            commands.skip(1),
            first.pubsub,
            responses.skip(first.consumed as int),
        )
    }
}

proof fn lemma_first_reply(responses: Seq<Result<ValueView, ErrorView>>) -> (k: int)
    requires
        replies(responses).len() > 0,
        first_read_error(responses) is None,
    ensures
        0 <= k < responses.len(),
        forall|i: int| 0 <= i < k ==> is_push(#[trigger] responses[i]),
        responses[k] == Ok::<ValueView, ErrorView>(replies(responses)[0]),
        !is_push(responses[k]),
        replies(responses.skip(k + 1)) == replies(responses).skip(1),
        first_read_error(responses.skip(k + 1)) is None,
    decreases responses.len(),
{
    if is_push(responses[0]) {
        let rest = responses.skip(1);
        let j = lemma_first_reply(rest);
        assert forall|i: int| 0 <= i < j + 1 implies is_push(#[trigger] responses[i]) by {
            if i > 0 {
                assert(responses[i] == rest[i - 1]);
            }
        }
        assert(rest.skip(j + 1) =~= responses.skip(j + 2));
        j + 1
    } else {
        0
    }
}

/// Single commands get their replies in issue order, push frames or not.
///
/// Let commands be sent one after another on a stream on which no read
/// fails and which holds at least as many replies that are no push frames as
/// there are commands. Then each command ends with the reply of its own
/// position among those, however many push frames lie in between.
pub proof fn singles_reply_in_issue_order(
    commands: Seq<ExchangeView>,
    pubsub: bool,
    responses: Seq<Result<ValueView, ErrorView>>,
)
    requires
        forall|i: int| 0 <= i < commands.len() ==> awaiting_single(#[trigger] commands[i]),
        first_read_error(responses) is None,
        replies(responses).len() >= commands.len(),
    ensures
        singles(commands, pubsub, responses).len() == commands.len(),
        forall|i: int|
            0 <= i < commands.len() ==> (#[trigger] singles(commands, pubsub, responses)[i])
                == StepView::Done(Ok(ReplyView::Single(replies(responses)[i]))),
    decreases commands.len(),
{
    if commands.len() > 0 {
        let k = lemma_first_reply(responses);
        single_skips_push_frames(commands[0], pubsub, responses, k);
        let rest = responses.skip(k + 1);
        assert forall|i: int| 0 <= i < commands.skip(1).len() implies awaiting_single(
            #[trigger] commands.skip(1)[i],
        ) by {
            assert(commands.skip(1)[i] == commands[i + 1]);
        }
        singles_reply_in_issue_order(commands.skip(1), pubsub, rest);
        let all = singles(commands, pubsub, responses);
        let tail = singles(commands.skip(1), pubsub, rest);
        assert forall|i: int| 0 <= i < commands.len() implies (#[trigger] all[i])
            == StepView::Done(Ok(ReplyView::Single(replies(responses)[i]))) by {
            if i > 0 {
                assert(all[i] == tail[i - 1]);
                assert(replies(rest)[i - 1] == replies(responses)[i]);
            }
        }
    }
}

/// Whether an exchange has written the commands that leave pub/sub mode and
/// has read no acknowledgement yet.
pub open spec fn fresh_exit(x: ExchangeView) -> bool {
    &&& x.exiting
    &&& !x.channels_clear
    &&& !x.patterns_clear
}

/// Leaving pub/sub mode without subscriptions ends after two acknowledgements.
///
/// Let the first two replies acknowledge, in either order, the end of the
/// channel subscriptions and the end of the pattern subscriptions, each with
/// no subscription left. Then the session takes exactly these two replies,
/// lowers the pub/sub flag, and goes on to what was asked: it is done if that
/// was only to leave pub/sub mode, and writes the waiting request otherwise.
pub proof fn exit_ends_on_two_zero_counts(
    x: ExchangeView,
    pubsub: bool,
    first: ValueView,
    second: ValueView,
)
    requires
        fresh_exit(x),
        (classify_ack(x.protocol, first) == Ack::Unsubscribed(0) && classify_ack(
            x.protocol,
            second,
        ) == Ack::PUnsubscribed(0)) || (classify_ack(x.protocol, first) == Ack::PUnsubscribed(0)
            && classify_ack(x.protocol, second) == Ack::Unsubscribed(0)),
    ensures
        run(x, pubsub, seq![Ok(first), Ok(second)]) == (Run {
            step: exit_complete(ExchangeView { channels_clear: true, patterns_clear: true, ..x }),
            pubsub: false,
            consumed: 2,
        }),
{
    reveal_with_fuel(run, 3);
}

/// Whether a reply reports that no channel subscription is left.
pub open spec fn clears_channels(
    protocol: ProtocolVersion,
    response: Result<ValueView, ErrorView>,
) -> bool {
    response matches Ok(v) && classify_ack(protocol, v) == Ack::Unsubscribed(0)
}

/// Whether a reply reports that no pattern subscription is left.
pub open spec fn clears_patterns(
    protocol: ProtocolVersion,
    response: Result<ValueView, ErrorView>,
) -> bool {
    response matches Ok(v) && classify_ack(protocol, v) == Ack::PUnsubscribed(0)
}

/// The pub/sub flag is lowered only for a session that is clear.
///
/// Let a session with a raised flag leave pub/sub mode and wait for an
/// acknowledgement, as it does while one of the two kinds has not reported
/// zero, and let the flag be lowered when the exchange stops asking for
/// replies. Then among the replies
/// that it took, or before them, an acknowledgement has reported that no
/// channel subscription is left, and one has reported that no pattern
/// subscription is left; the last reply that it took is one of the two.
pub proof fn flag_is_lowered_only_when_clear(
    x: ExchangeView,
    responses: Seq<Result<ValueView, ErrorView>>,
)
    requires
        x.exiting,
        !(x.channels_clear && x.patterns_clear),
        !run(x, true, responses).pubsub,
    ensures
        ({
            let taken = run(x, true, responses).consumed as int;
            &&& 1 <= taken <= responses.len()
            &&& clears_channels(x.protocol, responses[taken - 1]) || clears_patterns(
                x.protocol,
                responses[taken - 1],
            )
            &&& x.channels_clear || exists|i: int|
                0 <= i < taken && clears_channels(x.protocol, #[trigger] responses[i])
            &&& x.patterns_clear || exists|i: int|
                0 <= i < taken && clears_patterns(x.protocol, #[trigger] responses[i])
        }),
    decreases responses.len(),
{
    if responses.len() > 0 {
        let (step, flag) = received(x, true, responses[0]);
        match step {
            StepView::Read(next) => {
                assert(flag);
                assert(next.exiting && next.protocol == x.protocol);
                let rest = responses.skip(1);
                flag_is_lowered_only_when_clear(next, rest);
                let taken = run(next, true, rest).consumed as int;
                assert(rest[taken - 1] == responses[taken]);
                if !x.channels_clear {
                    if next.channels_clear {
                        assert(clears_channels(x.protocol, responses[0]));
                    } else {
                        let i = choose|i: int|
                            0 <= i < taken && clears_channels(x.protocol, #[trigger] rest[i]);
                        assert(rest[i] == responses[i + 1]);
                    }
                }
                if !x.patterns_clear {
                    if next.patterns_clear {
                        assert(clears_patterns(x.protocol, responses[0]));
                    } else {
                        let i = choose|i: int|
                            0 <= i < taken && clears_patterns(x.protocol, #[trigger] rest[i]);
                        assert(rest[i] == responses[i + 1]);
                    }
                }
            },
            _ => {
                if !x.channels_clear {
                    assert(clears_channels(x.protocol, responses[0]));
                }
                if !x.patterns_clear {
                    assert(clears_patterns(x.protocol, responses[0]));
                }
            },
        }
    }
}

/// The replies of a stream on which every read yields a value.
pub open spec fn all_ok(values: Seq<ValueView>) -> Seq<Result<ValueView, ErrorView>> {
    Seq::new(values.len(), |i: int| Ok(values[i]))
}

/// Handing an exchange the bytes of replies is handing it the replies.
///
/// Let the bytes held by a session be the wire forms of `values`, one after
/// another, followed by `rest`, and let the exchange take all of these
/// values when it is handed them one by one. Then handing it the bytes
/// brings it to the same step with the same pub/sub flag, and exactly `rest`
/// is left, where the exchange goes on if it still asks for a reply.
pub proof fn draining_bytes_is_running_on_replies(
    x: ExchangeView,
    pubsub: bool,
    values: Seq<ValueView>,
    rest: Seq<u8>,
)
    requires
        forall|i: int| 0 <= i < values.len() ==> encodable(#[trigger] values[i]),
        run(x, pubsub, all_ok(values)).consumed == values.len(),
    ensures
        drained(x, pubsub, encode_items(values) + rest) == match run(
            x,
            pubsub,
            all_ok(values),
        ).step {
            StepView::Read(next) => drained(next, run(x, pubsub, all_ok(values)).pubsub, rest),
            step => (step, run(x, pubsub, all_ok(values)).pubsub, rest),
        },
    decreases values.len(),
{
    let inbound = encode_items(values) + rest;
    if values.len() == 0 {
    } else {
        let first = values[0];
        let tail = values.skip(1);
        let after_first = encode_items(tail) + rest;
        assert(inbound =~= encode(first) + after_first);
        decode_inverts_encode(first, after_first);
        assert(after(inbound, encode(first).len()) =~= after_first);
        assert(all_ok(values).skip(1) =~= all_ok(tail));
        let (step, flag) = received(x, pubsub, Ok(first));
        match step {
            StepView::Read(next) => {
                assert forall|i: int| 0 <= i < tail.len() implies encodable(#[trigger] tail[i]) by {
                    assert(tail[i] == values[i + 1]);
                }
                draining_bytes_is_running_on_replies(next, flag, tail, rest);
            },
            _ => {},
        }
    }
}

} // verus!
