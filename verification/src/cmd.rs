use crate::encoder::{encode, encode_items, lemma_encode_items_concat};
use crate::grammar::{ARRAY_TAG, BULK_TAG};
use crate::value::ValueView;
use crate::wire::{block, header, write_block, write_bytes, write_header};
use vstd::prelude::*;

verus! {

/// The wire form of a list of arguments: each one as a bulk string, in order.
pub open spec fn packed_args(args: Seq<Seq<u8>>) -> Seq<u8>
    decreases args.len(),
{
    if args.len() == 0 {
        Seq::empty()
    } else {
        packed_args(args.drop_last()) + block(BULK_TAG, args.last())
    }
}

/// The wire form of one command: an array header sized by the number of
/// arguments, then the arguments.
pub open spec fn packed_command(args: Seq<Seq<u8>>) -> Seq<u8> {
    header(ARRAY_TAG, args.len()) + packed_args(args)
}

/// The wire form of a pipeline: the wire forms of its commands, in issue order.
pub open spec fn packed_pipeline(commands: Seq<CmdView>) -> Seq<u8>
    decreases commands.len(),
{
    if commands.len() == 0 {
        Seq::empty()
    } else {
        packed_pipeline(commands.drop_last()) + packed_command(commands.last().args)
    }
}

/// The mathematical content of a [`Cmd`].
pub struct CmdView {
    pub args: Seq<Seq<u8>>,
    pub no_response: bool,
}

/// An outbound command: its arguments, the command name first, and whether
/// the peer answers it inline.
#[derive(Clone, Debug, PartialEq, Eq)]
pub struct Cmd {
    args: Vec<Vec<u8>>,
    no_response: bool,
}

impl View for Cmd {
    type V = CmdView;

    closed spec fn view(&self) -> CmdView {
        CmdView {
            args: Seq::new(self.args@.len(), |i: int| self.args@[i]@),
            no_response: self.no_response,
        }
    }
}

/// Starts a command with the given name as its first argument.
pub fn cmd(name: &[u8]) -> (c: Cmd)
    ensures
        c@.args == seq![name@],
        !c@.no_response,
{
    let mut c = Cmd::new();
    c.arg(name);
    c
}

impl Cmd {
    /// A command without arguments that expects a response.
    pub fn new() -> (c: Cmd)
        ensures
            c@.args == Seq::<Seq<u8>>::empty(),
            !c@.no_response,
    {
        let c = Cmd { args: Vec::new(), no_response: false };
        c
    }

    /// Appends one argument.
    pub fn arg(&mut self, arg: &[u8])
        ensures
            final(self)@.args == old(self)@.args.push(arg@),
            final(self)@.no_response == old(self)@.no_response,
    {
        let mut owned: Vec<u8> = Vec::new();
        write_bytes(arg, &mut owned);
        self.args.push(owned);
    }

    /// Says whether the peer answers this command only through push frames.
    pub fn set_no_response(&mut self, no_response: bool)
        ensures
            final(self)@.args == old(self)@.args,
            final(self)@.no_response == no_response,
    {
        self.no_response = no_response;
    }

    /// Whether no inline response is expected.
    pub fn is_no_response(&self) -> (r: bool)
        ensures
            r == self@.no_response,
    {
        self.no_response
    }

    /// Appends the wire form of this command to `out`.
    pub fn write_packed_command(&self, out: &mut Vec<u8>)
        ensures
            final(out)@ == old(out)@ + packed_command(self@.args),
    {
        write_header(ARRAY_TAG, self.args.len() as u128, out);
        let ghost start = out@;
        let mut i: usize = 0;
        while i < self.args.len()
            invariant
                i <= self.args@.len(),
                out@ == start + packed_args(self@.args.take(i as int)),
            decreases self.args@.len() - i,
        {
            write_block(BULK_TAG, self.args[i].as_slice(), out);
            proof {
                let next = self@.args.take(i + 1);
                assert(next.drop_last() =~= self@.args.take(i as int));
            }
            i = i + 1;
        }
        assert(self@.args.take(i as int) =~= self@.args);
    }

    /// The wire form of this command.
    pub fn get_packed_command(&self) -> (out: Vec<u8>)
        ensures
            out@ == packed_command(self@.args),
    {
        let mut out: Vec<u8> = Vec::new();
        self.write_packed_command(&mut out);
        out
    }
}

/// The mathematical content of a [`Pipeline`].
pub struct PipelineView {
    pub commands: Seq<CmdView>,
    pub ignored: Seq<bool>,
}

/// An ordered batch of commands, each flagged as ignored or observed.
#[derive(Clone, Debug, PartialEq, Eq)]
pub struct Pipeline {
    entries: Vec<(Cmd, bool)>,
}

impl View for Pipeline {
    type V = PipelineView;

    closed spec fn view(&self) -> PipelineView {
        PipelineView {
            commands: Seq::new(self.entries@.len(), |i: int| self.entries@[i].0@),
            ignored: Seq::new(self.entries@.len(), |i: int| self.entries@[i].1),
        }
    }
}

impl Pipeline {
    /// An empty pipeline.
    pub fn new() -> (p: Pipeline)
        ensures
            p@.commands == Seq::<CmdView>::empty(),
            p@.ignored == Seq::<bool>::empty(),
    {
        let p = Pipeline { entries: Vec::new() };
        p
    }

    /// Appends a command whose reply is observed.
    pub fn add_command(&mut self, cmd: Cmd)
        ensures
            final(self)@.commands == old(self)@.commands.push(cmd@),
            final(self)@.ignored == old(self)@.ignored.push(false),
    {
        self.entries.push((cmd, false));
    }

    /// Flags the command added last as ignored; an empty pipeline stays as it is.
    pub fn ignore(&mut self)
        ensures
            final(self)@.commands == old(self)@.commands,
            old(self)@.ignored.len() == 0 ==> final(self)@.ignored == old(self)@.ignored,
            old(self)@.ignored.len() > 0 ==> final(self)@.ignored == old(self)@.ignored.update(
                old(self)@.ignored.len() - 1,
                true,
            ),
    {
        match self.entries.pop() {
            Some((cmd, _)) => {
                self.entries.push((cmd, true));
            },
            None => {},
        }
    }

    /// The number of commands in the pipeline.
    pub fn len(&self) -> (n: usize)
        ensures
            n == self@.commands.len(),
            n == self@.ignored.len(),
    {
        self.entries.len()
    }

    /// Appends the wire form of the whole pipeline to `out`.
    pub fn write_packed_pipeline(&self, out: &mut Vec<u8>)
        ensures
            final(out)@ == old(out)@ + packed_pipeline(self@.commands),
    {
        let ghost start = out@;
        let mut i: usize = 0;
        while i < self.entries.len()
            invariant
                i <= self.entries@.len(),
                out@ == start + packed_pipeline(self@.commands.take(i as int)),
            decreases self.entries@.len() - i,
        {
            self.entries[i].0.write_packed_command(out);
            proof {
                let next = self@.commands.take(i + 1);
                assert(next.drop_last() =~= self@.commands.take(i as int));
            }
            i = i + 1;
        }
        assert(self@.commands.take(i as int) =~= self@.commands);
    }

    /// The wire form of the whole pipeline.
    pub fn get_packed_pipeline(&self) -> (out: Vec<u8>)
        ensures
            out@ == packed_pipeline(self@.commands),
    {
        let mut out: Vec<u8> = Vec::new();
        self.write_packed_pipeline(&mut out);
        out
    }
}

/// The arguments of a command as the bulk strings that they are sent as.
pub open spec fn as_bulk_strings(args: Seq<Seq<u8>>) -> Seq<ValueView> {
    Seq::new(args.len(), |i: int| ValueView::BulkString(args[i]))
}

proof fn lemma_packed_args(args: Seq<Seq<u8>>)
    ensures
        packed_args(args) == encode_items(as_bulk_strings(args)),
    decreases args.len(),
{
    if args.len() > 0 {
        let front = args.drop_last();
        let last = seq![ValueView::BulkString(args.last())];
        lemma_packed_args(front);
        lemma_encode_items_concat(as_bulk_strings(front), last);
        assert(as_bulk_strings(args) =~= as_bulk_strings(front) + last);
        assert(encode(last[0]) == block(BULK_TAG, args.last()));
        assert(encode_items(last.skip(1)) =~= Seq::<u8>::empty());
        assert(encode_items(last) =~= block(BULK_TAG, args.last()));
    }
}

/// A command goes over the wire as an array of bulk strings.
///
/// The wire form of a command is the wire form of the array that holds its
/// arguments, in order, as bulk strings.
pub proof fn command_is_an_array_of_bulk_strings(args: Seq<Seq<u8>>)
    ensures
        packed_command(args) == encode(ValueView::Array(as_bulk_strings(args))),
{
    lemma_packed_args(args);
}

} // verus!
