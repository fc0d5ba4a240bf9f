//! Reading one line at a time from bytes that arrive in pieces.
//!
//! A line ends with the two characters carriage return and line feed. What
//! arrives after a line's end is kept for the next line. How often the stream
//! may be read for one line is bounded by a budget, so a peer that never ends
//! its line is given up after a fixed number of reads.

use crate::text::{ascii_bytes, lemma_split_joins, split_at_first, split_first};
use vstd::prelude::*;
use vstd::string::*;
use vstd::utf8::{
    decode_utf8, encode_utf8, encode_utf8_decode_utf8, encode_utf8_valid_utf8, is_ascii_chars,
    is_ascii_chars_encode_utf8, valid_utf8,
};

verus! {

/// The two characters that end a line.
pub open spec fn terminator() -> Seq<char> {
    seq!['\r', '\n']
}

/// The first line of `text` and what follows it, or `None` where `text` holds
/// no complete line yet.
pub open spec fn split_line(text: Seq<char>) -> Option<(Seq<char>, Seq<char>)> {
    split_at_first(text, terminator())
}

/// The text that `String::from_utf8_lossy` makes of `bytes`.
pub uninterp spec fn utf8_lossy(bytes: Seq<u8>) -> Seq<char>;

/// Calls `String::from_utf8_lossy`, which decodes `bytes` as UTF-8 and puts
/// U+FFFD in place of each sequence that is not valid. Two things are
/// claimed of it and not proved: the text depends on the bytes alone, and
/// bytes that are valid UTF-8 give the text that they encode.
#[verifier::external_body]
fn decode_lossy(bytes: &[u8]) -> (text: String)
    ensures
        text@ == utf8_lossy(bytes@),
        valid_utf8(bytes@) ==> text@ == decode_utf8(bytes@),
{
    String::from_utf8_lossy(bytes).into_owned()
}

/// ASCII text survives the wire: its bytes are valid UTF-8, and decoded
/// they are the text again. So bytes that spell a line in ASCII are taken in
/// as that line.
pub proof fn law_ascii_is_utf8(text: Seq<char>)
    requires
        is_ascii_chars(text),
    ensures
        valid_utf8(ascii_bytes(text)),
        decode_utf8(ascii_bytes(text)) == text,
{
    is_ascii_chars_encode_utf8(text);
    assert(encode_utf8(text) =~= ascii_bytes(text));
    encode_utf8_valid_utf8(text);
    encode_utf8_decode_utf8(text);
}

/// Text received on one connection and not yet handed out as a line.
pub struct LineBuffer {
    text: String,
}

impl View for LineBuffer {
    type V = Seq<char>;

    closed spec fn view(&self) -> Seq<char> {
        self.text@
    }
}

impl LineBuffer {
    /// A buffer that holds nothing.
    pub fn new() -> (r: Self)
        ensures
            r@ == Seq::<char>::empty(),
    {
        LineBuffer { text: String::new() }
    }

    /// The text held.
    pub fn text(&self) -> (r: &str)
        ensures
            r@ == self@,
    {
        self.text.as_str()
    }

    /// Appends `text`.
    pub fn push_str(&mut self, text: &str)
        ensures
            final(self)@ == old(self)@ + text@,
    {
        self.text.append(text);
    }

    /// Appends `bytes`, decoded permissively: what is not valid UTF-8 becomes
    /// replacement characters.
    pub fn push_bytes(&mut self, bytes: &[u8])
        ensures
            final(self)@ == old(self)@ + utf8_lossy(bytes@),
            valid_utf8(bytes@) ==> final(self)@ == old(self)@ + decode_utf8(bytes@),
    {
        let text = decode_lossy(bytes);
        self.push_str(text.as_str());
    }

    /// Takes the first complete line out of the buffer, without its
    /// terminator, and keeps what follows it. Where no line is complete the
    /// buffer stays as it is.
    pub fn take_line(&mut self) -> (r: Option<String>)
        ensures
            match split_line(old(self)@) {
                Some((line, rest)) => r matches Some(l) && l@ == line && final(self)@ == rest,
                None => r is None && final(self)@ == old(self)@,
            },
    {
        proof {
            reveal_strlit("\r\n");
            assert("\r\n"@ =~= terminator());
        }
        match split_first(self.text.as_str(), "\r\n") {
            Some((line, rest)) => {
                self.text = rest;
                Some(line)
            },
            None => None,
        }
    }
}

/// Why no line was read.
#[derive(Clone, Copy, Debug, PartialEq, Eq, Structural)]
pub enum LineError {
    /// A read of the stream timed out or failed.
    Timeout,
    /// The budget of reads was spent and the line's end never came.
    LineNotFound,
}

/// What a line reader asks of its caller next.
#[derive(Debug, PartialEq, Eq)]
pub enum LineStep {
    /// A complete line, without its terminator.
    Line(String),
    /// No complete line is held: read the stream once and feed what came.
    Read,
    /// No line will come.
    Fail(LineError),
}

/// A line reader as a plain value: the text held and the reads it may still
/// ask for.
pub struct ReaderModel {
    pub buffer: Seq<char>,
    pub reads_left: nat,
}

impl ReaderModel {
    /// A reader that starts on `buffer` with a retry budget of `budget`: it
    /// may ask for `budget + 1` reads.
    pub open spec fn start(buffer: Seq<char>, budget: nat) -> ReaderModel {
        ReaderModel { buffer, reads_left: budget + 1 }
    }

    /// The reader after one read that brought `text`.
    pub open spec fn fed(self, text: Seq<char>) -> ReaderModel {
        ReaderModel {
            buffer: self.buffer + text,
            reads_left: if self.reads_left > 0 {
                (self.reads_left - 1) as nat
            } else {
                0
            },
        }
    }

    /// The reader holds a complete line.
    pub open spec fn has_line(self) -> bool {
        split_line(self.buffer) is Some
    }

    /// The reader holds no complete line and may read again.
    pub open spec fn wants_read(self) -> bool {
        !self.has_line() && self.reads_left > 0
    }

    /// The reader holds no complete line and has spent its reads.
    pub open spec fn exhausted(self) -> bool {
        !self.has_line() && self.reads_left == 0
    }

    /// The reader after it handed out its first line, if it holds one.
    pub open spec fn after_step(self) -> ReaderModel {
        match split_line(self.buffer) {
            Some((_, rest)) => ReaderModel { buffer: rest, reads_left: self.reads_left },
            None => self,
        }
    }
}

/// Reads lines from a stream that its caller reads for it, within a budget
/// of reads.
pub struct LineReader {
    buffer: LineBuffer,
    reads_left: u64,
}

impl View for LineReader {
    type V = ReaderModel;

    closed spec fn view(&self) -> ReaderModel {
        ReaderModel { buffer: self.buffer@, reads_left: self.reads_left as nat }
    }
}

impl LineReader {
    /// A reader that goes on from `buffer`, the text left over from before,
    /// and may read the stream `budget + 1` times.
    pub fn new(buffer: LineBuffer, budget: u32) -> (r: Self)
        ensures
            r@ == ReaderModel::start(buffer@, budget as nat),
    {
        LineReader { buffer, reads_left: budget as u64 + 1 }
    }

    /// Starts on the next line: the text held stays, the budget is new.
    pub fn restart(&mut self, budget: u32)
        ensures
            final(self)@ == ReaderModel::start(old(self)@.buffer, budget as nat),
    {
        self.reads_left = budget as u64 + 1;
    }

    /// The text held and not yet handed out.
    pub fn buffer(&self) -> (r: &LineBuffer)
        ensures
            r@ == self@.buffer,
    {
        &self.buffer
    }

    /// How many reads the reader may still ask for.
    pub fn reads_left(&self) -> (r: u64)
        ensures
            r == self@.reads_left,
    {
        self.reads_left
    }

    /// Gives up the reader and keeps its text for the next one.
    pub fn into_buffer(self) -> (r: LineBuffer)
        ensures
            r@ == self@.buffer,
    {
        self.buffer
    }

    /// Says what comes next. A complete line is handed out without any read,
    /// and what follows it is kept. Otherwise the reader asks for one read
    /// while its budget lasts, and fails with `LineNotFound` once it is spent.
    pub fn step(&mut self) -> (r: LineStep)
        ensures
            final(self)@ == old(self)@.after_step(),
            match split_line(old(self)@.buffer) {
                Some((line, _)) => r matches LineStep::Line(l) && l@ == line,
                None => if old(self)@.reads_left == 0 {
                    r == LineStep::Fail(LineError::LineNotFound)
                } else {
                    r == LineStep::Read
                },
            },
    {
        match self.buffer.take_line() {
            Some(line) => LineStep::Line(line),
            None => {
                if self.reads_left == 0 {
                    LineStep::Fail(LineError::LineNotFound)
                } else {
                    LineStep::Read
                }
            },
        }
    }

    /// Takes in the text that one read brought, and counts the read.
    pub fn feed_str(&mut self, text: &str)
        ensures
            final(self)@ == old(self)@.fed(text@),
    {
        self.buffer.push_str(text);
        if self.reads_left > 0 {
            self.reads_left = self.reads_left - 1;
        }
    }

    /// Takes in the bytes that one read brought, decoded permissively, and
    /// counts the read.
    pub fn feed_bytes(&mut self, bytes: &[u8])
        ensures
            final(self)@ == old(self)@.fed(utf8_lossy(bytes@)),
            valid_utf8(bytes@) ==> final(self)@ == old(self)@.fed(decode_utf8(bytes@)),
    {
        let text = decode_lossy(bytes);
        self.feed_str(text.as_str());
    }

    /// The error of a read that timed out or failed: the line is given up at
    /// once, whatever budget is left.
    pub fn read_failed(&mut self) -> (r: LineError)
        ensures
            r == LineError::Timeout,
            final(self)@ == (ReaderModel { buffer: old(self)@.buffer, reads_left: 0 }),
    {
        self.reads_left = 0;
        LineError::Timeout
    }
}

/// What reading one line gives on a stream whose reads are known
/// beforehand: the line and what followed it, or why no line was read.
/// `text` is what is held already, `reads_left` the reads that may still be
/// made, and `reads` what each read to come brings, `None` for a read that
/// times out or fails; the read after the last one fails too.
pub open spec fn line_from(text: Seq<char>, reads_left: nat, reads: Seq<Option<Seq<char>>>) -> Result<
    (Seq<char>, Seq<char>),
    LineError,
>
    decreases reads.len(),
{
    match split_line(text) {
        Some(parts) => Ok(parts),
        None => if reads_left == 0 {
            Err(LineError::LineNotFound)
        } else if reads.len() == 0 {
            Err(LineError::Timeout)
        } else {
            match reads[0] {
                Some(more) => line_from(text + more, (reads_left - 1) as nat, reads.drop_first()),
                None => Err(LineError::Timeout),
            }
        },
    }
}

/// What the reads of `reads` brought, as plain values.
pub open spec fn recorded(reads: Seq<Option<String>>) -> Seq<Option<Seq<char>>> {
    Seq::new(
        reads.len(),
        |i: int|
            match reads[i] {
                Some(text) => Some(text@),
                None => None,
            },
    )
}

/// Reads one line from a stream whose reads are known beforehand. `init` is
/// the text left over from before, `timeout_packets` the retry budget, and
/// `reads` what each read brings, `None` for a read that times out or fails;
/// the read after the last one fails too. A line that `init` holds already
/// is returned without any read. The result is the line, without its
/// terminator, and what came after it.
pub fn read_line(init: &str, timeout_packets: u32, reads: &Vec<Option<String>>) -> (r: Result<
    (String, String),
    LineError,
>)
    ensures
        match line_from(init@, timeout_packets as nat + 1, recorded(reads@)) {
            Ok((line, rest)) => r matches Ok((l, t)) && l@ == line && t@ == rest,
            Err(e) => r matches Err(f) && f == e,
        },
{
    let ghost all = recorded(reads@);
    let mut buffer = LineBuffer::new();
    buffer.push_str(init);
    let mut reader = LineReader::new(buffer, timeout_packets);
    let mut i: usize = 0;
    assert(all.skip(0) =~= all);
    assert(Seq::<char>::empty() + init@ =~= init@);
    loop
        invariant
            i <= reads.len(),
            all == recorded(reads@),
            line_from(reader@.buffer, reader@.reads_left, all.skip(i as int)) == line_from(
                init@,
                timeout_packets as nat + 1,
                all,
            ),
        decreases reads.len() - i,
    {
        match reader.step() {
            LineStep::Line(line) => {
                let rest = reader.into_buffer().text().to_owned();
                return Ok((line, rest));
            },
            LineStep::Fail(e) => {
                return Err(e);
            },
            LineStep::Read => {
                if i == reads.len() {
                    return Err(reader.read_failed());
                }
                proof {
                    assert(all.skip(i as int).drop_first() =~= all.skip(i + 1));
                }
                match &reads[i] {
                    Some(text) => {
                        reader.feed_str(text.as_str());
                    },
                    None => {
                        return Err(reader.read_failed());
                    },
                }
                i += 1;
            },
        }
    }
}

/// The reader after one read for each text of `texts`, in their order.
pub open spec fn fed_all(reader: ReaderModel, texts: Seq<Seq<char>>) -> ReaderModel
    decreases texts.len(),
{
    if texts.len() == 0 {
        reader
    } else {
        fed_all(reader, texts.drop_last()).fed(texts.last())
    }
}

/// Every read is counted against the budget: a reader that started with a
/// budget of `budget` has `budget + 1` reads less the reads it was fed, and
/// none once it was fed that many. From then on it asks for no read: it
/// holds a line or it is exhausted.
pub proof fn law_budget_bounds_reads(buffer: Seq<char>, budget: nat, texts: Seq<Seq<char>>)
    ensures
        fed_all(ReaderModel::start(buffer, budget), texts).reads_left == if texts.len() <= budget
            + 1 {
            budget + 1 - texts.len()
        } else {
            0
        },
        texts.len() > budget ==> {
            let reader = fed_all(ReaderModel::start(buffer, budget), texts);
            !reader.wants_read() && (reader.has_line() || reader.exhausted())
        },
    decreases texts.len(),
{
    if texts.len() > 0 {
        law_budget_bounds_reads(buffer, budget, texts.drop_last());
    }
}

/// The work for one line is bounded: no read is made beyond the budget, so
/// what the stream would bring after `reads_left` reads changes nothing.
pub proof fn law_reads_beyond_budget_are_not_made(
    text: Seq<char>,
    reads_left: nat,
    reads: Seq<Option<Seq<char>>>,
)
    requires
        reads.len() >= reads_left,
    ensures
        line_from(text, reads_left, reads) == line_from(
            text,
            reads_left,
            reads.take(reads_left as int),
        ),
    decreases reads_left,
{
    let made = reads.take(reads_left as int);
    if split_line(text) is None && reads_left > 0 {
        assert(made[0] == reads[0]);
        assert(made.drop_first() =~= reads.drop_first().take(reads_left - 1));
        if let Some(more) = reads[0] {
            law_reads_beyond_budget_are_not_made(
                text + more,
                (reads_left - 1) as nat,
                reads.drop_first(),
            );
        }
    }
}

/// A line that is held already is handed out whatever the stream does, and
/// a line is looked for once more after the last read that the budget
/// allows: text that this read completes is still a line.
pub proof fn law_line_is_found_before_and_after_reads(
    text: Seq<char>,
    reads_left: nat,
    reads: Seq<Option<Seq<char>>>,
    last: Seq<char>,
)
    ensures
        split_line(text) matches Some(parts) ==> line_from(text, reads_left, reads) == Ok::<
            (Seq<char>, Seq<char>),
            LineError,
        >(parts),
        split_line(text) is None ==> line_from(text, 0, reads) == Err::<
            (Seq<char>, Seq<char>),
            LineError,
        >(LineError::LineNotFound),
        split_line(text) is None ==> (split_line(text + last) matches Some(parts) ==> line_from(
            text,
            1,
            seq![Some(last)],
        ) == Ok::<(Seq<char>, Seq<char>), LineError>(parts)),
{
    reveal_with_fuel(line_from, 2);
}

/// Handing out a line uses up no read, and leaves what followed the line.
pub proof fn law_line_costs_no_read(reader: ReaderModel)
    requires
        reader.has_line(),
    ensures
        reader.after_step().reads_left == reader.reads_left,
        split_line(reader.buffer) matches Some((line, rest)) && reader.after_step().buffer == rest
            && reader.buffer == line + terminator() + rest,
{
    lemma_split_joins(reader.buffer, terminator());
}

} // verus!
