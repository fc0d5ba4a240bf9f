//! The handshake that every connection goes through, as a state machine.
//!
//! The server greets, the client greets back and names the credential, the
//! server acknowledges and sends one snapshot of the colour, and the
//! connection is closed. Whatever goes wrong closes the connection at once
//! and in silence: the peer is told nothing but what was already sent.
//!
//! A [`Session`] does no I/O. It names the next [`Action`]; its caller
//! performs it and reports what happened.

use crate::color::ColorState;
use crate::line::{split_line, utf8_lossy, LineBuffer, LineReader, LineStep, ReaderModel};
use crate::text::ascii_bytes;
use vstd::prelude::*;
use vstd::string::*;
use vstd::utf8::{decode_utf8, valid_utf8};

verus! {

/// Seconds that any one read or write on a connection may take.
pub const SOCKET_IO_TIMEOUT: u64 = 60;

/// How many reads beyond the first a client's line may take.
pub const LINE_RETRY_BUDGET: u32 = 1;

/// How far a connection has come. A connection only moves forward in this
/// order, or to `Closed`.
#[derive(Clone, Copy, Debug, PartialEq, Eq, Structural)]
pub enum HandshakeState {
    /// Nothing was sent yet.
    Start,
    /// The server's greeting was sent; the client's greeting is awaited.
    PrefaceSent,
    /// The client's greeting was right; its credential is awaited.
    ClientPrefaceVerified,
    /// The credential was right; the acknowledgement is to be sent.
    CredentialVerified,
    /// The acknowledgement was sent; the snapshot is to be sent.
    AckSent,
    /// The snapshot was sent; nothing is left but to close.
    SnapshotSent,
    /// The connection is over.
    Closed,
}

/// What the caller of a session does next.
#[derive(Clone, Copy, Debug, PartialEq, Eq, Structural)]
pub enum Action {
    /// Send the server's greeting.
    SendPreface,
    /// Read the stream once and report what came.
    Receive,
    /// Send the acknowledgement.
    SendAck,
    /// Take a snapshot of the colour and send its three bytes.
    SendSnapshot,
    /// Close the connection.
    Close,
}

/// The server's greeting, as sent: `GTP_4.2 SRV` and the end of the line.
pub open spec fn server_preface() -> Seq<char> {
    "GTP_4.2 SRV\r\n"@
}

/// The greeting that a client must send, as a line.
pub open spec fn client_preface() -> Seq<char> {
    "GTP_4.2 CLT"@
}

/// The credential that a client must name, as a line.
pub open spec fn credential() -> Seq<char> {
    "i_am_a_toaster"@
}

/// The server's acknowledgement, as sent: `trust_me_bro` and the end of the
/// line.
pub open spec fn acknowledgement() -> Seq<char> {
    "trust_me_bro\r\n"@
}

impl HandshakeState {
    /// The place of a state in the order in which a connection passes them.
    pub open spec fn rank(self) -> nat {
        match self {
            HandshakeState::Start => 0,
            HandshakeState::PrefaceSent => 1,
            HandshakeState::ClientPrefaceVerified => 2,
            HandshakeState::CredentialVerified => 3,
            HandshakeState::AckSent => 4,
            HandshakeState::SnapshotSent => 5,
            HandshakeState::Closed => 6,
        }
    }

    /// In this state a line of the client is awaited.
    pub open spec fn expects_line(self) -> bool {
        self == HandshakeState::PrefaceSent || self == HandshakeState::ClientPrefaceVerified
    }

    /// The one line that is accepted in this state; meaningful where
    /// `expects_line`.
    pub open spec fn expected_line(self) -> Seq<char> {
        if self == HandshakeState::PrefaceSent {
            client_preface()
        } else {
            credential()
        }
    }

    /// The state that follows this one when its step succeeded.
    pub open spec fn next(self) -> HandshakeState {
        match self {
            HandshakeState::Start => HandshakeState::PrefaceSent,
            HandshakeState::PrefaceSent => HandshakeState::ClientPrefaceVerified,
            HandshakeState::ClientPrefaceVerified => HandshakeState::CredentialVerified,
            HandshakeState::CredentialVerified => HandshakeState::AckSent,
            HandshakeState::AckSent => HandshakeState::SnapshotSent,
            HandshakeState::SnapshotSent => HandshakeState::Closed,
            HandshakeState::Closed => HandshakeState::Closed,
        }
    }

    /// In this state something is to be written to the peer.
    pub open spec fn expects_write(self) -> bool {
        ||| self == HandshakeState::Start
        ||| self == HandshakeState::CredentialVerified
        ||| self == HandshakeState::AckSent
    }

    /// What the caller is to do in this state.
    pub open spec fn action(self) -> Action {
        match self {
            HandshakeState::Start => Action::SendPreface,
            HandshakeState::PrefaceSent => Action::Receive,
            HandshakeState::ClientPrefaceVerified => Action::Receive,
            HandshakeState::CredentialVerified => Action::SendAck,
            HandshakeState::AckSent => Action::SendSnapshot,
            HandshakeState::SnapshotSent => Action::Close,
            HandshakeState::Closed => Action::Close,
        }
    }
}

/// The bytes of `text`, which holds ASCII characters only.
fn ascii_to_bytes(text: &str) -> (bytes: Vec<u8>)
    requires
        is_ascii(text),
    ensures
        bytes@ == ascii_bytes(text@),
{
    broadcast use is_ascii_spec_bytes;

    text.as_bytes_vec()
}

impl Action {
    /// The bytes that this action puts on the wire, `color` being the
    /// snapshot taken for it. An action that sends nothing has none.
    pub open spec fn wire(self, color: ColorState) -> Seq<u8> {
        match self {
            Action::SendPreface => ascii_bytes(server_preface()),
            Action::SendAck => ascii_bytes(acknowledgement()),
            Action::SendSnapshot => seq![color.r, color.g, color.b],
            Action::Receive => Seq::empty(),
            Action::Close => Seq::empty(),
        }
    }

    /// The bytes that this action puts on the wire, `color` being the
    /// snapshot taken for it. An action that sends nothing gives none.
    pub fn payload(self, color: ColorState) -> (bytes: Vec<u8>)
        ensures
            bytes@ == self.wire(color),
    {
        match self {
            Action::SendPreface => {
                proof {
                    reveal_strlit("GTP_4.2 SRV\r\n");
                }
                ascii_to_bytes("GTP_4.2 SRV\r\n")
            },
            Action::SendAck => {
                proof {
                    reveal_strlit("trust_me_bro\r\n");
                }
                ascii_to_bytes("trust_me_bro\r\n")
            },
            Action::SendSnapshot => {
                let bytes = vec![color.r, color.g, color.b];
                assert(bytes@ =~= seq![color.r, color.g, color.b]);
                bytes
            },
            Action::Receive => Vec::new(),
            Action::Close => Vec::new(),
        }
    }
}

/// A session as a plain value: how far the connection has come, and the
/// reader of the client's lines.
pub struct SessionModel {
    pub state: HandshakeState,
    pub reader: ReaderModel,
}

impl SessionModel {
    /// A session on a connection that was just accepted.
    pub open spec fn initial() -> SessionModel {
        SessionModel {
            state: HandshakeState::Start,
            reader: ReaderModel::start(Seq::empty(), LINE_RETRY_BUDGET as nat),
        }
    }

    /// The same session, over.
    pub open spec fn closed(self) -> SessionModel {
        SessionModel { state: HandshakeState::Closed, reader: self.reader }
    }

    /// The session moved on to the next state, its reader ready for a new
    /// line with a new budget.
    pub open spec fn advanced(self) -> SessionModel {
        SessionModel {
            state: self.state.next(),
            reader: ReaderModel::start(self.reader.buffer, LINE_RETRY_BUDGET as nat),
        }
    }

    /// The session after it has judged the first line that its reader holds
    /// complete, where it awaits one. The line that is awaited moves the
    /// session on, and what followed the line is kept with a new budget. Any
    /// other line closes the session, and so does a line that is still not
    /// complete when the reads are spent.
    pub open spec fn judged(self) -> SessionModel {
        if self.state.expects_line() {
            match split_line(self.reader.buffer) {
                Some((line, _)) => {
                    let taken = SessionModel { state: self.state, reader: self.reader.after_step() };
                    if line == self.state.expected_line() {
                        taken.advanced()
                    } else {
                        taken.closed()
                    }
                },
                None => if self.reader.reads_left == 0 {
                    self.closed()
                } else {
                    self
                },
            }
        } else {
            self
        }
    }

    /// The session after it has judged every line that counts: at most two
    /// lines are awaited on a connection.
    pub open spec fn settled(self) -> SessionModel {
        self.judged().judged()
    }

    /// The session after a write was reported, done or failed.
    pub open spec fn written(self, done: bool) -> SessionModel {
        if done && self.state.expects_write() {
            self.advanced().settled()
        } else {
            self.closed()
        }
    }

    /// The session after a read was reported that brought `text`.
    pub open spec fn received(self, text: Seq<char>) -> SessionModel {
        if self.state.expects_line() {
            (SessionModel { state: self.state, reader: self.reader.fed(text) }).settled()
        } else {
            self.closed()
        }
    }

    /// The session rests: where a line is awaited, none is complete yet and
    /// a read is still allowed.
    pub open spec fn at_rest(self) -> bool {
        self.state.expects_line() ==> self.reader.wants_read()
    }
}

/// One connection's handshake.
pub struct Session {
    state: HandshakeState,
    reader: LineReader,
}

impl View for Session {
    type V = SessionModel;

    closed spec fn view(&self) -> SessionModel {
        SessionModel { state: self.state, reader: self.reader@ }
    }
}

/// Whether `line` is the text `expected`.
fn line_is(line: &String, expected: &str) -> (r: bool)
    ensures
        r == (line@ == expected@),
{
    let expected = expected.to_owned();
    *line == expected
}

impl Session {
    /// A session on a connection that was just accepted.
    pub fn new() -> (r: Self)
        ensures
            r@ == SessionModel::initial(),
    {
        Session {
            state: HandshakeState::Start,
            reader: LineReader::new(LineBuffer::new(), LINE_RETRY_BUDGET),
        }
    }

    /// How far the connection has come.
    pub fn state(&self) -> (r: HandshakeState)
        ensures
            r == self@.state,
    {
        self.state
    }

    /// What the client sent beyond the lines that were judged.
    pub fn pending(&self) -> (r: &str)
        ensures
            r@ == self@.reader.buffer,
    {
        self.reader.buffer().text()
    }

    /// What the caller is to do next.
    pub fn action(&self) -> (r: Action)
        ensures
            r == self@.state.action(),
    {
        match self.state {
            HandshakeState::Start => Action::SendPreface,
            HandshakeState::PrefaceSent => Action::Receive,
            HandshakeState::ClientPrefaceVerified => Action::Receive,
            HandshakeState::CredentialVerified => Action::SendAck,
            HandshakeState::AckSent => Action::SendSnapshot,
            HandshakeState::SnapshotSent => Action::Close,
            HandshakeState::Closed => Action::Close,
        }
    }

    /// Judges the first line that the reader holds complete, where one is
    /// awaited.
    fn judge(&mut self)
        ensures
            final(self)@ == old(self)@.judged(),
    {
        let awaited_preface = self.state == HandshakeState::PrefaceSent;
        if awaited_preface || self.state == HandshakeState::ClientPrefaceVerified {
            match self.reader.step() {
                LineStep::Line(line) => {
                    let right = if awaited_preface {
                        line_is(&line, "GTP_4.2 CLT")
                    } else {
                        line_is(&line, "i_am_a_toaster")
                    };
                    if right {
                        self.state = if awaited_preface {
                            HandshakeState::ClientPrefaceVerified
                        } else {
                            HandshakeState::CredentialVerified
                        };
                        self.reader.restart(LINE_RETRY_BUDGET);
                    } else {
                        self.state = HandshakeState::Closed;
                    }
                },
                LineStep::Read => {},
                LineStep::Fail(_) => {
                    self.state = HandshakeState::Closed;
                },
            }
        }
    }

    /// Judges the lines that the reader holds complete.
    fn settle(&mut self)
        ensures
            final(self)@ == old(self)@.settled(),
    {
        self.judge();
        self.judge();
    }

    /// Reports that the write that was asked for is over: `done` says
    /// whether all of it was written in time. A write that failed, or one
    /// that was not asked for, closes the session.
    pub fn written(&mut self, done: bool) -> (r: Action)
        ensures
            final(self)@ == old(self)@.written(done),
            r == final(self)@.state.action(),
    {
        let next = match self.state {
            HandshakeState::Start => HandshakeState::PrefaceSent,
            HandshakeState::CredentialVerified => HandshakeState::AckSent,
            HandshakeState::AckSent => HandshakeState::SnapshotSent,
            _ => HandshakeState::Closed,
        };
        if done && next != HandshakeState::Closed {
            self.state = next;
            self.reader.restart(LINE_RETRY_BUDGET);
            self.settle();
        } else {
            self.state = HandshakeState::Closed;
        }
        self.action()
    }

    /// Reports that the read that was asked for brought `text`. The lines
    /// that are now complete are judged at once.
    pub fn received(&mut self, text: &str) -> (r: Action)
        ensures
            final(self)@ == old(self)@.received(text@),
            r == final(self)@.state.action(),
    {
        if self.state == HandshakeState::PrefaceSent || self.state
            == HandshakeState::ClientPrefaceVerified {
            self.reader.feed_str(text);
            self.settle();
        } else {
            self.state = HandshakeState::Closed;
        }
        self.action()
    }

    /// Reports that the read that was asked for brought `bytes`, which are
    /// decoded permissively.
    pub fn received_bytes(&mut self, bytes: &[u8]) -> (r: Action)
        ensures
            final(self)@ == old(self)@.received(utf8_lossy(bytes@)),
            valid_utf8(bytes@) ==> final(self)@ == old(self)@.received(decode_utf8(bytes@)),
            r == final(self)@.state.action(),
    {
        if self.state == HandshakeState::PrefaceSent || self.state
            == HandshakeState::ClientPrefaceVerified {
            self.reader.feed_bytes(bytes);
            self.settle();
        } else {
            self.state = HandshakeState::Closed;
        }
        self.action()
    }

    /// Reports that the read that was asked for timed out or failed. The
    /// session is closed.
    pub fn receive_failed(&mut self) -> (r: Action)
        ensures
            final(self)@ == old(self)@.closed(),
            r == Action::Close,
    {
        self.state = HandshakeState::Closed;
        Action::Close
    }

    /// Reports that the connection was closed.
    pub fn close(&mut self)
        ensures
            final(self)@ == old(self)@.closed(),
    {
        self.state = HandshakeState::Closed;
    }
}

/// Judging the lines held never takes a session back, and leaves it at
/// rest: where it still awaits a line, none is complete and a read is allowed.
pub proof fn law_settled_rests(m: SessionModel)
    ensures
        m.settled().at_rest(),
        m.settled().state.rank() >= m.state.rank(),
{
}

/// A connection only moves forward. Whatever is reported, the session is
/// afterwards in the state it was in or in a later one; a report of a write
/// always takes it to a later one, unless it was closed already. After
/// every report the session is at rest.
pub proof fn law_only_forward(m: SessionModel, done: bool, text: Seq<char>)
    ensures
        m.written(done).state.rank() >= m.state.rank(),
        m.state != HandshakeState::Closed ==> m.written(done).state.rank() > m.state.rank(),
        m.received(text).state.rank() >= m.state.rank(),
        m.closed().state.rank() >= m.state.rank(),
        m.written(done).at_rest(),
        m.received(text).at_rest(),
        m.closed().at_rest(),
{
    law_settled_rests(m.advanced());
    law_settled_rests(SessionModel { state: m.state, reader: m.reader.fed(text) });
}

/// A closed session stays closed, whatever is reported to it, and asks for
/// nothing but to close: no byte is sent after it.
pub proof fn law_closed_is_final(m: SessionModel, done: bool, text: Seq<char>, color: ColorState)
    requires
        m.state == HandshakeState::Closed,
    ensures
        m.written(done) == m,
        m.received(text) == m,
        m.closed() == m,
        m.state.action() == Action::Close,
        m.state.action().wire(color) == Seq::<u8>::empty(),
{
}

/// A failure is silent. A write that failed closes the session, and so does
/// a first line that is not the one awaited: whatever the client sent after
/// it is not looked at, and nothing more is sent.
pub proof fn law_failure_closes(m: SessionModel, text: Seq<char>)
    ensures
        m.written(false).state == HandshakeState::Closed,
        m.state.expects_line() && (split_line(m.reader.buffer + text) matches Some((line, _))
            && line != m.state.expected_line()) ==> m.received(text).state
            == HandshakeState::Closed,
        m.state.expects_line() && split_line(m.reader.buffer + text) is None && m.reader.reads_left
            <= 1 ==> m.received(text).state == HandshakeState::Closed,
{
}

/// The line that is awaited moves the session on by one state, and what
/// followed the line is judged in that state with a new budget.
pub proof fn law_right_line_moves_on(m: SessionModel, text: Seq<char>)
    requires
        m.state.expects_line(),
        split_line(m.reader.buffer + text) matches Some((line, _)) && line
            == m.state.expected_line(),
    ensures
        split_line(m.reader.buffer + text) matches Some((_, rest)) && m.received(text) == (
        SessionModel {
            state: m.state.next(),
            reader: ReaderModel::start(rest, LINE_RETRY_BUDGET as nat),
        }).judged(),
        m.received(text).state.rank() > m.state.rank(),
{
}

} // verus!
