//! The whole exchange with one peer, from the first byte to the last.
//!
//! A peer is taken as the texts that the reads of its connection bring, one
//! after the other; the read after the last one fails, as the read of a
//! silent peer does when its time is up. Every write is taken to succeed: a
//! write that fails ends the exchange where it stands.

use crate::color::ColorState;
use crate::handshake::{
    acknowledgement, client_preface, credential, law_only_forward, server_preface, Action,
    HandshakeState, Session, SessionModel,
};
use crate::line::{split_line, terminator};
use crate::text::{ascii_bytes, lemma_split_extends};
use vstd::prelude::*;

verus! {

/// The texts of `reads`, one after the other.
pub open spec fn joined(reads: Seq<Seq<char>>) -> Seq<char>
    decreases reads.len(),
{
    if reads.len() == 0 {
        Seq::empty()
    } else {
        reads[0] + joined(reads.drop_first())
    }
}

/// The bytes that a peer is sent from now on by a session that stands at
/// `m`, `reads` being what the reads to come bring and `color` the colour at
/// the time of the snapshot.
pub open spec fn sent_to(m: SessionModel, reads: Seq<Seq<char>>, color: ColorState) -> Seq<u8>
    decreases reads.len(), 6 - m.state.rank(),
{
    let action = m.state.action();
    if action == Action::Close {
        Seq::empty()
    } else if action == Action::Receive {
        if reads.len() == 0 {
            Seq::empty()
        } else {
            sent_to(m.received(reads[0]), reads.drop_first(), color)
        }
    } else {
        action.wire(color) + sent_to(m.written(true), reads, color)
    }
}

/// The first two lines of `text` are the client's greeting and the
/// credential.
pub open spec fn lets_through(text: Seq<char>) -> bool {
    match split_line(text) {
        Some((first, rest)) => first == client_preface() && (match split_line(rest) {
            Some((second, _)) => second == credential(),
            None => false,
        }),
        None => false,
    }
}

/// What a client that is let through is sent after the greeting: the
/// acknowledgement and the three bytes of the snapshot.
pub open spec fn reward(color: ColorState) -> Seq<u8> {
    ascii_bytes(acknowledgement()) + seq![color.r, color.g, color.b]
}

/// The texts that `reads` hold, in their order.
pub open spec fn texts(reads: Seq<String>) -> Seq<Seq<char>> {
    Seq::new(reads.len(), |i: int| reads[i]@)
}

/// Plays a session against a peer whose text is known beforehand, and gives
/// the bytes that this peer is sent: `reads` holds what each read brings, the
/// read after the last one fails, every write succeeds, and `color` is the
/// colour at the time of the snapshot.
pub fn replay(reads: &Vec<String>, color: ColorState) -> (out: Vec<u8>)
    ensures
        out@ == sent_to(SessionModel::initial(), texts(reads@), color),
{
    let ghost all = texts(reads@);
    let mut session = Session::new();
    let mut out: Vec<u8> = Vec::new();
    let mut i: usize = 0;
    assert(all.skip(0) =~= all);
    loop
        invariant
            i <= reads.len(),
            all == texts(reads@),
            out@ + sent_to(session@, all.skip(i as int), color) == sent_to(
                SessionModel::initial(),
                all,
                color,
            ),
        decreases reads.len() - i, 6 - session@.state.rank(),
    {
        let action = session.action();
        match action {
            Action::Close => {
                return out;
            },
            Action::Receive => {
                if i == reads.len() {
                    return out;
                }
                proof {
                    assert(all.skip(i as int)[0] == reads[i as int]@);
                    assert(all.skip(i as int).drop_first() =~= all.skip(i + 1));
                }
                session.received(reads[i].as_str());
                i += 1;
            },
            _ => {
                proof {
                    law_only_forward(session@, true, Seq::empty());
                }
                let ghost before = out@;
                let mut bytes = action.payload(color);
                out.append(&mut bytes);
                session.written(true);
                assert(out@ + sent_to(session@, all.skip(i as int), color) =~= before + (
                action.wire(color) + sent_to(session@, all.skip(i as int), color)));
            },
        }
    }
}

/// Once the credential was found right, the peer is sent the
/// acknowledgement and the snapshot, whatever it sends itself.
proof fn lemma_verified_is_rewarded(m: SessionModel, reads: Seq<Seq<char>>, color: ColorState)
    requires
        m.state == HandshakeState::CredentialVerified,
    ensures
        sent_to(m, reads, color) == reward(color),
{
    reveal_with_fuel(sent_to, 4);
    let acked = m.written(true);
    let served = acked.written(true);
    assert(acked.state == HandshakeState::AckSent);
    assert(served.state == HandshakeState::SnapshotSent);
    assert(sent_to(served, reads, color) =~= Seq::<u8>::empty());
    assert(sent_to(m, reads, color) =~= reward(color));
}

/// While the credential is awaited, the peer is sent nothing, or it is sent
/// the acknowledgement and the snapshot, and then the next line of what it
/// sent is the credential.
proof fn lemma_credential_stage(m: SessionModel, reads: Seq<Seq<char>>, color: ColorState)
    requires
        m.state == HandshakeState::ClientPrefaceVerified,
        m.at_rest(),
    ensures
        sent_to(m, reads, color) == Seq::<u8>::empty() || (sent_to(m, reads, color) == reward(
            color,
        ) && (split_line(m.reader.buffer + joined(reads)) matches Some((line, _)) && line
            == credential())),
    decreases reads.len(),
{
    reveal_with_fuel(sent_to, 2);
    if reads.len() > 0 {
        let rest = reads.drop_first();
        let fed = SessionModel { state: m.state, reader: m.reader.fed(reads[0]) };
        let next = m.received(reads[0]);
        assert(m.reader.buffer + joined(reads) =~= fed.reader.buffer + joined(rest));
        match split_line(fed.reader.buffer) {
            Some((line, _)) => {
                lemma_split_extends(fed.reader.buffer, terminator(), joined(rest));
                if line == credential() {
                    lemma_verified_is_rewarded(next, rest, color);
                }
            },
            None => {
                if fed.reader.reads_left > 0 {
                    lemma_credential_stage(next, rest, color);
                }
            },
        }
    }
}

/// While the client's greeting is awaited, the peer is sent nothing, or it
/// is sent the acknowledgement and the snapshot, and then the next two lines
/// of what it sent are the greeting and the credential.
proof fn lemma_greeting_stage(m: SessionModel, reads: Seq<Seq<char>>, color: ColorState)
    requires
        m.state == HandshakeState::PrefaceSent,
        m.at_rest(),
    ensures
        sent_to(m, reads, color) == Seq::<u8>::empty() || (sent_to(m, reads, color) == reward(
            color,
        ) && lets_through(m.reader.buffer + joined(reads))),
    decreases reads.len(),
{
    reveal_with_fuel(sent_to, 2);
    if reads.len() > 0 {
        let rest = reads.drop_first();
        let fed = SessionModel { state: m.state, reader: m.reader.fed(reads[0]) };
        let next = m.received(reads[0]);
        assert(m.reader.buffer + joined(reads) =~= fed.reader.buffer + joined(rest));
        match split_line(fed.reader.buffer) {
            Some((line, after)) => {
                lemma_split_extends(fed.reader.buffer, terminator(), joined(rest));
                if line == client_preface() {
                    match split_line(after) {
                        Some((second, _)) => {
                            lemma_split_extends(after, terminator(), joined(rest));
                            if second == credential() {
                                lemma_verified_is_rewarded(next, rest, color);
                            }
                        },
                        None => {
                            lemma_credential_stage(next, rest, color);
                        },
                    }
                }
            },
            None => {
                if fed.reader.reads_left > 0 {
                    lemma_greeting_stage(next, rest, color);
                }
            },
        }
    }
}

/// A new session sends the greeting and then awaits the client's, at rest.
proof fn lemma_greeting_comes_first(reads: Seq<Seq<char>>, color: ColorState)
    ensures
        SessionModel::initial().written(true).state == HandshakeState::PrefaceSent,
        SessionModel::initial().written(true).at_rest(),
        SessionModel::initial().written(true).reader.buffer == Seq::<char>::empty(),
        sent_to(SessionModel::initial(), reads, color) == ascii_bytes(server_preface()) + sent_to(
            SessionModel::initial().written(true),
            reads,
            color,
        ),
{
    assert(split_line(Seq::<char>::empty()) is None);
}

/// No snapshot without the credential. Whatever a peer sends and however
/// its text is cut into reads, it is sent the greeting and nothing else, or
/// the greeting, the acknowledgement and the snapshot; and the latter only
/// where the first two lines it sent are the client's greeting and the
/// credential.
pub proof fn law_snapshot_needs_credential(reads: Seq<Seq<char>>, color: ColorState)
    ensures
        ({
            let out = sent_to(SessionModel::initial(), reads, color);
            ||| out == ascii_bytes(server_preface())
            ||| out == ascii_bytes(server_preface()) + reward(color) && lets_through(joined(reads))
        }),
{
    lemma_greeting_comes_first(reads, color);
    let greeted = SessionModel::initial().written(true);
    lemma_greeting_stage(greeted, reads, color);
    assert(greeted.reader.buffer + joined(reads) =~= joined(reads));
    assert(ascii_bytes(server_preface()) + Seq::<u8>::empty() =~= ascii_bytes(server_preface()));
}

/// A peer whose first line is not the client's greeting, or that sends no
/// whole line at all, is sent the server's greeting and not a byte more.
pub proof fn law_wrong_greeting_gets_nothing(reads: Seq<Seq<char>>, color: ColorState)
    requires
        !(split_line(joined(reads)) matches Some((line, _)) && line == client_preface()),
    ensures
        sent_to(SessionModel::initial(), reads, color) == ascii_bytes(server_preface()),
{
    law_snapshot_needs_credential(reads, color);
}

/// A peer that sends the client's greeting and the credential as its first
/// two lines, in no more than two reads, is sent the greeting, the
/// acknowledgement and the three bytes of the colour, and nothing else.
pub proof fn law_rightful_client_is_served(reads: Seq<Seq<char>>, color: ColorState)
    requires
        reads.len() <= 2,
        lets_through(joined(reads)),
    ensures
        sent_to(SessionModel::initial(), reads, color) == ascii_bytes(server_preface()) + reward(
            color,
        ),
{
    lemma_greeting_comes_first(reads, color);
    let greeted = SessionModel::initial().written(true);
    lemma_served_in_two_reads(greeted, reads, color);
}

/// A session that awaits the greeting with its whole budget serves the
/// peer whose two lines come in no more than two reads.
proof fn lemma_served_in_two_reads(m: SessionModel, reads: Seq<Seq<char>>, color: ColorState)
    requires
        m.state == HandshakeState::PrefaceSent,
        m.reader.buffer == Seq::<char>::empty(),
        m.reader.reads_left == 2,
        reads.len() <= 2,
        lets_through(joined(reads)),
    ensures
        sent_to(m, reads, color) == reward(color),
{
    reveal_with_fuel(joined, 3);
    reveal_with_fuel(sent_to, 3);
    assert(split_line(Seq::<char>::empty()) is None);
    if reads.len() == 0 {
        assert(joined(reads) =~= Seq::<char>::empty());
    } else {
        let first = reads[0];
        let rest = reads.drop_first();
        let more = joined(rest);
        assert(joined(reads) =~= first + more);
        assert(m.reader.buffer + first =~= first);
        let next = m.received(first);
        match split_line(first) {
            Some((line, after)) => {
                lemma_split_extends(first, terminator(), more);
                match split_line(after) {
                    Some((second, _)) => {
                        lemma_split_extends(after, terminator(), more);
                        lemma_verified_is_rewarded(next, rest, color);
                    },
                    None => {
                        assert(next.state == HandshakeState::ClientPrefaceVerified);
                        assert(rest.len() == 1) by {
                            if rest.len() == 0 {
                                assert(more =~= Seq::<char>::empty());
                                assert(after + more =~= after);
                            }
                        }
                        assert(more =~= rest[0]);
                        let last = next.received(rest[0]);
                        assert(last.state == HandshakeState::CredentialVerified);
                        lemma_verified_is_rewarded(last, rest.drop_first(), color);
                    },
                }
            },
            None => {
                assert(rest.len() == 1) by {
                    if rest.len() == 0 {
                        assert(more =~= Seq::<char>::empty());
                        assert(first + more =~= first);
                    }
                }
                assert(more =~= rest[0]);
                assert(next.state == HandshakeState::PrefaceSent);
                assert(next.reader.buffer + rest[0] =~= joined(reads));
                let last = next.received(rest[0]);
                assert(last.state == HandshakeState::CredentialVerified);
                lemma_verified_is_rewarded(last, rest.drop_first(), color);
            },
        }
    }
}

} // verus!
