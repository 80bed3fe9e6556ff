//! The canonical serialization of a round: a length-prefixed binary
//! form of every field, stable across restarts, together with its
//! decoder and the proof that decoding a serialized round yields the
//! round back unchanged.

use vstd::prelude::*;

use crate::chunk::{Chunk, ChunkV};
use crate::contribution::{Contribution, ContributionV};
use crate::locator::ContributionLocator;
use crate::participant::{Participant, ParticipantV};
use crate::round::{Round, RoundV};

verus! {

/// Byte `i` of the little-endian encoding of a 64-bit value.
pub open spec fn u64_byte(n: u64, i: int) -> u8 {
    ((n >> (8 * i)) & 0xff) as u8
}

/// The eight little-endian bytes of a 64-bit value.
pub open spec fn enc_u64(n: u64) -> Seq<u8> {
    Seq::new(8, |i: int| u64_byte(n, i))
}

/// The 64-bit value read back from eight little-endian bytes.
pub open spec fn dec_u64(s: Seq<u8>) -> u64
    recommends
        s.len() >= 8,
{
    ((s[0] as u64) | ((s[1] as u64) << 8) | ((s[2] as u64) << 16) | ((s[3] as u64) << 24) | ((
    s[4] as u64) << 32) | ((s[5] as u64) << 40) | ((s[6] as u64) << 48) | ((s[7] as u64) << 56))
}

/// Reading back the little-endian bytes of a value yields the value.
pub proof fn lemma_u64_round_trip(n: u64, rest: Seq<u8>)
    ensures
        (enc_u64(n) + rest).len() >= 8,
        dec_u64(enc_u64(n) + rest) == n,
        (enc_u64(n) + rest).skip(8) == rest,
{
    let s = enc_u64(n) + rest;
    assert(s.skip(8) =~= rest);
    assert forall|i: int| 0 <= i < 8 implies s[i] == u64_byte(n, i) by {}
    assert((((n >> 0) & 0xff) as u8) as u64 == ((n >> 0) & 0xff)) by (bit_vector);
    assert((((n >> 8) & 0xff) as u8) as u64 == ((n >> 8) & 0xff)) by (bit_vector);
    assert((((n >> 16) & 0xff) as u8) as u64 == ((n >> 16) & 0xff)) by (bit_vector);
    assert((((n >> 24) & 0xff) as u8) as u64 == ((n >> 24) & 0xff)) by (bit_vector);
    assert((((n >> 32) & 0xff) as u8) as u64 == ((n >> 32) & 0xff)) by (bit_vector);
    assert((((n >> 40) & 0xff) as u8) as u64 == ((n >> 40) & 0xff)) by (bit_vector);
    assert((((n >> 48) & 0xff) as u8) as u64 == ((n >> 48) & 0xff)) by (bit_vector);
    assert((((n >> 56) & 0xff) as u8) as u64 == ((n >> 56) & 0xff)) by (bit_vector);
    assert((((n >> 0) & 0xff) | (((n >> 8) & 0xff) << 8) | (((n >> 16) & 0xff) << 16) | (((n >> 24)
        & 0xff) << 24) | (((n >> 32) & 0xff) << 32) | (((n >> 40) & 0xff) << 40) | (((n >> 48)
        & 0xff) << 48) | (((n >> 56) & 0xff) << 56)) == n) by (bit_vector);
    assert((s[0] as u64) == ((n >> 0) & 0xff));
    assert((s[1] as u64) == ((n >> 8) & 0xff));
    assert((s[2] as u64) == ((n >> 16) & 0xff));
    assert((s[3] as u64) == ((n >> 24) & 0xff));
    assert((s[4] as u64) == ((n >> 32) & 0xff));
    assert((s[5] as u64) == ((n >> 40) & 0xff));
    assert((s[6] as u64) == ((n >> 48) & 0xff));
    assert((s[7] as u64) == ((n >> 56) & 0xff));
}

/// One byte for a boolean.
pub open spec fn enc_bool(b: bool) -> Seq<u8> {
    seq![if b { 1u8 } else { 0u8 }]
}

/// A character as its 32-bit scalar value in four of the eight bytes
/// of a 64-bit encoding.
pub open spec fn enc_char(c: char) -> Seq<u8> {
    enc_u64(c as u32 as u64)
}

/// The characters of a string, one after the other.
pub open spec fn enc_chars(s: Seq<char>) -> Seq<u8>
    decreases s.len(),
{
    if s.len() == 0 {
        Seq::empty()
    } else {
        enc_char(s[0]) + enc_chars(s.drop_first())
    }
}

/// A string: its length, then its characters.
pub open spec fn enc_str(s: Seq<char>) -> Seq<u8> {
    enc_u64(s.len() as u64) + enc_chars(s)
}

/// Reads `n` characters; `None` when a scalar value is not a
/// character.
pub open spec fn dec_chars(n: int, s: Seq<u8>) -> Option<(Seq<char>, Seq<u8>)>
    decreases n,
{
    if n <= 0 {
        Some((Seq::empty(), s))
    } else if s.len() < 8 {
        None
    } else {
        let v = dec_u64(s);
        if v <= u32::MAX && vstd::utf8::is_scalar(v as u32) {
            match dec_chars(n - 1, s.skip(8)) {
                Some((tail, rest)) => Some((seq![(v as u32) as char] + tail, rest)),
                None => None,
            }
        } else {
            None
        }
    }
}

/// Reads a string: its length, then its characters.
pub open spec fn dec_str(s: Seq<u8>) -> Option<(Seq<char>, Seq<u8>)> {
    if s.len() < 8 {
        None
    } else {
        dec_chars(dec_u64(s) as int, s.skip(8))
    }
}

/// Reading back encoded characters yields the characters.
pub proof fn lemma_chars_round_trip(s: Seq<char>, rest: Seq<u8>)
    ensures
        dec_chars(s.len() as int, enc_chars(s) + rest) == Some((s, rest)),
    decreases s.len(),
{
    if s.len() == 0 {
        assert(enc_chars(s) + rest =~= rest);
    } else {
        let c = s[0];
        let u: u32 = c as u32;
        let v64 = u as u64;
        vstd::utf8::char_is_scalar(c);
        assert((u as u64) as u32 == u) by (bit_vector);
        lemma_u64_round_trip(v64, enc_chars(s.drop_first()) + rest);
        assert(enc_chars(s) + rest =~= enc_u64(v64) + (enc_chars(s.drop_first()) + rest));
        lemma_chars_round_trip(s.drop_first(), rest);
        let buf = enc_chars(s) + rest;
        assert(dec_u64(buf) == v64);
        assert(v64 <= u32::MAX) by {
            assert((u as u64) <= 0xffffffffu64) by (bit_vector);
        }
        assert(vstd::utf8::is_scalar(v64 as u32));
        assert(buf.skip(8) =~= enc_chars(s.drop_first()) + rest);
        vstd::utf8::char_u32_cast(c, c as u32);
        assert((v64 as u32) as char == c);
        assert(seq![c] + s.drop_first() =~= s);
    }
}

/// Reading back an encoded string yields the string.
pub proof fn lemma_str_round_trip(s: Seq<char>, rest: Seq<u8>)
    requires
        s.len() <= u64::MAX,
    ensures
        dec_str(enc_str(s) + rest) == Some((s, rest)),
{
    lemma_u64_round_trip(s.len() as u64, enc_chars(s) + rest);
    assert(enc_str(s) + rest =~= enc_u64(s.len() as u64) + (enc_chars(s) + rest));
    assert((enc_str(s) + rest).skip(8) =~= enc_chars(s) + rest);
    lemma_chars_round_trip(s, rest);
}

/// An optional string: a tag byte, then the string when present.
pub open spec fn enc_opt_str(o: Option<Seq<char>>) -> Seq<u8> {
    match o {
        None => seq![0u8],
        Some(s) => seq![1u8] + enc_str(s),
    }
}

pub open spec fn dec_opt_str(s: Seq<u8>) -> Option<(Option<Seq<char>>, Seq<u8>)> {
    if s.len() < 1 {
        None
    } else if s[0] == 0u8 {
        Some((None, s.drop_first()))
    } else if s[0] == 1u8 {
        match dec_str(s.drop_first()) {
            Some((v, rest)) => Some((Some(v), rest)),
            None => None,
        }
    } else {
        None
    }
}

pub proof fn lemma_opt_str_round_trip(o: Option<Seq<char>>, rest: Seq<u8>)
    requires
        o matches Some(s) ==> s.len() <= u64::MAX,
    ensures
        dec_opt_str(enc_opt_str(o) + rest) == Some((o, rest)),
{
    match o {
        None => {
            assert((enc_opt_str(o) + rest).drop_first() =~= rest);
        },
        Some(s) => {
            assert((enc_opt_str(o) + rest).drop_first() =~= enc_str(s) + rest);
            lemma_str_round_trip(s, rest);
        },
    }
}

/// A locator: its three coordinates and its verified flag.
pub open spec fn enc_locator(l: ContributionLocator) -> Seq<u8> {
    enc_u64(l.round_height) + enc_u64(l.chunk_id) + enc_u64(l.contribution_id) + enc_bool(
        l.is_verified,
    )
}

pub open spec fn dec_locator(s: Seq<u8>) -> Option<(ContributionLocator, Seq<u8>)> {
    if s.len() < 25 {
        None
    } else {
        let flag = s[24];
        if flag == 0u8 || flag == 1u8 {
            Some(
                (
                    ContributionLocator {
                        round_height: dec_u64(s),
                        chunk_id: dec_u64(s.skip(8)),
                        contribution_id: dec_u64(s.skip(16)),
                        is_verified: flag == 1u8,
                    },
                    s.skip(25),
                ),
            )
        } else {
            None
        }
    }
}

pub proof fn lemma_locator_round_trip(l: ContributionLocator, rest: Seq<u8>)
    ensures
        dec_locator(enc_locator(l) + rest) == Some((l, rest)),
{
    let buf = enc_locator(l) + rest;
    lemma_u64_round_trip(l.round_height, enc_u64(l.chunk_id) + enc_u64(l.contribution_id)
        + enc_bool(l.is_verified) + rest);
    assert(buf =~= enc_u64(l.round_height) + (enc_u64(l.chunk_id) + enc_u64(l.contribution_id)
        + enc_bool(l.is_verified) + rest));
    lemma_u64_round_trip(l.chunk_id, enc_u64(l.contribution_id) + enc_bool(l.is_verified) + rest);
    assert(buf.skip(8) =~= enc_u64(l.chunk_id) + (enc_u64(l.contribution_id) + enc_bool(
        l.is_verified,
    ) + rest));
    lemma_u64_round_trip(l.contribution_id, enc_bool(l.is_verified) + rest);
    assert(buf.skip(16) =~= enc_u64(l.contribution_id) + (enc_bool(l.is_verified) + rest));
    assert(buf[24] == enc_bool(l.is_verified)[0]);
    assert(buf.skip(25) =~= rest);
}

/// An optional locator: a tag byte, then the locator when present.
pub open spec fn enc_opt_locator(o: Option<ContributionLocator>) -> Seq<u8> {
    match o {
        None => seq![0u8],
        Some(l) => seq![1u8] + enc_locator(l),
    }
}

pub open spec fn dec_opt_locator(s: Seq<u8>) -> Option<(Option<ContributionLocator>, Seq<u8>)> {
    if s.len() < 1 {
        None
    } else if s[0] == 0u8 {
        Some((None, s.drop_first()))
    } else if s[0] == 1u8 {
        match dec_locator(s.drop_first()) {
            Some((v, rest)) => Some((Some(v), rest)),
            None => None,
        }
    } else {
        None
    }
}

pub proof fn lemma_opt_locator_round_trip(o: Option<ContributionLocator>, rest: Seq<u8>)
    ensures
        dec_opt_locator(enc_opt_locator(o) + rest) == Some((o, rest)),
{
    match o {
        None => {
            assert((enc_opt_locator(o) + rest).drop_first() =~= rest);
        },
        Some(l) => {
            assert((enc_opt_locator(o) + rest).drop_first() =~= enc_locator(l) + rest);
            lemma_locator_round_trip(l, rest);
        },
    }
}

/// A participant: a role tag, then its public key.
pub open spec fn enc_participant(p: ParticipantV) -> Seq<u8> {
    match p {
        ParticipantV::Contributor(id) => seq![1u8] + enc_str(id),
        ParticipantV::Verifier(id) => seq![2u8] + enc_str(id),
    }
}

pub open spec fn dec_participant(s: Seq<u8>) -> Option<(ParticipantV, Seq<u8>)> {
    if s.len() < 1 {
        None
    } else if s[0] == 1u8 {
        match dec_str(s.drop_first()) {
            Some((id, rest)) => Some((ParticipantV::Contributor(id), rest)),
            None => None,
        }
    } else if s[0] == 2u8 {
        match dec_str(s.drop_first()) {
            Some((id, rest)) => Some((ParticipantV::Verifier(id), rest)),
            None => None,
        }
    } else {
        None
    }
}

pub proof fn lemma_participant_round_trip(p: ParticipantV, rest: Seq<u8>)
    requires
        p.id().len() <= u64::MAX,
    ensures
        dec_participant(enc_participant(p) + rest) == Some((p, rest)),
{
    match p {
        ParticipantV::Contributor(id) => {
            assert((enc_participant(p) + rest).drop_first() =~= enc_str(id) + rest);
            lemma_str_round_trip(id, rest);
        },
        ParticipantV::Verifier(id) => {
            assert((enc_participant(p) + rest).drop_first() =~= enc_str(id) + rest);
            lemma_str_round_trip(id, rest);
        },
    }
}

/// A list of participants, one after the other.
pub open spec fn enc_participants(ps: Seq<ParticipantV>) -> Seq<u8>
    decreases ps.len(),
{
    if ps.len() == 0 {
        Seq::empty()
    } else {
        enc_participant(ps[0]) + enc_participants(ps.drop_first())
    }
}

pub open spec fn dec_participants(n: int, s: Seq<u8>) -> Option<(Seq<ParticipantV>, Seq<u8>)>
    decreases n,
{
    if n <= 0 {
        Some((Seq::empty(), s))
    } else {
        match dec_participant(s) {
            Some((p, s1)) => match dec_participants(n - 1, s1) {
                Some((tail, rest)) => Some((seq![p] + tail, rest)),
                None => None,
            },
            None => None,
        }
    }
}

/// Every participant in the list has a key that fits a length
/// prefix.
pub open spec fn participants_bounded(ps: Seq<ParticipantV>) -> bool {
    forall|i: int| 0 <= i < ps.len() ==> (#[trigger] ps[i]).id().len() <= u64::MAX
}

pub proof fn lemma_participants_round_trip(ps: Seq<ParticipantV>, rest: Seq<u8>)
    requires
        participants_bounded(ps),
    ensures
        dec_participants(ps.len() as int, enc_participants(ps) + rest) == Some((ps, rest)),
    decreases ps.len(),
{
    if ps.len() == 0 {
        assert(enc_participants(ps) + rest =~= rest);
    } else {
        assert(enc_participants(ps) + rest =~= enc_participant(ps[0]) + (enc_participants(
            ps.drop_first(),
        ) + rest));
        lemma_participant_round_trip(ps[0], enc_participants(ps.drop_first()) + rest);
        assert(participants_bounded(ps.drop_first())) by {
            assert(forall|i: int|
                0 <= i < ps.drop_first().len() ==> (#[trigger] ps.drop_first()[i]) == ps[i + 1]);
        }
        lemma_participants_round_trip(ps.drop_first(), rest);
        assert(seq![ps[0]] + ps.drop_first() =~= ps);
    }
}

/// A contribution record, field by field.
pub open spec fn enc_contribution(c: ContributionV) -> Seq<u8> {
    enc_opt_str(c.contributor_id) + enc_opt_locator(c.contributed_location) + enc_opt_str(
        c.verifier_id,
    ) + enc_opt_locator(c.verified_location) + enc_bool(c.verified)
}

pub open spec fn dec_contribution(s: Seq<u8>) -> Option<(ContributionV, Seq<u8>)> {
    match dec_opt_str(s) {
        None => None,
        Some((contributor_id, s1)) => match dec_opt_locator(s1) {
            None => None,
            Some((contributed_location, s2)) => match dec_opt_str(s2) {
                None => None,
                Some((verifier_id, s3)) => match dec_opt_locator(s3) {
                    None => None,
                    Some((verified_location, s4)) => if s4.len() < 1 || (s4[0] != 0u8 && s4[0]
                        != 1u8) {
                        None
                    } else {
                        Some(
                            (
                                ContributionV {
                                    contributor_id,
                                    contributed_location,
                                    verifier_id,
                                    verified_location,
                                    verified: s4[0] == 1u8,
                                },
                                s4.drop_first(),
                            ),
                        )
                    },
                },
            },
        },
    }
}

/// A contribution whose identifier strings fit a length prefix.
pub open spec fn contribution_bounded(c: ContributionV) -> bool {
    &&& (c.contributor_id matches Some(id) ==> id.len() <= u64::MAX)
    &&& (c.verifier_id matches Some(id) ==> id.len() <= u64::MAX)
}

#[verifier::rlimit(100)]
#[verifier::spinoff_prover]
pub proof fn lemma_contribution_round_trip(c: ContributionV, rest: Seq<u8>)
    requires
        contribution_bounded(c),
    ensures
        dec_contribution(enc_contribution(c) + rest) == Some((c, rest)),
{
    let t4 = enc_bool(c.verified) + rest;
    let t3 = enc_opt_locator(c.verified_location) + t4;
    let t2 = enc_opt_str(c.verifier_id) + t3;
    let t1 = enc_opt_locator(c.contributed_location) + t2;
    assert(enc_contribution(c) + rest =~= enc_opt_str(c.contributor_id) + t1);
    lemma_opt_str_round_trip(c.contributor_id, t1);
    assert(t1 =~= enc_opt_locator(c.contributed_location) + t2);
    lemma_opt_locator_round_trip(c.contributed_location, t2);
    assert(t2 =~= enc_opt_str(c.verifier_id) + t3);
    lemma_opt_str_round_trip(c.verifier_id, t3);
    assert(t3 =~= enc_opt_locator(c.verified_location) + t4);
    lemma_opt_locator_round_trip(c.verified_location, t4);
    assert(t4[0] == enc_bool(c.verified)[0]);
    assert(t4.drop_first() =~= rest);
}

/// A list of contributions, one after the other.
pub open spec fn enc_contributions(cs: Seq<ContributionV>) -> Seq<u8>
    decreases cs.len(),
{
    if cs.len() == 0 {
        Seq::empty()
    } else {
        enc_contribution(cs[0]) + enc_contributions(cs.drop_first())
    }
}

pub open spec fn dec_contributions(n: int, s: Seq<u8>) -> Option<(Seq<ContributionV>, Seq<u8>)>
    decreases n,
{
    if n <= 0 {
        Some((Seq::empty(), s))
    } else {
        match dec_contribution(s) {
            Some((c, s1)) => match dec_contributions(n - 1, s1) {
                Some((tail, rest)) => Some((seq![c] + tail, rest)),
                None => None,
            },
            None => None,
        }
    }
}

pub open spec fn contributions_bounded(cs: Seq<ContributionV>) -> bool {
    forall|i: int| 0 <= i < cs.len() ==> contribution_bounded(#[trigger] cs[i])
}

#[verifier::rlimit(100)]
#[verifier::spinoff_prover]
pub proof fn lemma_contributions_round_trip(cs: Seq<ContributionV>, rest: Seq<u8>)
    requires
        contributions_bounded(cs),
    ensures
        dec_contributions(cs.len() as int, enc_contributions(cs) + rest) == Some((cs, rest)),
    decreases cs.len(),
{
    if cs.len() == 0 {
        assert(enc_contributions(cs) + rest =~= rest);
    } else {
        assert(enc_contributions(cs) + rest =~= enc_contribution(cs[0]) + (enc_contributions(
            cs.drop_first(),
        ) + rest));
        lemma_contribution_round_trip(cs[0], enc_contributions(cs.drop_first()) + rest);
        assert(contributions_bounded(cs.drop_first())) by {
            assert(forall|i: int|
                0 <= i < cs.drop_first().len() ==> (#[trigger] cs.drop_first()[i]) == cs[i + 1]);
        }
        lemma_contributions_round_trip(cs.drop_first(), rest);
        assert(seq![cs[0]] + cs.drop_first() =~= cs);
    }
}

/// An optional lock holder: a tag byte, then the participant.
pub open spec fn enc_opt_participant(o: Option<ParticipantV>) -> Seq<u8> {
    match o {
        None => seq![0u8],
        Some(p) => seq![3u8] + enc_participant(p),
    }
}

pub open spec fn dec_opt_participant(s: Seq<u8>) -> Option<(Option<ParticipantV>, Seq<u8>)> {
    if s.len() < 1 {
        None
    } else if s[0] == 0u8 {
        Some((None, s.drop_first()))
    } else if s[0] == 3u8 {
        match dec_participant(s.drop_first()) {
            Some((p, rest)) => Some((Some(p), rest)),
            None => None,
        }
    } else {
        None
    }
}

pub proof fn lemma_opt_participant_round_trip(o: Option<ParticipantV>, rest: Seq<u8>)
    requires
        o matches Some(p) ==> p.id().len() <= u64::MAX,
    ensures
        dec_opt_participant(enc_opt_participant(o) + rest) == Some((o, rest)),
{
    match o {
        None => {
            assert((enc_opt_participant(o) + rest).drop_first() =~= rest);
        },
        Some(p) => {
            assert((enc_opt_participant(o) + rest).drop_first() =~= enc_participant(p) + rest);
            lemma_participant_round_trip(p, rest);
        },
    }
}

/// A chunk: its id, its lock holder, then its contributions behind
/// their count.
pub open spec fn enc_chunk(c: ChunkV) -> Seq<u8> {
    enc_u64(c.chunk_id) + enc_opt_participant(c.lock_holder) + enc_u64(
        c.contributions.len() as u64,
    ) + enc_contributions(c.contributions)
}

pub open spec fn dec_chunk(s: Seq<u8>) -> Option<(ChunkV, Seq<u8>)> {
    if s.len() < 8 {
        None
    } else {
        let chunk_id = dec_u64(s);
        match dec_opt_participant(s.skip(8)) {
            None => None,
            Some((lock_holder, s1)) => if s1.len() < 8 {
                None
            } else {
                match dec_contributions(dec_u64(s1) as int, s1.skip(8)) {
                    Some((contributions, rest)) => Some(
                        (ChunkV { chunk_id, lock_holder, contributions }, rest),
                    ),
                    None => None,
                }
            },
        }
    }
}

/// A chunk whose strings and lists fit their length prefixes.
pub open spec fn chunk_bounded(c: ChunkV) -> bool {
    &&& (c.lock_holder matches Some(p) ==> p.id().len() <= u64::MAX)
    &&& c.contributions.len() <= u64::MAX
    &&& contributions_bounded(c.contributions)
}

#[verifier::rlimit(100)]
#[verifier::spinoff_prover]
pub proof fn lemma_chunk_round_trip(c: ChunkV, rest: Seq<u8>)
    requires
        chunk_bounded(c),
    ensures
        dec_chunk(enc_chunk(c) + rest) == Some((c, rest)),
{
    let t2 = enc_contributions(c.contributions) + rest;
    let t1 = enc_u64(c.contributions.len() as u64) + t2;
    let t0 = enc_opt_participant(c.lock_holder) + t1;
    assert(enc_chunk(c) + rest =~= enc_u64(c.chunk_id) + t0);
    lemma_u64_round_trip(c.chunk_id, t0);
    assert((enc_chunk(c) + rest).skip(8) =~= t0);
    lemma_opt_participant_round_trip(c.lock_holder, t1);
    assert(t1 =~= enc_u64(c.contributions.len() as u64) + t2);
    lemma_u64_round_trip(c.contributions.len() as u64, t2);
    assert(t1.skip(8) =~= t2);
    lemma_contributions_round_trip(c.contributions, rest);
}

/// A list of chunks, one after the other.
pub open spec fn enc_chunks(cs: Seq<ChunkV>) -> Seq<u8>
    decreases cs.len(),
{
    if cs.len() == 0 {
        Seq::empty()
    } else {
        enc_chunk(cs[0]) + enc_chunks(cs.drop_first())
    }
}

pub open spec fn dec_chunks(n: int, s: Seq<u8>) -> Option<(Seq<ChunkV>, Seq<u8>)>
    decreases n,
{
    if n <= 0 {
        Some((Seq::empty(), s))
    } else {
        match dec_chunk(s) {
            Some((c, s1)) => match dec_chunks(n - 1, s1) {
                Some((tail, rest)) => Some((seq![c] + tail, rest)),
                None => None,
            },
            None => None,
        }
    }
}

pub open spec fn chunks_bounded(cs: Seq<ChunkV>) -> bool {
    forall|i: int| 0 <= i < cs.len() ==> chunk_bounded(#[trigger] cs[i])
}

#[verifier::rlimit(100)]
#[verifier::spinoff_prover]
pub proof fn lemma_chunks_round_trip(cs: Seq<ChunkV>, rest: Seq<u8>)
    requires
        chunks_bounded(cs),
    ensures
        dec_chunks(cs.len() as int, enc_chunks(cs) + rest) == Some((cs, rest)),
    decreases cs.len(),
{
    if cs.len() == 0 {
        assert(enc_chunks(cs) + rest =~= rest);
    } else {
        assert(enc_chunks(cs) + rest =~= enc_chunk(cs[0]) + (enc_chunks(cs.drop_first()) + rest));
        lemma_chunk_round_trip(cs[0], enc_chunks(cs.drop_first()) + rest);
        assert(chunks_bounded(cs.drop_first())) by {
            assert(forall|i: int|
                0 <= i < cs.drop_first().len() ==> (#[trigger] cs.drop_first()[i]) == cs[i + 1]);
        }
        lemma_chunks_round_trip(cs.drop_first(), rest);
        assert(seq![cs[0]] + cs.drop_first() =~= cs);
    }
}

/// The canonical serialization of a round: its height and start
/// time, its three participant lists and its chunks, each list
/// behind its count.
pub open spec fn enc_round(r: RoundV) -> Seq<u8> {
    enc_u64(r.height) + enc_u64(r.started_at) + enc_u64(r.contributors.len() as u64)
        + enc_participants(r.contributors) + enc_u64(r.verifiers.len() as u64) + enc_participants(
        r.verifiers,
    ) + enc_u64(r.chunk_verifiers.len() as u64) + enc_participants(r.chunk_verifiers) + enc_u64(
        r.chunks.len() as u64,
    ) + enc_chunks(r.chunks)
}

/// Decodes a serialized round; `None` on any malformed input.
pub open spec fn dec_round(s: Seq<u8>) -> Option<(RoundV, Seq<u8>)> {
    if s.len() < 16 {
        None
    } else {
        let height = dec_u64(s);
        let started_at = dec_u64(s.skip(8));
        let s0 = s.skip(16);
        if s0.len() < 8 {
            None
        } else {
            match dec_participants(dec_u64(s0) as int, s0.skip(8)) {
                None => None,
                Some((contributors, s1)) => if s1.len() < 8 {
                    None
                } else {
                    match dec_participants(dec_u64(s1) as int, s1.skip(8)) {
                        None => None,
                        Some((verifiers, s2)) => if s2.len() < 8 {
                            None
                        } else {
                            match dec_participants(dec_u64(s2) as int, s2.skip(8)) {
                                None => None,
                                Some((chunk_verifiers, s3)) => if s3.len() < 8 {
                                    None
                                } else {
                                    match dec_chunks(dec_u64(s3) as int, s3.skip(8)) {
                                        None => None,
                                        Some((chunks, rest)) => Some(
                                            (
                                                RoundV {
                                                    height,
                                                    started_at,
                                                    contributors,
                                                    verifiers,
                                                    chunk_verifiers,
                                                    chunks,
                                                },
                                                rest,
                                            ),
                                        ),
                                    }
                                },
                            }
                        },
                    }
                },
            }
        }
    }
}

/// A round whose strings and lists all fit their length prefixes:
/// true of the value of every round the coordinator can hold in
/// memory.
pub open spec fn round_bounded(r: RoundV) -> bool {
    &&& r.contributors.len() <= u64::MAX
    &&& r.verifiers.len() <= u64::MAX
    &&& r.chunk_verifiers.len() <= u64::MAX
    &&& r.chunks.len() <= u64::MAX
    &&& participants_bounded(r.contributors)
    &&& participants_bounded(r.verifiers)
    &&& participants_bounded(r.chunk_verifiers)
    &&& chunks_bounded(r.chunks)
}

/// Serialization of a round followed by deserialization yields a
/// structurally equal round.
#[verifier::rlimit(100)]
#[verifier::spinoff_prover]
pub proof fn lemma_round_codec_round_trip(r: RoundV, rest: Seq<u8>)
    requires
        round_bounded(r),
    ensures
        dec_round(enc_round(r) + rest) == Some((r, rest)),
{
    let t8 = enc_chunks(r.chunks) + rest;
    let t7 = enc_u64(r.chunks.len() as u64) + t8;
    let t6 = enc_participants(r.chunk_verifiers) + t7;
    let t5 = enc_u64(r.chunk_verifiers.len() as u64) + t6;
    let t4 = enc_participants(r.verifiers) + t5;
    let t3 = enc_u64(r.verifiers.len() as u64) + t4;
    let t2 = enc_participants(r.contributors) + t3;
    let t1 = enc_u64(r.contributors.len() as u64) + t2;
    let t0 = enc_u64(r.started_at) + t1;
    let buf = enc_round(r) + rest;
    assert(buf =~= enc_u64(r.height) + t0);
    lemma_u64_round_trip(r.height, t0);
    assert(buf.skip(8) =~= t0);
    lemma_u64_round_trip(r.started_at, t1);
    assert(buf.skip(16) =~= t1);
    lemma_u64_round_trip(r.contributors.len() as u64, t2);
    assert(t1.skip(8) =~= t2);
    lemma_participants_round_trip(r.contributors, t3);
    lemma_u64_round_trip(r.verifiers.len() as u64, t4);
    assert(t3.skip(8) =~= t4);
    lemma_participants_round_trip(r.verifiers, t5);
    lemma_u64_round_trip(r.chunk_verifiers.len() as u64, t6);
    assert(t5.skip(8) =~= t6);
    lemma_participants_round_trip(r.chunk_verifiers, t7);
    lemma_u64_round_trip(r.chunks.len() as u64, t8);
    assert(t7.skip(8) =~= t8);
    lemma_chunks_round_trip(r.chunks, rest);
}


/// Appending a character extends the encoding at its end.
pub proof fn lemma_enc_chars_push(s: Seq<char>, c: char)
    ensures
        enc_chars(s.push(c)) == enc_chars(s) + enc_char(c),
    decreases s.len(),
{
    if s.len() == 0 {
        assert(s.push(c)[0] == c);
        assert(s.push(c).drop_first() =~= Seq::<char>::empty());
        assert(enc_chars(Seq::<char>::empty()) == Seq::<u8>::empty());
        assert(enc_chars(s.push(c)) == enc_char(c) + Seq::<u8>::empty());
        assert(enc_char(c) + Seq::<u8>::empty() =~= enc_char(c));
        assert(enc_chars(s) + enc_char(c) =~= enc_char(c));
    } else {
        assert(s.push(c)[0] == s[0]);
        assert(s.push(c).drop_first() =~= s.drop_first().push(c));
        lemma_enc_chars_push(s.drop_first(), c);
        assert(enc_char(s[0]) + (enc_chars(s.drop_first()) + enc_char(c)) =~= (enc_char(s[0])
            + enc_chars(s.drop_first())) + enc_char(c));
    }
}

/// Appending a participant extends the encoding at its end.
pub proof fn lemma_enc_participants_push(s: Seq<ParticipantV>, p: ParticipantV)
    ensures
        enc_participants(s.push(p)) == enc_participants(s) + enc_participant(p),
    decreases s.len(),
{
    if s.len() == 0 {
        assert(s.push(p)[0] == p);
        assert(s.push(p).drop_first() =~= Seq::<ParticipantV>::empty());
        assert(enc_participants(Seq::<ParticipantV>::empty()) == Seq::<u8>::empty());
        assert(enc_participants(s.push(p)) == enc_participant(p) + Seq::<u8>::empty());
        assert(enc_participant(p) + Seq::<u8>::empty() =~= enc_participant(p));
        assert(enc_participants(s) + enc_participant(p) =~= enc_participant(p));
    } else {
        assert(s.push(p)[0] == s[0]);
        assert(s.push(p).drop_first() =~= s.drop_first().push(p));
        lemma_enc_participants_push(s.drop_first(), p);
        assert(enc_participant(s[0]) + (enc_participants(s.drop_first()) + enc_participant(p)) =~= (
        enc_participant(s[0]) + enc_participants(s.drop_first())) + enc_participant(p));
    }
}

/// Appending a contribution extends the encoding at its end.
pub proof fn lemma_enc_contributions_push(s: Seq<ContributionV>, c: ContributionV)
    ensures
        enc_contributions(s.push(c)) == enc_contributions(s) + enc_contribution(c),
    decreases s.len(),
{
    if s.len() == 0 {
        assert(s.push(c)[0] == c);
        assert(s.push(c).drop_first() =~= Seq::<ContributionV>::empty());
        assert(enc_contributions(Seq::<ContributionV>::empty()) == Seq::<u8>::empty());
        assert(enc_contributions(s.push(c)) == enc_contribution(c) + Seq::<u8>::empty());
        assert(enc_contribution(c) + Seq::<u8>::empty() =~= enc_contribution(c));
        assert(enc_contributions(s) + enc_contribution(c) =~= enc_contribution(c));
    } else {
        assert(s.push(c)[0] == s[0]);
        assert(s.push(c).drop_first() =~= s.drop_first().push(c));
        lemma_enc_contributions_push(s.drop_first(), c);
        assert(enc_contribution(s[0]) + (enc_contributions(s.drop_first()) + enc_contribution(c))
            =~= (enc_contribution(s[0]) + enc_contributions(s.drop_first())) + enc_contribution(c));
    }
}

/// Appending a chunk extends the encoding at its end.
pub proof fn lemma_enc_chunks_push(s: Seq<ChunkV>, c: ChunkV)
    ensures
        enc_chunks(s.push(c)) == enc_chunks(s) + enc_chunk(c),
    decreases s.len(),
{
    if s.len() == 0 {
        assert(s.push(c)[0] == c);
        assert(s.push(c).drop_first() =~= Seq::<ChunkV>::empty());
        assert(enc_chunks(Seq::<ChunkV>::empty()) == Seq::<u8>::empty());
        assert(enc_chunks(s.push(c)) == enc_chunk(c) + Seq::<u8>::empty());
        assert(enc_chunk(c) + Seq::<u8>::empty() =~= enc_chunk(c));
        assert(enc_chunks(s) + enc_chunk(c) =~= enc_chunk(c));
    } else {
        assert(s.push(c)[0] == s[0]);
        assert(s.push(c).drop_first() =~= s.drop_first().push(c));
        lemma_enc_chunks_push(s.drop_first(), c);
        assert(enc_chunk(s[0]) + (enc_chunks(s.drop_first()) + enc_chunk(c)) =~= (enc_chunk(s[0])
            + enc_chunks(s.drop_first())) + enc_chunk(c));
    }
}

/// Appends the little-endian bytes of a value.
fn push_u64(out: &mut Vec<u8>, n: u64)
    ensures
        final(out)@ == old(out)@ + enc_u64(n),
{
    out.push(((n >> 0) & 0xff) as u8);
    out.push(((n >> 8) & 0xff) as u8);
    out.push(((n >> 16) & 0xff) as u8);
    out.push(((n >> 24) & 0xff) as u8);
    out.push(((n >> 32) & 0xff) as u8);
    out.push(((n >> 40) & 0xff) as u8);
    out.push(((n >> 48) & 0xff) as u8);
    out.push(((n >> 56) & 0xff) as u8);
    proof {
        assert(out@ =~= old(out)@ + enc_u64(n));
    }
}

/// Appends the tag byte of a boolean.
fn push_bool(out: &mut Vec<u8>, b: bool)
    ensures
        final(out)@ == old(out)@ + enc_bool(b),
{
    out.push(if b { 1u8 } else { 0u8 });
    proof {
        assert(out@ =~= old(out)@ + enc_bool(b));
    }
}

/// Appends the length and characters of a string.
fn push_string(out: &mut Vec<u8>, s: &str)
    ensures
        final(out)@ == old(out)@ + enc_str(s@),
{
    let n = s.unicode_len();
    push_u64(out, n as u64);
    let mut i: usize = 0;
    while i < n
        invariant
            0 <= i <= n,
            n == s@.len(),
            out@ == old(out)@ + enc_u64(n as u64) + enc_chars(s@.take(i as int)),
        decreases n - i,
    {
        let c = s.get_char(i);
        let v: u64 = (c as u32) as u64;
        push_u64(out, v);
        proof {
            lemma_enc_chars_push(s@.take(i as int), c);
            assert(s@.take(i as int).push(c) =~= s@.take(i + 1));
            assert(out@ =~= old(out)@ + enc_u64(n as u64) + enc_chars(s@.take(i + 1)));
        }
        i = i + 1;
    }
    proof {
        assert(s@.take(n as int) =~= s@);
    }
}

/// Appends an optional string behind its tag byte.
fn push_opt_string(out: &mut Vec<u8>, o: &Option<String>)
    ensures
        final(out)@ == old(out)@ + enc_opt_str(o.deep_view()),
{
    match o {
        None => {
            out.push(0u8);
            proof {
                assert(out@ =~= old(out)@ + enc_opt_str(o.deep_view()));
            }
        },
        Some(s) => {
            out.push(1u8);
            push_string(out, s.as_str());
            proof {
                assert(out@ =~= old(out)@ + enc_opt_str(o.deep_view()));
            }
        },
    }
}

/// Appends a locator.
fn push_locator(out: &mut Vec<u8>, l: &ContributionLocator)
    ensures
        final(out)@ == old(out)@ + enc_locator(*l),
{
    push_u64(out, l.round_height);
    push_u64(out, l.chunk_id);
    push_u64(out, l.contribution_id);
    push_bool(out, l.is_verified);
    proof {
        assert(out@ =~= old(out)@ + enc_locator(*l));
    }
}

/// Appends an optional locator behind its tag byte.
fn push_opt_locator(out: &mut Vec<u8>, o: &Option<ContributionLocator>)
    ensures
        final(out)@ == old(out)@ + enc_opt_locator(*o),
{
    match o {
        None => {
            out.push(0u8);
            proof {
                assert(out@ =~= old(out)@ + enc_opt_locator(*o));
            }
        },
        Some(l) => {
            out.push(1u8);
            push_locator(out, l);
            proof {
                assert(out@ =~= old(out)@ + enc_opt_locator(*o));
            }
        },
    }
}

/// Appends a participant behind its role tag.
fn push_participant(out: &mut Vec<u8>, p: &Participant)
    ensures
        final(out)@ == old(out)@ + enc_participant(p@),
{
    match p {
        Participant::Contributor(id) => {
            out.push(1u8);
            push_string(out, id.as_str());
            proof {
                assert(out@ =~= old(out)@ + enc_participant(p@));
            }
        },
        Participant::Verifier(id) => {
            out.push(2u8);
            push_string(out, id.as_str());
            proof {
                assert(out@ =~= old(out)@ + enc_participant(p@));
            }
        },
    }
}

/// Appends a participant list behind its count.
fn push_participants(out: &mut Vec<u8>, ps: &Vec<Participant>)
    ensures
        final(out)@ == old(out)@ + enc_u64(ps.deep_view().len() as u64) + enc_participants(
            ps.deep_view(),
        ),
{
    let n = ps.len();
    push_u64(out, n as u64);
    let mut i: usize = 0;
    while i < n
        invariant
            0 <= i <= n,
            n == ps.len(),
            out@ == old(out)@ + enc_u64(n as u64) + enc_participants(ps.deep_view().take(i as int)),
        decreases n - i,
    {
        push_participant(out, &ps[i]);
        proof {
            lemma_enc_participants_push(ps.deep_view().take(i as int), ps.deep_view()[i as int]);
            assert(ps.deep_view().take(i as int).push(ps.deep_view()[i as int]) =~= ps.deep_view().take(
                i + 1,
            ));
            assert(out@ =~= old(out)@ + enc_u64(n as u64) + enc_participants(
                ps.deep_view().take(i + 1),
            ));
        }
        i = i + 1;
    }
    proof {
        assert(ps.deep_view().take(n as int) =~= ps.deep_view());
    }
}

/// Appends a contribution record.
fn push_contribution(out: &mut Vec<u8>, c: &Contribution)
    ensures
        final(out)@ == old(out)@ + enc_contribution(c@),
{
    push_opt_string(out, &c.contributor_id);
    push_opt_locator(out, &c.contributed_location);
    push_opt_string(out, &c.verifier_id);
    push_opt_locator(out, &c.verified_location);
    push_bool(out, c.verified);
    proof {
        assert(out@ =~= old(out)@ + enc_contribution(c@));
    }
}

/// Appends a chunk: id, lock holder, contributions behind their
/// count.
fn push_chunk(out: &mut Vec<u8>, c: &Chunk)
    ensures
        final(out)@ == old(out)@ + enc_chunk(c@),
{
    push_u64(out, c.chunk_id);
    match &c.lock_holder {
        None => {
            out.push(0u8);
        },
        Some(p) => {
            out.push(3u8);
            push_participant(out, p);
        },
    }
    proof {
        assert(out@ =~= old(out)@ + enc_u64(c.chunk_id) + enc_opt_participant(c@.lock_holder));
    }
    let n = c.contributions.len();
    push_u64(out, n as u64);
    let mut i: usize = 0;
    while i < n
        invariant
            0 <= i <= n,
            n == c.contributions.len(),
            out@ == old(out)@ + enc_u64(c@.chunk_id) + enc_opt_participant(c@.lock_holder)
                + enc_u64(n as u64) + enc_contributions(c@.contributions.take(i as int)),
        decreases n - i,
    {
        push_contribution(out, &c.contributions[i]);
        proof {
            lemma_enc_contributions_push(
                c@.contributions.take(i as int),
                c@.contributions[i as int],
            );
            assert(c@.contributions.take(i as int).push(c@.contributions[i as int])
                =~= c@.contributions.take(i + 1));
            assert(out@ =~= old(out)@ + enc_u64(c@.chunk_id) + enc_opt_participant(c@.lock_holder)
                + enc_u64(n as u64) + enc_contributions(c@.contributions.take(i + 1)));
        }
        i = i + 1;
    }
    proof {
        assert(c@.contributions.take(n as int) =~= c@.contributions);
        assert(out@ =~= old(out)@ + enc_chunk(c@));
    }
}

/// Serializes a round to its canonical byte form.
pub fn encode_round(round: &Round) -> (r: Vec<u8>)
    ensures
        r@ == enc_round(round@),
{
    let mut out: Vec<u8> = Vec::new();
    push_u64(&mut out, round.height);
    push_u64(&mut out, round.started_at);
    push_participants(&mut out, &round.contributors);
    push_participants(&mut out, &round.verifiers);
    push_participants(&mut out, &round.chunk_verifiers);
    let ghost prefix = out@;
    let n = round.chunks.len();
    push_u64(&mut out, n as u64);
    let mut i: usize = 0;
    while i < n
        invariant
            0 <= i <= n,
            n == round.chunks.len(),
            out@ == prefix + enc_u64(n as u64) + enc_chunks(round@.chunks.take(i as int)),
        decreases n - i,
    {
        push_chunk(&mut out, &round.chunks[i]);
        proof {
            lemma_enc_chunks_push(round@.chunks.take(i as int), round@.chunks[i as int]);
            assert(round@.chunks.take(i as int).push(round@.chunks[i as int])
                =~= round@.chunks.take(i + 1));
            assert(out@ =~= prefix + enc_u64(n as u64) + enc_chunks(round@.chunks.take(i + 1)));
        }
        i = i + 1;
    }
    proof {
        assert(round@.chunks.take(n as int) =~= round@.chunks);
        assert(out@ =~= enc_round(round@));
    }
    out
}

} // verus!
