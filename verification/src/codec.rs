//! The event codec: the binary wire form of the two event vocabularies.
//!
//! A peer message is a tag byte, the variant's fields, and an optional
//! identity proof; a server message is a tag byte and the variant's fields.
//! Byte strings travel length-prefixed (eight-byte little-endian length),
//! text as length-prefixed UTF-8. Decoding consumes the whole buffer; a
//! malformed or unrecognized buffer is rejected with a [`DecodeError`] and
//! nothing else happens.
//!
//! [`spec_encode_peer_message`] and [`spec_decode_peer_message`] (and the
//! server-side pair) define the wire form; the executable functions are
//! proved to match them, and [`lemma_peer_round_trip`] /
//! [`lemma_server_round_trip`] prove that decoding inverts encoding.

use crate::events::{PeerEvent, PeerEventView, ServerEvent, ServerEventView};
use crate::models::PeerId;
use vstd::bytes::{
    lemma_auto_spec_u64_to_from_le_bytes, spec_u64_from_le_bytes, spec_u64_to_le_bytes,
    u64_from_le_bytes, u64_to_le_bytes,
};
use vstd::prelude::*;
use vstd::slice::{slice_subrange, slice_to_vec};
use vstd::string::StrSliceExecFns;
use vstd::utf8::{
    decode_utf8, encode_utf8, encode_utf8_decode_utf8, encode_utf8_valid_utf8, valid_utf8,
};

verus! {

/// A malformed or unrecognized wire message.
#[derive(Debug, PartialEq, Eq)]
pub enum DecodeError {
    Malformed,
}

pub const TAG_CHECK: u8 = 0;

pub const TAG_SEARCH: u8 = 1;

pub const TAG_REGISTER: u8 = 2;

pub const TAG_UPDATE: u8 = 3;

pub const TAG_SUSPEND: u8 = 4;

pub const TAG_ACTIVE: u8 = 5;

pub const TAG_DELETE: u8 = 6;

pub const TAG_REQUEST: u8 = 7;

pub const TAG_STATUS: u8 = 0;

pub const TAG_INFO: u8 = 1;

pub const TAG_NOT_FOUND: u8 = 2;

pub const TAG_REGISTER_RESULT: u8 = 3;

pub const TAG_ACTIVED: u8 = 4;

pub const TAG_DELETED: u8 = 5;

/// The view of an optionally attached byte string.
pub open spec fn opt_bytes_view(p: Option<Vec<u8>>) -> Option<Seq<u8>> {
    match p {
        Some(b) => Some(b@),
        None => None,
    }
}

/// An eight-byte little-endian length or integer.
pub open spec fn enc_u64(x: u64) -> Seq<u8> {
    spec_u64_to_le_bytes(x)
}

/// A length-prefixed byte string.
pub open spec fn enc_bytes(b: Seq<u8>) -> Seq<u8> {
    enc_u64(b.len() as u64) + b
}

/// A length-prefixed UTF-8 text.
pub open spec fn enc_str(s: Seq<char>) -> Seq<u8> {
    enc_bytes(encode_utf8(s))
}

/// One byte: zero for false, one for true.
pub open spec fn enc_bool(x: bool) -> Seq<u8> {
    if x {
        seq![1u8]
    } else {
        seq![0u8]
    }
}

/// A marker byte, then the proof bytes if a proof is attached.
pub open spec fn enc_proof(p: Option<Seq<u8>>) -> Seq<u8> {
    match p {
        None => seq![0u8],
        Some(b) => seq![1u8] + enc_bytes(b),
    }
}

/// The wire form of a peer event, without the proof part.
pub open spec fn spec_encode_peer_event(e: PeerEventView) -> Seq<u8> {
    match e {
        PeerEventView::Check => seq![TAG_CHECK],
        PeerEventView::Search(name) => seq![TAG_SEARCH] + enc_str(name),
        PeerEventView::Register(name, bio, avatar) => seq![TAG_REGISTER] + enc_str(name) + enc_str(
            bio,
        ) + enc_bytes(avatar),
        PeerEventView::Update(name, bio, avatar) => seq![TAG_UPDATE] + enc_str(name) + enc_str(bio)
            + enc_bytes(avatar),
        PeerEventView::Suspend(name) => seq![TAG_SUSPEND] + enc_str(name),
        PeerEventView::Active(name) => seq![TAG_ACTIVE] + enc_str(name),
        PeerEventView::Delete(name) => seq![TAG_DELETE] + enc_str(name),
        PeerEventView::Request(name, target, remark) => seq![TAG_REQUEST] + enc_str(name) + enc_str(
            target,
        ) + enc_str(remark),
    }
}

/// The wire form of a peer message: the event, then the optional proof.
pub open spec fn spec_encode_peer_message(e: PeerEventView, p: Option<Seq<u8>>) -> Seq<u8> {
    spec_encode_peer_event(e) + enc_proof(p)
}

/// The wire form of a server event.
pub open spec fn spec_encode_server_event(e: ServerEventView) -> Seq<u8> {
    match e {
        ServerEventView::Status(name, proxy) => seq![TAG_STATUS] + enc_str(name) + enc_bool(proxy),
        ServerEventView::Info(pid, name, bio, avatar) => seq![TAG_INFO] + enc_bytes(pid) + enc_str(
            name,
        ) + enc_str(bio) + enc_bytes(avatar),
        ServerEventView::NotFound(name) => seq![TAG_NOT_FOUND] + enc_str(name),
        ServerEventView::RegisterResult(name, ok) => seq![TAG_REGISTER_RESULT] + enc_str(name)
            + enc_bool(ok),
        ServerEventView::Actived(name, actived) => seq![TAG_ACTIVED] + enc_str(name) + enc_bool(
            actived,
        ),
        ServerEventView::Deleted(name) => seq![TAG_DELETED] + enc_str(name),
    }
}

/// Reads an eight-byte little-endian integer at `pos`.
pub open spec fn dec_u64(b: Seq<u8>, pos: int) -> Option<(u64, int)> {
    if 0 <= pos && pos + 8 <= b.len() {
        Some((spec_u64_from_le_bytes(b.subrange(pos, pos + 8)), pos + 8))
    } else {
        None
    }
}

/// Reads a length-prefixed byte string at `pos`.
pub open spec fn dec_bytes(b: Seq<u8>, pos: int) -> Option<(Seq<u8>, int)> {
    match dec_u64(b, pos) {
        None => None,
        Some((n, p)) => if p + n <= b.len() {
            Some((b.subrange(p, p + n), p + n))
        } else {
            None
        },
    }
}

/// Reads a length-prefixed UTF-8 text at `pos`.
pub open spec fn dec_str(b: Seq<u8>, pos: int) -> Option<(Seq<char>, int)> {
    match dec_bytes(b, pos) {
        None => None,
        Some((bs, p)) => if valid_utf8(bs) {
            Some((decode_utf8(bs), p))
        } else {
            None
        },
    }
}

/// Reads a boolean byte at `pos`.
pub open spec fn dec_bool(b: Seq<u8>, pos: int) -> Option<(bool, int)> {
    if 0 <= pos < b.len() {
        if b[pos] == 0u8 {
            Some((false, pos + 1))
        } else if b[pos] == 1u8 {
            Some((true, pos + 1))
        } else {
            None
        }
    } else {
        None
    }
}

/// Reads the optional proof part at `pos`.
pub open spec fn dec_proof(b: Seq<u8>, pos: int) -> Option<(Option<Seq<u8>>, int)> {
    if 0 <= pos < b.len() {
        if b[pos] == 0u8 {
            Some((None, pos + 1))
        } else if b[pos] == 1u8 {
            match dec_bytes(b, pos + 1) {
                None => None,
                Some((bs, p)) => Some((Some(bs), p)),
            }
        } else {
            None
        }
    } else {
        None
    }
}

/// Reads the peer event starting at the tag byte; yields the event and the
/// position of the proof part.
pub open spec fn dec_peer_event(b: Seq<u8>) -> Option<(PeerEventView, int)> {
    if b.len() < 1 {
        None
    } else {
        let tag = b[0];
        if tag == TAG_CHECK {
            Some((PeerEventView::Check, 1))
        } else if tag == TAG_SEARCH {
            match dec_str(b, 1) {
                None => None,
                Some((name, p)) => Some((PeerEventView::Search(name), p)),
            }
        } else if tag == TAG_REGISTER {
            match dec_str(b, 1) {
                None => None,
                Some((name, p1)) => match dec_str(b, p1) {
                    None => None,
                    Some((bio, p2)) => match dec_bytes(b, p2) {
                        None => None,
                        Some((avatar, p3)) => Some((PeerEventView::Register(name, bio, avatar), p3)),
                    },
                },
            }
        } else if tag == TAG_UPDATE {
            match dec_str(b, 1) {
                None => None,
                Some((name, p1)) => match dec_str(b, p1) {
                    None => None,
                    Some((bio, p2)) => match dec_bytes(b, p2) {
                        None => None,
                        Some((avatar, p3)) => Some((PeerEventView::Update(name, bio, avatar), p3)),
                    },
                },
            }
        } else if tag == TAG_SUSPEND {
            match dec_str(b, 1) {
                None => None,
                Some((name, p)) => Some((PeerEventView::Suspend(name), p)),
            }
        } else if tag == TAG_ACTIVE {
            match dec_str(b, 1) {
                None => None,
                Some((name, p)) => Some((PeerEventView::Active(name), p)),
            }
        } else if tag == TAG_DELETE {
            match dec_str(b, 1) {
                None => None,
                Some((name, p)) => Some((PeerEventView::Delete(name), p)),
            }
        } else if tag == TAG_REQUEST {
            match dec_str(b, 1) {
                None => None,
                Some((name, p1)) => match dec_str(b, p1) {
                    None => None,
                    Some((target, p2)) => match dec_str(b, p2) {
                        None => None,
                        Some((remark, p3)) => Some((PeerEventView::Request(name, target, remark), p3)),
                    },
                },
            }
        } else {
            None
        }
    }
}

/// What decoding a peer message yields: the event and the attached proof
/// bytes, provided the whole buffer is consumed.
pub open spec fn spec_decode_peer_message(b: Seq<u8>) -> Option<(PeerEventView, Option<Seq<u8>>)> {
    match dec_peer_event(b) {
        None => None,
        Some((e, p)) => match dec_proof(b, p) {
            None => None,
            Some((pr, p2)) => if p2 == b.len() {
                Some((e, pr))
            } else {
                None
            },
        },
    }
}

/// What decoding a server event yields, provided the whole buffer is
/// consumed.
pub open spec fn spec_decode_server_event(b: Seq<u8>) -> Option<ServerEventView> {
    if b.len() < 1 {
        None
    } else {
        let tag = b[0];
        if tag == TAG_STATUS {
            match dec_str(b, 1) {
                None => None,
                Some((name, p1)) => match dec_bool(b, p1) {
                    None => None,
                    Some((proxy, p2)) => if p2 == b.len() {
                        Some(ServerEventView::Status(name, proxy))
                    } else {
                        None
                    },
                },
            }
        } else if tag == TAG_INFO {
            match dec_bytes(b, 1) {
                None => None,
                Some((pid, p1)) => match dec_str(b, p1) {
                    None => None,
                    Some((name, p2)) => match dec_str(b, p2) {
                        None => None,
                        Some((bio, p3)) => match dec_bytes(b, p3) {
                            None => None,
                            Some((avatar, p4)) => if p4 == b.len() {
                                Some(ServerEventView::Info(pid, name, bio, avatar))
                            } else {
                                None
                            },
                        },
                    },
                },
            }
        } else if tag == TAG_NOT_FOUND {
            match dec_str(b, 1) {
                None => None,
                Some((name, p)) => if p == b.len() {
                    Some(ServerEventView::NotFound(name))
                } else {
                    None
                },
            }
        } else if tag == TAG_REGISTER_RESULT {
            match dec_str(b, 1) {
                None => None,
                Some((name, p1)) => match dec_bool(b, p1) {
                    None => None,
                    Some((ok, p2)) => if p2 == b.len() {
                        Some(ServerEventView::RegisterResult(name, ok))
                    } else {
                        None
                    },
                },
            }
        } else if tag == TAG_ACTIVED {
            match dec_str(b, 1) {
                None => None,
                Some((name, p1)) => match dec_bool(b, p1) {
                    None => None,
                    Some((actived, p2)) => if p2 == b.len() {
                        Some(ServerEventView::Actived(name, actived))
                    } else {
                        None
                    },
                },
            }
        } else if tag == TAG_DELETED {
            match dec_str(b, 1) {
                None => None,
                Some((name, p)) => if p == b.len() {
                    Some(ServerEventView::Deleted(name))
                } else {
                    None
                },
            }
        } else {
            None
        }
    }
}

/// Relies on `String::from_utf8`: it succeeds exactly on valid UTF-8 input
/// and returns the string those bytes encode.
#[verifier::external_body]
fn string_from_utf8(v: Vec<u8>) -> (r: Option<String>)
    ensures
        r is Some <==> valid_utf8(v@),
        r is Some ==> r.unwrap()@ == decode_utf8(v@),
{
    String::from_utf8(v).ok()
}

fn write_u64(out: &mut Vec<u8>, x: u64)
    ensures
        final(out)@ == old(out)@ + enc_u64(x),
{
    let mut tail = u64_to_le_bytes(x);
    out.append(&mut tail);
}

fn write_bytes(out: &mut Vec<u8>, b: &Vec<u8>)
    ensures
        final(out)@ == old(out)@ + enc_bytes(b@),
{
    let ghost prefix = out@;
    write_u64(out, b.len() as u64);
    let mut tail = slice_to_vec(b.as_slice());
    out.append(&mut tail);
    proof {
        assert(out@ =~= prefix + enc_bytes(b@));
    }
}

fn write_str(out: &mut Vec<u8>, s: &String)
    ensures
        final(out)@ == old(out)@ + enc_str(s@),
{
    let bv = s.as_str().as_bytes_vec();
    write_bytes(out, &bv);
}

fn write_bool(out: &mut Vec<u8>, x: bool)
    ensures
        final(out)@ == old(out)@ + enc_bool(x),
{
    let ghost prefix = out@;
    if x {
        out.push(1u8);
    } else {
        out.push(0u8);
    }
    proof {
        assert(out@ =~= prefix + enc_bool(x));
    }
}

fn read_u64(buf: &Vec<u8>, pos: usize) -> (r: Option<(u64, usize)>)
    ensures
        match r {
            Some(v) => dec_u64(buf@, pos as int) == Some((v.0, v.1 as int)),
            None => dec_u64(buf@, pos as int) is None,
        },
{
    if pos <= buf.len() && buf.len() - pos >= 8 {
        let s = slice_subrange(buf.as_slice(), pos, pos + 8);
        Some((u64_from_le_bytes(s), pos + 8))
    } else {
        None
    }
}

fn read_bytes(buf: &Vec<u8>, pos: usize) -> (r: Option<(Vec<u8>, usize)>)
    ensures
        match r {
            Some(v) => dec_bytes(buf@, pos as int) == Some((v.0@, v.1 as int)),
            None => dec_bytes(buf@, pos as int) is None,
        },
{
    match read_u64(buf, pos) {
        None => None,
        Some((n, p)) => {
            if n <= (buf.len() - p) as u64 {
                let end = p + (n as usize);
                let s = slice_subrange(buf.as_slice(), p, end);
                Some((slice_to_vec(s), end))
            } else {
                None
            }
        },
    }
}

fn read_str(buf: &Vec<u8>, pos: usize) -> (r: Option<(String, usize)>)
    ensures
        match r {
            Some(v) => dec_str(buf@, pos as int) == Some((v.0@, v.1 as int)),
            None => dec_str(buf@, pos as int) is None,
        },
{
    match read_bytes(buf, pos) {
        None => None,
        Some((bs, p)) => match string_from_utf8(bs) {
            Some(s) => Some((s, p)),
            None => None,
        },
    }
}

fn read_bool(buf: &Vec<u8>, pos: usize) -> (r: Option<(bool, usize)>)
    ensures
        match r {
            Some(v) => dec_bool(buf@, pos as int) == Some((v.0, v.1 as int)),
            None => dec_bool(buf@, pos as int) is None,
        },
{
    if pos < buf.len() {
        let marker = buf[pos];
        if marker == 0 {
            Some((false, pos + 1))
        } else if marker == 1 {
            Some((true, pos + 1))
        } else {
            None
        }
    } else {
        None
    }
}

fn read_proof(buf: &Vec<u8>, pos: usize) -> (r: Option<(Option<Vec<u8>>, usize)>)
    ensures
        match r {
            Some(v) => dec_proof(buf@, pos as int) == Some((opt_bytes_view(v.0), v.1 as int)),
            None => dec_proof(buf@, pos as int) is None,
        },
{
    if pos < buf.len() {
        let marker = buf[pos];
        if marker == 0 {
            Some((None, pos + 1))
        } else if marker == 1 {
            match read_bytes(buf, pos + 1) {
                None => None,
                Some((bs, p)) => Some((Some(bs), p)),
            }
        } else {
            None
        }
    } else {
        None
    }
}

/// Encodes a peer request and its optional identity proof for the wire.
pub fn encode_peer_message(event: &PeerEvent, identity_proof: &Option<Vec<u8>>) -> (r: Vec<u8>)
    ensures
        r@ == spec_encode_peer_message(event@, opt_bytes_view(*identity_proof)),
{
    let mut out: Vec<u8> = Vec::new();
    match event {
        PeerEvent::Check => {
            out.push(TAG_CHECK);
            proof {
                assert(out@ =~= spec_encode_peer_event(event@));
            }
        },
        PeerEvent::Search(name) => {
            out.push(TAG_SEARCH);
            write_str(&mut out, name);
            proof {
                assert(out@ =~= spec_encode_peer_event(event@));
            }
        },
        PeerEvent::Register(name, bio, avatar) => {
            out.push(TAG_REGISTER);
            write_str(&mut out, name);
            write_str(&mut out, bio);
            write_bytes(&mut out, avatar);
            proof {
                assert(out@ =~= spec_encode_peer_event(event@));
            }
        },
        PeerEvent::Update(name, bio, avatar) => {
            out.push(TAG_UPDATE);
            write_str(&mut out, name);
            write_str(&mut out, bio);
            write_bytes(&mut out, avatar);
            proof {
                assert(out@ =~= spec_encode_peer_event(event@));
            }
        },
        PeerEvent::Suspend(name) => {
            out.push(TAG_SUSPEND);
            write_str(&mut out, name);
            proof {
                assert(out@ =~= spec_encode_peer_event(event@));
            }
        },
        PeerEvent::Active(name) => {
            out.push(TAG_ACTIVE);
            write_str(&mut out, name);
            proof {
                assert(out@ =~= spec_encode_peer_event(event@));
            }
        },
        PeerEvent::Delete(name) => {
            out.push(TAG_DELETE);
            write_str(&mut out, name);
            proof {
                assert(out@ =~= spec_encode_peer_event(event@));
            }
        },
        PeerEvent::Request(name, target, remark) => {
            out.push(TAG_REQUEST);
            write_str(&mut out, name);
            write_str(&mut out, target);
            write_str(&mut out, remark);
            proof {
                assert(out@ =~= spec_encode_peer_event(event@));
            }
        },
    }
    match identity_proof {
        None => {
            out.push(0u8);
        },
        Some(pb) => {
            out.push(1u8);
            write_bytes(&mut out, pb);
        },
    }
    proof {
        assert(out@ =~= spec_encode_peer_message(event@, opt_bytes_view(*identity_proof)));
    }
    out
}

/// Encodes a server response for the wire.
pub fn encode_server_event(event: &ServerEvent) -> (r: Vec<u8>)
    ensures
        r@ == spec_encode_server_event(event@),
{
    let mut out: Vec<u8> = Vec::new();
    match event {
        ServerEvent::Status(name, proxy) => {
            out.push(TAG_STATUS);
            write_str(&mut out, name);
            write_bool(&mut out, *proxy);
            proof {
                assert(out@ =~= spec_encode_server_event(event@));
            }
        },
        ServerEvent::Info(pid, name, bio, avatar) => {
            out.push(TAG_INFO);
            write_bytes(&mut out, &pid.bytes);
            write_str(&mut out, name);
            write_str(&mut out, bio);
            write_bytes(&mut out, avatar);
            proof {
                assert(out@ =~= spec_encode_server_event(event@));
            }
        },
        ServerEvent::NotFound(name) => {
            out.push(TAG_NOT_FOUND);
            write_str(&mut out, name);
            proof {
                assert(out@ =~= spec_encode_server_event(event@));
            }
        },
        ServerEvent::RegisterResult(name, ok) => {
            out.push(TAG_REGISTER_RESULT);
            write_str(&mut out, name);
            write_bool(&mut out, *ok);
            proof {
                assert(out@ =~= spec_encode_server_event(event@));
            }
        },
        ServerEvent::Actived(name, actived) => {
            out.push(TAG_ACTIVED);
            write_str(&mut out, name);
            write_bool(&mut out, *actived);
            proof {
                assert(out@ =~= spec_encode_server_event(event@));
            }
        },
        ServerEvent::Deleted(name) => {
            out.push(TAG_DELETED);
            write_str(&mut out, name);
            proof {
                assert(out@ =~= spec_encode_server_event(event@));
            }
        },
    }
    out
}

/// Decodes a peer message: the event and its optional identity proof.
/// Succeeds exactly on the buffers [`spec_decode_peer_message`] accepts, and
/// returns exactly what it yields.
pub fn decode_peer_message(buf: &Vec<u8>) -> (r: Result<
    (PeerEvent, Option<Vec<u8>>),
    DecodeError,
>)
    ensures
        match r {
            Ok(m) => spec_decode_peer_message(buf@) == Some((m.0@, opt_bytes_view(m.1))),
            Err(_) => spec_decode_peer_message(buf@) is None,
        },
{
    if buf.len() < 1 {
        return Err(DecodeError::Malformed);
    }
    let tag = buf[0];
    let event: PeerEvent;
    let pos: usize;
    if tag == TAG_CHECK {
        event = PeerEvent::Check;
        pos = 1;
    } else if tag == TAG_SEARCH {
        match read_str(buf, 1) {
            None => {
                return Err(DecodeError::Malformed);
            },
            Some((name, p)) => {
                event = PeerEvent::Search(name);
                pos = p;
            },
        }
    } else if tag == TAG_REGISTER {
        match read_str(buf, 1) {
            None => {
                return Err(DecodeError::Malformed);
            },
            Some((name, p1)) => match read_str(buf, p1) {
                None => {
                    return Err(DecodeError::Malformed);
                },
                Some((bio, p2)) => match read_bytes(buf, p2) {
                    None => {
                        return Err(DecodeError::Malformed);
                    },
                    Some((avatar, p3)) => {
                        event = PeerEvent::Register(name, bio, avatar);
                        pos = p3;
                    },
                },
            },
        }
    } else if tag == TAG_UPDATE {
        match read_str(buf, 1) {
            None => {
                return Err(DecodeError::Malformed);
            },
            Some((name, p1)) => match read_str(buf, p1) {
                None => {
                    return Err(DecodeError::Malformed);
                },
                Some((bio, p2)) => match read_bytes(buf, p2) {
                    None => {
                        return Err(DecodeError::Malformed);
                    },
                    Some((avatar, p3)) => {
                        event = PeerEvent::Update(name, bio, avatar);
                        pos = p3;
                    },
                },
            },
        }
    } else if tag == TAG_SUSPEND {
        match read_str(buf, 1) {
            None => {
                return Err(DecodeError::Malformed);
            },
            Some((name, p)) => {
                event = PeerEvent::Suspend(name);
                pos = p;
            },
        }
    } else if tag == TAG_ACTIVE {
        match read_str(buf, 1) {
            None => {
                return Err(DecodeError::Malformed);
            },
            Some((name, p)) => {
                event = PeerEvent::Active(name);
                pos = p;
            },
        }
    } else if tag == TAG_DELETE {
        match read_str(buf, 1) {
            None => {
                return Err(DecodeError::Malformed);
            },
            Some((name, p)) => {
                event = PeerEvent::Delete(name);
                pos = p;
            },
        }
    } else if tag == TAG_REQUEST {
        match read_str(buf, 1) {
            None => {
                return Err(DecodeError::Malformed);
            },
            Some((name, p1)) => match read_str(buf, p1) {
                None => {
                    return Err(DecodeError::Malformed);
                },
                Some((target, p2)) => match read_str(buf, p2) {
                    None => {
                        return Err(DecodeError::Malformed);
                    },
                    Some((remark, p3)) => {
                        event = PeerEvent::Request(name, target, remark);
                        pos = p3;
                    },
                },
            },
        }
    } else {
        return Err(DecodeError::Malformed);
    }
    match read_proof(buf, pos) {
        None => Err(DecodeError::Malformed),
        Some((pr, pos2)) => {
            if pos2 == buf.len() {
                Ok((event, pr))
            } else {
                Err(DecodeError::Malformed)
            }
        },
    }
}

/// Decodes a server response. Succeeds exactly on the buffers
/// [`spec_decode_server_event`] accepts, and returns exactly what it yields.
pub fn decode_server_event(buf: &Vec<u8>) -> (r: Result<ServerEvent, DecodeError>)
    ensures
        match r {
            Ok(e) => spec_decode_server_event(buf@) == Some(e@),
            Err(_) => spec_decode_server_event(buf@) is None,
        },
{
    if buf.len() < 1 {
        return Err(DecodeError::Malformed);
    }
    let tag = buf[0];
    if tag == TAG_STATUS {
        match read_str(buf, 1) {
            None => Err(DecodeError::Malformed),
            Some((name, p1)) => match read_bool(buf, p1) {
                None => Err(DecodeError::Malformed),
                Some((proxy, p2)) => {
                    if p2 == buf.len() {
                        Ok(ServerEvent::Status(name, proxy))
                    } else {
                        Err(DecodeError::Malformed)
                    }
                },
            },
        }
    } else if tag == TAG_INFO {
        match read_bytes(buf, 1) {
            None => Err(DecodeError::Malformed),
            Some((pid, p1)) => match read_str(buf, p1) {
                None => Err(DecodeError::Malformed),
                Some((name, p2)) => match read_str(buf, p2) {
                    None => Err(DecodeError::Malformed),
                    Some((bio, p3)) => match read_bytes(buf, p3) {
                        None => Err(DecodeError::Malformed),
                        Some((avatar, p4)) => {
                            if p4 == buf.len() {
                                Ok(ServerEvent::Info(PeerId::new(pid), name, bio, avatar))
                            } else {
                                Err(DecodeError::Malformed)
                            }
                        },
                    },
                },
            },
        }
    } else if tag == TAG_NOT_FOUND {
        match read_str(buf, 1) {
            None => Err(DecodeError::Malformed),
            Some((name, p)) => {
                if p == buf.len() {
                    Ok(ServerEvent::NotFound(name))
                } else {
                    Err(DecodeError::Malformed)
                }
            },
        }
    } else if tag == TAG_REGISTER_RESULT {
        match read_str(buf, 1) {
            None => Err(DecodeError::Malformed),
            Some((name, p1)) => match read_bool(buf, p1) {
                None => Err(DecodeError::Malformed),
                Some((ok, p2)) => {
                    if p2 == buf.len() {
                        Ok(ServerEvent::RegisterResult(name, ok))
                    } else {
                        Err(DecodeError::Malformed)
                    }
                },
            },
        }
    } else if tag == TAG_ACTIVED {
        match read_str(buf, 1) {
            None => Err(DecodeError::Malformed),
            Some((name, p1)) => match read_bool(buf, p1) {
                None => Err(DecodeError::Malformed),
                Some((actived, p2)) => {
                    if p2 == buf.len() {
                        Ok(ServerEvent::Actived(name, actived))
                    } else {
                        Err(DecodeError::Malformed)
                    }
                },
            },
        }
    } else if tag == TAG_DELETED {
        match read_str(buf, 1) {
            None => Err(DecodeError::Malformed),
            Some((name, p)) => {
                if p == buf.len() {
                    Ok(ServerEvent::Deleted(name))
                } else {
                    Err(DecodeError::Malformed)
                }
            },
        }
    } else {
        Err(DecodeError::Malformed)
    }
}

proof fn lemma_dec_bytes_at(b: Seq<u8>, pos: int, x: Seq<u8>)
    requires
        0 <= pos,
        x.len() <= u64::MAX,
        pos + 8 + x.len() <= b.len(),
        b.subrange(pos, pos + 8 + x.len()) == enc_bytes(x),
    ensures
        enc_bytes(x).len() == 8 + x.len(),
        dec_bytes(b, pos) == Some((x, pos + 8 + x.len())),
{
    lemma_auto_spec_u64_to_from_le_bytes();
    let w = b.subrange(pos, pos + 8 + x.len());
    assert(b.subrange(pos, pos + 8) =~= w.subrange(0, 8));
    assert(w.subrange(0, 8) =~= enc_u64(x.len() as u64));
    assert(spec_u64_from_le_bytes(b.subrange(pos, pos + 8)) == x.len() as u64);
    assert(x.len() as u64 as int == x.len() as int);
    assert(b.subrange(pos + 8, pos + 8 + x.len()) =~= w.subrange(8, w.len() as int));
    assert(w.subrange(8, w.len() as int) =~= x);
}

proof fn lemma_dec_str_at(b: Seq<u8>, pos: int, s: Seq<char>)
    requires
        0 <= pos,
        encode_utf8(s).len() <= u64::MAX,
        pos + 8 + encode_utf8(s).len() <= b.len(),
        b.subrange(pos, pos + 8 + encode_utf8(s).len()) == enc_str(s),
    ensures
        enc_str(s).len() == 8 + encode_utf8(s).len(),
        dec_str(b, pos) == Some((s, pos + 8 + encode_utf8(s).len())),
{
    lemma_dec_bytes_at(b, pos, encode_utf8(s));
    encode_utf8_valid_utf8(s);
    encode_utf8_decode_utf8(s);
}

proof fn lemma_dec_bool_at(b: Seq<u8>, pos: int, x: bool)
    requires
        0 <= pos,
        pos + 1 <= b.len(),
        b.subrange(pos, pos + 1) == enc_bool(x),
    ensures
        dec_bool(b, pos) == Some((x, pos + 1)),
{
    assert(b[pos] == enc_bool(x)[0]) by {
        assert(b.subrange(pos, pos + 1)[0] == enc_bool(x)[0]);
    };
}

proof fn lemma_dec_proof_at(b: Seq<u8>, pos: int, p: Option<Seq<u8>>)
    requires
        0 <= pos,
        proof_bounded(p),
        pos + enc_proof(p).len() as int <= b.len(),
        b.subrange(pos, pos + enc_proof(p).len() as int) == enc_proof(p),
    ensures
        dec_proof(b, pos) == Some((p, pos + enc_proof(p).len() as int)),
{
    lemma_auto_spec_u64_to_from_le_bytes();
    match p {
        None => {
            assert(b[pos] == 0u8) by {
                assert(b.subrange(pos, pos + 1)[0] == enc_proof(p)[0]);
            };
        },
        Some(x) => {
            assert(enc_bytes(x).len() == 8 + x.len());
            assert(b[pos] == 1u8) by {
                assert(b.subrange(pos, pos + enc_proof(p).len() as int)[0] == enc_proof(p)[0]);
            };
            assert forall|i: int| 0 <= i < 8 + x.len() implies b[pos + 1 + i] == enc_bytes(x)[i] by {
                assert(b.subrange(pos, pos + enc_proof(p).len() as int)[1 + i] == enc_proof(p)[1
                    + i]);
            }
            assert(b.subrange(pos + 1, pos + 1 + 8 + x.len()) =~= enc_bytes(x));
            lemma_dec_bytes_at(b, pos + 1, x);
        },
    }
}

/// The text fits its eight-byte length prefix; every real string does.
pub open spec fn str_bounded(s: Seq<char>) -> bool {
    encode_utf8(s).len() <= u64::MAX
}

/// The byte string fits its eight-byte length prefix; every real one does.
pub open spec fn bytes_bounded(b: Seq<u8>) -> bool {
    b.len() <= u64::MAX
}

/// Every field of the event fits its length prefix.
pub open spec fn peer_event_bounded(e: PeerEventView) -> bool {
    match e {
        PeerEventView::Check => true,
        PeerEventView::Search(name) => str_bounded(name),
        PeerEventView::Register(name, bio, avatar) => str_bounded(name) && str_bounded(bio)
            && bytes_bounded(avatar),
        PeerEventView::Update(name, bio, avatar) => str_bounded(name) && str_bounded(bio)
            && bytes_bounded(avatar),
        PeerEventView::Suspend(name) => str_bounded(name),
        PeerEventView::Active(name) => str_bounded(name),
        PeerEventView::Delete(name) => str_bounded(name),
        PeerEventView::Request(name, target, remark) => str_bounded(name) && str_bounded(target)
            && str_bounded(remark),
    }
}

/// The attached proof, if any, fits its length prefix.
pub open spec fn proof_bounded(p: Option<Seq<u8>>) -> bool {
    match p {
        None => true,
        Some(b) => b.len() <= u64::MAX,
    }
}

/// Every field of the event fits its length prefix.
pub open spec fn server_event_bounded(e: ServerEventView) -> bool {
    match e {
        ServerEventView::Status(name, _) => str_bounded(name),
        ServerEventView::Info(pid, name, bio, avatar) => bytes_bounded(pid) && str_bounded(name)
            && str_bounded(bio) && bytes_bounded(avatar),
        ServerEventView::NotFound(name) => str_bounded(name),
        ServerEventView::RegisterResult(name, _) => str_bounded(name),
        ServerEventView::Actived(name, _) => str_bounded(name),
        ServerEventView::Deleted(name) => str_bounded(name),
    }
}

/// Round trip of the peer vocabulary: decoding an encoded peer message gives
/// back the event and the attached proof, exactly.
#[verifier::rlimit(50)]
pub proof fn lemma_peer_round_trip(e: PeerEventView, pr: Option<Seq<u8>>)
    requires
        peer_event_bounded(e),
        proof_bounded(pr),
    ensures
        spec_decode_peer_message(spec_encode_peer_message(e, pr)) == Some((e, pr)),
{
    lemma_auto_spec_u64_to_from_le_bytes();
    let b = spec_encode_peer_message(e, pr);
    let eb = spec_encode_peer_event(e);
    match e {
        PeerEventView::Check => {
            assert(b[0] == TAG_CHECK);
            assert(b.subrange(1, 1 + enc_proof(pr).len() as int) =~= enc_proof(pr));
            lemma_dec_proof_at(b, 1, pr);
        },
        PeerEventView::Search(name) => {
            let n1 = 8 + encode_utf8(name).len() as int;
            assert(b[0] == TAG_SEARCH);
            assert(b.subrange(1, 1 + n1) =~= enc_str(name));
            lemma_dec_str_at(b, 1, name);
            assert(b.subrange(1 + n1, 1 + n1 + enc_proof(pr).len() as int) =~= enc_proof(pr));
            lemma_dec_proof_at(b, 1 + n1, pr);
        },
        PeerEventView::Register(name, bio, avatar) => {
            let n1 = 8 + encode_utf8(name).len() as int;
            let n2 = 8 + encode_utf8(bio).len() as int;
            let n3 = 8 + avatar.len() as int;
            assert(b[0] == TAG_REGISTER);
            assert(b.subrange(1, 1 + n1) =~= enc_str(name));
            lemma_dec_str_at(b, 1, name);
            assert(b.subrange(1 + n1, 1 + n1 + n2) =~= enc_str(bio));
            lemma_dec_str_at(b, 1 + n1, bio);
            assert(b.subrange(1 + n1 + n2, 1 + n1 + n2 + n3) =~= enc_bytes(avatar));
            lemma_dec_bytes_at(b, 1 + n1 + n2, avatar);
            assert(b.subrange(1 + n1 + n2 + n3, 1 + n1 + n2 + n3 + enc_proof(pr).len() as int)
                =~= enc_proof(pr));
            lemma_dec_proof_at(b, 1 + n1 + n2 + n3, pr);
        },
        PeerEventView::Update(name, bio, avatar) => {
            let n1 = 8 + encode_utf8(name).len() as int;
            let n2 = 8 + encode_utf8(bio).len() as int;
            let n3 = 8 + avatar.len() as int;
            assert(b[0] == TAG_UPDATE);
            assert(b.subrange(1, 1 + n1) =~= enc_str(name));
            lemma_dec_str_at(b, 1, name);
            assert(b.subrange(1 + n1, 1 + n1 + n2) =~= enc_str(bio));
            lemma_dec_str_at(b, 1 + n1, bio);
            assert(b.subrange(1 + n1 + n2, 1 + n1 + n2 + n3) =~= enc_bytes(avatar));
            lemma_dec_bytes_at(b, 1 + n1 + n2, avatar);
            assert(b.subrange(1 + n1 + n2 + n3, 1 + n1 + n2 + n3 + enc_proof(pr).len() as int)
                =~= enc_proof(pr));
            lemma_dec_proof_at(b, 1 + n1 + n2 + n3, pr);
        },
        PeerEventView::Suspend(name) => {
            let n1 = 8 + encode_utf8(name).len() as int;
            assert(b[0] == TAG_SUSPEND);
            assert(b.subrange(1, 1 + n1) =~= enc_str(name));
            lemma_dec_str_at(b, 1, name);
            assert(b.subrange(1 + n1, 1 + n1 + enc_proof(pr).len() as int) =~= enc_proof(pr));
            lemma_dec_proof_at(b, 1 + n1, pr);
        },
        PeerEventView::Active(name) => {
            let n1 = 8 + encode_utf8(name).len() as int;
            assert(b[0] == TAG_ACTIVE);
            assert(b.subrange(1, 1 + n1) =~= enc_str(name));
            lemma_dec_str_at(b, 1, name);
            assert(b.subrange(1 + n1, 1 + n1 + enc_proof(pr).len() as int) =~= enc_proof(pr));
            lemma_dec_proof_at(b, 1 + n1, pr);
        },
        PeerEventView::Delete(name) => {
            let n1 = 8 + encode_utf8(name).len() as int;
            assert(b[0] == TAG_DELETE);
            assert(b.subrange(1, 1 + n1) =~= enc_str(name));
            lemma_dec_str_at(b, 1, name);
            assert(b.subrange(1 + n1, 1 + n1 + enc_proof(pr).len() as int) =~= enc_proof(pr));
            lemma_dec_proof_at(b, 1 + n1, pr);
        },
        PeerEventView::Request(name, target, remark) => {
            let n1 = 8 + encode_utf8(name).len() as int;
            let n2 = 8 + encode_utf8(target).len() as int;
            let n3 = 8 + encode_utf8(remark).len() as int;
            assert(b[0] == TAG_REQUEST);
            assert(b.subrange(1, 1 + n1) =~= enc_str(name));
            lemma_dec_str_at(b, 1, name);
            assert(b.subrange(1 + n1, 1 + n1 + n2) =~= enc_str(target));
            lemma_dec_str_at(b, 1 + n1, target);
            assert(b.subrange(1 + n1 + n2, 1 + n1 + n2 + n3) =~= enc_str(remark));
            lemma_dec_str_at(b, 1 + n1 + n2, remark);
            assert(b.subrange(1 + n1 + n2 + n3, 1 + n1 + n2 + n3 + enc_proof(pr).len() as int)
                =~= enc_proof(pr));
            lemma_dec_proof_at(b, 1 + n1 + n2 + n3, pr);
        },
    }
}

/// Round trip of the server vocabulary: decoding an encoded server event
/// gives back the event, exactly.
#[verifier::rlimit(50)]
pub proof fn lemma_server_round_trip(e: ServerEventView)
    requires
        server_event_bounded(e),
    ensures
        spec_decode_server_event(spec_encode_server_event(e)) == Some(e),
{
    lemma_auto_spec_u64_to_from_le_bytes();
    let b = spec_encode_server_event(e);
    match e {
        ServerEventView::Status(name, proxy) => {
            let n1 = 8 + encode_utf8(name).len() as int;
            assert(b[0] == TAG_STATUS);
            assert(b.subrange(1, 1 + n1) =~= enc_str(name));
            lemma_dec_str_at(b, 1, name);
            assert(b.subrange(1 + n1, 1 + n1 + 1) =~= enc_bool(proxy));
            lemma_dec_bool_at(b, 1 + n1, proxy);
        },
        ServerEventView::Info(pid, name, bio, avatar) => {
            let n1 = 8 + pid.len() as int;
            let n2 = 8 + encode_utf8(name).len() as int;
            let n3 = 8 + encode_utf8(bio).len() as int;
            let n4 = 8 + avatar.len() as int;
            assert(b[0] == TAG_INFO);
            assert(b.subrange(1, 1 + n1) =~= enc_bytes(pid));
            lemma_dec_bytes_at(b, 1, pid);
            assert(b.subrange(1 + n1, 1 + n1 + n2) =~= enc_str(name));
            lemma_dec_str_at(b, 1 + n1, name);
            assert(b.subrange(1 + n1 + n2, 1 + n1 + n2 + n3) =~= enc_str(bio));
            lemma_dec_str_at(b, 1 + n1 + n2, bio);
            assert(b.subrange(1 + n1 + n2 + n3, 1 + n1 + n2 + n3 + n4) =~= enc_bytes(avatar));
            lemma_dec_bytes_at(b, 1 + n1 + n2 + n3, avatar);
        },
        ServerEventView::NotFound(name) => {
            let n1 = 8 + encode_utf8(name).len() as int;
            assert(b[0] == TAG_NOT_FOUND);
            assert(b.subrange(1, 1 + n1) =~= enc_str(name));
            lemma_dec_str_at(b, 1, name);
        },
        ServerEventView::RegisterResult(name, ok) => {
            let n1 = 8 + encode_utf8(name).len() as int;
            assert(b[0] == TAG_REGISTER_RESULT);
            assert(b.subrange(1, 1 + n1) =~= enc_str(name));
            lemma_dec_str_at(b, 1, name);
            assert(b.subrange(1 + n1, 1 + n1 + 1) =~= enc_bool(ok));
            lemma_dec_bool_at(b, 1 + n1, ok);
        },
        ServerEventView::Actived(name, actived) => {
            let n1 = 8 + encode_utf8(name).len() as int;
            assert(b[0] == TAG_ACTIVED);
            assert(b.subrange(1, 1 + n1) =~= enc_str(name));
            lemma_dec_str_at(b, 1, name);
            assert(b.subrange(1 + n1, 1 + n1 + 1) =~= enc_bool(actived));
            lemma_dec_bool_at(b, 1 + n1, actived);
        },
        ServerEventView::Deleted(name) => {
            let n1 = 8 + encode_utf8(name).len() as int;
            assert(b[0] == TAG_DELETED);
            assert(b.subrange(1, 1 + n1) =~= enc_str(name));
            lemma_dec_str_at(b, 1, name);
        },
    }
}

} // verus!
