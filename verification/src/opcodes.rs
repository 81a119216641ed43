//! The outer `{op, d}` envelope: op codes, error codes, typed messages, and
//! the codec between typed messages and wire text.

use vstd::prelude::*;
use crate::infoops::{info_data_members, info_data_of_members, lookup};
use crate::infoops::{info_data_members_exec, info_data_of_members_exec, info_data_type};
use crate::infoops::{InfoData, InfoDataV, InfoType};
use crate::json::{d_members_view, flat_members_view, top_members_view};
use crate::json::{w_document, wr_document};
use crate::json::{DValV, JsonDVal, JsonNum, JsonScalar, JsonTopVal, ScalarV, TopValV};
use crate::json::{d_members_vals_wf, dval_wf, topval_wf};
use crate::jsonparse::{p_document, sp_document};
use crate::text::{from_chars, str_eq, to_chars};

verus! {

/// Op codes of the outer envelope. The wire value of each variant is given
/// by [`OpCode::number`].
#[allow(non_camel_case_types)]
#[derive(Clone, Copy, PartialEq, Eq, Structural, Debug)]
pub enum OpCode {
    /// Sent by the server when a connection is established.
    HELLO,
    /// Sent by the client to identify itself.
    IDENTIFY,
    /// Recognized but not implemented in this revision.
    RESUME,
    /// Sent by the server after a successful IDENTIFY.
    READY,
    /// Sent by the client as a keepalive / health monitoring method.
    HEARTBEAT,
    /// Sent by the server in reply to a HEARTBEAT message.
    HEARTBEAT_ACK,
    /// Sent by either side to carry the nested INFO sub-protocol.
    INFO,
}

impl OpCode {
    /// The numeric wire value of this op code.
    pub open spec fn spec_number(self) -> u64 {
        match self {
            OpCode::HELLO => 0,
            OpCode::IDENTIFY => 1,
            OpCode::RESUME => 2,
            OpCode::READY => 3,
            OpCode::HEARTBEAT => 4,
            OpCode::HEARTBEAT_ACK => 5,
            OpCode::INFO => 6,
        }
    }

    /// The op code denoted by a numeric wire value, if any.
    pub open spec fn spec_from_number(n: u64) -> Option<OpCode> {
        if n == 0 {
            Some(OpCode::HELLO)
        } else if n == 1 {
            Some(OpCode::IDENTIFY)
        } else if n == 2 {
            Some(OpCode::RESUME)
        } else if n == 3 {
            Some(OpCode::READY)
        } else if n == 4 {
            Some(OpCode::HEARTBEAT)
        } else if n == 5 {
            Some(OpCode::HEARTBEAT_ACK)
        } else if n == 6 {
            Some(OpCode::INFO)
        } else {
            None
        }
    }

    /// The numeric wire value of this op code.
    #[verifier::when_used_as_spec(spec_number)]
    pub fn number(self) -> (n: u64)
        ensures
            n == self.spec_number(),
    {
        match self {
            OpCode::HELLO => 0,
            OpCode::IDENTIFY => 1,
            OpCode::RESUME => 2,
            OpCode::READY => 3,
            OpCode::HEARTBEAT => 4,
            OpCode::HEARTBEAT_ACK => 5,
            OpCode::INFO => 6,
        }
    }

    /// The op code denoted by a numeric wire value, if any.
    pub fn from_number(n: u64) -> (r: Option<OpCode>)
        ensures
            r == OpCode::spec_from_number(n),
    {
        if n == 0 {
            Some(OpCode::HELLO)
        } else if n == 1 {
            Some(OpCode::IDENTIFY)
        } else if n == 2 {
            Some(OpCode::RESUME)
        } else if n == 3 {
            Some(OpCode::READY)
        } else if n == 4 {
            Some(OpCode::HEARTBEAT)
        } else if n == 5 {
            Some(OpCode::HEARTBEAT_ACK)
        } else if n == 6 {
            Some(OpCode::INFO)
        } else {
            None
        }
    }

    /// Numbering and naming are mutually inverse over the seven op codes.
    pub proof fn lemma_number_round_trip(self)
        ensures
            OpCode::spec_from_number(self.spec_number()) == Some(self),
            self.spec_number() <= 6,
    {
    }
}

/// Numeric error codes signalled to the peer when an operation fails.
#[allow(non_camel_case_types)]
#[derive(Clone, Copy, PartialEq, Eq, Structural, Debug)]
pub enum ErrorCode {
    /// General error: resource conflict or unexpected failure.
    GENERAL,
    /// Authentication failure or an operation attempted before IDENTIFY.
    AUTH,
    /// The given message failed to decode.
    DECODE,
}

impl ErrorCode {
    /// The numeric wire value of this error code.
    pub open spec fn spec_number(self) -> u64 {
        match self {
            ErrorCode::GENERAL => 4000,
            ErrorCode::AUTH => 4001,
            ErrorCode::DECODE => 4002,
        }
    }

    /// The numeric wire value of this error code.
    #[verifier::when_used_as_spec(spec_number)]
    pub fn number(self) -> (n: u64)
        ensures
            n == self.spec_number(),
    {
        match self {
            ErrorCode::GENERAL => 4000,
            ErrorCode::AUTH => 4001,
            ErrorCode::DECODE => 4002,
        }
    }
}

/// Sent by the client to identify itself.
#[allow(non_camel_case_types)]
#[derive(Debug, Clone, PartialEq, Eq)]
pub struct IDENTIFY {
    /// Hex HMAC-SHA256 of the HELLO nonce under the shared secret.
    pub token: String,
}

/// The mathematical value of an [`IDENTIFY`].
pub struct IdentifyV {
    /// Hex HMAC-SHA256 of the HELLO nonce under the shared secret.
    pub token: Seq<char>,
}

impl View for IDENTIFY {
    type V = IdentifyV;

    open spec fn view(&self) -> IdentifyV {
        IdentifyV { token: self.token@ }
    }
}

/// Sent by either client or server to carry the INFO sub-protocol.
#[allow(non_camel_case_types)]
#[derive(Debug, PartialEq, Eq)]
pub struct INFO {
    /// Info type.
    pub _type: InfoType,
    /// Info data; its variant is determined by `_type` on the wire.
    pub data: InfoData,
}

/// The mathematical value of an [`INFO`].
pub struct InfoV {
    /// Info type.
    pub _type: InfoType,
    /// Info data.
    pub data: InfoDataV,
}

impl View for INFO {
    type V = InfoV;

    open spec fn view(&self) -> InfoV {
        InfoV { _type: self._type, data: self.data@ }
    }
}

/// Message data; its shape is defined by the envelope's op code. Health
/// values are measured in thousandths of the 0..1 scale.
#[allow(non_camel_case_types)]
#[derive(Debug, PartialEq, Eq)]
pub enum MessageData {
    /// Sent by the server when a connection is established.
    HELLO {
        /// Milliseconds between heartbeats.
        heartbeat_interval: u64,
        /// Random 10-character string used in authentication.
        nonce: String,
    },
    /// Sent by the client to identify itself.
    IDENTIFY(IDENTIFY),
    /// Recognized but not implemented; its payload is unspecified and
    /// ignored.
    RESUME {},
    /// Sent by the server after a successful IDENTIFY.
    READY {
        /// Health of the server, in thousandths (0 worst, 1000 best).
        health: u16,
    },
    /// Sent by the client as a keepalive.
    HEARTBEAT {},
    /// Sent by the server in reply to a HEARTBEAT.
    HEARTBEAT_ACK {
        /// Health of the server, in thousandths (0 worst, 1000 best).
        health: u16,
    },
    /// The INFO sub-protocol envelope.
    INFO(INFO),
}

/// The mathematical value of a [`MessageData`].
#[allow(non_camel_case_types)]
pub enum MessageDataV {
    /// Connection established.
    HELLO {
        /// Milliseconds between heartbeats.
        heartbeat_interval: u64,
        /// Random 10-character string used in authentication.
        nonce: Seq<char>,
    },
    /// Client identification.
    IDENTIFY(IdentifyV),
    /// Recognized but not implemented.
    RESUME,
    /// Successful identification.
    READY {
        /// Health of the server, in thousandths.
        health: u16,
    },
    /// Keepalive.
    HEARTBEAT,
    /// Keepalive reply.
    HEARTBEAT_ACK {
        /// Health of the server, in thousandths.
        health: u16,
    },
    /// The INFO sub-protocol envelope.
    INFO(InfoV),
}

impl View for MessageData {
    type V = MessageDataV;

    open spec fn view(&self) -> MessageDataV {
        match self {
            MessageData::HELLO { heartbeat_interval, nonce } => MessageDataV::HELLO {
                heartbeat_interval: *heartbeat_interval,
                nonce: nonce@,
            },
            MessageData::IDENTIFY(i) => MessageDataV::IDENTIFY(i@),
            MessageData::RESUME {  } => MessageDataV::RESUME,
            MessageData::READY { health } => MessageDataV::READY { health: *health },
            MessageData::HEARTBEAT {  } => MessageDataV::HEARTBEAT,
            MessageData::HEARTBEAT_ACK { health } => MessageDataV::HEARTBEAT_ACK {
                health: *health,
            },
            MessageData::INFO(i) => MessageDataV::INFO(i@),
        }
    }
}

/// A whole envelope message: the op code and the payload.
#[derive(Debug, PartialEq, Eq)]
pub struct SocketMessage {
    /// Operator code.
    pub op: OpCode,
    /// Message data.
    pub d: MessageData,
}

/// The mathematical value of a [`SocketMessage`].
pub struct SocketMessageV {
    /// Operator code.
    pub op: OpCode,
    /// Message data.
    pub d: MessageDataV,
}

impl View for SocketMessage {
    type V = SocketMessageV;

    open spec fn view(&self) -> SocketMessageV {
        SocketMessageV { op: self.op, d: self.d@ }
    }
}

/// The op code a payload variant belongs to.
pub open spec fn data_op(d: MessageDataV) -> OpCode {
    match d {
        MessageDataV::HELLO { .. } => OpCode::HELLO,
        MessageDataV::IDENTIFY(_) => OpCode::IDENTIFY,
        MessageDataV::RESUME => OpCode::RESUME,
        MessageDataV::READY { .. } => OpCode::READY,
        MessageDataV::HEARTBEAT => OpCode::HEARTBEAT,
        MessageDataV::HEARTBEAT_ACK { .. } => OpCode::HEARTBEAT_ACK,
        MessageDataV::INFO(_) => OpCode::INFO,
    }
}

/// Whether a payload is internally well formed: health within the 0..1
/// scale, and an INFO type that matches its data variant.
pub open spec fn message_data_wf(d: MessageDataV) -> bool {
    match d {
        MessageDataV::READY { health } => health <= 1000,
        MessageDataV::HEARTBEAT_ACK { health } => health <= 1000,
        MessageDataV::INFO(iv) => iv._type == info_data_type(iv.data),
        _ => true,
    }
}

/// Whether a whole message is well formed: the op code matches the payload
/// variant, and the payload is well formed.
pub open spec fn message_wf(m: SocketMessageV) -> bool {
    m.op == data_op(m.d) && message_data_wf(m.d)
}

/// The number a health value serializes to.
pub open spec fn health_num(h: u16) -> JsonNum {
    JsonNum { whole: (h / 1000) as u64, milli: (h % 1000) as u16 }
}

/// The health value a number denotes, when it lies within the 0..1 scale.
pub open spec fn health_of_num(n: JsonNum) -> Option<u16> {
    if n.whole * 1000 + n.milli <= 1000 {
        Some((n.whole * 1000 + n.milli) as u16)
    } else {
        None
    }
}

/// The wire members of a `d` payload, in canonical order.
pub open spec fn data_d_members(d: MessageDataV) -> Seq<(Seq<char>, DValV)> {
    match d {
        MessageDataV::HELLO { heartbeat_interval, nonce } => seq![
            (
                "heartbeat_interval"@,
                DValV::Scalar(ScalarV::Num(JsonNum { whole: heartbeat_interval, milli: 0 })),
            ),
            ("nonce"@, DValV::Scalar(ScalarV::Str(nonce))),
        ],
        MessageDataV::IDENTIFY(i) => seq![("token"@, DValV::Scalar(ScalarV::Str(i.token)))],
        MessageDataV::RESUME => Seq::empty(),
        MessageDataV::READY { health } => seq![
            ("health"@, DValV::Scalar(ScalarV::Num(health_num(health)))),
        ],
        MessageDataV::HEARTBEAT => Seq::empty(),
        MessageDataV::HEARTBEAT_ACK { health } => seq![
            ("health"@, DValV::Scalar(ScalarV::Num(health_num(health)))),
        ],
        MessageDataV::INFO(iv) => seq![
            (
                "type"@,
                DValV::Scalar(ScalarV::Num(JsonNum { whole: iv._type.spec_number(), milli: 0 })),
            ),
            ("data"@, DValV::Obj(info_data_members(iv.data))),
        ],
    }
}

/// The wire members of a whole message: the op number and the payload.
pub open spec fn message_top_members(m: SocketMessageV) -> Seq<(Seq<char>, TopValV)> {
    seq![
        ("op"@, TopValV::Scalar(ScalarV::Num(JsonNum { whole: m.op.spec_number(), milli: 0 }))),
        ("d"@, TopValV::Obj(data_d_members(m.d))),
    ]
}

/// The canonical wire text of a message.
pub open spec fn sp_encode_message(m: SocketMessageV) -> Seq<char> {
    wr_document(message_top_members(m))
}

/// The string bound to a key in a payload object, if it is one.
pub open spec fn d_req_str(dm: Seq<(Seq<char>, DValV)>, k: Seq<char>) -> Option<Seq<char>> {
    match lookup(dm, k) {
        Some(DValV::Scalar(ScalarV::Str(s))) => Some(s),
        _ => None,
    }
}

/// The number bound to a key in a payload object, if it is one.
pub open spec fn d_req_num(dm: Seq<(Seq<char>, DValV)>, k: Seq<char>) -> Option<JsonNum> {
    match lookup(dm, k) {
        Some(DValV::Scalar(ScalarV::Num(n))) => Some(n),
        _ => None,
    }
}

/// The INFO envelope denoted by a `d` payload: exactly a `type` number
/// naming an INFO type, and a `data` object of that type's shape.
pub open spec fn info_of_d_members(dm: Seq<(Seq<char>, DValV)>) -> Option<InfoV> {
    if dm.len() == 2 {
        match (lookup(dm, "type"@), lookup(dm, "data"@)) {
            (
                Some(DValV::Scalar(ScalarV::Num(n))),
                Some(DValV::Obj(fm)),
            ) => if n.milli == 0 {
                match InfoType::spec_from_number(n.whole) {
                    Some(t) => match info_data_of_members(t, fm) {
                        Some(d) => Some(InfoV { _type: t, data: d }),
                        None => None,
                    },
                    None => None,
                }
            } else {
                None
            },
            _ => None,
        }
    } else {
        None
    }
}

/// The payload denoted by a `d` object under a given op code: exactly the
/// shape that op requires. RESUME's payload is unspecified and ignored.
pub open spec fn data_of_d_members(op: OpCode, dm: Seq<(Seq<char>, DValV)>) -> Option<
    MessageDataV,
> {
    match op {
        OpCode::HELLO => {
            match (d_req_num(dm, "heartbeat_interval"@), d_req_str(dm, "nonce"@)) {
                (Some(n), Some(nc)) => if dm.len() == 2 && n.milli == 0 {
                    Some(MessageDataV::HELLO { heartbeat_interval: n.whole, nonce: nc })
                } else {
                    None
                },
                _ => None,
            }
        },
        OpCode::IDENTIFY => {
            match d_req_str(dm, "token"@) {
                Some(t) => if dm.len() == 1 {
                    Some(MessageDataV::IDENTIFY(IdentifyV { token: t }))
                } else {
                    None
                },
                _ => None,
            }
        },
        OpCode::RESUME => Some(MessageDataV::RESUME),
        OpCode::READY => {
            match d_req_num(dm, "health"@) {
                Some(n) => if dm.len() == 1 {
                    match health_of_num(n) {
                        Some(h) => Some(MessageDataV::READY { health: h }),
                        None => None,
                    }
                } else {
                    None
                },
                _ => None,
            }
        },
        OpCode::HEARTBEAT => {
            if dm.len() == 0 {
                Some(MessageDataV::HEARTBEAT)
            } else {
                None
            }
        },
        OpCode::HEARTBEAT_ACK => {
            match d_req_num(dm, "health"@) {
                Some(n) => if dm.len() == 1 {
                    match health_of_num(n) {
                        Some(h) => Some(MessageDataV::HEARTBEAT_ACK { health: h }),
                        None => None,
                    }
                } else {
                    None
                },
                _ => None,
            }
        },
        OpCode::INFO => {
            match info_of_d_members(dm) {
                Some(iv) => Some(MessageDataV::INFO(iv)),
                None => None,
            }
        },
    }
}

/// The message denoted by a parsed envelope object: exactly an `op` number
/// naming an op code, and a `d` object of that op's shape.
pub open spec fn message_of_top_members(tm: Seq<(Seq<char>, TopValV)>) -> Option<
    (OpCode, MessageDataV),
> {
    if tm.len() == 2 {
        match (lookup(tm, "op"@), lookup(tm, "d"@)) {
            (
                Some(TopValV::Scalar(ScalarV::Num(n))),
                Some(TopValV::Obj(dm)),
            ) => if n.milli == 0 {
                match OpCode::spec_from_number(n.whole) {
                    Some(op) => match data_of_d_members(op, dm) {
                        Some(d) => Some((op, d)),
                        None => None,
                    },
                    None => None,
                }
            } else {
                None
            },
            _ => None,
        }
    } else {
        None
    }
}

/// What decoding a text frame yields: the typed message, or nothing for
/// any of invalid JSON, an unknown op, or a payload that does not match
/// its op.
pub open spec fn sp_decode_message(s: Seq<char>) -> Option<(OpCode, MessageDataV)> {
    match sp_document(s) {
        None => None,
        Some(tm) => message_of_top_members(tm),
    }
}

/// Looks a key up in a parsed payload object.
fn lookup_d<'a>(v: &'a Vec<(String, JsonDVal)>, k: &str) -> (r: Option<&'a JsonDVal>)
    ensures
        match r {
            Some(x) => lookup(d_members_view(v@), k@) == Some(x@),
            None => lookup(d_members_view(v@), k@) is None,
        },
{
    let ghost full = d_members_view(v@);
    proof {
        assert(full.skip(0) =~= full);
    }
    let mut i: usize = 0;
    while i < v.len()
        invariant
            i <= v@.len(),
            full == d_members_view(v@),
            lookup(full, k@) == lookup(full.skip(i as int), k@),
        decreases v@.len() - i,
    {
        proof {
            assert(full.skip(i as int)[0] == (v@[i as int].0@, v@[i as int].1@));
        }
        if str_eq(v[i].0.as_str(), k) {
            return Some(&v[i].1);
        }
        proof {
            assert(full.skip(i as int).drop_first() =~= full.skip(i + 1));
        }
        i = i + 1;
    }
    proof {
        assert(full.skip(i as int).len() == 0);
    }
    None
}

/// Looks a key up in a parsed envelope object.
fn lookup_top<'a>(v: &'a Vec<(String, JsonTopVal)>, k: &str) -> (r: Option<&'a JsonTopVal>)
    ensures
        match r {
            Some(x) => lookup(top_members_view(v@), k@) == Some(x@),
            None => lookup(top_members_view(v@), k@) is None,
        },
{
    let ghost full = top_members_view(v@);
    proof {
        assert(full.skip(0) =~= full);
    }
    let mut i: usize = 0;
    while i < v.len()
        invariant
            i <= v@.len(),
            full == top_members_view(v@),
            lookup(full, k@) == lookup(full.skip(i as int), k@),
        decreases v@.len() - i,
    {
        proof {
            assert(full.skip(i as int)[0] == (v@[i as int].0@, v@[i as int].1@));
        }
        if str_eq(v[i].0.as_str(), k) {
            return Some(&v[i].1);
        }
        proof {
            assert(full.skip(i as int).drop_first() =~= full.skip(i + 1));
        }
        i = i + 1;
    }
    proof {
        assert(full.skip(i as int).len() == 0);
    }
    None
}

/// Reads a required string field out of a parsed payload object.
fn d_req_str_exec(v: &Vec<(String, JsonDVal)>, k: &str) -> (r: Option<String>)
    ensures
        match r {
            Some(s) => d_req_str(d_members_view(v@), k@) == Some(s@),
            None => d_req_str(d_members_view(v@), k@) is None,
        },
{
    match lookup_d(v, k) {
        Some(JsonDVal::Scalar(JsonScalar::Str(s))) => Some(s.clone()),
        _ => None,
    }
}

/// Reads a required number field out of a parsed payload object.
fn d_req_num_exec(v: &Vec<(String, JsonDVal)>, k: &str) -> (r: Option<JsonNum>)
    ensures
        match r {
            Some(n) => d_req_num(d_members_view(v@), k@) == Some(n),
            None => d_req_num(d_members_view(v@), k@) is None,
        },
{
    match lookup_d(v, k) {
        Some(JsonDVal::Scalar(JsonScalar::Num(n))) => Some(*n),
        _ => None,
    }
}

/// The health value a parsed number denotes, when within the 0..1 scale.
fn health_of_num_exec(n: JsonNum) -> (r: Option<u16>)
    ensures
        r == health_of_num(n),
{
    if n.whole > 1 {
        return None;
    }
    let total: u64 = n.whole * 1000 + n.milli as u64;
    if total <= 1000 {
        Some(total as u16)
    } else {
        None
    }
}

/// Builds the payload denoted by a parsed `d` object under a given op.
fn data_of_d_members_exec(op: OpCode, v: &Vec<(String, JsonDVal)>) -> (r: Option<MessageData>)
    ensures
        match r {
            Some(d) => data_of_d_members(op, d_members_view(v@)) == Some(d@),
            None => data_of_d_members(op, d_members_view(v@)) is None,
        },
{
    proof {
        assert(d_members_view(v@).len() == v@.len());
    }
    match op {
        OpCode::HELLO => {
            match (d_req_num_exec(v, "heartbeat_interval"), d_req_str_exec(v, "nonce")) {
                (Some(n), Some(nc)) => {
                    if v.len() == 2 && n.milli == 0 {
                        Some(MessageData::HELLO { heartbeat_interval: n.whole, nonce: nc })
                    } else {
                        None
                    }
                },
                _ => None,
            }
        },
        OpCode::IDENTIFY => {
            match d_req_str_exec(v, "token") {
                Some(t) => {
                    if v.len() == 1 {
                        Some(MessageData::IDENTIFY(IDENTIFY { token: t }))
                    } else {
                        None
                    }
                },
                _ => None,
            }
        },
        OpCode::RESUME => Some(MessageData::RESUME {  }),
        OpCode::READY => {
            match d_req_num_exec(v, "health") {
                Some(n) => {
                    if v.len() == 1 {
                        match health_of_num_exec(n) {
                            Some(h) => Some(MessageData::READY { health: h }),
                            None => None,
                        }
                    } else {
                        None
                    }
                },
                _ => None,
            }
        },
        OpCode::HEARTBEAT => {
            if v.len() == 0 {
                Some(MessageData::HEARTBEAT {  })
            } else {
                None
            }
        },
        OpCode::HEARTBEAT_ACK => {
            match d_req_num_exec(v, "health") {
                Some(n) => {
                    if v.len() == 1 {
                        match health_of_num_exec(n) {
                            Some(h) => Some(MessageData::HEARTBEAT_ACK { health: h }),
                            None => None,
                        }
                    } else {
                        None
                    }
                },
                _ => None,
            }
        },
        OpCode::INFO => {
            if v.len() != 2 {
                return None;
            }
            let tv = lookup_d(v, "type");
            let dv = lookup_d(v, "data");
            match (tv, dv) {
                (
                    Some(JsonDVal::Scalar(JsonScalar::Num(n))),
                    Some(JsonDVal::Obj(fm)),
                ) => {
                    if n.milli != 0 {
                        return None;
                    }
                    match InfoType::from_number(n.whole) {
                        Some(t) => {
                            match info_data_of_members_exec(t, fm) {
                                Some(d) => Some(
                                    MessageData::INFO(INFO { _type: t, data: d }),
                                ),
                                None => None,
                            }
                        },
                        None => None,
                    }
                },
                _ => None,
            }
        },
    }
}

/// Decodes one wire text frame into its op code and typed payload.
///
/// Returns `Err` exactly when the frame is not a message of the protocol:
/// invalid JSON, an unknown `op` value, or a `d` payload whose shape does
/// not match the op.
pub fn get_opcode(msg: &str) -> (r: Result<(OpCode, MessageData), ()>)
    ensures
        match r {
            Ok((op, d)) => sp_decode_message(msg@) == Some((op, d@)),
            Err(_) => sp_decode_message(msg@) is None,
        },
{
    let chars = to_chars(msg);
    match p_document(chars.as_slice()) {
        None => Err(()),
        Some(tm) => {
            if tm.len() != 2 {
                proof {
                    assert(top_members_view(tm@).len() == tm@.len());
                }
                return Err(());
            }
            proof {
                assert(top_members_view(tm@).len() == tm@.len());
            }
            let ov = lookup_top(&tm, "op");
            let dv = lookup_top(&tm, "d");
            match (ov, dv) {
                (
                    Some(JsonTopVal::Scalar(JsonScalar::Num(n))),
                    Some(JsonTopVal::Obj(dm)),
                ) => {
                    if n.milli != 0 {
                        return Err(());
                    }
                    match OpCode::from_number(n.whole) {
                        Some(op) => {
                            match data_of_d_members_exec(op, dm) {
                                Some(d) => Ok((op, d)),
                                None => Err(()),
                            }
                        },
                        None => Err(()),
                    }
                },
                _ => Err(()),
            }
        },
    }
}

/// Builds the wire members of a `d` payload.
fn data_d_members_exec(d: &MessageData) -> (r: Vec<(String, JsonDVal)>)
    ensures
        d_members_view(r@) == data_d_members(d@),
{
    let mut out: Vec<(String, JsonDVal)> = Vec::new();
    match d {
        MessageData::HELLO { heartbeat_interval, nonce } => {
            out.push(
                (
                    String::from_str("heartbeat_interval"),
                    JsonDVal::Scalar(
                        JsonScalar::Num(JsonNum { whole: *heartbeat_interval, milli: 0 }),
                    ),
                ),
            );
            out.push((String::from_str("nonce"), JsonDVal::Scalar(JsonScalar::Str(nonce.clone()))));
        },
        MessageData::IDENTIFY(i) => {
            out.push(
                (String::from_str("token"), JsonDVal::Scalar(JsonScalar::Str(i.token.clone()))),
            );
        },
        MessageData::RESUME {  } => {},
        MessageData::READY { health } => {
            out.push(
                (
                    String::from_str("health"),
                    JsonDVal::Scalar(
                        JsonScalar::Num(
                            JsonNum { whole: (health / 1000) as u64, milli: health % 1000 },
                        ),
                    ),
                ),
            );
        },
        MessageData::HEARTBEAT {  } => {},
        MessageData::HEARTBEAT_ACK { health } => {
            out.push(
                (
                    String::from_str("health"),
                    JsonDVal::Scalar(
                        JsonScalar::Num(
                            JsonNum { whole: (health / 1000) as u64, milli: health % 1000 },
                        ),
                    ),
                ),
            );
        },
        MessageData::INFO(i) => {
            out.push(
                (
                    String::from_str("type"),
                    JsonDVal::Scalar(
                        JsonScalar::Num(JsonNum { whole: i._type.number(), milli: 0 }),
                    ),
                ),
            );
            out.push((String::from_str("data"), JsonDVal::Obj(info_data_members_exec(&i.data))));
        },
    }
    proof {
        assert(d_members_view(out@) =~= data_d_members(d@));
    }
    out
}

/// Every payload the library writes is well formed for the serializer.
pub proof fn lemma_data_d_members_wf(d: MessageDataV)
    ensures
        d_members_vals_wf(data_d_members(d)),
{
    let ms = data_d_members(d);
    assert forall|i: int| 0 <= i < ms.len() implies dval_wf(#[trigger] ms[i].1) by {
        match d {
            MessageDataV::INFO(iv) => {
                let fm = info_data_members(iv.data);
                if i == 1 {
                    assert(forall|j: int|
                        0 <= j < fm.len() ==> crate::json::scalar_wf(#[trigger] fm[j].1));
                }
            },
            _ => {},
        }
    }
}

/// Encodes a typed message as its canonical wire text.
///
/// Encoding writes every field its variant carries, an absent guild as
/// `null`, and numbers in decimal with at most three fractional digits.
pub fn encode_message(m: &SocketMessage) -> (r: String)
    ensures
        r@ == sp_encode_message(m@),
{
    let mut tm: Vec<(String, JsonTopVal)> = Vec::new();
    tm.push(
        (
            String::from_str("op"),
            JsonTopVal::Scalar(JsonScalar::Num(JsonNum { whole: m.op.number(), milli: 0 })),
        ),
    );
    tm.push((String::from_str("d"), JsonTopVal::Obj(data_d_members_exec(&m.d))));
    proof {
        assert(top_members_view(tm@) =~= message_top_members(m@));
        lemma_data_d_members_wf(m.d@);
        assert forall|i: int|
            0 <= i < message_top_members(m@).len() implies topval_wf(
            #[trigger] message_top_members(m@)[i].1,
        ) by {
            if i == 1 {
                assert(d_members_vals_wf(data_d_members(m.d@)));
            }
        }
    }
    let mut out: Vec<char> = Vec::new();
    w_document(&tm, &mut out);
    from_chars(&out)
}

} // verus!
