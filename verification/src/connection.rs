//! The per-connection state machine: HELLO on accept, the authentication
//! gate, heartbeating, and the INFO sub-protocol against the session store.

use vstd::prelude::*;
use crate::infoops::{lookup, InfoData, InfoDataV, InfoType, CHANNEL_REQ, VST_CREATE};
use crate::opcodes::{get_opcode, sp_decode_message, ErrorCode, OpCode};
use crate::opcodes::{InfoV, MessageData, MessageDataV, SocketMessage, SocketMessageV, INFO};
use crate::store::{set_contains, stored_value, SessionStore, StoreV};
use crate::text::all_alnum;
use crate::util::verify_token_spec;
use crate::util::verify_token;

verus! {

/// The immutable process configuration shared read-only by every
/// connection: the shared secret, the advertised heartbeat interval in
/// milliseconds, and the advertised health in thousandths of the 0..1
/// scale.
pub struct Config {
    /// The shared secret that IDENTIFY tokens must prove knowledge of.
    pub secret: String,
    /// Milliseconds between heartbeats, advertised in HELLO.
    pub heartbeat_interval: u64,
    /// Health advertised in READY and HEARTBEAT_ACK, in thousandths.
    pub health: u16,
}

/// The mathematical value of a [`Config`].
pub struct ConfigV {
    /// The shared secret.
    pub secret: Seq<char>,
    /// Milliseconds between heartbeats.
    pub heartbeat_interval: u64,
    /// Health in thousandths.
    pub health: u16,
}

impl View for Config {
    type V = ConfigV;

    open spec fn view(&self) -> ConfigV {
        ConfigV {
            secret: self.secret@,
            heartbeat_interval: self.heartbeat_interval,
            health: self.health,
        }
    }
}

/// Whether a configuration is well formed: health within the 0..1 scale.
pub open spec fn config_wf(c: ConfigV) -> bool {
    c.health <= 1000
}

/// A connection's lifecycle state.
#[derive(Clone, Copy, PartialEq, Eq, Structural, Debug)]
pub enum ConnState {
    /// Initial: HELLO has been sent, no successful IDENTIFY yet. Every
    /// inbound opcode other than IDENTIFY is rejected with an AUTH signal.
    AwaitingIdentify,
    /// A successful IDENTIFY has been seen; never left but for closing.
    Identified,
    /// Terminal: the socket closed or the transport failed.
    Closed,
}

/// The engine's error taxonomy; each failure of an operation selects one
/// signal, reported to the peer without closing the connection. The code
/// on the wire is given by [`ProtoError::code`].
#[derive(Clone, Copy, PartialEq, Eq, Structural, Debug)]
pub enum ProtoError {
    /// A malformed frame, an unknown opcode, or a payload/type mismatch.
    Decode,
    /// A gating violation, a missing nonce, or an invalid proof.
    Auth,
    /// A duplicate allocation element in the session store.
    Conflict,
    /// A recognized but unimplemented operation (RESUME, CHANNEL_DESTROY,
    /// VST_UPDATE, VST_DESTROY), reported as a general failure.
    Unimplemented,
}

impl ProtoError {
    /// The wire error code this signal is reported as.
    pub open spec fn spec_code(self) -> ErrorCode {
        match self {
            ProtoError::Decode => ErrorCode::DECODE,
            ProtoError::Auth => ErrorCode::AUTH,
            ProtoError::Conflict => ErrorCode::GENERAL,
            ProtoError::Unimplemented => ErrorCode::GENERAL,
        }
    }

    /// The wire error code this signal is reported as.
    #[verifier::when_used_as_spec(spec_code)]
    pub fn code(self) -> (c: ErrorCode)
        ensures
            c == self.spec_code(),
    {
        match self {
            ProtoError::Decode => ErrorCode::DECODE,
            ProtoError::Auth => ErrorCode::AUTH,
            ProtoError::Conflict => ErrorCode::GENERAL,
            ProtoError::Unimplemented => ErrorCode::GENERAL,
        }
    }
}

/// One accepted connection: its peer identifier and lifecycle state.
pub struct Connection {
    /// The peer identifier the connection is keyed by in the store.
    pub peer: String,
    /// The lifecycle state.
    pub state: ConnState,
}

/// The mathematical value of a [`Connection`].
pub struct ConnectionV {
    /// The peer identifier.
    pub peer: Seq<char>,
    /// The lifecycle state.
    pub state: ConnState,
}

impl View for Connection {
    type V = ConnectionV;

    open spec fn view(&self) -> ConnectionV {
        ConnectionV { peer: self.peer@, state: self.state }
    }
}

/// The store key a connection's nonce is kept under.
pub open spec fn nonce_key(peer: Seq<char>) -> Seq<char> {
    peer + "_nonce"@
}

/// The store key of a channel's voice membership set; `dm` stands in for
/// an absent guild.
pub open spec fn channel_key(guild_id: Option<Seq<char>>, channel_id: Seq<char>) -> Seq<char> {
    (match guild_id {
        Option::Some(g) => g,
        Option::None => "dm"@,
    }) + "_"@ + channel_id + "_voice"@
}

/// Builds the nonce key of a peer.
fn nonce_key_exec(peer: &str) -> (k: String)
    ensures
        k@ == nonce_key(peer@),
{
    let k = String::from_str(peer).concat("_nonce");
    proof {
        assert(k@ =~= nonce_key(peer@));
    }
    k
}

/// Builds the voice-set key of a channel.
fn channel_key_exec(guild_id: &Option<String>, channel_id: &str) -> (k: String)
    ensures
        k@ == channel_key(guild_id.deep_view(), channel_id@),
{
    let g = match guild_id {
        Option::Some(g) => g.clone(),
        Option::None => String::from_str("dm"),
    };
    let k = g.concat("_").concat(channel_id).concat("_voice");
    proof {
        assert(k@ =~= channel_key(guild_id.deep_view(), channel_id@));
    }
    k
}

/// Relies on rand's thread_rng with the Alphanumeric distribution: a fresh
/// random string of exactly `len` ASCII alphanumeric characters. Which
/// characters come out is not assumed; two calls may or may not differ.
#[verifier::external_body]
fn random_alphanumeric(len: usize) -> (r: String)
    ensures
        r@.len() == len,
        all_alnum(r@),
{
    let rng = rand::thread_rng();
    rand::Rng::sample_iter(rng, &rand::distributions::Alphanumeric)
        .take(len)
        .map(char::from)
        .collect()
}

/// Clones an optional string.
fn clone_opt(o: &Option<String>) -> (r: Option<String>)
    ensures
        r.deep_view() == o.deep_view(),
{
    match o {
        Option::Some(s) => Some(s.clone()),
        Option::None => None,
    }
}

/// The READY reply: health as configured.
pub open spec fn ready_message(cfg: ConfigV) -> SocketMessageV {
    SocketMessageV { op: OpCode::READY, d: MessageDataV::READY { health: cfg.health } }
}

/// The HEARTBEAT_ACK reply: health as configured.
pub open spec fn ack_message(cfg: ConfigV) -> SocketMessageV {
    SocketMessageV {
        op: OpCode::HEARTBEAT_ACK,
        d: MessageDataV::HEARTBEAT_ACK { health: cfg.health },
    }
}

/// The CHANNEL_ASSIGN reply to a channel request, echoing its IDs with the
/// allocated token.
pub open spec fn channel_assign_message(req: crate::infoops::ChannelReqV, token: Seq<char>) -> SocketMessageV {
    SocketMessageV {
        op: OpCode::INFO,
        d: MessageDataV::INFO(
            InfoV {
                _type: InfoType::CHANNEL_ASSIGN,
                data: InfoDataV::CHANNEL_ASSIGN {
                    channel_id: req.channel_id,
                    guild_id: req.guild_id,
                    token,
                },
            },
        ),
    }
}

/// The VST_DONE reply to a voice-state request, echoing its IDs with the
/// allocated session ID.
pub open spec fn vst_done_message(v: crate::infoops::VstCreateV, session_id: Seq<char>) -> SocketMessageV {
    SocketMessageV {
        op: OpCode::INFO,
        d: MessageDataV::INFO(
            InfoV {
                _type: InfoType::VST_DONE,
                data: InfoDataV::VST_DONE {
                    user_id: v.user_id,
                    channel_id: v.channel_id,
                    guild_id: v.guild_id,
                    session_id,
                },
            },
        ),
    }
}

/// The value of a handler result.
pub open spec fn result_view(r: Result<SocketMessage, ProtoError>) -> Result<
    SocketMessageV,
    ProtoError,
> {
    match r {
        Ok(m) => Ok(m@),
        Err(e) => Err(e),
    }
}

/// What handling a channel request with a given token does: the element
/// `token_<token>` goes into the channel's voice set and CHANNEL_ASSIGN is
/// replied, unless the store already held that element — then a conflict
/// is signalled and nothing changes. The store's reported count is the
/// sole authority for this decision.
pub open spec fn channel_req_post(
    req: crate::infoops::ChannelReqV,
    token: Seq<char>,
    st0: StoreV,
    st1: StoreV,
    r: Result<SocketMessageV, ProtoError>,
) -> bool {
    let key = channel_key(req.guild_id, req.channel_id);
    let elem = "token_"@ + token;
    if set_contains(st0, key, elem) {
        r == Err::<SocketMessageV, ProtoError>(ProtoError::Conflict) && st1 == st0
    } else {
        &&& r == Ok::<SocketMessageV, ProtoError>(channel_assign_message(req, token))
        &&& forall|x: Seq<char>|
            set_contains(st1, key, x) <==> (x == elem || set_contains(st0, key, x))
        &&& forall|k: Seq<char>| k != key ==> lookup(st1.sets, k) == lookup(st0.sets, k)
        &&& st1.kv == st0.kv
    }
}

/// What handling a voice-state request with a given session ID does: the
/// session ID goes into the channel's voice set and VST_DONE is replied,
/// unless the store already held it — then a conflict is signalled and
/// nothing changes.
pub open spec fn vst_create_post(
    v: crate::infoops::VstCreateV,
    session_id: Seq<char>,
    st0: StoreV,
    st1: StoreV,
    r: Result<SocketMessageV, ProtoError>,
) -> bool {
    let key = channel_key(v.guild_id, v.channel_id);
    if set_contains(st0, key, session_id) {
        r == Err::<SocketMessageV, ProtoError>(ProtoError::Conflict) && st1 == st0
    } else {
        &&& r == Ok::<SocketMessageV, ProtoError>(vst_done_message(v, session_id))
        &&& forall|x: Seq<char>|
            set_contains(st1, key, x) <==> (x == session_id || set_contains(st0, key, x))
        &&& forall|k: Seq<char>| k != key ==> lookup(st1.sets, k) == lookup(st0.sets, k)
        &&& st1.kv == st0.kv
    }
}

/// Handles a CHANNEL_REQ with a caller-supplied allocation token.
///
/// The engine calls this with a fresh 64-character random token; taking
/// the token as an argument pins the outcome for every token value, the
/// store's reported insertion count deciding between CHANNEL_ASSIGN and a
/// conflict.
pub fn channel_req_with_token(req: &CHANNEL_REQ, token: String, store: &mut SessionStore) -> (r:
    Result<SocketMessage, ProtoError>)
    ensures
        channel_req_post(req@, token@, old(store)@, final (store)@, result_view(r)),
{
    let key = channel_key_exec(&req.guild_id, req.channel_id.as_str());
    let elem = String::from_str("token_").concat(token.as_str());
    proof {
        assert(elem@ =~= "token_"@ + token@);
    }
    let added = store.add_to_set(key.as_str(), elem.as_str());
    if added == 1 {
        Ok(
            SocketMessage {
                op: OpCode::INFO,
                d: MessageData::INFO(
                    INFO {
                        _type: InfoType::CHANNEL_ASSIGN,
                        data: InfoData::CHANNEL_ASSIGN {
                            channel_id: req.channel_id.clone(),
                            guild_id: clone_opt(&req.guild_id),
                            token,
                        },
                    },
                ),
            },
        )
    } else {
        Err(ProtoError::Conflict)
    }
}

/// Handles a VST_CREATE with a caller-supplied session ID.
///
/// The engine calls this with a fresh 32-character random session ID; the
/// store's reported insertion count decides between VST_DONE and a
/// conflict.
pub fn vst_create_with_session(v: &VST_CREATE, session_id: String, store: &mut SessionStore) -> (r:
    Result<SocketMessage, ProtoError>)
    ensures
        vst_create_post(v@, session_id@, old(store)@, final (store)@, result_view(r)),
{
    let key = channel_key_exec(&v.guild_id, v.channel_id.as_str());
    let added = store.add_to_set(key.as_str(), session_id.as_str());
    if added == 1 {
        Ok(
            SocketMessage {
                op: OpCode::INFO,
                d: MessageData::INFO(
                    INFO {
                        _type: InfoType::VST_DONE,
                        data: InfoData::VST_DONE {
                            user_id: v.user_id.clone(),
                            channel_id: v.channel_id.clone(),
                            guild_id: clone_opt(&v.guild_id),
                            session_id,
                        },
                    },
                ),
            },
        )
    } else {
        Err(ProtoError::Conflict)
    }
}

/// What handling one inbound text frame does, for every outcome of the
/// random allocations inside: decode failures are signalled as DECODE; the
/// gate rejects everything but IDENTIFY before identification with AUTH
/// and no state change; IDENTIFY is checked against the stored nonce;
/// HEARTBEAT is acknowledged; RESUME and the destruction / update INFO
/// types are recognized but unimplemented; channel and voice-state
/// requests allocate against the store.
pub open spec fn frame_post(
    c0: ConnectionV,
    c1: ConnectionV,
    cfg: ConfigV,
    st0: StoreV,
    st1: StoreV,
    text: Seq<char>,
    r: Result<SocketMessageV, ProtoError>,
) -> bool {
    c1.peer == c0.peer && match sp_decode_message(text) {
        None => r == Err::<SocketMessageV, ProtoError>(ProtoError::Decode) && c1 == c0 && st1
            == st0,
        Some((op, d)) => {
            if c0.state == ConnState::AwaitingIdentify && op != OpCode::IDENTIFY {
                r == Err::<SocketMessageV, ProtoError>(ProtoError::Auth) && c1 == c0 && st1 == st0
            } else {
                match d {
                    MessageDataV::IDENTIFY(iv) => {
                        let ok = verify_token_spec(
                            cfg.secret,
                            stored_value(st0, nonce_key(c0.peer)),
                            iv.token,
                        );
                        st1 == st0 && (if ok {
                            c1.state == ConnState::Identified && r == Ok::<
                                SocketMessageV,
                                ProtoError,
                            >(ready_message(cfg))
                        } else {
                            c1 == c0 && r == Err::<SocketMessageV, ProtoError>(ProtoError::Auth)
                        })
                    },
                    MessageDataV::HEARTBEAT => r == Ok::<SocketMessageV, ProtoError>(
                        ack_message(cfg),
                    ) && c1 == c0 && st1 == st0,
                    MessageDataV::RESUME => r == Err::<SocketMessageV, ProtoError>(
                        ProtoError::Unimplemented,
                    ) && c1 == c0 && st1 == st0,
                    MessageDataV::INFO(iv) => match iv.data {
                        InfoDataV::CHANNEL_REQ(req) => c1 == c0 && exists|t: Seq<char>|
                            t.len() == 64 && all_alnum(t) && #[trigger] channel_req_post(
                                req,
                                t,
                                st0,
                                st1,
                                r,
                            ),
                        InfoDataV::VST_CREATE(v) => c1 == c0 && exists|t: Seq<char>|
                            t.len() == 32 && all_alnum(t) && #[trigger] vst_create_post(
                                v,
                                t,
                                st0,
                                st1,
                                r,
                            ),
                        InfoDataV::CHANNEL_DESTROY { .. } => r == Err::<
                            SocketMessageV,
                            ProtoError,
                        >(ProtoError::Unimplemented) && c1 == c0 && st1 == st0,
                        InfoDataV::VST_DESTROY { .. } => r == Err::<SocketMessageV, ProtoError>(
                            ProtoError::Unimplemented,
                        ) && c1 == c0 && st1 == st0,
                        InfoDataV::VST_UPDATE { .. } => r == Err::<SocketMessageV, ProtoError>(
                            ProtoError::Unimplemented,
                        ) && c1 == c0 && st1 == st0,
                        _ => r == Err::<SocketMessageV, ProtoError>(ProtoError::Decode) && c1 == c0
                            && st1 == st0,
                    },
                    _ => r == Err::<SocketMessageV, ProtoError>(ProtoError::Decode) && c1 == c0
                        && st1 == st0,
                }
            }
        },
    }
}

impl Connection {
    /// Accepts a connection with a caller-supplied nonce: the nonce is
    /// stored under the peer's nonce key, overwriting any stale value, and
    /// the HELLO message to send is returned alongside the new connection.
    pub fn accept_with_nonce(peer: String, nonce: String, cfg: &Config, store: &mut SessionStore)
        -> (r: (Connection, SocketMessage))
        requires
            nonce@.len() == 10,
            all_alnum(nonce@),
        ensures
            r.0@.peer == peer@,
            r.0@.state == ConnState::AwaitingIdentify,
            r.1@ == (SocketMessageV {
                op: OpCode::HELLO,
                d: MessageDataV::HELLO {
                    heartbeat_interval: cfg.heartbeat_interval,
                    nonce: nonce@,
                },
            }),
            crate::opcodes::message_wf(r.1@),
            stored_value(final (store)@, nonce_key(peer@)) == Some(nonce@),
            forall|k: Seq<char>|
                k != nonce_key(peer@) ==> stored_value(final (store)@, k) == stored_value(
                    old(store)@,
                    k,
                ),
            final (store)@.sets == old(store)@.sets,
    {
        let key = nonce_key_exec(peer.as_str());
        store.set(key.as_str(), nonce.as_str());
        let hello = SocketMessage {
            op: OpCode::HELLO,
            d: MessageData::HELLO { heartbeat_interval: cfg.heartbeat_interval, nonce },
        };
        (Connection { peer, state: ConnState::AwaitingIdentify }, hello)
    }

    /// Accepts a connection: generates a fresh 10-character alphanumeric
    /// nonce, stores it under the peer's nonce key, and returns the HELLO
    /// message to send first — heartbeat interval as configured, the nonce
    /// exactly 10 alphanumeric characters.
    pub fn accept(peer: String, cfg: &Config, store: &mut SessionStore) -> (r: (
        Connection,
        SocketMessage,
    ))
        ensures
            r.0@.peer == peer@,
            r.0@.state == ConnState::AwaitingIdentify,
            r.1@.op == OpCode::HELLO,
            r.1@.d matches MessageDataV::HELLO { heartbeat_interval: h, nonce: n } && h
                == cfg.heartbeat_interval && n.len() == 10 && all_alnum(n) && stored_value(
                final (store)@,
                nonce_key(peer@),
            ) == Some(n),
            crate::opcodes::message_wf(r.1@),
            forall|k: Seq<char>|
                k != nonce_key(peer@) ==> stored_value(final (store)@, k) == stored_value(
                    old(store)@,
                    k,
                ),
            final (store)@.sets == old(store)@.sets,
    {
        let nonce = random_alphanumeric(10);
        Connection::accept_with_nonce(peer, nonce, cfg, store)
    }

    /// Handles one inbound text frame, per [`frame_post`]. Every reply it
    /// returns is a well-formed message, so decoding its encoding yields
    /// it back.
    pub fn handle_frame(&mut self, cfg: &Config, store: &mut SessionStore, text: &str) -> (r:
        Result<SocketMessage, ProtoError>)
        requires
            old(self)@.state != ConnState::Closed,
            config_wf(cfg@),
        ensures
            frame_post(
                old(self)@,
                final (self)@,
                cfg@,
                old(store)@,
                final (store)@,
                text@,
                result_view(r),
            ),
            r matches Ok(m) ==> crate::opcodes::message_wf(m@),
    {
        match get_opcode(text) {
            Err(_) => Err(ProtoError::Decode),
            Ok((op, d)) => {
                if self.state == ConnState::AwaitingIdentify && op != OpCode::IDENTIFY {
                    return Err(ProtoError::Auth);
                }
                match d {
                    MessageData::IDENTIFY(ident) => {
                        let key = nonce_key_exec(self.peer.as_str());
                        let nonce = store.get(key.as_str());
                        let ok = verify_token(cfg.secret.clone(), nonce, ident.token);
                        if ok {
                            self.state = ConnState::Identified;
                            Ok(
                                SocketMessage {
                                    op: OpCode::READY,
                                    d: MessageData::READY { health: cfg.health },
                                },
                            )
                        } else {
                            Err(ProtoError::Auth)
                        }
                    },
                    MessageData::HEARTBEAT {  } => Ok(
                        SocketMessage {
                            op: OpCode::HEARTBEAT_ACK,
                            d: MessageData::HEARTBEAT_ACK { health: cfg.health },
                        },
                    ),
                    MessageData::RESUME {  } => Err(ProtoError::Unimplemented),
                    MessageData::INFO(info) => {
                        match info.data {
                            InfoData::CHANNEL_REQ(req) => {
                                let token = random_alphanumeric(64);
                                let ghost t = token@;
                                let r = channel_req_with_token(&req, token, store);
                                proof {
                                    assert(t.len() == 64 && all_alnum(t)
                                        && channel_req_post(
                                        req@,
                                        t,
                                        old(store)@,
                                        store@,
                                        result_view(r),
                                    ));
                                }
                                r
                            },
                            InfoData::VST_CREATE(v) => {
                                let sid = random_alphanumeric(32);
                                let ghost t = sid@;
                                let r = vst_create_with_session(&v, sid, store);
                                proof {
                                    assert(t.len() == 32 && all_alnum(t)
                                        && vst_create_post(
                                        v@,
                                        t,
                                        old(store)@,
                                        store@,
                                        result_view(r),
                                    ));
                                }
                                r
                            },
                            InfoData::CHANNEL_DESTROY { .. } => Err(ProtoError::Unimplemented),
                            InfoData::VST_DESTROY { .. } => Err(ProtoError::Unimplemented),
                            InfoData::VST_UPDATE { .. } => Err(ProtoError::Unimplemented),
                            _ => Err(ProtoError::Decode),
                        }
                    },
                    _ => Err(ProtoError::Decode),
                }
            },
        }
    }

    /// Marks the connection closed; terminal.
    pub fn close(&mut self)
        ensures
            final (self)@.peer == old(self)@.peer,
            final (self)@.state == ConnState::Closed,
    {
        self.state = ConnState::Closed;
    }
}

/// Before a successful IDENTIFY, every inbound opcode other than IDENTIFY
/// — HEARTBEAT included — yields an AUTH signal, and neither the
/// connection state nor the store changes.
pub proof fn lemma_gate_before_identify(
    c0: ConnectionV,
    c1: ConnectionV,
    cfg: ConfigV,
    st0: StoreV,
    st1: StoreV,
    text: Seq<char>,
    r: Result<SocketMessageV, ProtoError>,
)
    requires
        frame_post(c0, c1, cfg, st0, st1, text, r),
        c0.state == ConnState::AwaitingIdentify,
        sp_decode_message(text) matches Some((op, d)) && op != OpCode::IDENTIFY,
    ensures
        r == Err::<SocketMessageV, ProtoError>(ProtoError::Auth),
        c1 == c0,
        st1 == st0,
{
}

} // verus!
