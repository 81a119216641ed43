//! The nested INFO sub-protocol: its message types and their wire shapes.

use vstd::prelude::*;
use crate::json::{flat_members_view, JsonScalar, ScalarV};
use crate::opcodes::{get_opcode, sp_decode_message, MessageData, MessageDataV};
use crate::text::str_eq;

verus! {

/// What decoding a frame as an INFO message yields: the INFO type and
/// data, or nothing when the frame is not a well-formed INFO message.
pub open spec fn sp_decode_info(s: Seq<char>) -> Option<(InfoType, InfoDataV)> {
    match sp_decode_message(s) {
        Some((op, MessageDataV::INFO(iv))) => Some((iv._type, iv.data)),
        _ => None,
    }
}

/// INFO message types. The wire value of each variant is given by
/// [`InfoType::number`].
#[allow(non_camel_case_types)]
#[derive(Clone, Copy, PartialEq, Eq, Structural, Debug)]
pub enum InfoType {
    /// Request a channel to be created inside the voice server.
    CHANNEL_REQ,
    /// Sent by the server to signal the successful creation of a voice
    /// channel.
    CHANNEL_ASSIGN,
    /// Sent by the client to signal the destruction of a voice channel.
    CHANNEL_DESTROY,
    /// Sent by the client to create a voice state.
    VST_CREATE,
    /// Sent by the server to indicate the success of a VST_CREATE.
    VST_DONE,
    /// Sent by the client when a user is leaving a channel or moving
    /// between channels in a guild.
    VST_DESTROY,
    /// Sent to update an existing voice state.
    VST_UPDATE,
}

impl InfoType {
    /// The numeric wire value of this INFO type.
    pub open spec fn spec_number(self) -> u64 {
        match self {
            InfoType::CHANNEL_REQ => 0,
            InfoType::CHANNEL_ASSIGN => 1,
            InfoType::CHANNEL_DESTROY => 2,
            InfoType::VST_CREATE => 3,
            InfoType::VST_DONE => 4,
            InfoType::VST_DESTROY => 5,
            InfoType::VST_UPDATE => 6,
        }
    }

    /// The INFO type denoted by a numeric wire value, if any.
    pub open spec fn spec_from_number(n: u64) -> Option<InfoType> {
        if n == 0 {
            Some(InfoType::CHANNEL_REQ)
        } else if n == 1 {
            Some(InfoType::CHANNEL_ASSIGN)
        } else if n == 2 {
            Some(InfoType::CHANNEL_DESTROY)
        } else if n == 3 {
            Some(InfoType::VST_CREATE)
        } else if n == 4 {
            Some(InfoType::VST_DONE)
        } else if n == 5 {
            Some(InfoType::VST_DESTROY)
        } else if n == 6 {
            Some(InfoType::VST_UPDATE)
        } else {
            None
        }
    }

    /// The numeric wire value of this INFO type.
    #[verifier::when_used_as_spec(spec_number)]
    pub fn number(self) -> (n: u64)
        ensures
            n == self.spec_number(),
    {
        match self {
            InfoType::CHANNEL_REQ => 0,
            InfoType::CHANNEL_ASSIGN => 1,
            InfoType::CHANNEL_DESTROY => 2,
            InfoType::VST_CREATE => 3,
            InfoType::VST_DONE => 4,
            InfoType::VST_DESTROY => 5,
            InfoType::VST_UPDATE => 6,
        }
    }

    /// The INFO type denoted by a numeric wire value, if any.
    pub fn from_number(n: u64) -> (r: Option<InfoType>)
        ensures
            r == InfoType::spec_from_number(n),
    {
        if n == 0 {
            Some(InfoType::CHANNEL_REQ)
        } else if n == 1 {
            Some(InfoType::CHANNEL_ASSIGN)
        } else if n == 2 {
            Some(InfoType::CHANNEL_DESTROY)
        } else if n == 3 {
            Some(InfoType::VST_CREATE)
        } else if n == 4 {
            Some(InfoType::VST_DONE)
        } else if n == 5 {
            Some(InfoType::VST_DESTROY)
        } else if n == 6 {
            Some(InfoType::VST_UPDATE)
        } else {
            None
        }
    }

    /// Numbering and naming are mutually inverse over the seven INFO types.
    pub proof fn lemma_number_round_trip(self)
        ensures
            InfoType::spec_from_number(self.spec_number()) == Some(self),
            self.spec_number() <= 6,
    {
    }
}

/// Request a channel to be created inside the voice server.
///
/// The server replies with a CHANNEL_ASSIGN when resources are allocated
/// for the channel.
#[allow(non_camel_case_types)]
#[derive(Debug, Clone, PartialEq, Eq)]
pub struct CHANNEL_REQ {
    /// Channel ID.
    pub channel_id: String,
    /// Guild ID, not provided for a dm / group dm.
    pub guild_id: Option<String>,
}

/// The mathematical value of a [`CHANNEL_REQ`].
pub struct ChannelReqV {
    /// Channel ID.
    pub channel_id: Seq<char>,
    /// Guild ID, not provided for a dm / group dm.
    pub guild_id: Option<Seq<char>>,
}

impl View for CHANNEL_REQ {
    type V = ChannelReqV;

    open spec fn view(&self) -> ChannelReqV {
        ChannelReqV { channel_id: self.channel_id@, guild_id: self.guild_id.deep_view() }
    }
}

/// Sent by the server to signal the successful creation of a voice channel.
#[allow(non_camel_case_types)]
#[derive(Debug, Clone, PartialEq, Eq)]
pub struct CHANNEL_ASSIGN {
    /// Channel ID.
    pub channel_id: String,
    /// Guild ID, not provided for a dm / group dm.
    pub guild_id: Option<String>,
    /// Authentication token.
    pub token: String,
}

/// The mathematical value of a [`CHANNEL_ASSIGN`].
pub struct ChannelAssignV {
    /// Channel ID.
    pub channel_id: Seq<char>,
    /// Guild ID, not provided for a dm / group dm.
    pub guild_id: Option<Seq<char>>,
    /// Authentication token.
    pub token: Seq<char>,
}

impl View for CHANNEL_ASSIGN {
    type V = ChannelAssignV;

    open spec fn view(&self) -> ChannelAssignV {
        ChannelAssignV {
            channel_id: self.channel_id@,
            guild_id: self.guild_id.deep_view(),
            token: self.token@,
        }
    }
}

/// Sent by the client to create a voice state.
#[allow(non_camel_case_types)]
#[derive(Debug, Clone, PartialEq, Eq)]
pub struct VST_CREATE {
    /// User ID.
    pub user_id: String,
    /// Channel ID.
    pub channel_id: String,
    /// Guild ID, not provided for a dm / group dm.
    pub guild_id: Option<String>,
}

/// The mathematical value of a [`VST_CREATE`].
pub struct VstCreateV {
    /// User ID.
    pub user_id: Seq<char>,
    /// Channel ID.
    pub channel_id: Seq<char>,
    /// Guild ID, not provided for a dm / group dm.
    pub guild_id: Option<Seq<char>>,
}

impl View for VST_CREATE {
    type V = VstCreateV;

    open spec fn view(&self) -> VstCreateV {
        VstCreateV {
            user_id: self.user_id@,
            channel_id: self.channel_id@,
            guild_id: self.guild_id.deep_view(),
        }
    }
}

/// INFO message data, one variant per INFO type.
#[allow(non_camel_case_types)]
#[derive(Debug, PartialEq, Eq)]
pub enum InfoData {
    /// Request a channel to be created inside the voice server.
    CHANNEL_REQ(CHANNEL_REQ),
    /// Sent by the server to signal the successful creation of a voice
    /// channel.
    CHANNEL_ASSIGN {
        /// Channel ID.
        channel_id: String,
        /// Guild ID, not provided for a dm / group dm.
        guild_id: Option<String>,
        /// Authentication token.
        token: String,
    },
    /// Sent by the client to signal the destruction of a voice channel.
    CHANNEL_DESTROY {
        /// Channel ID.
        channel_id: String,
        /// Guild ID, not provided for a dm / group dm.
        guild_id: Option<String>,
    },
    /// Sent by the client to create a voice state.
    VST_CREATE(VST_CREATE),
    /// Sent by the server to indicate the success of a VST_CREATE.
    VST_DONE {
        /// User ID.
        user_id: String,
        /// Channel ID.
        channel_id: String,
        /// Guild ID, not provided for a dm / group dm.
        guild_id: Option<String>,
        /// Session ID for the voice state.
        session_id: String,
    },
    /// Sent by the client when a user is leaving a channel or moving
    /// between channels in a guild.
    VST_DESTROY {
        /// Session ID for the voice state.
        session_id: String,
    },
    /// Sent to update an existing voice state.
    VST_UPDATE {
        /// Session ID for the voice state.
        session_id: String,
    },
}

/// The mathematical value of an [`InfoData`].
#[allow(non_camel_case_types)]
pub enum InfoDataV {
    /// Request a channel to be created.
    CHANNEL_REQ(ChannelReqV),
    /// Successful creation of a voice channel.
    CHANNEL_ASSIGN {
        /// Channel ID.
        channel_id: Seq<char>,
        /// Guild ID, absent for a dm / group dm.
        guild_id: Option<Seq<char>>,
        /// Authentication token.
        token: Seq<char>,
    },
    /// Destruction of a voice channel.
    CHANNEL_DESTROY {
        /// Channel ID.
        channel_id: Seq<char>,
        /// Guild ID, absent for a dm / group dm.
        guild_id: Option<Seq<char>>,
    },
    /// Creation of a voice state.
    VST_CREATE(VstCreateV),
    /// Success of a VST_CREATE.
    VST_DONE {
        /// User ID.
        user_id: Seq<char>,
        /// Channel ID.
        channel_id: Seq<char>,
        /// Guild ID, absent for a dm / group dm.
        guild_id: Option<Seq<char>>,
        /// Session ID for the voice state.
        session_id: Seq<char>,
    },
    /// Destruction of a voice state.
    VST_DESTROY {
        /// Session ID for the voice state.
        session_id: Seq<char>,
    },
    /// Update of an existing voice state.
    VST_UPDATE {
        /// Session ID for the voice state.
        session_id: Seq<char>,
    },
}

impl View for InfoData {
    type V = InfoDataV;

    open spec fn view(&self) -> InfoDataV {
        match self {
            InfoData::CHANNEL_REQ(r) => InfoDataV::CHANNEL_REQ(r@),
            InfoData::CHANNEL_ASSIGN { channel_id, guild_id, token } => InfoDataV::CHANNEL_ASSIGN {
                channel_id: channel_id@,
                guild_id: guild_id.deep_view(),
                token: token@,
            },
            InfoData::CHANNEL_DESTROY { channel_id, guild_id } => InfoDataV::CHANNEL_DESTROY {
                channel_id: channel_id@,
                guild_id: guild_id.deep_view(),
            },
            InfoData::VST_CREATE(v) => InfoDataV::VST_CREATE(v@),
            InfoData::VST_DONE { user_id, channel_id, guild_id, session_id } => InfoDataV::VST_DONE {
                user_id: user_id@,
                channel_id: channel_id@,
                guild_id: guild_id.deep_view(),
                session_id: session_id@,
            },
            InfoData::VST_DESTROY { session_id } => InfoDataV::VST_DESTROY {
                session_id: session_id@,
            },
            InfoData::VST_UPDATE { session_id } => InfoDataV::VST_UPDATE {
                session_id: session_id@,
            },
        }
    }
}

/// The INFO type that a data variant belongs to.
pub open spec fn info_data_type(d: InfoDataV) -> InfoType {
    match d {
        InfoDataV::CHANNEL_REQ(_) => InfoType::CHANNEL_REQ,
        InfoDataV::CHANNEL_ASSIGN { .. } => InfoType::CHANNEL_ASSIGN,
        InfoDataV::CHANNEL_DESTROY { .. } => InfoType::CHANNEL_DESTROY,
        InfoDataV::VST_CREATE(_) => InfoType::VST_CREATE,
        InfoDataV::VST_DONE { .. } => InfoType::VST_DONE,
        InfoDataV::VST_DESTROY { .. } => InfoType::VST_DESTROY,
        InfoDataV::VST_UPDATE { .. } => InfoType::VST_UPDATE,
    }
}

/// The scalar a guild field serializes to: the guild's ID, or `null` for a
/// dm / group dm.
pub open spec fn guild_scalar(g: Option<Seq<char>>) -> ScalarV {
    match g {
        Option::None => ScalarV::Null,
        Option::Some(s) => ScalarV::Str(s),
    }
}

/// The wire members of an INFO `data` payload, in canonical order.
pub open spec fn info_data_members(d: InfoDataV) -> Seq<(Seq<char>, ScalarV)> {
    match d {
        InfoDataV::CHANNEL_REQ(r) => seq![
            ("channel_id"@, ScalarV::Str(r.channel_id)),
            ("guild_id"@, guild_scalar(r.guild_id)),
        ],
        InfoDataV::CHANNEL_ASSIGN { channel_id, guild_id, token } => seq![
            ("channel_id"@, ScalarV::Str(channel_id)),
            ("guild_id"@, guild_scalar(guild_id)),
            ("token"@, ScalarV::Str(token)),
        ],
        InfoDataV::CHANNEL_DESTROY { channel_id, guild_id } => seq![
            ("channel_id"@, ScalarV::Str(channel_id)),
            ("guild_id"@, guild_scalar(guild_id)),
        ],
        InfoDataV::VST_CREATE(v) => seq![
            ("user_id"@, ScalarV::Str(v.user_id)),
            ("channel_id"@, ScalarV::Str(v.channel_id)),
            ("guild_id"@, guild_scalar(v.guild_id)),
        ],
        InfoDataV::VST_DONE { user_id, channel_id, guild_id, session_id } => seq![
            ("user_id"@, ScalarV::Str(user_id)),
            ("channel_id"@, ScalarV::Str(channel_id)),
            ("guild_id"@, guild_scalar(guild_id)),
            ("session_id"@, ScalarV::Str(session_id)),
        ],
        InfoDataV::VST_DESTROY { session_id } => seq![("session_id"@, ScalarV::Str(session_id))],
        InfoDataV::VST_UPDATE { session_id } => seq![("session_id"@, ScalarV::Str(session_id))],
    }
}

/// The first value bound to a key in an association list, if any.
pub open spec fn lookup<T>(ms: Seq<(Seq<char>, T)>, k: Seq<char>) -> Option<T>
    decreases ms.len(),
{
    if ms.len() == 0 {
        None
    } else if ms[0].0 == k {
        Some(ms[0].1)
    } else {
        lookup(ms.drop_first(), k)
    }
}

/// The string bound to a key, if the key is bound to a string.
pub open spec fn req_str(ms: Seq<(Seq<char>, ScalarV)>, k: Seq<char>) -> Option<Seq<char>> {
    match lookup(ms, k) {
        Some(ScalarV::Str(s)) => Some(s),
        _ => None,
    }
}

/// The guild field of a payload: absent or `null` mean a dm / group dm, a
/// string names the guild, and any other shape is ill-formed (`None`).
pub open spec fn payload_guild(ms: Seq<(Seq<char>, ScalarV)>) -> Option<Option<Seq<char>>> {
    match lookup(ms, "guild_id"@) {
        Option::None => Some(Option::<Seq<char>>::None),
        Option::Some(ScalarV::Null) => Some(Option::<Seq<char>>::None),
        Option::Some(ScalarV::Str(s)) => Some(Some(s)),
        Option::Some(_) => None,
    }
}

/// How many members the guild field occupies in a payload: one when
/// present (as a string or `null`), none when absent.
pub open spec fn guild_count(ms: Seq<(Seq<char>, ScalarV)>) -> int {
    if lookup(ms, "guild_id"@) is Some {
        1
    } else {
        0
    }
}

/// The INFO data denoted by a `data` payload under a given INFO type:
/// exactly the type's fields, with the guild field optional where the type
/// has one. Any other shape is a decode failure.
pub open spec fn info_data_of_members(t: InfoType, ms: Seq<(Seq<char>, ScalarV)>) -> Option<
    InfoDataV,
> {
    match t {
        InfoType::CHANNEL_REQ => {
            match (req_str(ms, "channel_id"@), payload_guild(ms)) {
                (Some(c), Some(g)) => if ms.len() == 1 + guild_count(ms) {
                    Some(InfoDataV::CHANNEL_REQ(ChannelReqV { channel_id: c, guild_id: g }))
                } else {
                    None
                },
                _ => None,
            }
        },
        InfoType::CHANNEL_ASSIGN => {
            match (req_str(ms, "channel_id"@), payload_guild(ms), req_str(ms, "token"@)) {
                (Some(c), Some(g), Some(tk)) => if ms.len() == 2 + guild_count(ms) {
                    Some(InfoDataV::CHANNEL_ASSIGN { channel_id: c, guild_id: g, token: tk })
                } else {
                    None
                },
                _ => None,
            }
        },
        InfoType::CHANNEL_DESTROY => {
            match (req_str(ms, "channel_id"@), payload_guild(ms)) {
                (Some(c), Some(g)) => if ms.len() == 1 + guild_count(ms) {
                    Some(InfoDataV::CHANNEL_DESTROY { channel_id: c, guild_id: g })
                } else {
                    None
                },
                _ => None,
            }
        },
        InfoType::VST_CREATE => {
            match (req_str(ms, "user_id"@), req_str(ms, "channel_id"@), payload_guild(ms)) {
                (Some(u), Some(c), Some(g)) => if ms.len() == 2 + guild_count(ms) {
                    Some(
                        InfoDataV::VST_CREATE(
                            VstCreateV { user_id: u, channel_id: c, guild_id: g },
                        ),
                    )
                } else {
                    None
                },
                _ => None,
            }
        },
        InfoType::VST_DONE => {
            match (
                req_str(ms, "user_id"@),
                req_str(ms, "channel_id"@),
                payload_guild(ms),
                req_str(ms, "session_id"@),
            ) {
                (Some(u), Some(c), Some(g), Some(sid)) => if ms.len() == 3 + guild_count(ms) {
                    Some(
                        InfoDataV::VST_DONE {
                            user_id: u,
                            channel_id: c,
                            guild_id: g,
                            session_id: sid,
                        },
                    )
                } else {
                    None
                },
                _ => None,
            }
        },
        InfoType::VST_DESTROY => {
            match req_str(ms, "session_id"@) {
                Some(sid) => if ms.len() == 1 {
                    Some(InfoDataV::VST_DESTROY { session_id: sid })
                } else {
                    None
                },
                _ => None,
            }
        },
        InfoType::VST_UPDATE => {
            match req_str(ms, "session_id"@) {
                Some(sid) => if ms.len() == 1 {
                    Some(InfoDataV::VST_UPDATE { session_id: sid })
                } else {
                    None
                },
                _ => None,
            }
        },
    }
}

/// The scalar a guild field serializes to, as executable code.
pub fn guild_scalar_exec(g: &Option<String>) -> (r: JsonScalar)
    ensures
        r@ == guild_scalar(g.deep_view()),
{
    match g {
        Option::None => JsonScalar::Null,
        Option::Some(s) => JsonScalar::Str(s.clone()),
    }
}

/// Builds the wire members of an INFO `data` payload.
pub fn info_data_members_exec(d: &InfoData) -> (r: Vec<(String, JsonScalar)>)
    ensures
        flat_members_view(r@) == info_data_members(d@),
{
    let mut out: Vec<(String, JsonScalar)> = Vec::new();
    match d {
        InfoData::CHANNEL_REQ(q) => {
            out.push((String::from_str("channel_id"), JsonScalar::Str(q.channel_id.clone())));
            out.push((String::from_str("guild_id"), guild_scalar_exec(&q.guild_id)));
        },
        InfoData::CHANNEL_ASSIGN { channel_id, guild_id, token } => {
            out.push((String::from_str("channel_id"), JsonScalar::Str(channel_id.clone())));
            out.push((String::from_str("guild_id"), guild_scalar_exec(guild_id)));
            out.push((String::from_str("token"), JsonScalar::Str(token.clone())));
        },
        InfoData::CHANNEL_DESTROY { channel_id, guild_id } => {
            out.push((String::from_str("channel_id"), JsonScalar::Str(channel_id.clone())));
            out.push((String::from_str("guild_id"), guild_scalar_exec(guild_id)));
        },
        InfoData::VST_CREATE(v) => {
            out.push((String::from_str("user_id"), JsonScalar::Str(v.user_id.clone())));
            out.push((String::from_str("channel_id"), JsonScalar::Str(v.channel_id.clone())));
            out.push((String::from_str("guild_id"), guild_scalar_exec(&v.guild_id)));
        },
        InfoData::VST_DONE { user_id, channel_id, guild_id, session_id } => {
            out.push((String::from_str("user_id"), JsonScalar::Str(user_id.clone())));
            out.push((String::from_str("channel_id"), JsonScalar::Str(channel_id.clone())));
            out.push((String::from_str("guild_id"), guild_scalar_exec(guild_id)));
            out.push((String::from_str("session_id"), JsonScalar::Str(session_id.clone())));
        },
        InfoData::VST_DESTROY { session_id } => {
            out.push((String::from_str("session_id"), JsonScalar::Str(session_id.clone())));
        },
        InfoData::VST_UPDATE { session_id } => {
            out.push((String::from_str("session_id"), JsonScalar::Str(session_id.clone())));
        },
    }
    proof {
        assert(flat_members_view(out@) =~= info_data_members(d@));
    }
    out
}

/// Reads a required string field out of a parsed object of scalars.
pub fn flat_req_str(v: &Vec<(String, JsonScalar)>, k: &str) -> (r: Option<String>)
    ensures
        match r {
            Some(s) => req_str(flat_members_view(v@), k@) == Some(s@),
            None => req_str(flat_members_view(v@), k@) is None,
        },
{
    match lookup_flat(v, k) {
        Some(JsonScalar::Str(s)) => Some(s.clone()),
        _ => None,
    }
}

/// Reads the guild field out of a parsed object of scalars.
pub fn flat_guild(v: &Vec<(String, JsonScalar)>) -> (r: Option<Option<String>>)
    ensures
        match r {
            Some(g) => payload_guild(flat_members_view(v@)) == Some(g.deep_view()),
            None => payload_guild(flat_members_view(v@)) is None,
        },
{
    match lookup_flat(v, "guild_id") {
        Option::None => Some(Option::<String>::None),
        Option::Some(JsonScalar::Null) => Some(Option::<String>::None),
        Option::Some(JsonScalar::Str(s)) => Some(Some(s.clone())),
        Option::Some(_) => None,
    }
}

/// Counts the members the guild field occupies in a parsed payload.
pub fn guild_count_exec(v: &Vec<(String, JsonScalar)>) -> (r: usize)
    ensures
        r as int == guild_count(flat_members_view(v@)),
        r <= 1,
{
    match lookup_flat(v, "guild_id") {
        Option::None => 0,
        Option::Some(_) => 1,
    }
}

/// Builds the INFO data denoted by a parsed `data` payload under a given
/// INFO type.
pub fn info_data_of_members_exec(t: InfoType, v: &Vec<(String, JsonScalar)>) -> (r: Option<
    InfoData,
>)
    ensures
        match r {
            Some(d) => info_data_of_members(t, flat_members_view(v@)) == Some(d@),
            None => info_data_of_members(t, flat_members_view(v@)) is None,
        },
{
    proof {
        assert(flat_members_view(v@).len() == v@.len());
    }
    match t {
        InfoType::CHANNEL_REQ => {
            match (flat_req_str(v, "channel_id"), flat_guild(v)) {
                (Some(c), Some(g)) => {
                    if v.len() == 1 + guild_count_exec(v) {
                        Some(InfoData::CHANNEL_REQ(CHANNEL_REQ { channel_id: c, guild_id: g }))
                    } else {
                        None
                    }
                },
                _ => None,
            }
        },
        InfoType::CHANNEL_ASSIGN => {
            match (flat_req_str(v, "channel_id"), flat_guild(v), flat_req_str(v, "token")) {
                (Some(c), Some(g), Some(tk)) => {
                    if v.len() == 2 + guild_count_exec(v) {
                        Some(InfoData::CHANNEL_ASSIGN { channel_id: c, guild_id: g, token: tk })
                    } else {
                        None
                    }
                },
                _ => None,
            }
        },
        InfoType::CHANNEL_DESTROY => {
            match (flat_req_str(v, "channel_id"), flat_guild(v)) {
                (Some(c), Some(g)) => {
                    if v.len() == 1 + guild_count_exec(v) {
                        Some(InfoData::CHANNEL_DESTROY { channel_id: c, guild_id: g })
                    } else {
                        None
                    }
                },
                _ => None,
            }
        },
        InfoType::VST_CREATE => {
            match (flat_req_str(v, "user_id"), flat_req_str(v, "channel_id"), flat_guild(v)) {
                (Some(u), Some(c), Some(g)) => {
                    if v.len() == 2 + guild_count_exec(v) {
                        Some(
                            InfoData::VST_CREATE(
                                VST_CREATE { user_id: u, channel_id: c, guild_id: g },
                            ),
                        )
                    } else {
                        None
                    }
                },
                _ => None,
            }
        },
        InfoType::VST_DONE => {
            match (
                flat_req_str(v, "user_id"),
                flat_req_str(v, "channel_id"),
                flat_guild(v),
                flat_req_str(v, "session_id"),
            ) {
                (Some(u), Some(c), Some(g), Some(sid)) => {
                    if v.len() == 3 + guild_count_exec(v) {
                        Some(
                            InfoData::VST_DONE {
                                user_id: u,
                                channel_id: c,
                                guild_id: g,
                                session_id: sid,
                            },
                        )
                    } else {
                        None
                    }
                },
                _ => None,
            }
        },
        InfoType::VST_DESTROY => {
            match flat_req_str(v, "session_id") {
                Some(sid) => {
                    if v.len() == 1 {
                        Some(InfoData::VST_DESTROY { session_id: sid })
                    } else {
                        None
                    }
                },
                _ => None,
            }
        },
        InfoType::VST_UPDATE => {
            match flat_req_str(v, "session_id") {
                Some(sid) => {
                    if v.len() == 1 {
                        Some(InfoData::VST_UPDATE { session_id: sid })
                    } else {
                        None
                    }
                },
                _ => None,
            }
        },
    }
}

/// Looks a key up in a parsed object of scalars.
pub fn lookup_flat<'a>(v: &'a Vec<(String, JsonScalar)>, k: &str) -> (r: Option<&'a JsonScalar>)
    ensures
        match r {
            Some(x) => lookup(flat_members_view(v@), k@) == Some(x@),
            None => lookup(flat_members_view(v@), k@) is None,
        },
{
    let ghost full = flat_members_view(v@);
    proof {
        assert(full.skip(0) =~= full);
    }
    let mut i: usize = 0;
    while i < v.len()
        invariant
            i <= v@.len(),
            full == flat_members_view(v@),
            lookup(full, k@) == lookup(full.skip(i as int), k@),
        decreases v@.len() - i,
    {
        proof {
            assert(full.skip(i as int)[0] == (v@[i as int].0@, v@[i as int].1@));
        }
        if str_eq(v[i].0.as_str(), k) {
            return Some(&v[i].1);
        }
        proof {
            assert(full.skip(i as int).drop_first() =~= full.skip(i + 1));
        }
        i = i + 1;
    }
    proof {
        assert(full.skip(i as int).len() == 0);
    }
    None
}

/// Decodes one wire text frame as an INFO message.
///
/// Returns `Err` exactly when the frame is not a well-formed INFO message
/// of the protocol: invalid JSON, a non-INFO envelope, an unknown `type`
/// value, or a `data` payload whose shape does not match the type.
pub fn get_infotype(msg: &str) -> (r: Result<(InfoType, InfoData), ()>)
    ensures
        match r {
            Ok((t, d)) => sp_decode_info(msg@) == Some((t, d@)),
            Err(_) => sp_decode_info(msg@) is None,
        },
{
    match get_opcode(msg) {
        Ok((_, MessageData::INFO(info))) => Ok((info._type, info.data)),
        _ => Err(()),
    }
}

} // verus!
