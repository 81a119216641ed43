//! Connection-protocol engine for LVSP, a control-plane gateway protocol:
//! a long-lived WebSocket server that lets a coordinating service hand off
//! voice-channel and voice-state lifecycle management to a dedicated voice
//! server.
//!
//! The library holds the per-connection state machine, the opcode / INFO
//! message codec, the authentication handshake, and the INFO sub-protocol
//! against a shared session store. Transport (the WebSocket itself) and
//! process bootstrap live outside the library.

pub mod connection;
pub mod infoops;
pub mod json;
pub mod jsonparse;
pub mod opcodes;
pub mod roundtrip;
pub mod store;
pub mod text;
pub mod util;

pub use connection::Config;
pub use connection::ConnState;
pub use connection::Connection;
pub use connection::ProtoError;
pub use infoops::get_infotype;
pub use infoops::InfoData;
pub use infoops::InfoType;
pub use infoops::CHANNEL_ASSIGN;
pub use infoops::CHANNEL_REQ;
pub use infoops::VST_CREATE;
pub use opcodes::encode_message;
pub use opcodes::get_opcode;
pub use opcodes::ErrorCode;
pub use opcodes::MessageData;
pub use opcodes::OpCode;
pub use opcodes::SocketMessage;
pub use opcodes::IDENTIFY;
pub use opcodes::INFO;
pub use store::SessionStore;
pub use util::verify_token;
