//! Protocol logic of an edge gateway for real-time push: request routing,
//! hold responses, and the text framing of WebSocket events over HTTP.

pub mod assets;
pub mod codec;
pub mod decode;
pub mod endpoint;
pub mod gateway;
pub mod hold;
pub mod message;
pub mod routing;
pub mod text;

pub use crate::assets::handle_static;
pub use crate::assets::StaticFile;
pub use crate::codec::FramedEvent;
pub use crate::codec::ws_keep_alive;
pub use crate::codec::ws_sub;
pub use crate::codec::ws_text;
pub use crate::codec::ws_text_bytes;
pub use crate::decode::ws_decode_text;
pub use crate::endpoint::handle_test;
pub use crate::endpoint::handle_test_ws;
pub use crate::gateway::respond;
pub use crate::gateway::serve;
pub use crate::gateway::Action;
pub use crate::hold::grip_response;
pub use crate::hold::HoldMode;
pub use crate::hold::HoldSpec;
pub use crate::message::Header;
pub use crate::message::IncomingRequest;
pub use crate::message::Response;
pub use crate::routing::is_tls;
pub use crate::routing::route;
pub use crate::routing::RouteDecision;
