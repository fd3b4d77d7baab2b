//! Verified core of a desktop-app bridge that drives a Chrome window over a
//! websocket and serves its pages over HTTP.
pub mod text;
pub mod message;
pub mod net;
pub mod http;
pub mod window;
pub mod func;
