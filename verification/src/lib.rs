//! Capture rules of a man-in-the-middle HTTP proxy: header and tag maps, the
//! interceptor state that scripts change and its journal, the special request
//! tags, hop-by-hop and binary-header handling, body pumping, pacing and
//! capture settlement, routing, breakpoints, the in-memory system log,
//! Session and interceptor-chain rules, workspace migrations, asset naming,
//! the script codec limits, and the stored names of stages and outcomes.

pub mod text;
pub mod strmap;
pub mod model;
pub mod headers;
pub mod http_syntax;
pub mod asset;
pub mod interceptor;
pub mod tags;
pub mod wire;
pub mod clock;
pub mod log_buffer;
pub mod body_flow;
pub mod capture_flow;
pub mod routing;
pub mod numbers;
pub mod breakpoint;
pub mod migration;
pub mod codec;
pub mod scripting;
pub mod sessions;
pub mod storage;
pub mod bypass;
pub mod error;
pub mod replay;
pub mod lifecycle;
pub mod connect;
pub mod chain;


