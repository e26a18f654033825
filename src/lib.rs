//! A Remote Framebuffer (RFB 3.8) server core: handshake and message
//! handling, pixel transcoding, tile encoders, persistent zlib streams,
//! WebSocket framing and the daemon/worker IPC codec.

pub mod bits;
pub mod wire;
pub mod server;
pub mod transcode;
pub mod tiles;
pub mod encoding_hextile;
pub mod encoding_zrle;
pub mod zstream;
pub mod encoding_raw;
pub mod encoding_zlib;
pub mod update;
pub mod vnc_auth;
pub mod rfb;
pub mod websocket;
pub mod http;
pub mod api;
pub mod ipc;
pub mod info;
pub mod input;
