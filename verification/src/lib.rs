//! The device session and event-decoding core of a multi-key control deck:
//! the connect handshake, the setup sequences, the decode loop and the grid
//! that cuts one source image into per-key tiles. Nothing here touches the
//! hardware: each part takes what the transport or the image codec reported
//! and says what to do next.

pub mod connect;
pub mod deck;
pub mod engine;
pub mod event;
pub mod kind;
pub mod listen;
pub mod setup;
pub mod text;
pub mod tiler;
