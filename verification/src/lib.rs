//! Wire types and packets of the Minecraft network protocol, with verified
//! encoders and decoders.

pub mod buffer;
pub mod error;
pub mod wire;
pub mod traits;
pub mod types;
pub mod packets;
pub mod packet;
pub mod proxy;
pub mod codegen;
pub mod datagen;
pub mod derive;
pub mod text;
pub mod laws;
pub mod mapping;
