//! Live Ogg/Opus broadcast pipeline.
//!
//! Raw interleaved PCM samples are accumulated into fixed-size frames,
//! each frame's compressed payload is wrapped into a numbered packet,
//! packets are framed into Ogg pages, and pages are fanned out to a
//! dynamic set of subscribers, none of which may stall the producer.
//! The perceptual codec itself is an external capability: this crate
//! handles everything from payload to wire bytes.

pub mod accumulator;
pub mod bytes;
pub mod companding;
pub mod crc;
pub mod headers;
pub mod ogg;
pub mod pcm;
pub mod registry;
pub mod stream;
pub mod wav;
