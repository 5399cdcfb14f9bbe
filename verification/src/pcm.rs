//! Marker types for raw PCM sample formats: how one sample is laid out
//! on disk.  Raw streams are always interleaved.

use vstd::prelude::*;

verus! {

/// Restricts `Pcm` to the formats named here.
pub trait Seal {

}

/// A PCM format.
pub trait Pcm: Seal {

}

/// Unsigned 8-bit PCM.
pub struct U8;

/// Signed 8-bit PCM.
pub struct S8;

/// Signed 8-bit mu-law companded PCM.
pub struct MuLaw;

/// Signed 8-bit A-law companded PCM.
pub struct ALaw;

/// Unsigned 16-bit PCM, little endian.
pub struct U16Le;

/// Unsigned 16-bit PCM, big endian.
pub struct U16Be;

/// Signed 16-bit PCM, little endian.
pub struct S16Le;

/// Signed 16-bit PCM, big endian.
pub struct S16Be;

/// Unsigned 24-bit PCM, little endian.
pub struct U24Le;

/// Unsigned 24-bit PCM, big endian.
pub struct U24Be;

/// Signed 24-bit PCM, little endian.
pub struct S24Le;

/// Signed 24-bit PCM, big endian.
pub struct S24Be;

/// Unsigned 32-bit PCM, little endian.
pub struct U32Le;

/// Unsigned 32-bit PCM, big endian.
pub struct U32Be;

/// Signed 32-bit PCM, little endian.
pub struct S32Le;

/// Signed 32-bit PCM, big endian.
pub struct S32Be;

/// 32-bit floating-point PCM, little endian.
pub struct F32Le;

/// 32-bit floating-point PCM, big endian.
pub struct F32Be;

/// 64-bit floating-point PCM, little endian.
pub struct F64Le;

/// 64-bit floating-point PCM, big endian.
pub struct F64Be;

impl Seal for U8 {

}

impl Pcm for U8 {

}

impl Seal for S8 {

}

impl Pcm for S8 {

}

impl Seal for MuLaw {

}

impl Pcm for MuLaw {

}

impl Seal for ALaw {

}

impl Pcm for ALaw {

}

impl Seal for U16Le {

}

impl Pcm for U16Le {

}

impl Seal for U16Be {

}

impl Pcm for U16Be {

}

impl Seal for S16Le {

}

impl Pcm for S16Le {

}

impl Seal for S16Be {

}

impl Pcm for S16Be {

}

impl Seal for U24Le {

}

impl Pcm for U24Le {

}

impl Seal for U24Be {

}

impl Pcm for U24Be {

}

impl Seal for S24Le {

}

impl Pcm for S24Le {

}

impl Seal for S24Be {

}

impl Pcm for S24Be {

}

impl Seal for U32Le {

}

impl Pcm for U32Le {

}

impl Seal for U32Be {

}

impl Pcm for U32Be {

}

impl Seal for S32Le {

}

impl Pcm for S32Le {

}

impl Seal for S32Be {

}

impl Pcm for S32Be {

}

impl Seal for F32Le {

}

impl Pcm for F32Le {

}

impl Seal for F32Be {

}

impl Pcm for F32Be {

}

impl Seal for F64Le {

}

impl Pcm for F64Le {

}

impl Seal for F64Be {

}

impl Pcm for F64Be {

}

} // verus!
