//! The two mandatory header payloads of an Ogg/Opus stream: the
//! identification header and the comment header, serialized exactly as
//! the wire format prescribes.

use vstd::prelude::*;

use crate::bytes::{le16, le32, push_le16, push_le32};

verus! {

/// The 8-byte magic tag `"OpusHead"`.
pub open spec fn opus_head_magic() -> Seq<u8> {
    seq![0x4Fu8, 0x70u8, 0x75u8, 0x73u8, 0x48u8, 0x65u8, 0x61u8, 0x64u8]
}

/// The 8-byte magic tag `"OpusTags"`.
pub open spec fn opus_tags_magic() -> Seq<u8> {
    seq![0x4Fu8, 0x70u8, 0x75u8, 0x73u8, 0x54u8, 0x61u8, 0x67u8, 0x73u8]
}

/// The identification header payload: magic, version 1, channel count,
/// pre-skip, input sample rate, output gain, channel mapping family.
/// 19 bytes for mapping family 0.
pub open spec fn ident_payload_spec(
    channels: u8,
    pre_skip: u16,
    sample_rate: u32,
    gain: i16,
    family: u8,
) -> Seq<u8> {
    opus_head_magic() + seq![1u8, channels] + le16(pre_skip) + le32(sample_rate) + le16(
        gain as u16,
    ) + seq![family]
}

/// The comment entries' serialization: each entry length-prefixed.
pub open spec fn comments_bytes(entries: Seq<Seq<u8>>) -> Seq<u8>
    decreases entries.len(),
{
    if entries.len() == 0 {
        Seq::empty()
    } else {
        comments_bytes(entries.drop_last()) + le32(entries.last().len() as u32) + entries.last()
    }
}

/// The comment header payload: magic, length-prefixed vendor string,
/// entry count, then each `key=value` entry length-prefixed.
pub open spec fn comment_payload_spec(vendor: Seq<u8>, entries: Seq<Seq<u8>>) -> Seq<u8> {
    opus_tags_magic() + le32(vendor.len() as u32) + vendor + le32(entries.len() as u32)
        + comments_bytes(entries)
}

/// Serialize the identification header payload.
pub fn ident_payload(channels: u8, pre_skip: u16, sample_rate: u32, gain: i16, family: u8) -> (r:
    Vec<u8>)
    ensures
        r@ == ident_payload_spec(channels, pre_skip, sample_rate, gain, family),
        r@.len() == 19,
{
    let mut out: Vec<u8> = Vec::new();
    out.push(0x4F);
    out.push(0x70);
    out.push(0x75);
    out.push(0x73);
    out.push(0x48);
    out.push(0x65);
    out.push(0x61);
    out.push(0x64);
    out.push(1);
    out.push(channels);
    push_le16(&mut out, pre_skip);
    push_le32(&mut out, sample_rate);
    push_le16(&mut out, gain as u16);
    out.push(family);
    assert(out@ =~= ident_payload_spec(channels, pre_skip, sample_rate, gain, family));
    out
}

/// Serialize the comment header payload from a vendor string and a list
/// of `key=value` entries, each given as its UTF-8 bytes.
pub fn comment_payload(vendor: &Vec<u8>, entries: &Vec<Vec<u8>>) -> (r: Vec<u8>)
    requires
        vendor@.len() < 0x100000000,
        entries@.len() < 0x100000000,
        forall|i: int| 0 <= i < entries@.len() ==> #[trigger] entries@[i]@.len() < 0x100000000,
    ensures
        r@ == comment_payload_spec(vendor@, entries.deep_view()),
{
    let ghost all = entries.deep_view();
    let mut out: Vec<u8> = Vec::new();
    out.push(0x4F);
    out.push(0x70);
    out.push(0x75);
    out.push(0x73);
    out.push(0x54);
    out.push(0x61);
    out.push(0x67);
    out.push(0x73);
    push_le32(&mut out, vendor.len() as u32);
    out.extend_from_slice(vendor.as_slice());
    push_le32(&mut out, entries.len() as u32);
    let ghost prefix = out@;
    assert(prefix =~= opus_tags_magic() + le32(vendor@.len() as u32) + vendor@ + le32(
        entries@.len() as u32,
    ));
    let mut i: usize = 0;
    while i < entries.len()
        invariant
            i <= entries@.len(),
            entries@.len() < 0x100000000,
            forall|j: int| 0 <= j < entries@.len() ==> #[trigger] entries@[j]@.len() < 0x100000000,
            all == entries.deep_view(),
            all.len() == entries@.len(),
            forall|j: int| 0 <= j < entries@.len() ==> all[j] == #[trigger] entries@[j]@,
            out@ == prefix + comments_bytes(all.take(i as int)),
        decreases entries@.len() - i,
    {
        let entry = &entries[i];
        push_le32(&mut out, entry.len() as u32);
        out.extend_from_slice(entry.as_slice());
        proof {
            assert(all.take(i + 1).drop_last() =~= all.take(i as int));
            assert(all.take(i + 1).last() == all[i as int]);
            assert(out@ =~= prefix + comments_bytes(all.take(i + 1)));
        }
        i = i + 1;
    }
    proof {
        assert(all.take(all.len() as int) =~= all);
    }
    out
}

} // verus!
