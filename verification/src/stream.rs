//! The stream packetizer: turns header and audio payloads into
//! correctly numbered packets, hands them to the page assembler, and
//! keeps the cached header pages that every subscriber must see first.

use vstd::prelude::*;

use crate::headers::{
    comment_payload, comment_payload_spec, ident_payload, ident_payload_spec,
};
use crate::ogg::{
    lacing_of, page_crc, page_header_spec, stream_wf, views_of, OggStreamState, Page, PageView,
    StreamError, StreamView,
};

verus! {

/// Samples per channel in one codec frame: 20 ms at 48 kHz.
pub const FRAME_SAMPLES: u64 = 1920;

/// Output channel count of the stream.
pub const CHANNELS: u8 = 2;

/// Pre-skip sample count of the identification header.
pub const PRE_SKIP: u16 = 3840;

/// Original sample rate of the identification header.
pub const SAMPLE_RATE: u32 = 48000;

/// One packet as submitted over the stream's life, for specification.
#[verifier::ext_equal]
pub ghost struct PacketInfo {
    /// Sequence number, starting at 0.
    pub seq: u64,
    /// Granule position: cumulative samples per channel at the end of
    /// the packet's audio.
    pub granule: u64,
    /// Begin-of-stream flag.
    pub bos: bool,
    /// End-of-stream flag.
    pub eos: bool,
    /// Payload bytes.
    pub payload: Seq<u8>,
}

/// The vendor string written into the comment header.
pub open spec fn default_vendor() -> Seq<u8> {
    seq![0x6Fu8, 0x67u8, 0x67u8, 0x5Fu8, 0x6Fu8, 0x70u8, 0x75u8, 0x73u8]
}

/// The identification payload this stream emits.
pub open spec fn default_ident() -> Seq<u8> {
    ident_payload_spec(CHANNELS, PRE_SKIP, SAMPLE_RATE, 0, 0)
}

/// The comment payload this stream emits: vendor string, no entries.
pub open spec fn default_comment() -> Seq<u8> {
    comment_payload_spec(default_vendor(), Seq::empty())
}

/// The full bytes of one page: header, checksum included, then body.
pub open spec fn page_bytes(
    flags: u8,
    granule: u64,
    serial: u32,
    page_no: u32,
    lacing: Seq<u8>,
    body: Seq<u8>,
) -> Seq<u8> {
    page_header_spec(
        flags,
        granule,
        serial,
        page_no,
        page_crc(flags, granule, serial, page_no, lacing, body),
        lacing,
    ) + body
}

/// The identification page: begin of stream, page 0.
pub open spec fn ident_page_view() -> PageView {
    PageView {
        header: page_header_spec(
            2,
            0,
            0,
            0,
            page_crc(2, 0, 0, 0, lacing_of(default_ident().len()), default_ident()),
            lacing_of(default_ident().len()),
        ),
        body: default_ident(),
    }
}

/// The comment page: page 1.
pub open spec fn comment_page_view() -> PageView {
    PageView {
        header: page_header_spec(
            0,
            0,
            0,
            1,
            page_crc(0, 0, 0, 1, lacing_of(default_comment().len()), default_comment()),
            lacing_of(default_comment().len()),
        ),
        body: default_comment(),
    }
}

/// The packet payloads of a stream, concatenated in sequence order.
pub open spec fn payloads_concat(ps: Seq<PacketInfo>) -> Seq<u8>
    decreases ps.len(),
{
    if ps.len() == 0 {
        Seq::empty()
    } else {
        payloads_concat(ps.drop_last()) + ps.last().payload
    }
}

/// The two cached header pages: the identification page (begin of
/// stream, page 0) followed by the comment page (page 1).
pub open spec fn header_pages_bytes() -> Seq<u8> {
    page_bytes(2, 0, 0, 0, lacing_of(default_ident().len()), default_ident()) + page_bytes(
        0,
        0,
        0,
        1,
        lacing_of(default_comment().len()),
        default_comment(),
    )
}

/// An Ogg/Opus stream encoder: packetizes payloads and assembles pages.
///
/// Granule positions here mark the conventional end-of-frame sample
/// index: the first audio packet's granule position is one frame's
/// sample count, not one less.
pub struct StreamEncoder {
    stream: OggStreamState,
    packet_no: u64,
    granule: u64,
    frame_samples: u64,
    finished: bool,
    headers: Vec<u8>,
    header_pages: Vec<Page>,
    packets: Ghost<Seq<PacketInfo>>,
}

impl StreamEncoder {
    /// All packets submitted so far, in order.
    pub closed spec fn packets(&self) -> Seq<PacketInfo> {
        self.packets@
    }

    /// Whether the end-of-stream packet has been emitted.
    pub closed spec fn finished(&self) -> bool {
        self.finished
    }

    /// Samples per channel per audio packet.
    pub closed spec fn frame_samples(&self) -> u64 {
        self.frame_samples
    }

    /// The granule position of the last packet.
    pub closed spec fn granule_end(&self) -> u64 {
        self.granule
    }

    /// The cached bytes of the header pages.
    pub closed spec fn header_bytes(&self) -> Seq<u8> {
        self.headers@
    }

    /// The cached header pages themselves.
    pub closed spec fn header_pages_view(&self) -> Seq<PageView> {
        views_of(self.header_pages@)
    }

    /// The page assembler's state: what is buffered and what page
    /// comes next.
    pub closed spec fn assembler(&self) -> StreamView {
        self.stream@
    }

    /// Every page body byte emitted so far, in emission order.
    pub closed spec fn emitted_bytes(&self) -> Seq<u8> {
        self.stream.emitted_bytes()
    }

    /// The assembler itself, for stating facts about its accounting.
    closed spec fn stream_ref(&self) -> &OggStreamState {
        &self.stream
    }

    /// The packetizer's invariant: packets are numbered 0, 1, 2, ...
    /// with no gaps; packet 0 is the identification header and the only
    /// begin-of-stream packet; packet 1 is the comment header; granule
    /// positions start at 0 and rise by exactly one frame per audio
    /// packet; only a terminal packet carries end-of-stream.
    pub closed spec fn wf(&self) -> bool {
        let ps = self.packets@;
        &&& stream_wf(self.stream@)
        &&& self.stream.accounted()
        &&& self.stream.submitted_bytes() == payloads_concat(ps)
        &&& self.stream@.eos_queued == self.finished
        &&& self.stream@.next_packet_no == self.packet_no
        &&& self.stream@.last_granule == self.granule
        &&& self.packet_no == ps.len()
        &&& ps.len() >= 2
        &&& self.granule == ps.last().granule
        &&& forall|i: int| 0 <= i < ps.len() ==> (#[trigger] ps[i]).seq == i
        &&& ps[0].granule == 0 && ps[0].bos && !ps[0].eos && ps[0].payload == default_ident()
        &&& ps[1].granule == 0 && !ps[1].bos && !ps[1].eos && ps[1].payload == default_comment()
        &&& forall|i: int|
            2 <= i < ps.len() ==> !(#[trigger] ps[i]).bos && ps[i].granule == ps[i - 1].granule
                + self.frame_samples
        &&& forall|i: int|
            0 <= i < ps.len() ==> ((#[trigger] ps[i]).eos <==> self.finished && i == ps.len() - 1)
    }

    /// Create a stream encoder: emits the identification and comment
    /// header packets and caches their pages for late joiners.
    pub fn new() -> (r: Self)
        ensures
            r.wf(),
            r.packets().len() == 2,
            r.packets()[0].granule == 0,
            !r.packets()[0].eos,
            r.packets()[1].granule == 0,
            !r.packets()[1].eos,
            !r.finished(),
            r.frame_samples() == FRAME_SAMPLES,
            r.granule_end() == 0,
            r.header_bytes() == header_pages_bytes(),
            r.header_pages_view() == seq![ident_page_view(), comment_page_view()],
            r.assembler() == (StreamView {
                serial: 0u32,
                page_no: 2u32,
                bos_written: true,
                eos_queued: false,
                flush_pending: false,
                continued: false,
                lacing: Seq::<u8>::empty(),
                granules: Seq::<u64>::empty(),
                body: Seq::<u8>::empty(),
                next_packet_no: 2u64,
                last_granule: 0u64,
            }),
    {
        let mut stream = OggStreamState::new();
        let mut headers: Vec<u8> = Vec::new();

        let ident = ident_payload(CHANNELS, PRE_SKIP, SAMPLE_RATE, 0, 0);
        let r1 = stream.encode(ident.as_slice(), 0, 0, true, false);
        assert(r1 is Ok);
        stream.flush();
        proof {
            crate::ogg::lemma_lacing_of_sum(19);
            assert(stream@.lacing =~= lacing_of(19));
            assert(stream@.body =~= default_ident());
        }
        let pg1 = stream.drain().unwrap();
        proof {
            assert(stream@.lacing.len() == 0) by {
                assert(lacing_of(19) =~= seq![19u8]);
                assert(lacing_of(19).skip(1) =~= Seq::<u8>::empty());
            }
            assert(lacing_of(19).take(1) =~= lacing_of(19));
            assert(default_ident().take(19) =~= default_ident());
            assert(pg1@.header == page_header_spec(
                2,
                0,
                0,
                0,
                page_crc(2, 0, 0, 0, lacing_of(19), default_ident()),
                lacing_of(19),
            ));
            assert(pg1@.body == default_ident());
        }
        headers.append(&mut pg1.header.clone());
        headers.append(&mut pg1.body.clone());
        proof {
            assert(headers@ =~= page_bytes(2, 0, 0, 0, lacing_of(19), default_ident()));
        }

        let mut vendor: Vec<u8> = Vec::new();
        vendor.push(0x6F);
        vendor.push(0x67);
        vendor.push(0x67);
        vendor.push(0x5F);
        vendor.push(0x6F);
        vendor.push(0x70);
        vendor.push(0x75);
        vendor.push(0x73);
        let entries: Vec<Vec<u8>> = Vec::new();
        proof {
            assert(vendor@ =~= default_vendor());
            assert(entries.deep_view() =~= Seq::<Seq<u8>>::empty());
        }
        let comment = comment_payload(&vendor, &entries);
        let ghost clen = default_comment().len();
        proof {
            assert(crate::headers::comments_bytes(Seq::<Seq<u8>>::empty()) =~= Seq::<u8>::empty());
            assert(clen == 24);
        }
        let r2 = stream.encode(comment.as_slice(), 0, 1, false, false);
        assert(r2 is Ok);
        stream.flush();
        proof {
            crate::ogg::lemma_lacing_of_sum(clen);
            assert(stream@.lacing =~= lacing_of(clen));
            assert(stream@.body =~= default_comment());
        }
        let pg2 = stream.drain().unwrap();
        proof {
            assert(lacing_of(clen).take(1) =~= lacing_of(clen));
            assert(default_comment().take(clen as int) =~= default_comment());
            assert(pg2@.header == page_header_spec(
                0,
                0,
                0,
                1,
                page_crc(0, 0, 0, 1, lacing_of(clen), default_comment()),
                lacing_of(clen),
            ));
            assert(pg2@.body == default_comment());
        }
        headers.append(&mut pg2.header.clone());
        headers.append(&mut pg2.body.clone());
        proof {
            assert(headers@ =~= header_pages_bytes());
        }
        let mut header_pages: Vec<Page> = Vec::new();
        header_pages.push(pg1);
        header_pages.push(pg2);
        proof {
            assert(views_of(header_pages@) =~= seq![ident_page_view(), comment_page_view()]);
        }

        let ghost ps = seq![
            PacketInfo {
                seq: 0,
                granule: 0,
                bos: true,
                eos: false,
                payload: default_ident(),
            },
            PacketInfo { seq: 1, granule: 0, bos: false, eos: false, payload: default_comment() },
        ];
        let r = StreamEncoder {
            stream,
            packet_no: 2,
            granule: 0,
            frame_samples: FRAME_SAMPLES,
            finished: false,
            headers,
            header_pages,
            packets: Ghost(ps),
        };
        proof {
            assert(r.packets@.last() == r.packets@[1]);
            assert(r.packets@.drop_last() =~= seq![r.packets@[0]]);
            assert(seq![r.packets@[0]].drop_last() =~= Seq::<PacketInfo>::empty());
            assert(payloads_concat(Seq::<PacketInfo>::empty()) == Seq::<u8>::empty());
            assert(payloads_concat(seq![r.packets@[0]]) =~= Seq::<u8>::empty() + default_ident());
            assert(r.stream.submitted_bytes() =~= payloads_concat(r.packets@));
            assert(r.stream@ =~= (StreamView {
                serial: 0u32,
                page_no: 2u32,
                bos_written: true,
                eos_queued: false,
                flush_pending: false,
                continued: false,
                lacing: Seq::<u8>::empty(),
                granules: Seq::<u64>::empty(),
                body: Seq::<u8>::empty(),
                next_packet_no: 2u64,
                last_granule: 0u64,
            }));
        }
        r
    }

    /// Submit one audio packet's payload: the compressed bytes the
    /// external codec produced for exactly one frame.
    pub fn encode(&mut self, payload: &[u8]) -> (r: Result<(), StreamError>)
        requires
            old(self).wf(),
        ensures
            final(self).wf(),
            r is Ok <==> (!old(self).finished() && old(self).granule_end() + old(
                self,
            ).frame_samples() <= u64::MAX && old(self).packets().len() < u64::MAX),
            r is Ok ==> final(self).packets() == old(self).packets().push(
                PacketInfo {
                    seq: old(self).packets().len() as u64,
                    granule: (old(self).granule_end() + old(self).frame_samples()) as u64,
                    bos: false,
                    eos: false,
                    payload: payload@,
                },
            ),
            r is Err ==> final(self).packets() == old(self).packets(),
            final(self).finished() == old(self).finished(),
            final(self).frame_samples() == old(self).frame_samples(),
            final(self).header_bytes() == old(self).header_bytes(),
            final(self).header_pages_view() == old(self).header_pages_view(),
            r is Ok ==> final(self).granule_end() == old(self).granule_end() + old(
                self,
            ).frame_samples(),
            r is Err ==> final(self).granule_end() == old(self).granule_end(),
            r is Ok ==> final(self).assembler() == crate::ogg::stream_after_packet(
                old(self).assembler(),
                payload@,
                (old(self).granule_end() + old(self).frame_samples()) as u64,
                false,
            ),
            r is Err ==> final(self).assembler() == old(self).assembler(),
    {
        self.submit(payload, false)
    }

    /// Submit the terminal audio packet: as `encode`, but marked
    /// end-of-stream, and everything buffered is owed to `page`.
    pub fn finish(&mut self, payload: &[u8]) -> (r: Result<(), StreamError>)
        requires
            old(self).wf(),
        ensures
            final(self).wf(),
            r is Ok <==> (!old(self).finished() && old(self).granule_end() + old(
                self,
            ).frame_samples() <= u64::MAX && old(self).packets().len() < u64::MAX),
            r is Ok ==> final(self).packets() == old(self).packets().push(
                PacketInfo {
                    seq: old(self).packets().len() as u64,
                    granule: (old(self).granule_end() + old(self).frame_samples()) as u64,
                    bos: false,
                    eos: true,
                    payload: payload@,
                },
            ) && final(self).finished(),
            r is Err ==> final(self).packets() == old(self).packets() && final(self).finished()
                == old(self).finished(),
            final(self).frame_samples() == old(self).frame_samples(),
            final(self).header_bytes() == old(self).header_bytes(),
            final(self).header_pages_view() == old(self).header_pages_view(),
            r is Ok ==> final(self).granule_end() == old(self).granule_end() + old(
                self,
            ).frame_samples(),
            r is Err ==> final(self).granule_end() == old(self).granule_end(),
            r is Ok ==> final(self).assembler() == ({
                let queued = crate::ogg::stream_after_packet(
                    old(self).assembler(),
                    payload@,
                    (old(self).granule_end() + old(self).frame_samples()) as u64,
                    true,
                );
                (StreamView { flush_pending: queued.lacing.len() > 0, ..queued })
            }),
            r is Err ==> final(self).assembler() == old(self).assembler(),
    {
        let r = self.submit(payload, true);
        if r.is_ok() {
            self.stream.flush();
        }
        r
    }

    /// Packetize one payload with the next sequence number and granule
    /// position.
    fn submit(&mut self, payload: &[u8], end: bool) -> (r: Result<(), StreamError>)
        requires
            old(self).wf(),
        ensures
            final(self).wf(),
            r is Ok <==> (!old(self).finished() && old(self).granule_end() + old(
                self,
            ).frame_samples() <= u64::MAX && old(self).packets().len() < u64::MAX),
            r is Ok ==> final(self).packets() == old(self).packets().push(
                PacketInfo {
                    seq: old(self).packets().len() as u64,
                    granule: (old(self).granule_end() + old(self).frame_samples()) as u64,
                    bos: false,
                    eos: end,
                    payload: payload@,
                },
            ) && final(self).finished() == end,
            r is Err ==> final(self).packets() == old(self).packets() && final(self).finished()
                == old(self).finished(),
            final(self).frame_samples() == old(self).frame_samples(),
            final(self).header_bytes() == old(self).header_bytes(),
            final(self).header_pages_view() == old(self).header_pages_view(),
            r is Ok ==> final(self).granule_end() == old(self).granule_end() + old(
                self,
            ).frame_samples(),
            r is Err ==> final(self).granule_end() == old(self).granule_end(),
            r is Ok ==> final(self).assembler() == crate::ogg::stream_after_packet(
                old(self).assembler(),
                payload@,
                (old(self).granule_end() + old(self).frame_samples()) as u64,
                end,
            ),
            r is Err ==> final(self).assembler() == old(self).assembler(),
    {
        if self.finished {
            return Err(StreamError::AfterEnd);
        }
        if self.granule > u64::MAX - self.frame_samples {
            return Err(StreamError::CounterExhausted);
        }
        if self.packet_no == u64::MAX {
            return Err(StreamError::CounterExhausted);
        }
        let g = self.granule + self.frame_samples;
        let r = self.stream.encode(payload, g, self.packet_no, false, end);
        assert(r is Ok);
        let ghost old_ps = self.packets@;
        let ghost info = PacketInfo {
            seq: self.packet_no,
            granule: g,
            bos: false,
            eos: end,
            payload: payload@,
        };
        proof {
            self.packets@ = old_ps.push(info);
        }
        self.granule = g;
        self.packet_no = self.packet_no + 1;
        self.finished = end;
        proof {
            let ps = self.packets@;
            assert(ps.last() == info);
            assert(ps.drop_last() =~= old_ps);
            assert(self.stream.submitted_bytes() =~= payloads_concat(ps));
            assert forall|i: int| 0 <= i < ps.len() implies (#[trigger] ps[i]).seq == i by {
                if i < old_ps.len() {
                    assert(ps[i] == old_ps[i]);
                }
            }
            assert forall|i: int| 2 <= i < ps.len() implies !(#[trigger] ps[i]).bos && ps[i].granule
                == ps[i - 1].granule + self.frame_samples by {
                if i < old_ps.len() {
                    assert(ps[i] == old_ps[i]);
                    if i - 1 < old_ps.len() {
                        assert(ps[i - 1] == old_ps[i - 1]);
                    }
                } else {
                    assert(ps[i] == info);
                    assert(ps[i - 1] == old_ps[i - 1]);
                    assert(old_ps[i - 1] == old_ps.last());
                }
            }
            assert forall|i: int| 0 <= i < ps.len() implies ((#[trigger] ps[i]).eos <==> self.finished
                && i == ps.len() - 1) by {
                if i < old_ps.len() {
                    assert(ps[i] == old_ps[i]);
                }
            }
        }
        Ok(())
    }

    /// Emit one assembled page if one is owed; callers loop until
    /// `None`.
    pub fn page(&mut self) -> (r: Option<Page>)
        requires
            old(self).wf(),
        ensures
            final(self).wf(),
            final(self).packets() == old(self).packets(),
            final(self).finished() == old(self).finished(),
            final(self).frame_samples() == old(self).frame_samples(),
            final(self).granule_end() == old(self).granule_end(),
            final(self).header_bytes() == old(self).header_bytes(),
            final(self).header_pages_view() == old(self).header_pages_view(),
            r is Some <==> crate::ogg::should_emit(old(self).assembler()),
            r is None ==> final(self).assembler() == old(self).assembler(),
            r is Some ==> ({
                let v = old(self).assembler();
                let vals = if v.lacing.len() > 255 {
                    255int
                } else {
                    v.lacing.len() as int
                };
                let lac = v.lacing.take(vals);
                let pbody = v.body.take(crate::ogg::lace_sum(lac));
                let flags = crate::ogg::page_flags(
                    v.continued,
                    !v.bos_written,
                    v.eos_queued && vals == v.lacing.len(),
                );
                let gran = crate::ogg::page_granule(v.lacing, v.granules, vals);
                let crc = page_crc(flags, gran, v.serial, v.page_no, lac, pbody);
                &&& r.unwrap()@.header == page_header_spec(
                    flags,
                    gran,
                    v.serial,
                    v.page_no,
                    crc,
                    lac,
                )
                &&& r.unwrap()@.body == pbody
                &&& final(self).assembler() == (StreamView {
                    page_no: if v.page_no == 0xFFFF_FFFF {
                        0u32
                    } else {
                        (v.page_no + 1) as u32
                    },
                    bos_written: true,
                    flush_pending: v.flush_pending && vals < v.lacing.len(),
                    continued: lac.last() == 255,
                    lacing: v.lacing.skip(vals),
                    granules: v.granules.skip(vals),
                    body: v.body.skip(crate::ogg::lace_sum(lac)),
                    ..v
                })
            }),
    {
        self.stream.drain()
    }

    /// The cached bytes of the header pages, a decodable stream prefix.
    pub fn head(&self) -> (r: &[u8])
        ensures
            r@ == self.header_bytes(),
    {
        self.headers.as_slice()
    }

    /// The cached header pages, for a registry to replay to each new
    /// subscriber.
    pub fn header_pages(&self) -> (r: &Vec<Page>)
        ensures
            views_of(r@) == self.header_pages_view(),
    {
        &self.header_pages
    }
}

/// Every payload byte accepted is paged out exactly once and in order:
/// the bodies of the pages emitted so far, with the buffered remainder
/// appended, are exactly the packet payloads concatenated in sequence
/// order.
pub proof fn lemma_payload_conservation(s: &StreamEncoder)
    requires
        s.wf(),
    ensures
        s.emitted_bytes() + s.assembler().body == payloads_concat(s.packets()),
{
    crate::ogg::lemma_accounted(s.stream_ref());
}

/// Packet sequence numbers are exactly 0, 1, 2, ... with no gaps;
/// packet 0 is the identification header, the only packet flagged
/// begin-of-stream, and packet 1 is the comment header; both header
/// packets carry granule position 0 and are not end-of-stream.
pub proof fn lemma_packet_sequencing(s: &StreamEncoder)
    requires
        s.wf(),
    ensures
        s.packets().len() >= 2,
        forall|i: int| 0 <= i < s.packets().len() ==> (#[trigger] s.packets()[i]).seq == i,
        s.packets()[0].payload == default_ident(),
        s.packets()[0].bos,
        s.packets()[0].granule == 0,
        !s.packets()[0].eos,
        s.packets()[1].payload == default_comment(),
        s.packets()[1].granule == 0,
        !s.packets()[1].eos,
        forall|i: int| 1 <= i < s.packets().len() ==> !(#[trigger] s.packets()[i]).bos,
{
}

/// Granule positions are non-decreasing over the whole stream, and each
/// audio packet raises the granule position by exactly one frame's
/// sample count.
pub proof fn lemma_granule_progression(s: &StreamEncoder)
    requires
        s.wf(),
    ensures
        forall|i: int, j: int|
            0 <= i <= j < s.packets().len() ==> (#[trigger] s.packets()[i]).granule <= (
            #[trigger] s.packets()[j]).granule,
        forall|i: int|
            2 <= i < s.packets().len() ==> (#[trigger] s.packets()[i]).granule == s.packets()[i
                - 1].granule + s.frame_samples(),
{
    let ps = s.packets();
    assert forall|i: int, j: int| 0 <= i <= j < ps.len() implies (#[trigger] ps[i]).granule <= (
    #[trigger] ps[j]).granule by {
        lemma_granule_chain(ps, s.frame_samples(), i, j);
    }
}

/// Chained single steps give monotonicity.
proof fn lemma_granule_chain(ps: Seq<PacketInfo>, fs: u64, i: int, j: int)
    requires
        0 <= i <= j < ps.len(),
        ps.len() >= 2 ==> ps[0].granule == 0 && ps[1].granule == 0,
        forall|k: int| 2 <= k < ps.len() ==> (#[trigger] ps[k]).granule == ps[k - 1].granule + fs,
    ensures
        ps[i].granule <= ps[j].granule,
    decreases j - i,
{
    if i < j {
        lemma_granule_chain(ps, fs, i, j - 1);
    }
}

} // verus!
