//! The page assembler: buffers submitted packets and emits complete Ogg
//! pages on demand.  A page is a 27-byte header, a segment table of
//! lacing values, and a body; its checksum covers the whole page with
//! the checksum field zeroed.

use vstd::prelude::*;

use crate::bytes::{le32, le64, push_le32, push_le64};
use crate::crc::{crc_of, crc_update, lemma_crc_seq_append};

verus! {

/// A granule position written into a page that no packet ends on.
pub const NO_GRANULE: u64 = 0xFFFF_FFFF_FFFF_FFFF;

/// The nominal body size above which a page is emitted without a flush.
pub const PAGE_NOMINAL_BODY: usize = 4096;

/// One Ogg page: the unit handed to listeners, never split.
pub struct Page {
    /// Header bytes: capture pattern through segment table.
    pub header: Vec<u8>,
    /// Body bytes: the laced packet data.
    pub body: Vec<u8>,
}

/// The mathematical content of a page.
#[verifier::ext_equal]
pub ghost struct PageView {
    pub header: Seq<u8>,
    pub body: Seq<u8>,
}

impl View for Page {
    type V = PageView;

    open spec fn view(&self) -> PageView {
        PageView { header: self.header@, body: self.body@ }
    }
}

impl Clone for Page {
    fn clone(&self) -> (r: Self)
        ensures
            r@ == self@,
    {
        Page { header: self.header.clone(), body: self.body.clone() }
    }
}

/// The views of a sequence of pages.
pub open spec fn views_of(s: Seq<Page>) -> Seq<PageView> {
    Seq::new(s.len(), |i: int| s[i]@)
}

/// A malformed packet submission: an internal invariant violation,
/// fatal to the stream rather than recoverable.
#[derive(Clone, Copy, Debug, PartialEq, Eq, Structural)]
pub enum StreamError {
    /// The packet's sequence number is not the next one owed.
    BadSequence,
    /// The packet's granule position is below its predecessor's.
    GranuleRegression,
    /// The begin-of-stream flag does not match the packet's position.
    BadBeginFlag,
    /// A packet was submitted after the end-of-stream packet.
    AfterEnd,
    /// A sequence number or granule position counter has no room left.
    CounterExhausted,
}

/// The lacing values of a packet body of `len` bytes: 255 for each full
/// segment, closed by a final value below 255.
pub open spec fn lacing_of(len: nat) -> Seq<u8>
    decreases len,
{
    if len < 255 {
        seq![len as u8]
    } else {
        seq![255u8] + lacing_of((len - 255) as nat)
    }
}

/// The number of body bytes a sequence of lacing values accounts for.
pub open spec fn lace_sum(s: Seq<u8>) -> int
    decreases s.len(),
{
    if s.len() == 0 {
        0int
    } else {
        lace_sum(s.drop_last()) + s.last()
    }
}

/// The granule position of a page taking the first `vals` lacing
/// values: that of the last packet completed on the page, or none.
pub open spec fn page_granule(lacing: Seq<u8>, granules: Seq<u64>, vals: int) -> u64
    decreases vals,
{
    if vals <= 0 {
        NO_GRANULE
    } else if lacing[vals - 1] < 255 {
        granules[vals - 1]
    } else {
        page_granule(lacing, granules, vals - 1)
    }
}

/// The header-type byte: continuation, begin-of-stream, end-of-stream.
pub open spec fn page_flags(continued: bool, bos: bool, eos: bool) -> u8 {
    ((if continued {
        1int
    } else {
        0int
    }) + (if bos {
        2int
    } else {
        0int
    }) + (if eos {
        4int
    } else {
        0int
    })) as u8
}

/// The header bytes of a page: capture pattern `"OggS"`, version 0,
/// flags, granule position, serial number, page sequence number,
/// checksum, segment count, segment table.
pub open spec fn page_header_spec(
    flags: u8,
    granule: u64,
    serial: u32,
    page_no: u32,
    crc: u32,
    lacing: Seq<u8>,
) -> Seq<u8> {
    seq![0x4Fu8, 0x67u8, 0x67u8, 0x53u8, 0u8, flags] + le64(granule) + le32(serial) + le32(page_no)
        + le32(crc) + seq![lacing.len() as u8] + lacing
}

/// The checksum a page carries: over the whole page with the checksum
/// field zeroed.
pub open spec fn page_crc(
    flags: u8,
    granule: u64,
    serial: u32,
    page_no: u32,
    lacing: Seq<u8>,
    body: Seq<u8>,
) -> u32 {
    crc_of(page_header_spec(flags, granule, serial, page_no, 0, lacing) + body)
}

/// Splitting a lacing sequence splits the body bytes it accounts for.
pub proof fn lemma_lace_sum_split(s: Seq<u8>, v: int)
    requires
        0 <= v <= s.len(),
    ensures
        lace_sum(s) == lace_sum(s.take(v)) + lace_sum(s.skip(v)),
    decreases s.len(),
{
    if s.len() == v {
        assert(s.take(v) =~= s);
        assert(s.skip(v) =~= Seq::<u8>::empty());
    } else {
        lemma_lace_sum_split(s.drop_last(), v);
        assert(s.drop_last().take(v) =~= s.take(v));
        assert(s.skip(v).drop_last() =~= s.drop_last().skip(v));
        assert(s.skip(v).last() == s.last());
        assert(s.skip(v).len() > 0);
    }
}

/// Every lacing value accounts for at most 255 bytes.
pub proof fn lemma_lace_sum_bounds(s: Seq<u8>)
    ensures
        0 <= lace_sum(s) <= 255 * s.len(),
    decreases s.len(),
{
    if s.len() > 0 {
        lemma_lace_sum_bounds(s.drop_last());
    }
}

/// A single lacing value accounts for exactly itself.
pub proof fn lemma_lace_sum_singleton(b: u8)
    ensures
        lace_sum(seq![b]) == b,
{
    assert(seq![b].drop_last() =~= Seq::<u8>::empty());
    assert(lace_sum(Seq::<u8>::empty()) == 0);
}

/// The lacing values of a packet account for exactly its length.
pub proof fn lemma_lacing_of_sum(len: nat)
    ensures
        lace_sum(lacing_of(len)) == len,
        lacing_of(len).len() >= 1,
        lacing_of(len).last() < 255,
    decreases len,
{
    if len < 255 {
        lemma_lace_sum_singleton(len as u8);
    } else {
        lemma_lacing_of_sum((len - 255) as nat);
        let rest = lacing_of((len - 255) as nat);
        let whole = seq![255u8] + rest;
        lemma_lace_sum_split(whole, 1);
        let single = seq![255u8];
        assert(whole.take(1) =~= single);
        assert(whole.skip(1) =~= rest);
        lemma_lace_sum_singleton(255u8);
        assert(whole.last() == rest.last());
    }
}

/// The mathematical state of the page assembler.
#[verifier::ext_equal]
pub ghost struct StreamView {
    /// The stream serial number, constant for the stream's lifetime.
    pub serial: u32,
    /// The sequence number of the next page to emit.
    pub page_no: u32,
    /// Whether the first page has been emitted.
    pub bos_written: bool,
    /// Whether the end-of-stream packet has been submitted.
    pub eos_queued: bool,
    /// Whether buffered data must be paged out regardless of size.
    pub flush_pending: bool,
    /// Whether the next page continues a packet split across pages.
    pub continued: bool,
    /// Queued lacing values, front to back.
    pub lacing: Seq<u8>,
    /// For each queued lacing value, its packet's granule position.
    pub granules: Seq<u64>,
    /// Queued body bytes.
    pub body: Seq<u8>,
    /// The sequence number owed by the next packet.
    pub next_packet_no: u64,
    /// The granule position of the last submitted packet.
    pub last_granule: u64,
}

/// The page assembler for one logical bitstream.
pub struct OggStreamState {
    serial: u32,
    page_no: u32,
    bos_written: bool,
    eos_queued: bool,
    flush_pending: bool,
    continued: bool,
    lacing: Vec<u8>,
    granules: Vec<u64>,
    body: Vec<u8>,
    next_packet_no: u64,
    last_granule: u64,
    submitted: Ghost<Seq<u8>>,
    emitted: Ghost<Seq<u8>>,
}

impl View for OggStreamState {
    type V = StreamView;

    closed spec fn view(&self) -> StreamView {
        StreamView {
            serial: self.serial,
            page_no: self.page_no,
            bos_written: self.bos_written,
            eos_queued: self.eos_queued,
            flush_pending: self.flush_pending,
            continued: self.continued,
            lacing: self.lacing@,
            granules: self.granules@,
            body: self.body@,
            next_packet_no: self.next_packet_no,
            last_granule: self.last_granule,
        }
    }
}

impl OggStreamState {
    /// Every packet body byte accepted so far, in submission order.
    pub closed spec fn submitted_bytes(&self) -> Seq<u8> {
        self.submitted@
    }

    /// Every page body byte emitted so far, in emission order.
    pub closed spec fn emitted_bytes(&self) -> Seq<u8> {
        self.emitted@
    }

    /// Byte conservation: what was paged out, followed by what is still
    /// buffered, is exactly what was submitted - no byte lost, invented
    /// or reordered.
    pub closed spec fn accounted(&self) -> bool {
        self.emitted@ + self@.body == self.submitted@
    }
}

/// What `accounted` guarantees: emitted page bodies, with the buffered
/// remainder appended, are exactly the submitted packet bodies.
pub proof fn lemma_accounted(st: &OggStreamState)
    requires
        st.accounted(),
    ensures
        st.emitted_bytes() + st@.body == st.submitted_bytes(),
{
}

/// Whether the buffered state is internally consistent: one granule per
/// lacing value, and the lacing values account for the whole body.
pub open spec fn stream_wf(v: StreamView) -> bool {
    &&& v.lacing.len() == v.granules.len()
    &&& lace_sum(v.lacing) == v.body.len()
}

/// Whether a packet submission is accepted against state `v`.
pub open spec fn packet_accepted(
    v: StreamView,
    granule: u64,
    packet_no: u64,
    begin: bool,
    end: bool,
) -> bool {
    &&& !v.eos_queued
    &&& packet_no == v.next_packet_no
    &&& v.next_packet_no < 0xFFFF_FFFF_FFFF_FFFF
    &&& granule >= v.last_granule
    &&& begin == (v.next_packet_no == 0)
}

/// The state after a packet of body `data` is queued.
pub open spec fn stream_after_packet(
    v: StreamView,
    data: Seq<u8>,
    granule: u64,
    end: bool,
) -> StreamView {
    (StreamView {
        lacing: v.lacing + lacing_of(data.len()),
        granules: v.granules + Seq::new(lacing_of(data.len()).len(), |i: int| granule),
        body: v.body + data,
        next_packet_no: (v.next_packet_no + 1) as u64,
        last_granule: granule,
        eos_queued: end,
        ..v
    })
}

/// Whether `drain` owes a page: data is queued and either the first
/// page is still owed, a flush is pending, the segment table is full,
/// or the body has reached its nominal size.
pub open spec fn should_emit(v: StreamView) -> bool {
    &&& v.lacing.len() > 0
    &&& {
        ||| !v.bos_written
        ||| v.flush_pending
        ||| v.lacing.len() >= 255
        ||| v.body.len() > PAGE_NOMINAL_BODY
    }
}

/// Build the header bytes of a page.
fn build_header(flags: u8, granule: u64, serial: u32, page_no: u32, crc: u32, lacing: &Vec<u8>) -> (r:
    Vec<u8>)
    requires
        lacing@.len() <= 255,
    ensures
        r@ == page_header_spec(flags, granule, serial, page_no, crc, lacing@),
{
    let mut h: Vec<u8> = Vec::new();
    h.push(0x4F);
    h.push(0x67);
    h.push(0x67);
    h.push(0x53);
    h.push(0);
    h.push(flags);
    push_le64(&mut h, granule);
    push_le32(&mut h, serial);
    push_le32(&mut h, page_no);
    push_le32(&mut h, crc);
    h.push(lacing.len() as u8);
    h.extend_from_slice(lacing.as_slice());
    assert(h@ =~= page_header_spec(flags, granule, serial, page_no, crc, lacing@));
    h
}

/// Find the granule position of a page taking the first `vals` lacing
/// values.
fn page_granule_exec(lacing: &Vec<u8>, granules: &Vec<u64>, vals: usize) -> (r: u64)
    requires
        vals <= lacing@.len(),
        lacing@.len() == granules@.len(),
    ensures
        r == page_granule(lacing@, granules@, vals as int),
    decreases vals,
{
    if vals == 0 {
        NO_GRANULE
    } else if lacing[vals - 1] < 255 {
        granules[vals - 1]
    } else {
        page_granule_exec(lacing, granules, vals - 1)
    }
}

impl OggStreamState {
    /// Create an assembler for a fresh stream with the given serial
    /// number.
    pub fn with_serial(serial: u32) -> (r: Self)
        ensures
            stream_wf(r@),
            r@.serial == serial,
            r@.page_no == 0,
            !r@.bos_written,
            !r@.eos_queued,
            !r@.flush_pending,
            !r@.continued,
            r@.lacing.len() == 0,
            r@.body.len() == 0,
            r@.next_packet_no == 0,
            r@.last_granule == 0,
            r.accounted(),
            r.submitted_bytes() == Seq::<u8>::empty(),
            r.emitted_bytes() == Seq::<u8>::empty(),
    {
        let r = OggStreamState {
            serial,
            page_no: 0,
            bos_written: false,
            eos_queued: false,
            flush_pending: false,
            continued: false,
            lacing: Vec::new(),
            granules: Vec::new(),
            body: Vec::new(),
            next_packet_no: 0,
            last_granule: 0,
            submitted: Ghost(Seq::empty()),
            emitted: Ghost(Seq::empty()),
        };
        proof {
            assert(r.emitted@ + r@.body =~= r.submitted@);
        }
        r
    }

    /// Create an assembler with serial number 0.
    pub fn new() -> (r: Self)
        ensures
            stream_wf(r@),
            r@.serial == 0,
            r@.page_no == 0,
            !r@.bos_written,
            !r@.eos_queued,
            !r@.flush_pending,
            !r@.continued,
            r@.lacing.len() == 0,
            r@.body.len() == 0,
            r@.next_packet_no == 0,
            r@.last_granule == 0,
            r.accounted(),
            r.submitted_bytes() == Seq::<u8>::empty(),
            r.emitted_bytes() == Seq::<u8>::empty(),
    {
        Self::with_serial(0)
    }

    /// Submit one packet for paging.  A malformed submission leaves the
    /// state untouched and reports which invariant it violated.
    pub fn encode(
        &mut self,
        data: &[u8],
        granule: u64,
        packet_no: u64,
        begin: bool,
        end: bool,
    ) -> (r: Result<(), StreamError>)
        requires
            stream_wf(old(self)@),
            old(self).accounted(),
        ensures
            stream_wf(final(self)@),
            final(self).accounted(),
            final(self).emitted_bytes() == old(self).emitted_bytes(),
            r is Ok ==> final(self).submitted_bytes() == old(self).submitted_bytes() + data@,
            r is Err ==> final(self).submitted_bytes() == old(self).submitted_bytes(),
            r is Ok <==> packet_accepted(old(self)@, granule, packet_no, begin, end),
            r is Ok ==> final(self)@ == stream_after_packet(old(self)@, data@, granule, end),
            r is Err ==> final(self)@ == old(self)@,
            r == Err::<(), StreamError>(StreamError::AfterEnd) <==> old(self)@.eos_queued,
            r == Err::<(), StreamError>(StreamError::BadSequence) <==> (!old(self)@.eos_queued && !(
            packet_no == old(self)@.next_packet_no && old(self)@.next_packet_no
                < 0xFFFF_FFFF_FFFF_FFFF)),
            r == Err::<(), StreamError>(StreamError::GranuleRegression) <==> (!old(
                self,
            )@.eos_queued && packet_no == old(self)@.next_packet_no && old(self)@.next_packet_no
                < 0xFFFF_FFFF_FFFF_FFFF && granule < old(self)@.last_granule),
    {
        if self.eos_queued {
            return Err(StreamError::AfterEnd);
        }
        if packet_no != self.next_packet_no || self.next_packet_no == 0xFFFF_FFFF_FFFF_FFFF {
            return Err(StreamError::BadSequence);
        }
        if granule < self.last_granule {
            return Err(StreamError::GranuleRegression);
        }
        if begin != (self.next_packet_no == 0) {
            return Err(StreamError::BadBeginFlag);
        }
        let ghost old_view = self@;
        let ghost target_lacing = lacing_of(data@.len());
        proof {
            lemma_lacing_of_sum(data@.len());
        }
        let mut rem: usize = data.len();
        let ghost built = Seq::<u8>::empty();
        while rem >= 255
            invariant
                self@ == (StreamView {
                    lacing: old_view.lacing + built,
                    granules: old_view.granules + Seq::new(built.len(), |i: int| granule),
                    ..old_view
                }),
                old_view.next_packet_no < 0xFFFF_FFFF_FFFF_FFFF,
                built + lacing_of(rem as nat) == target_lacing,
                rem <= data@.len(),
                self.submitted@ == old(self).submitted@,
                self.emitted@ == old(self).emitted@,
            decreases rem,
        {
            self.lacing.push(255);
            self.granules.push(granule);
            proof {
                let built2 = built + seq![255u8];
                assert(self.lacing@ =~= old_view.lacing + built2);
                assert(self.granules@ =~= old_view.granules + Seq::new(
                    built2.len(),
                    |i: int| granule,
                ));
                assert(built2 + lacing_of((rem - 255) as nat) =~= built + lacing_of(rem as nat));
                assert(self@ =~= (StreamView {
                    lacing: old_view.lacing + built2,
                    granules: old_view.granules + Seq::new(built2.len(), |i: int| granule),
                    ..old_view
                }));
                built = built2;
            }
            rem = rem - 255;
        }
        self.lacing.push(rem as u8);
        self.granules.push(granule);
        proof {
            let built2 = built + seq![rem as u8];
            assert(lacing_of(rem as nat) =~= seq![rem as u8]);
            assert(built2 =~= target_lacing);
            assert(self.lacing@ =~= old_view.lacing + target_lacing);
            assert(self.granules@ =~= old_view.granules + Seq::new(
                target_lacing.len(),
                |i: int| granule,
            ));
        }
        self.body.extend_from_slice(data);
        self.submitted = Ghost(self.submitted@ + data@);
        self.next_packet_no = self.next_packet_no + 1;
        self.last_granule = granule;
        self.eos_queued = end;
        proof {
            assert(self.emitted@ + self@.body =~= self.submitted@);
            lemma_lace_sum_split(self.lacing@, old_view.lacing.len() as int);
            assert(self.lacing@.take(old_view.lacing.len() as int) =~= old_view.lacing);
            assert(self.lacing@.skip(old_view.lacing.len() as int) =~= target_lacing);
            assert(self@ =~= stream_after_packet(old_view, data@, granule, end));
        }
        Ok(())
    }

    /// Emit one complete page if one is owed.  Callers loop until
    /// `None`: one packet may yield zero, one, or several pages.
    pub fn drain(&mut self) -> (r: Option<Page>)
        requires
            stream_wf(old(self)@),
            old(self).accounted(),
        ensures
            stream_wf(final(self)@),
            final(self).accounted(),
            final(self).submitted_bytes() == old(self).submitted_bytes(),
            r is Some ==> final(self).emitted_bytes() == old(self).emitted_bytes()
                + r.unwrap()@.body,
            r is None ==> final(self).emitted_bytes() == old(self).emitted_bytes(),
            r is Some <==> should_emit(old(self)@),
            r is None ==> final(self)@ == old(self)@,
            r is Some ==> ({
                let v = old(self)@;
                let vals = if v.lacing.len() > 255 {
                    255int
                } else {
                    v.lacing.len() as int
                };
                let lac = v.lacing.take(vals);
                let pbody = v.body.take(lace_sum(lac));
                let flags = page_flags(
                    v.continued,
                    !v.bos_written,
                    v.eos_queued && vals == v.lacing.len(),
                );
                let gran = page_granule(v.lacing, v.granules, vals);
                let crc = page_crc(flags, gran, v.serial, v.page_no, lac, pbody);
                &&& r.unwrap()@.header == page_header_spec(
                    flags,
                    gran,
                    v.serial,
                    v.page_no,
                    crc,
                    lac,
                )
                &&& r.unwrap()@.body == pbody
                &&& final(self)@ == (StreamView {
                    page_no: if v.page_no == 0xFFFF_FFFF {
                        0u32
                    } else {
                        (v.page_no + 1) as u32
                    },
                    bos_written: true,
                    flush_pending: v.flush_pending && vals < v.lacing.len(),
                    continued: lac.last() == 255,
                    lacing: v.lacing.skip(vals),
                    granules: v.granules.skip(vals),
                    body: v.body.skip(lace_sum(lac)),
                    ..v
                })
            }),
    {
        let ghost v = self@;
        if self.lacing.len() == 0 {
            return None;
        }
        let emit = !self.bos_written || self.flush_pending || self.lacing.len() >= 255
            || self.body.len() > PAGE_NOMINAL_BODY;
        if !emit {
            return None;
        }
        let vals: usize = if self.lacing.len() > 255 {
            255
        } else {
            self.lacing.len()
        };
        proof {
            lemma_lace_sum_split(v.lacing, vals as int);
            lemma_lace_sum_bounds(v.lacing.take(vals as int));
            lemma_lace_sum_bounds(v.lacing.skip(vals as int));
        }
        let mut take_len: usize = 0;
        let mut i: usize = 0;
        while i < vals
            invariant
                i <= vals,
                self@ == v,
                vals <= v.lacing.len(),
                vals <= 255,
                take_len == lace_sum(v.lacing.take(i as int)),
                take_len <= 255 * i,
                self.submitted@ == old(self).submitted@,
                self.emitted@ == old(self).emitted@,
            decreases vals - i,
        {
            proof {
                assert(v.lacing.take(i + 1).drop_last() =~= v.lacing.take(i as int));
                assert(v.lacing.take(i + 1).last() == v.lacing[i as int]);
            }
            take_len = take_len + self.lacing[i] as usize;
            i = i + 1;
        }
        proof {
            assert(take_len == lace_sum(v.lacing.take(vals as int)));
            assert(take_len <= v.body.len());
        }
        let eos_now = self.eos_queued && vals == self.lacing.len();
        let flags: u8 = (if self.continued {
            1u8
        } else {
            0u8
        }) + (if !self.bos_written {
            2u8
        } else {
            0u8
        }) + (if eos_now {
            4u8
        } else {
            0u8
        });
        let gran = page_granule_exec(&self.lacing, &self.granules, vals);
        let mut lac_rest = self.lacing.split_off(vals);
        core::mem::swap(&mut self.lacing, &mut lac_rest);
        let page_lacing = lac_rest;
        let mut gr_rest = self.granules.split_off(vals);
        core::mem::swap(&mut self.granules, &mut gr_rest);
        let mut body_rest = self.body.split_off(take_len);
        core::mem::swap(&mut self.body, &mut body_rest);
        let page_body = body_rest;
        self.emitted = Ghost(self.emitted@ + page_body@);
        proof {
            assert(v.body.take(take_len as int) + v.body.skip(take_len as int) =~= v.body);
            assert(self.emitted@ + self.body@ =~= old(self).emitted@ + v.body);
            assert(page_lacing@ =~= v.lacing.take(vals as int));
            assert(self.lacing@ =~= v.lacing.skip(vals as int));
            assert(self.granules@ =~= v.granules.skip(vals as int));
            assert(page_body@ =~= v.body.take(take_len as int));
            assert(self.body@ =~= v.body.skip(take_len as int));
        }
        let h0 = build_header(flags, gran, self.serial, self.page_no, 0, &page_lacing);
        let c1 = crc_update(0, h0.as_slice());
        let c = crc_update(c1, page_body.as_slice());
        proof {
            lemma_crc_seq_append(0, h0@, page_body@);
        }
        let header = build_header(flags, gran, self.serial, self.page_no, c, &page_lacing);
        self.bos_written = true;
        self.continued = page_lacing[vals - 1] == 255;
        self.page_no = if self.page_no == 0xFFFF_FFFF {
            0
        } else {
            self.page_no + 1
        };
        if self.lacing.len() == 0 {
            self.flush_pending = false;
        }
        proof {
            let lac = v.lacing.take(vals as int);
            assert(lac.last() == page_lacing@[vals - 1]);
            assert(self@ =~= (StreamView {
                page_no: if v.page_no == 0xFFFF_FFFF {
                    0u32
                } else {
                    (v.page_no + 1) as u32
                },
                bos_written: true,
                flush_pending: v.flush_pending && vals < v.lacing.len(),
                continued: lac.last() == 255,
                lacing: v.lacing.skip(vals as int),
                granules: v.granules.skip(vals as int),
                body: v.body.skip(lace_sum(lac)),
                ..v
            }));
        }
        Some(Page { header, body: page_body })
    }

    /// Request that everything queued be paged out, regardless of the
    /// nominal page size.
    pub fn flush(&mut self)
        requires
            stream_wf(old(self)@),
            old(self).accounted(),
        ensures
            stream_wf(final(self)@),
            final(self).accounted(),
            final(self).submitted_bytes() == old(self).submitted_bytes(),
            final(self).emitted_bytes() == old(self).emitted_bytes(),
            final(self)@ == (StreamView {
                flush_pending: old(self)@.lacing.len() > 0,
                ..old(self)@
            }),
    {
        let p = self.lacing.len() > 0;
        self.flush_pending = p;
    }
}

} // verus!
