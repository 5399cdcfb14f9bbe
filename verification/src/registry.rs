//! The broadcast registry: a dynamic set of subscribers, each with a
//! bounded outbound queue.  Every emitted page is delivered to all live
//! subscribers with a non-blocking attempt; a saturated or closed queue
//! marks its subscriber for eviction, applied only after the full
//! fan-out pass, so one slow subscriber never costs the others a page.

use vstd::prelude::*;

use crate::ogg::{views_of, Page, PageView};

verus! {

/// The mathematical state of one subscriber.
#[verifier::ext_equal]
pub ghost struct SubView {
    /// The subscriber's handle.
    pub id: u64,
    /// The bound of its outbound queue.
    pub capacity: nat,
    /// Whether its channel has been closed.
    pub closed: bool,
    /// How many pages had been broadcast when it joined.
    pub join_index: int,
    /// Every page ever put on its queue, in order.
    pub received: Seq<PageView>,
    /// The pages still on its queue, oldest first.
    pub pending: Seq<PageView>,
}

/// Whether a page delivery to this subscriber completes immediately.
pub open spec fn sub_has_room(s: SubView) -> bool {
    !s.closed && s.pending.len() < s.capacity
}

/// The subscriber after a page is put on its queue.
pub open spec fn sub_with_page(s: SubView, p: PageView) -> SubView {
    (SubView { received: s.received.push(p), pending: s.pending.push(p), ..s })
}

/// The first position holding the subscriber `id`, or -1.
pub open spec fn sub_index(ss: Seq<SubView>, id: u64) -> int
    decreases ss.len(),
{
    if ss.len() == 0 {
        -1
    } else if ss[0].id == id {
        0
    } else {
        let r = sub_index(ss.drop_first(), id);
        if r < 0 {
            -1
        } else {
            r + 1
        }
    }
}

/// One connected listener's delivery state.
pub struct Subscriber {
    id: u64,
    capacity: usize,
    closed: bool,
    queue: Vec<Page>,
    join_index: Ghost<int>,
    received: Ghost<Seq<PageView>>,
}

impl View for Subscriber {
    type V = SubView;

    closed spec fn view(&self) -> SubView {
        SubView {
            id: self.id,
            capacity: self.capacity as nat,
            closed: self.closed,
            join_index: self.join_index@,
            received: self.received@,
            pending: views_of(self.queue@),
        }
    }
}

/// The live subscriber set and the cached header pages.
pub struct BroadcastRegistry {
    subs: Vec<Subscriber>,
    header_pages: Vec<Page>,
    next_id: u64,
    history: Ghost<Seq<PageView>>,
}

impl BroadcastRegistry {
    /// The current subscribers, in registration order.
    pub closed spec fn subs(&self) -> Seq<SubView> {
        Seq::new(self.subs@.len(), |i: int| self.subs@[i]@)
    }

    /// The cached header pages.
    pub closed spec fn headers(&self) -> Seq<PageView> {
        views_of(self.header_pages@)
    }

    /// Every live page broadcast so far, in emission order.
    pub closed spec fn history(&self) -> Seq<PageView> {
        self.history@
    }

    /// The handle the next subscriber will get.
    pub closed spec fn next_id(&self) -> u64 {
        self.next_id
    }

    /// The registry's invariant.  Its heart: every subscriber has been
    /// handed exactly the cached header pages followed by every live
    /// page broadcast since it joined, in order, and its queue holds a
    /// suffix of that sequence, the part its listener has not yet taken.
    pub closed spec fn wf(&self) -> bool {
        let ss = self.subs();
        &&& forall|i: int, j: int|
            0 <= i < j < ss.len() ==> (#[trigger] ss[i]).id != (#[trigger] ss[j]).id
        &&& forall|i: int| 0 <= i < ss.len() ==> (#[trigger] ss[i]).id < self.next_id
        &&& forall|i: int|
            0 <= i < ss.len() ==> 0 <= (#[trigger] ss[i]).join_index <= self.history@.len()
        &&& forall|i: int|
            0 <= i < ss.len() ==> (#[trigger] ss[i]).received == self.headers()
                + self.history@.skip(ss[i].join_index)
        &&& forall|i: int|
            0 <= i < ss.len() ==> (#[trigger] ss[i]).pending.len() <= ss[i].received.len()
                && ss[i].pending == ss[i].received.skip(
                ss[i].received.len() - ss[i].pending.len(),
            )
    }

    /// Create a registry with no subscribers and no cached pages.
    pub fn new() -> (r: Self)
        ensures
            r.wf(),
            r.subs().len() == 0,
            r.headers().len() == 0,
            r.history().len() == 0,
    {
        let r = BroadcastRegistry {
            subs: Vec::new(),
            header_pages: Vec::new(),
            next_id: 0,
            history: Ghost(Seq::empty()),
        };
        proof {
            assert(r.headers() =~= Seq::<PageView>::empty());
        }
        r
    }

    /// Cache one header page, to be replayed to every subscriber at
    /// join time.  Headers are cached at stream start, before any live
    /// page is broadcast and before anyone subscribes.
    pub fn cache_header(&mut self, page: &Page)
        requires
            old(self).wf(),
            old(self).history().len() == 0,
            old(self).subs().len() == 0,
        ensures
            final(self).wf(),
            final(self).headers() == old(self).headers().push(page@),
            final(self).history() == old(self).history(),
            final(self).subs() == old(self).subs(),
            final(self).next_id() == old(self).next_id(),
    {
        self.header_pages.push(page.clone());
        proof {
            assert(self.headers() =~= old(self).headers().push(page@));
            assert(self.subs() =~= old(self).subs());
        }
    }

    /// Register a new subscriber with the given outbound queue bound.
    /// It starts owed the cached header pages, already on its queue.
    /// Returns its handle, or nothing if the handle space is spent.
    pub fn join(&mut self, capacity: usize) -> (r: Option<u64>)
        requires
            old(self).wf(),
        ensures
            final(self).wf(),
            r is Some <==> old(self).next_id() < u64::MAX,
            r is None ==> final(self).subs() == old(self).subs(),
            final(self).next_id() == if old(self).next_id() < u64::MAX {
                (old(self).next_id() + 1) as u64
            } else {
                old(self).next_id()
            },
            r is Some ==> r.unwrap() == old(self).next_id() && final(self).subs() == old(
                self,
            ).subs().push(
                SubView {
                    id: old(self).next_id(),
                    capacity: capacity as nat,
                    closed: false,
                    join_index: old(self).history().len() as int,
                    received: old(self).headers(),
                    pending: old(self).headers(),
                },
            ),
            final(self).headers() == old(self).headers(),
            final(self).history() == old(self).history(),
    {
        if self.next_id == 0xFFFF_FFFF_FFFF_FFFF {
            return None;
        }
        let id = self.next_id;
        let queue = clone_pages(&self.header_pages);
        let sub = Subscriber {
            id,
            capacity,
            closed: false,
            queue,
            join_index: Ghost(self.history@.len() as int),
            received: Ghost(self.headers()),
        };
        proof {
            assert(sub@.received =~= views_of(self.header_pages@));
            assert(sub@.pending =~= views_of(self.header_pages@));
            assert(self.history@.skip(self.history@.len() as int) =~= Seq::<PageView>::empty());
            assert(sub@.received =~= self.headers() + self.history@.skip(sub@.join_index));
            assert(sub@.pending =~= sub@.received.skip(0));
        }
        self.subs.push(sub);
        self.next_id = id + 1;
        proof {
            assert(self.subs() =~= old(self).subs().push(sub@));
        }
        Some(id)
    }
    /// Deliver one page to every current subscriber with a non-blocking
    /// attempt.  Everyone with queue room gets the page; exactly those
    /// whose queue is saturated or closed are evicted, and only after
    /// the full fan-out pass, so one slow subscriber never costs the
    /// others a page.
    #[verifier::loop_isolation(false)]
    #[verifier::rlimit(60)]
    pub fn broadcast(&mut self, page: &Page)
        requires
            old(self).wf(),
        ensures
            final(self).wf(),
            final(self).history() == old(self).history().push(page@),
            final(self).headers() == old(self).headers(),
            final(self).next_id() == old(self).next_id(),
            final(self).subs() == old(self).subs().filter(|s: SubView| sub_has_room(s)).map_values(
                |s: SubView| sub_with_page(s, page@),
            ),
    {
        let ghost pv = page@;
        let ghost orig = old(self).subs();
        let ghost okf = |s: SubView| sub_has_room(s);
        let ghost df = |s: SubView| sub_with_page(s, pv);
        let ghost new_history = old(self).history@.push(pv);
        let ghost heads = old(self).headers();
        let mut kept: Vec<Subscriber> = Vec::new();
        proof {
            reveal(Seq::filter);
            assert(self.subs() =~= orig.skip(0));
            assert(orig.take(0).filter(okf).map_values(df) =~= Seq::<SubView>::empty());
        }
        while self.subs.len() > 0
            invariant
                self.header_pages@ == old(self).header_pages@,
                self.next_id == old(self).next_id,
                self.history@ == old(self).history@,
                orig.len() == old(self).subs@.len(),
                self.subs@.len() <= orig.len(),
                self.subs() =~= orig.skip(orig.len() - self.subs@.len()),
                Seq::new(kept@.len(), |i: int| kept@[i]@) == orig.take(
                    orig.len() - self.subs@.len(),
                ).filter(okf).map_values(df),
                forall|i: int, j: int|
                    0 <= i < j < kept@.len() ==> (#[trigger] kept@[i])@.id != (
                    #[trigger] kept@[j])@.id,
                forall|i: int, j: int|
                    0 <= i < kept@.len() && 0 <= j < self.subs@.len() ==> (#[trigger] kept@[i])@.id
                        != (#[trigger] self.subs@[j])@.id,
                forall|i: int|
                    0 <= i < kept@.len() ==> {
                        let s = (#[trigger] kept@[i])@;
                        &&& s.id < self.next_id
                        &&& 0 <= s.join_index <= new_history.len()
                        &&& s.received == heads + new_history.skip(s.join_index)
                        &&& s.pending.len() <= s.received.len()
                        &&& s.pending == s.received.skip(s.received.len() - s.pending.len())
                    },
                wf_old_tail(orig, heads, old(self).history@, old(self).next_id),
            decreases self.subs@.len(),
        {
            let ghost k = orig.len() - self.subs@.len();
            let ghost prev = self.subs@;
            let mut sub = self.subs.remove(0);
            proof {
                assert(Seq::new(prev.len(), |i: int| prev[i]@) == orig.skip(k));
                assert(self.subs@ =~= prev.skip(1));
                assert(sub == prev[0]);
                assert(sub@ == Seq::new(prev.len(), |i: int| prev[i]@)[0]);
                assert(sub@ == orig[k]);
                assert forall|i: int| 0 <= i < self.subs@.len() implies (#[trigger] self.subs@[i])@
                    == orig.skip(k + 1)[i] by {
                    assert(self.subs@[i] == prev[i + 1]);
                    assert(prev[i + 1]@ == Seq::new(prev.len(), |j: int| prev[j]@)[i + 1]);
                    assert(orig.skip(k)[i + 1] == orig[k + 1 + i]);
                    assert(orig.skip(k + 1)[i] == orig[k + 1 + i]);
                }
                assert(self.subs() =~= orig.skip(k + 1));
                assert(orig.take(k + 1).drop_last() =~= orig.take(k));
                assert(orig.take(k + 1).last() == orig[k]);
            }
            let ghost s0 = sub@;
            let ghost kept_views = Seq::new(kept@.len(), |i: int| kept@[i]@);
            if !sub.closed && sub.queue.len() < sub.capacity {
                let ghost qprev = sub.queue@;
                let fresh = page.clone();
                let ghost freshv = fresh@;
                sub.queue.push(fresh);
                sub.received = Ghost(sub.received@.push(pv));
                proof {
                    assert(freshv == pv);
                    assert forall|i: int| 0 <= i < sub.queue@.len() implies (
                    #[trigger] sub.queue@[i])@ == s0.pending.push(pv)[i] by {
                        if i < qprev.len() {
                            assert(sub.queue@[i] == qprev[i]);
                        } else {
                            assert(sub.queue@[i]@ == freshv);
                        }
                    }
                    assert(sub@.pending =~= s0.pending.push(pv));
                    assert(sub@ =~= df(orig[k]));
                    let s = sub@;
                    assert(new_history.skip(s.join_index) =~= old(self).history@.skip(
                        s.join_index,
                    ).push(pv));
                    assert(s.received =~= heads + new_history.skip(s.join_index));
                    assert(s.pending =~= s.received.skip(s.received.len() - s.pending.len()));
                }
                kept.push(sub);
                proof {
                    reveal(Seq::filter);
                    assert(Seq::new(kept@.len(), |i: int| kept@[i]@) =~= kept_views.push(
                        df(orig[k]),
                    ));
                    assert(orig.take(k + 1).filter(okf) =~= orig.take(k).filter(okf).push(orig[k]));
                    assert(orig.take(k + 1).filter(okf).map_values(df) =~= kept_views.push(
                        df(orig[k]),
                    ));
                }
            } else {
                proof {
                    reveal(Seq::filter);
                    assert(!okf(orig[k]));
                    assert(orig.take(k + 1).filter(okf) =~= orig.take(k).filter(okf));
                }
            }
        }
        self.subs = kept;
        self.history = Ghost(new_history);
        proof {
            assert(orig.take(orig.len() as int) =~= orig);
            assert(self.subs() =~= Seq::new(self.subs@.len(), |i: int| self.subs@[i]@));
            assert(self.headers() =~= heads);
        }
    }

    /// The number of current subscribers.
    pub fn subscriber_count(&self) -> (r: usize)
        ensures
            r == self.subs().len(),
    {
        self.subs.len()
    }

    /// Take the oldest undelivered page off subscriber `id`'s queue:
    /// the listener side of the channel.  Nothing is returned for an
    /// unknown handle or an empty queue.
    #[verifier::loop_isolation(false)]
    pub fn take(&mut self, id: u64) -> (r: Option<Page>)
        requires
            old(self).wf(),
        ensures
            final(self).wf(),
            final(self).headers() == old(self).headers(),
            final(self).history() == old(self).history(),
            final(self).next_id() == old(self).next_id(),
            ({
                let i = sub_index(old(self).subs(), id);
                if i >= 0 && old(self).subs()[i].pending.len() > 0 {
                    &&& r is Some
                    &&& r.unwrap()@ == old(self).subs()[i].pending[0]
                    &&& final(self).subs() == old(self).subs().update(
                        i,
                        (SubView {
                            pending: old(self).subs()[i].pending.drop_first(),
                            ..old(self).subs()[i]
                        }),
                    )
                } else {
                    r is None && final(self).subs() == old(self).subs()
                }
            }),
    {
        let ghost ss = self.subs();
        let n = self.subs.len();
        let mut idx: usize = 0;
        while idx < n && self.subs[idx].id != id
            invariant
                idx <= n,
                forall|j: int| 0 <= j < idx ==> (#[trigger] ss[j]).id != id,
            decreases n - idx,
        {
            idx = idx + 1;
        }
        if idx == n {
            proof {
                lemma_sub_index_none(ss, id);
            }
            return None;
        }
        proof {
            lemma_sub_index_found(ss, id, idx as int);
        }
        let ghost prev = self.subs@;
        let mut sub = self.subs.remove(idx);
        proof {
            assert(sub@ == ss[idx as int]);
        }
        if sub.queue.len() == 0 {
            self.subs.insert(idx, sub);
            proof {
                assert(self.subs@ =~= prev);
                assert(self.subs() =~= ss);
            }
            return None;
        }
        let ghost qprev = sub.queue@;
        let pg = sub.queue.remove(0);
        proof {
            assert(sub.queue@ =~= qprev.skip(1));
            assert(pg == qprev[0]);
            let s0 = ss[idx as int];
            assert(pg@ == s0.pending[0]);
            assert forall|i: int| 0 <= i < sub.queue@.len() implies (#[trigger] sub.queue@[i])@
                == s0.pending.drop_first()[i] by {
                assert(sub.queue@[i] == qprev[i + 1]);
            }
            assert(sub@.pending =~= s0.pending.drop_first());
            assert(sub@ =~= (SubView { pending: s0.pending.drop_first(), ..s0 }));
            assert(s0.pending.drop_first() =~= s0.received.skip(
                s0.received.len() - s0.pending.len() + 1,
            ));
        }
        self.subs.insert(idx, sub);
        proof {
            assert(self.subs@ =~= prev.update(idx as int, sub));
            assert(self.subs() =~= ss.update(
                idx as int,
                (SubView {
                    pending: ss[idx as int].pending.drop_first(),
                    ..ss[idx as int]
                }),
            ));
        }
        Some(pg)
    }

    /// Remove subscriber `id`; idempotent, and a no-op for an unknown
    /// handle.
    #[verifier::loop_isolation(false)]
    pub fn leave(&mut self, id: u64)
        requires
            old(self).wf(),
        ensures
            final(self).wf(),
            final(self).headers() == old(self).headers(),
            final(self).history() == old(self).history(),
            final(self).next_id() == old(self).next_id(),
            final(self).subs() == old(self).subs().filter(|s: SubView| s.id != id),
    {
        let ghost orig = old(self).subs();
        let ghost keepf = |s: SubView| s.id != id;
        let mut kept: Vec<Subscriber> = Vec::new();
        proof {
            reveal(Seq::filter);
            assert(self.subs() =~= orig.skip(0));
            assert(orig.take(0).filter(keepf) =~= Seq::<SubView>::empty());
        }
        while self.subs.len() > 0
            invariant
                self.header_pages@ == old(self).header_pages@,
                self.next_id == old(self).next_id,
                self.history@ == old(self).history@,
                self.subs@.len() <= orig.len(),
                self.subs() =~= orig.skip(orig.len() - self.subs@.len()),
                Seq::new(kept@.len(), |i: int| kept@[i]@) == orig.take(
                    orig.len() - self.subs@.len(),
                ).filter(keepf),
            decreases self.subs@.len(),
        {
            let ghost k = orig.len() - self.subs@.len();
            let ghost prev = self.subs@;
            let sub = self.subs.remove(0);
            proof {
                reveal(Seq::filter);
                assert(Seq::new(prev.len(), |i: int| prev[i]@) == orig.skip(k));
                assert(self.subs@ =~= prev.skip(1));
                assert(sub == prev[0]);
                assert(sub@ == Seq::new(prev.len(), |i: int| prev[i]@)[0]);
                assert(sub@ == orig[k]);
                assert forall|i: int| 0 <= i < self.subs@.len() implies (#[trigger] self.subs@[i])@
                    == orig.skip(k + 1)[i] by {
                    assert(self.subs@[i] == prev[i + 1]);
                    assert(prev[i + 1]@ == Seq::new(prev.len(), |j: int| prev[j]@)[i + 1]);
                }
                assert(self.subs() =~= orig.skip(k + 1));
                assert(orig.take(k + 1).drop_last() =~= orig.take(k));
                assert(orig.take(k + 1).last() == orig[k]);
            }
            let ghost kept_views = Seq::new(kept@.len(), |i: int| kept@[i]@);
            if sub.id != id {
                kept.push(sub);
                proof {
                    reveal(Seq::filter);
                    assert(Seq::new(kept@.len(), |i: int| kept@[i]@) =~= kept_views.push(orig[k]));
                    assert(orig.take(k + 1).filter(keepf) =~= orig.take(k).filter(keepf).push(
                        orig[k],
                    ));
                }
            } else {
                proof {
                    reveal(Seq::filter);
                    assert(!keepf(orig[k]));
                    assert(orig.take(k + 1).filter(keepf) =~= orig.take(k).filter(keepf));
                }
            }
        }
        self.subs = kept;
        proof {
            reveal(Seq::filter);
            assert(orig.take(orig.len() as int) =~= orig);
            let kf = orig.filter(keepf);
            assert(self.subs() =~= Seq::new(self.subs@.len(), |i: int| self.subs@[i]@));
            assert forall|i: int, j: int| 0 <= i < j < kf.len() implies (#[trigger] kf[i]).id != (
            #[trigger] kf[j]).id by {
                lemma_filter_members(orig, keepf, i, j);
            }
            assert forall|i: int| 0 <= i < kf.len() implies sub_wf_at(
                #[trigger] kf[i],
                self.headers(),
                self.history@,
                self.next_id,
            ) by {
                lemma_filter_member(orig, keepf, i);
                let w = choose|w: int|
                    0 <= w < orig.len() && orig[w] == kf[i];
                assert(sub_wf_at(orig[w], self.headers(), self.history@, self.next_id));
            }
        }
    }

    /// Close every subscriber's channel: the registry's final act at
    /// stream shutdown.  Queued pages stay takeable; nothing new is
    /// accepted.
    #[verifier::loop_isolation(false)]
    pub fn close_all(&mut self)
        requires
            old(self).wf(),
        ensures
            final(self).wf(),
            final(self).headers() == old(self).headers(),
            final(self).history() == old(self).history(),
            final(self).next_id() == old(self).next_id(),
            final(self).subs() == old(self).subs().map_values(
                |s: SubView| (SubView { closed: true, ..s }),
            ),
    {
        let ghost orig = old(self).subs();
        let ghost cf = |s: SubView| (SubView { closed: true, ..s });
        let mut kept: Vec<Subscriber> = Vec::new();
        proof {
            assert(self.subs() =~= orig.skip(0));
            assert(orig.take(0).map_values(cf) =~= Seq::<SubView>::empty());
        }
        while self.subs.len() > 0
            invariant
                self.header_pages@ == old(self).header_pages@,
                self.next_id == old(self).next_id,
                self.history@ == old(self).history@,
                self.subs@.len() <= orig.len(),
                self.subs() =~= orig.skip(orig.len() - self.subs@.len()),
                Seq::new(kept@.len(), |i: int| kept@[i]@) == orig.take(
                    orig.len() - self.subs@.len(),
                ).map_values(cf),
            decreases self.subs@.len(),
        {
            let ghost k = orig.len() - self.subs@.len();
            let ghost prev = self.subs@;
            let mut sub = self.subs.remove(0);
            proof {
                assert(Seq::new(prev.len(), |i: int| prev[i]@) == orig.skip(k));
                assert(self.subs@ =~= prev.skip(1));
                assert(sub@ == Seq::new(prev.len(), |i: int| prev[i]@)[0]);
                assert(sub@ == orig[k]);
                assert forall|i: int| 0 <= i < self.subs@.len() implies (#[trigger] self.subs@[i])@
                    == orig.skip(k + 1)[i] by {
                    assert(self.subs@[i] == prev[i + 1]);
                    assert(prev[i + 1]@ == Seq::new(prev.len(), |j: int| prev[j]@)[i + 1]);
                }
                assert(self.subs() =~= orig.skip(k + 1));
            }
            let ghost kept_views = Seq::new(kept@.len(), |i: int| kept@[i]@);
            sub.closed = true;
            proof {
                assert(sub@ =~= cf(orig[k]));
            }
            kept.push(sub);
            proof {
                assert(Seq::new(kept@.len(), |i: int| kept@[i]@) =~= kept_views.push(cf(orig[k])));
                assert(orig.take(k + 1).map_values(cf) =~= orig.take(k).map_values(cf).push(
                    cf(orig[k]),
                ));
            }
        }
        self.subs = kept;
        proof {
            assert(orig.take(orig.len() as int) =~= orig);
            assert(self.subs() =~= Seq::new(self.subs@.len(), |i: int| self.subs@[i]@));
            assert(self.subs() =~= orig.map_values(cf));
        }
    }

    /// Whether subscriber `id` is finished: unknown, or closed with an
    /// empty queue.  Its listener may then hang up.
    #[verifier::loop_isolation(false)]
    pub fn is_done(&self, id: u64) -> (r: bool)
        requires
            self.wf(),
        ensures
            r == ({
                let i = sub_index(self.subs(), id);
                i < 0 || (self.subs()[i].closed && self.subs()[i].pending.len() == 0)
            }),
    {
        let ghost ss = self.subs();
        let n = self.subs.len();
        let mut idx: usize = 0;
        while idx < n && self.subs[idx].id != id
            invariant
                idx <= n,
                forall|j: int| 0 <= j < idx ==> (#[trigger] ss[j]).id != id,
            decreases n - idx,
        {
            idx = idx + 1;
        }
        if idx == n {
            proof {
                lemma_sub_index_none(ss, id);
            }
            return true;
        }
        proof {
            lemma_sub_index_found(ss, id, idx as int);
        }
        self.subs[idx].closed && self.subs[idx].queue.len() == 0
    }
}

/// The well-formedness of one subscriber against the registry's cached
/// headers, history, and handle counter.
pub open spec fn sub_wf_at(
    s: SubView,
    heads: Seq<PageView>,
    history: Seq<PageView>,
    next_id: u64,
) -> bool {
    &&& s.id < next_id
    &&& 0 <= s.join_index <= history.len()
    &&& s.received == heads + history.skip(s.join_index)
    &&& s.pending.len() <= s.received.len()
    &&& s.pending == s.received.skip(s.received.len() - s.pending.len())
}

/// Every element of a filtered sequence occurs in the original.
proof fn lemma_filter_member(ss: Seq<SubView>, pred: spec_fn(SubView) -> bool, i: int)
    requires
        0 <= i < ss.filter(pred).len(),
    ensures
        exists|w: int| 0 <= w < ss.len() && ss[w] == ss.filter(pred)[i],
    decreases ss.len(),
{
    reveal(Seq::filter);
    if ss.len() > 0 {
        let sub = ss.drop_last().filter(pred);
        if i < sub.len() {
            lemma_filter_member(ss.drop_last(), pred, i);
            let w = choose|w: int| 0 <= w < ss.drop_last().len() && ss.drop_last()[w] == sub[i];
            assert(ss[w] == ss.filter(pred)[i]);
        } else {
            assert(ss[ss.len() - 1] == ss.filter(pred)[i]);
        }
    }
}

/// Two positions of a filtered sequence come from two distinct
/// positions of the original, in order.
proof fn lemma_filter_members(ss: Seq<SubView>, pred: spec_fn(SubView) -> bool, i: int, j: int)
    requires
        0 <= i < j < ss.filter(pred).len(),
        forall|a: int, b: int| 0 <= a < b < ss.len() ==> (#[trigger] ss[a]).id != (#[trigger] ss[b]).id,
    ensures
        ss.filter(pred)[i].id != ss.filter(pred)[j].id,
    decreases ss.len(),
{
    reveal(Seq::filter);
    if ss.len() > 0 {
        let sub = ss.drop_last().filter(pred);
        if j < sub.len() {
            lemma_filter_members(ss.drop_last(), pred, i, j);
        } else {
            assert(ss.filter(pred)[j] == ss.last());
            lemma_filter_member(ss.drop_last(), pred, i);
            let w = choose|w: int| 0 <= w < ss.drop_last().len() && ss.drop_last()[w] == sub[i];
            assert(ss[w] == ss.filter(pred)[i]);
            assert(ss[w].id != ss[ss.len() - 1].id);
        }
    }
}

/// A forward scan that stops at the first match computes `sub_index`.
proof fn lemma_sub_index_found(ss: Seq<SubView>, id: u64, k: int)
    requires
        0 <= k < ss.len(),
        ss[k].id == id,
        forall|j: int| 0 <= j < k ==> (#[trigger] ss[j]).id != id,
    ensures
        sub_index(ss, id) == k,
    decreases k,
{
    if k > 0 {
        lemma_sub_index_found(ss.drop_first(), id, k - 1);
    }
}

/// A scan that finds no match means the handle is unknown.
proof fn lemma_sub_index_none(ss: Seq<SubView>, id: u64)
    requires
        forall|j: int| 0 <= j < ss.len() ==> (#[trigger] ss[j]).id != id,
    ensures
        sub_index(ss, id) == -1,
    decreases ss.len(),
{
    if ss.len() > 0 {
        lemma_sub_index_none(ss.drop_first(), id);
    }
}

/// A subscriber that joins at any time has been handed, in order, the
/// cached header pages, then every page broadcast after its join, and
/// no page broadcast before it joined; its queue holds the suffix its
/// listener has not yet taken.
pub proof fn lemma_subscriber_stream(reg: &BroadcastRegistry, i: int)
    requires
        reg.wf(),
        0 <= i < reg.subs().len(),
    ensures
        0 <= reg.subs()[i].join_index <= reg.history().len(),
        reg.subs()[i].received == reg.headers() + reg.history().skip(reg.subs()[i].join_index),
        reg.subs()[i].pending.len() <= reg.subs()[i].received.len(),
        reg.subs()[i].pending == reg.subs()[i].received.skip(
            reg.subs()[i].received.len() - reg.subs()[i].pending.len(),
        ),
{
}

/// The conditions `broadcast` relies on for the subscribers it has not
/// yet reached: the registry's invariant, restricted to a suffix.
pub open spec fn wf_old_tail(
    ss: Seq<SubView>,
    heads: Seq<PageView>,
    history: Seq<PageView>,
    next_id: u64,
) -> bool {
    &&& forall|i: int, j: int| 0 <= i < j < ss.len() ==> (#[trigger] ss[i]).id != (#[trigger] ss[j]).id
    &&& forall|i: int|
        0 <= i < ss.len() ==> {
            let s = #[trigger] ss[i];
            &&& s.id < next_id
            &&& 0 <= s.join_index <= history.len()
            &&& s.received == heads + history.skip(s.join_index)
            &&& s.pending.len() <= s.received.len()
            &&& s.pending == s.received.skip(s.received.len() - s.pending.len())
        }
}

/// Copy a list of pages, preserving every byte.
fn clone_pages(v: &Vec<Page>) -> (r: Vec<Page>)
    ensures
        views_of(r@) == views_of(v@),
        r@.len() == v@.len(),
{
    let mut r: Vec<Page> = Vec::new();
    let mut i: usize = 0;
    while i < v.len()
        invariant
            i <= v@.len(),
            r@.len() == i,
            views_of(r@) == views_of(v@).take(i as int),
        decreases v@.len() - i,
    {
        r.push(v[i].clone());
        proof {
            assert(views_of(r@) =~= views_of(v@).take(i + 1));
        }
        i = i + 1;
    }
    proof {
        assert(views_of(v@).take(v@.len() as int) =~= views_of(v@));
    }
    r
}

} // verus!
