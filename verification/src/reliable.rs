use vstd::prelude::*;

use crate::error::NexError;
use crate::fragmentation::{FragmentAssembler, fragment_chunks, fragment_id_spec,
    fragment_payload};
use crate::packet_dispatch_queue::{PacketDispatchQueue, PushOutcome, es_has, es_index_of,
    lemma_es_payload_of, seq_add, seq_dist};

verus! {

// The reliable-delivery engine of one substream: the sender side assigns
// consecutive sequence numbers to MTU-sized fragments and keeps an
// in-flight record per reliable packet until it is acknowledged; the
// receiver side reorders arrivals and reassembles fragment chains into
// whole payloads.

/// One reliable packet awaiting acknowledgement.
#[derive(Debug, Clone)]
#[verifier::ext_equal]
pub struct InFlight {
    pub sequence: u16,
    pub fragment_id: u8,
    pub payload: Vec<u8>,
    pub sent_at: u64,
    pub deadline: u64,
    pub current_rto: u64,
    pub retries: u32,
}

/// Whether some in-flight record carries the sequence number.
pub open spec fn window_has(w: Seq<InFlight>, s: u16) -> bool {
    exists|i: int| 0 <= i < w.len() && w[i].sequence == s
}

/// Each sequence number appears in at most one in-flight record.
pub open spec fn window_unique(w: Seq<InFlight>) -> bool {
    forall|i: int, j: int|
        0 <= i < j < w.len() ==> (#[trigger] w[i]).sequence != (#[trigger] w[j]).sequence
}

/// What one retransmission timer decided.
#[derive(Debug)]
pub enum RetransmitDecision {
    Retransmit(Vec<u8>),
    Exhausted,
    NotPending,
}

/// What feeding one fragment chain element to the assembler state yields:
/// the buffer and expected id afterwards, and the completed payloads, or
/// nothing on a fragment-id gap.
pub open spec fn assemble_items(buf: Seq<u8>, expecting: int, items: Seq<(u8, Seq<u8>)>) -> Option<
    (Seq<u8>, int, Seq<Seq<u8>>),
>
    decreases items.len(),
{
    if items.len() == 0 {
        Some((buf, expecting, Seq::empty()))
    } else {
        let id = items[0].0;
        let pl = items[0].1;
        if id == 0 {
            match assemble_items(Seq::empty(), 1, items.drop_first()) {
                None => None,
                Some((b, e, c)) => Some((b, e, seq![buf + pl] + c)),
            }
        } else if id as int == expecting {
            assemble_items(buf + pl, expecting + 1, items.drop_first())
        } else {
            None
        }
    }
}

/// The reliable state of one substream.
pub struct ReliableSubstream {
    pub next_out_seq: u16,
    pub window: Vec<InFlight>,
    pub dispatch: PacketDispatchQueue,
    pub assembler: FragmentAssembler,
}

impl ReliableSubstream {
    /// The next outbound sequence number.
    pub open spec fn next_out_spec(&self) -> u16 {
        self.next_out_seq
    }

    /// The in-flight records, oldest first.
    pub open spec fn window_spec(&self) -> Seq<InFlight> {
        self.window@
    }

    /// Each reliable sequence number is in flight at most once, and the
    /// assembler is between deliveries.
    pub open spec fn wf(&self) -> bool {
        &&& window_unique(self.window_spec())
        &&& self.assembler.wf()
        &&& self.has_nonempty_buffered()
    }

    /// Every buffered queue entry carries at least its fragment-id byte.
    pub open spec fn has_nonempty_buffered(&self) -> bool {
        forall|i: int|
            0 <= i < self.dispatch.entries().len() ==> (
            #[trigger] self.dispatch.entries()[i]).1.len() >= 1
    }

    pub fn new(initial_out_seq: u16, next_expected_in: u16, receive_window: u16) -> (r: Self)
        requires
            receive_window >= 1,
        ensures
            r.wf(),
            r.dispatch.wf(),
            r.next_out_spec() == initial_out_seq,
            r.window_spec() == Seq::<InFlight>::empty(),
            r.dispatch.next_expected_spec() == next_expected_in,
            r.dispatch.entries() == Seq::<(u16, Seq<u8>)>::empty(),
            r.assembler.assembled() == Seq::<u8>::empty(),
            r.assembler.expecting_spec() == 1,
    {
        let r = ReliableSubstream {
            next_out_seq: initial_out_seq,
            window: Vec::new(),
            dispatch: PacketDispatchQueue::new(next_expected_in, receive_window),
            assembler: FragmentAssembler::new(),
        };
        proof {
            assert(r.window_spec() =~= Seq::<InFlight>::empty());
        }
        r
    }

    /// Fragments a payload and assigns each chunk the next sequence number
    /// in submission order. Reliable chunks enter the in-flight window with
    /// a retransmission deadline of `now + rto`.
    pub fn send_payload(
        &mut self,
        payload: &[u8],
        reliable: bool,
        mtu: usize,
        now: u64,
        rto: u64,
    ) -> (r: Vec<(u16, u8, Vec<u8>)>)
        requires
            old(self).wf(),
            mtu >= 1,
            payload@.len() <= 255 * mtu,
            now + rto <= u64::MAX,
            // Sequence numbers wrap at 2^16: nothing may stay in flight
            // long enough for the cursor to lap it, so every pending
            // sequence lies at least a full fragment burst ahead.
            forall|i: int|
                0 <= i < old(self).window_spec().len() ==> seq_dist(
                    old(self).next_out_spec(),
                    (#[trigger] old(self).window_spec()[i]).sequence,
                ) >= 256,
        ensures
            final(self).wf(),
            final(self).dispatch == old(self).dispatch,
            final(self).assembler == old(self).assembler,
            r@.len() == fragment_chunks(payload@, mtu as int).len(),
            1 <= r@.len() <= 256,
            forall|k: int|
                0 <= k < r@.len() ==> {
                    &&& (#[trigger] r@[k]).0 == seq_add(old(self).next_out_spec(), k)
                    &&& r@[k].1 == fragment_id_spec(k, r@.len() as int)
                    &&& r@[k].2@ == fragment_chunks(payload@, mtu as int)[k]
                },
            final(self).next_out_spec() == seq_add(old(self).next_out_spec(), r@.len() as int),
            !reliable ==> final(self).window_spec() == old(self).window_spec(),
            reliable ==> {
                &&& final(self).window_spec().len() == old(self).window_spec().len() + r@.len()
                &&& forall|k: int|
                    0 <= k < old(self).window_spec().len() ==> final(self).window_spec()[k]
                        == #[trigger] old(self).window_spec()[k]
                &&& forall|k: int|
                    0 <= k < r@.len() ==> {
                        let w = #[trigger] final(self).window_spec()[old(
                            self,
                        ).window_spec().len() + k];
                        &&& w.sequence == seq_add(old(self).next_out_spec(), k)
                        &&& w.fragment_id == fragment_id_spec(k, r@.len() as int)
                        &&& w.payload@ == r@[k].2@
                        &&& w.sent_at == now
                        &&& w.deadline == now + rto
                        &&& w.current_rto == rto
                        &&& w.retries == 0
                    }
            },
    {
        let ghost start = *self;
        let chunks = fragment_payload(payload, mtu);
        proof {
            lemma_fragment_count(payload@, mtu as int);
        }
        let count = chunks.len();
        let mut r: Vec<(u16, u8, Vec<u8>)> = Vec::new();
        let mut k: usize = 0;
        let mut chunks = chunks;
        // Chunks are consumed front to back; an index walks the vector
        // instead so each chunk moves out exactly once.
        while k < count
            invariant
                start.wf(),
                self.wf(),
                self.dispatch == start.dispatch,
                self.assembler == start.assembler,
                k <= count,
                count == chunks@.len(),
                1 <= count <= 256,
                chunks@.map_values(|v: Vec<u8>| v@) =~~= fragment_chunks(
                    payload@,
                    mtu as int,
                ),
                now + rto <= u64::MAX,
                r@.len() == k,
                self.next_out_seq == seq_add(start.next_out_spec(), k as int),
                forall|i: int|
                    0 <= i < start.window_spec().len() ==> seq_dist(
                        start.next_out_spec(),
                        (#[trigger] start.window_spec()[i]).sequence,
                    ) >= 256,
                forall|i: int|
                    0 <= i < r@.len() ==> {
                        &&& (#[trigger] r@[i]).0 == seq_add(start.next_out_spec(), i)
                        &&& r@[i].1 == fragment_id_spec(i, count as int)
                        &&& r@[i].2@ == fragment_chunks(payload@, mtu as int)[i]
                    },
                !reliable ==> self.window@ == start.window_spec(),
                reliable ==> {
                    &&& self.window@.len() == start.window_spec().len() + k
                    &&& forall|i: int|
                        0 <= i < start.window_spec().len() ==> self.window@[i]
                            == #[trigger] start.window_spec()[i]
                    &&& forall|i: int|
                        0 <= i < k ==> {
                            let w = #[trigger] self.window@[start.window_spec().len() + i];
                            &&& w.sequence == seq_add(start.next_out_spec(), i)
                            &&& w.fragment_id == fragment_id_spec(i, count as int)
                            &&& w.payload@ == r@[i].2@
                            &&& w.sent_at == now
                            &&& w.deadline == now + rto
                            &&& w.current_rto == rto
                            &&& w.retries == 0
                        }
                },
            decreases count - k,
        {
            let seq = self.next_out_seq;
            let fragment_id: u8 = if k == count - 1 {
                0
            } else {
                (k + 1) as u8
            };
            let chunk = vstd::slice::slice_to_vec(chunks[k].as_slice());
            if reliable {
                let record = InFlight {
                    sequence: seq,
                    fragment_id,
                    payload: vstd::slice::slice_to_vec(chunks[k].as_slice()),
                    sent_at: now,
                    deadline: now + rto,
                    current_rto: rto,
                    retries: 0,
                };
                let ghost pre_window = self.window@;
                let ghost grecord = record;
                proof {
                    lemma_fresh_sequence(start, self.window@, k as int, count as int);
                    assert(!window_has(pre_window, seq_add(start.next_out_spec(), k as int)));
                    assert(grecord.sequence == seq_add(start.next_out_spec(), k as int));
                }
                self.window.push(record);
                proof {
                    assert forall|a: int, b2: int|
                        0 <= a < b2 < self.window@.len() implies (
                    #[trigger] self.window@[a]).sequence != (
                    #[trigger] self.window@[b2]).sequence by {
                        if b2 == self.window@.len() - 1 {
                            assert(self.window@[a] == pre_window[a]);
                            assert(self.window@[b2] == grecord);
                            assert(pre_window[a].sequence != seq_add(
                                start.next_out_spec(),
                                k as int,
                            ));
                        } else {
                            assert(self.window@[a] == pre_window[a]);
                            assert(self.window@[b2] == pre_window[b2]);
                        }
                    }
                    assert(window_unique(self.window@));
                }
            }
            r.push((seq, fragment_id, chunk));
            self.next_out_seq = if self.next_out_seq == 0xFFFF {
                0
            } else {
                self.next_out_seq + 1
            };
            proof {
                crate::packet_dispatch_queue::lemma_seq_add_one(
                    start.next_out_spec(),
                    k as int,
                );
            }
            k += 1;
        }
        r
    }
}

impl ReliableSubstream {
    /// The index of the in-flight record for a sequence number, if any.
    fn find_pending(&self, seq: u16) -> (r: Option<usize>)
        ensures
            r matches Some(i) ==> i < self.window_spec().len() && self.window_spec()[
                i as int
            ].sequence == seq,
            r is None ==> !window_has(self.window_spec(), seq),
    {
        let mut i: usize = 0;
        while i < self.window.len()
            invariant
                i <= self.window@.len(),
                forall|j: int| 0 <= j < i ==> (#[trigger] self.window@[j]).sequence != seq,
            decreases self.window@.len() - i,
        {
            if self.window[i].sequence == seq {
                return Some(i);
            }
            i += 1;
        }
        None
    }

    /// Takes an acknowledgement for one sequence number: the matching
    /// in-flight record leaves the window and comes back to the caller,
    /// who samples the round trip from it when it was never retransmitted.
    pub fn ack(&mut self, seq: u16) -> (r: Option<InFlight>)
        requires
            old(self).wf(),
        ensures
            final(self).wf(),
            final(self).next_out_spec() == old(self).next_out_spec(),
            final(self).dispatch == old(self).dispatch,
            final(self).assembler == old(self).assembler,
            !window_has(old(self).window_spec(), seq) ==> r is None && final(self).window_spec()
                == old(self).window_spec(),
            window_has(old(self).window_spec(), seq) ==> exists|i: int|
                #![auto]
                0 <= i < old(self).window_spec().len() && old(self).window_spec()[i].sequence
                    == seq && r == Some(old(self).window_spec()[i]) && final(self).window_spec()
                    == old(self).window_spec().remove(i),
            !window_has(final(self).window_spec(), seq),
    {
        match self.find_pending(seq) {
            Some(i) => {
                let ghost pre = self.window@;
                let rec = self.window.remove(i);
                proof {
                    assert forall|a: int, b2: int|
                        0 <= a < b2 < self.window@.len() implies (
                    #[trigger] self.window@[a]).sequence != (
                    #[trigger] self.window@[b2]).sequence by {
                        if b2 < i {
                            assert(self.window@[a] == pre[a]);
                            assert(self.window@[b2] == pre[b2]);
                        } else if a < i {
                            assert(self.window@[a] == pre[a]);
                            assert(self.window@[b2] == pre[b2 + 1]);
                        } else {
                            assert(self.window@[a] == pre[a + 1]);
                            assert(self.window@[b2] == pre[b2 + 1]);
                        }
                    }
                    assert forall|a: int|
                        0 <= a < self.window@.len() implies (
                    #[trigger] self.window@[a]).sequence != seq by {
                        if a < i {
                            assert(self.window@[a] == pre[a]);
                        } else {
                            assert(self.window@[a] == pre[a + 1]);
                        }
                    }
                }
                Some(rec)
            },
            None => None,
        }
    }

    /// Takes a MULTI_ACK batch: every listed sequence number is treated as
    /// acknowledged, and nothing else leaves the window.
    pub fn ack_many(&mut self, seqs: &[u16])
        requires
            old(self).wf(),
        ensures
            final(self).wf(),
            final(self).next_out_spec() == old(self).next_out_spec(),
            final(self).dispatch == old(self).dispatch,
            final(self).assembler == old(self).assembler,
            forall|k: int| 0 <= k < seqs@.len() ==> !window_has(
                final(self).window_spec(),
                #[trigger] seqs@[k],
            ),
            forall|s: u16| #[trigger]
                window_has(final(self).window_spec(), s) ==> window_has(
                    old(self).window_spec(),
                    s,
                ),
    {
        let mut k: usize = 0;
        while k < seqs.len()
            invariant
                self.wf(),
                self.next_out_spec() == old(self).next_out_spec(),
                self.dispatch == old(self).dispatch,
                self.assembler == old(self).assembler,
                k <= seqs@.len(),
                forall|j: int| 0 <= j < k ==> !window_has(
                    self.window_spec(),
                    #[trigger] seqs@[j],
                ),
                forall|s: u16| #[trigger]
                    window_has(self.window_spec(), s) ==> window_has(
                        old(self).window_spec(),
                        s,
                    ),
            decreases seqs@.len() - k,
        {
            let ghost pre = self.window@;
            let _ = self.ack(seqs[k]);
            proof {
                if window_has(pre, seqs@[k as int]) {
                    let i = choose|i: int|
                        #![auto]
                        0 <= i < pre.len() && pre[i].sequence == seqs@[k as int] && self.window@
                            == pre.remove(i);
                    assert forall|s: u16| #[trigger]
                        window_has(self.window@, s) implies window_has(pre, s) by {
                        let j = choose|j: int|
                            0 <= j < self.window@.len() && self.window@[j].sequence == s;
                        if j < i {
                            assert(pre[j].sequence == s);
                        } else {
                            assert(pre[j + 1].sequence == s);
                        }
                    }
                    assert forall|j: int| 0 <= j < k implies !window_has(
                        self.window@,
                        #[trigger] seqs@[j],
                    ) by {
                        if window_has(self.window@, seqs@[j]) {
                            assert(window_has(pre, seqs@[j]));
                        }
                    }
                }
            }
            k += 1;
        }
    }

    /// Handles an expired retransmission timer for one sequence number.
    /// Within the retry budget the packet is resent with the same sequence,
    /// its timeout doubles — capped at `max_rto` — and the retry count
    /// grows; beyond the budget the record is dropped and the connection is
    /// to be torn down.
    pub fn on_timer(&mut self, seq: u16, now: u64, max_retries: u32, max_rto: u64) -> (r:
        RetransmitDecision)
        requires
            old(self).wf(),
            now + max_rto <= u64::MAX,
        ensures
            final(self).wf(),
            final(self).next_out_spec() == old(self).next_out_spec(),
            final(self).dispatch == old(self).dispatch,
            final(self).assembler == old(self).assembler,
            !window_has(old(self).window_spec(), seq) ==> r is NotPending
                && final(self).window_spec() == old(self).window_spec(),
            window_has(old(self).window_spec(), seq) ==> exists|i: int|
                #![auto]
                0 <= i < old(self).window_spec().len() && old(self).window_spec()[i].sequence
                    == seq && {
                    let w = old(self).window_spec()[i];
                    if w.retries >= max_retries {
                        r is Exhausted
                            && final(self).window_spec() == old(self).window_spec().remove(i)
                    } else {
                        {
                            let u = final(self).window_spec()[i];
                            &&& (r matches RetransmitDecision::Retransmit(p) && p@
                                == w.payload@)
                            &&& final(self).window_spec() == old(self).window_spec().update(
                                i,
                                u,
                            )
                            &&& u.sequence == w.sequence
                            &&& u.fragment_id == w.fragment_id
                            &&& u.payload@ == w.payload@
                            &&& u.sent_at == w.sent_at
                            &&& u.retries == w.retries + 1
                            &&& u.current_rto == vstd::math::min(
                                max_rto as int,
                                2 * w.current_rto,
                            )
                            &&& u.deadline == now + u.current_rto
                        }
                    }
                },
    {
        match self.find_pending(seq) {
            Some(i) => {
                let ghost pre = self.window@;
                let rec = self.window.remove(i);
                if rec.retries >= max_retries {
                    proof {
                        assert forall|a: int, b2: int|
                            0 <= a < b2 < self.window@.len() implies (
                        #[trigger] self.window@[a]).sequence != (
                        #[trigger] self.window@[b2]).sequence by {
                            if b2 < i {
                                assert(self.window@[a] == pre[a]);
                                assert(self.window@[b2] == pre[b2]);
                            } else if a < i {
                                assert(self.window@[a] == pre[a]);
                                assert(self.window@[b2] == pre[b2 + 1]);
                            } else {
                                assert(self.window@[a] == pre[a + 1]);
                                assert(self.window@[b2] == pre[b2 + 1]);
                            }
                        }
                    }
                    return RetransmitDecision::Exhausted;
                }
                let resend = vstd::slice::slice_to_vec(rec.payload.as_slice());
                let new_rto: u64 = if rec.current_rto > max_rto / 2 {
                    max_rto
                } else {
                    rec.current_rto * 2
                };
                let updated = InFlight {
                    sequence: rec.sequence,
                    fragment_id: rec.fragment_id,
                    payload: rec.payload,
                    sent_at: rec.sent_at,
                    deadline: now + new_rto,
                    current_rto: new_rto,
                    retries: rec.retries + 1,
                };
                let ghost gupdated = updated;
                self.window.insert(i, updated);
                proof {
                    assert(self.window@ =~= pre.update(i as int, gupdated));
                    assert forall|a: int, b2: int|
                        0 <= a < b2 < self.window@.len() implies (
                    #[trigger] self.window@[a]).sequence != (
                    #[trigger] self.window@[b2]).sequence by {
                        assert(pre[a].sequence != pre[b2].sequence);
                    }
                }
                RetransmitDecision::Retransmit(resend)
            },
            None => RetransmitDecision::NotPending,
        }
    }
}


/// The fragment id and body a framed queue entry stands for: the id is the
/// first byte, the body the rest.
pub open spec fn item_of(p: Seq<u8>) -> (u8, Seq<u8>) {
    (p[0], p.skip(1))
}

impl ReliableSubstream {
    /// Feeds the assembler one in-order delivery list. Each item carries
    /// its fragment id in the first byte; the completed payloads come back
    /// in order. A fragment-id gap aborts with `Parse`, as assembly cannot
    /// recover.
    pub fn assemble_delivered(&mut self, items: &Vec<Vec<u8>>) -> (r: Result<
        Vec<Vec<u8>>,
        NexError,
    >)
        requires
            old(self).wf(),
            forall|k: int| 0 <= k < items@.len() ==> (#[trigger] items@[k]@).len() >= 1,
        ensures
            final(self).wf(),
            final(self).next_out_spec() == old(self).next_out_spec(),
            final(self).window_spec() == old(self).window_spec(),
            final(self).dispatch == old(self).dispatch,
            r matches Ok(list) ==> assemble_items(
                old(self).assembler.assembled(),
                old(self).assembler.expecting_spec(),
                items@.map_values(|p: Vec<u8>| item_of(p@)),
            ) == Some(
                (
                    final(self).assembler.assembled(),
                    final(self).assembler.expecting_spec(),
                    list@.map_values(|v: Vec<u8>| v@),
                ),
            ),
            r matches Err(e) ==> e is Parse && assemble_items(
                old(self).assembler.assembled(),
                old(self).assembler.expecting_spec(),
                items@.map_values(|p: Vec<u8>| item_of(p@)),
            ) is None,
    {
        let ghost a0: Seq<u8> = self.assembler.assembled();
        let ghost e0: int = self.assembler.expecting_spec();
        let ghost gitems: Seq<(u8, Seq<u8>)> = items@.map_values(|p: Vec<u8>| item_of(p@));
        let mut completed: Vec<Vec<u8>> = Vec::new();
        let mut i: usize = 0;
        proof {
            assert(gitems.skip(0) =~= gitems);
            assert(completed@.map_values(|v: Vec<u8>| v@) =~~= Seq::<Seq<u8>>::empty());
        }
        while i < items.len()
            invariant
                self.wf(),
                self.next_out_spec() == old(self).next_out_spec(),
                self.window_spec() == old(self).window_spec(),
                self.dispatch == old(self).dispatch,
                i <= items@.len(),
                a0 == old(self).assembler.assembled(),
                e0 == old(self).assembler.expecting_spec(),
                gitems == items@.map_values(|p: Vec<u8>| item_of(p@)),
                forall|k: int| 0 <= k < items@.len() ==> (#[trigger] items@[k]@).len() >= 1,
                assemble_items(a0, e0, gitems) == (match assemble_items(
                    self.assembler.assembled(),
                    self.assembler.expecting_spec(),
                    gitems.skip(i as int),
                ) {
                    None => None::<(Seq<u8>, int, Seq<Seq<u8>>)>,
                    Some((b, e, c)) => Some(
                        (b, e, completed@.map_values(|v: Vec<u8>| v@) + c),
                    ),
                }),
            decreases items@.len() - i,
        {
            let ghost pre_buf = self.assembler.assembled();
            let ghost pre_exp = self.assembler.expecting_spec();
            let item = &items[i];
            let id = item[0];
            let body = vstd::slice::slice_subrange(item.as_slice(), 1, item.len());
            proof {
                assert(gitems[i as int] == item_of(items@[i as int]@));
                assert(gitems.skip(i as int)[0] == gitems[i as int]);
                assert(body@ =~= items@[i as int]@.skip(1));
                assert(gitems.skip(i as int).drop_first() =~= gitems.skip(i + 1));
            }
            let ghost pre_completed: Seq<Seq<u8>> = completed@.map_values(|v: Vec<u8>| v@);
            let step = self.assembler.push_fragment(id, body);
            match step {
                Ok(Some(done)) => {
                    proof {
                        assert(completed@.push(done).map_values(|v: Vec<u8>| v@)
                            =~~= pre_completed.push(done@));
                        assert(done@ == pre_buf + body@);
                    }
                    completed.push(done);
                    proof {
                        let inner = assemble_items(Seq::<u8>::empty(), 1, gitems.skip(i + 1));
                        if inner is Some {
                            let t = inner->Some_0;
                            assert((pre_completed + (seq![pre_buf + body@] + t.2)) =~~= (
                            completed@.map_values(|v: Vec<u8>| v@) + t.2));
                        }
                    }
                },
                Ok(None) => {
                },
                Err(e) => {
                    return Err(e);
                },
            }
            i += 1;
        }
        proof {
            assert(gitems.skip(items@.len() as int) =~= Seq::<(u8, Seq<u8>)>::empty());
            assert(completed@.map_values(|v: Vec<u8>| v@) + Seq::<Seq<u8>>::empty()
                =~~= completed@.map_values(|v: Vec<u8>| v@));
        }
        Ok(completed)
    }

    /// Takes one DATA packet: the arrival is reordered by the dispatch
    /// queue, and every payload that has become contiguous runs through
    /// fragment reassembly; whole messages come back in delivery order.
    pub fn receive_data(&mut self, seq: u16, fragment_id: u8, payload: &[u8]) -> (r: Result<
        Vec<Vec<u8>>,
        NexError,
    >)
        requires
            old(self).wf(),
            old(self).dispatch.wf(),
        ensures
            final(self).wf(),
            final(self).dispatch.wf(),
            final(self).next_out_spec() == old(self).next_out_spec(),
            final(self).window_spec() == old(self).window_spec(),
            final(self).dispatch.window_spec() == old(self).dispatch.window_spec(),
            r matches Err(e) ==> e is Parse,
            seq_dist(old(self).dispatch.next_expected_spec(), seq) != 0 ==> (r matches Ok(v)
                && v@.len() == 0 && final(self).assembler == old(self).assembler
                && final(self).dispatch.next_expected_spec() == old(
                self,
            ).dispatch.next_expected_spec()),
            r matches Ok(list) ==> (seq_dist(old(self).dispatch.next_expected_spec(), seq)
                == 0 ==> exists|items: Seq<(u8, Seq<u8>)>|
                #![auto]
                {
                    &&& items.len() >= 1
                    &&& items[0] == (fragment_id, payload@)
                    &&& forall|k: int|
                        1 <= k < items.len() ==> old(self).dispatch.has_seq(
                            seq_add(old(self).dispatch.next_expected_spec(), k),
                        ) && items[k] == item_of(
                            old(self).dispatch.payload_for(
                                seq_add(old(self).dispatch.next_expected_spec(), k),
                            ),
                        )
                    &&& final(self).dispatch.next_expected_spec() == seq_add(
                        old(self).dispatch.next_expected_spec(),
                        items.len() as int,
                    )
                    &&& assemble_items(
                        old(self).assembler.assembled(),
                        old(self).assembler.expecting_spec(),
                        items,
                    ) == Some(
                        (
                            final(self).assembler.assembled(),
                            final(self).assembler.expecting_spec(),
                            list@.map_values(|v: Vec<u8>| v@),
                        ),
                    )
                }),
    {
        let mut framed: Vec<u8> = Vec::new();
        framed.push(fragment_id);
        framed.extend_from_slice(payload);
        proof {
            assert(framed@ =~= seq![fragment_id] + payload@);
            assert(framed@.skip(1) =~= payload@);
        }
        let ghost framed_seq: Seq<u8> = framed@;
        let ghost pre = *self;
        match self.dispatch.push(seq, framed) {
            PushOutcome::Delivered(delivered) => {
                let ghost gitems: Seq<(u8, Seq<u8>)> = delivered@.map_values(
                    |p: Vec<u8>| item_of(p@),
                );
                proof {
                    assert forall|k: int| 0 <= k < delivered@.len() implies (
                    #[trigger] delivered@[k]@).len() >= 1 by {
                        if k == 0 {
                            assert(delivered@[0]@ == framed_seq);
                        } else {
                            assert(pre.dispatch.payload_for(
                                seq_add(pre.dispatch.next_expected_spec(), k),
                            ).len() >= 1);
                        }
                    }
                    assert(gitems[0] == (fragment_id, payload@));
                    assert forall|k: int| 1 <= k < gitems.len() implies gitems[k] == item_of(
                        pre.dispatch.payload_for(
                            seq_add(pre.dispatch.next_expected_spec(), k),
                        ),
                    ) by {
                        assert(delivered@[k]@ == pre.dispatch.payload_for(
                            seq_add(pre.dispatch.next_expected_spec(), k),
                        ));
                    }
                }
                proof {
                    assert forall|i: int|
                        0 <= i < self.dispatch.entries().len() implies (
                    #[trigger] self.dispatch.entries()[i]).1.len() >= 1 by {
                        let es_new = self.dispatch.entries();
                        let s = es_new[i].0;
                        lemma_es_payload_of(es_new, i);
                        assert(self.dispatch.has_seq(s));
                        assert(pre.dispatch.has_seq(s));
                        let j = es_index_of(pre.dispatch.entries(), s);
                        lemma_es_payload_of(pre.dispatch.entries(), j);
                        assert(pre.dispatch.entries()[j].1.len() >= 1);
                    }
                }
                let r = self.assemble_delivered(&delivered);
                match r {
                    Ok(list) => Ok(list),
                    Err(e) => Err(e),
                }
            },
            PushOutcome::Buffered => {
                proof {
                    assert forall|i: int|
                        0 <= i < self.dispatch.entries().len() implies (
                    #[trigger] self.dispatch.entries()[i]).1.len() >= 1 by {
                        if i < pre.dispatch.entries().len() {
                            assert(self.dispatch.entries()[i] == pre.dispatch.entries()[i]);
                        } else {
                            assert(self.dispatch.entries()[i] == (seq, framed_seq));
                        }
                    }
                }
                Ok(Vec::new())
            },
            PushOutcome::Discarded => Ok(Vec::new()),
        }
    }
}


/// The sequence numbers a v1 MULTI_ACK names: the base itself, and one
/// successor of the base for every set bitmap bit.
pub fn multi_ack_sequences(base: u16, bitmap: u16) -> (r: Vec<u16>)
    ensures
        r@.contains(base),
        forall|i: int|
            0 <= i < 16 ==> ((bitmap & (1u16 << i)) != 0) == r@.contains(
                #[trigger] seq_add(base, i + 1),
            ),
        forall|k: int|
            0 <= k < r@.len() ==> (#[trigger] r@[k]) == base || exists|i: int|
                0 <= i < 16 && r@[k] == seq_add(base, i + 1) && (bitmap & (1u16 << i)) != 0,
{
    let mut r: Vec<u16> = Vec::new();
    r.push(base);
    let mut i: u16 = 0;
    proof {
        assert(r@[0] == base);
        assert(r@.contains(base));
        assert forall|j1: int, j2: int|
            0 <= j1 < 16 && 0 <= j2 < 16 && j1 != j2 implies #[trigger] seq_add(base, j1 + 1)
            != #[trigger] seq_add(base, j2 + 1) by {
            crate::packet_dispatch_queue::lemma_seq_dist_add(base, j1 + 1);
            crate::packet_dispatch_queue::lemma_seq_dist_add(base, j2 + 1);
        }
        assert forall|j: int| 0 <= j < 16 implies #[trigger] seq_add(base, j + 1) != base by {
            crate::packet_dispatch_queue::lemma_seq_dist_add(base, j + 1);
            crate::packet_dispatch_queue::lemma_seq_dist_add(base, 0);
            crate::packet_dispatch_queue::lemma_seq_add_vals(base, 0);
        }
    }
    while i < 16
        invariant
            i <= 16,
            r@.len() >= 1,
            r@.contains(base),
            forall|j: int|
                0 <= j < i ==> ((bitmap & (1u16 << j)) != 0) == r@.contains(
                    #[trigger] seq_add(base, j + 1),
                ),
            forall|j: int| i <= j < 16 ==> !r@.contains(#[trigger] seq_add(base, j + 1)),
            forall|k: int|
                0 <= k < r@.len() ==> (#[trigger] r@[k]) == base || exists|j: int|
                    0 <= j < i && r@[k] == #[trigger] seq_add(base, j + 1) && (bitmap & (1u16
                        << j)) != 0,
            forall|j1: int, j2: int|
                0 <= j1 < 16 && 0 <= j2 < 16 && j1 != j2 ==> #[trigger] seq_add(base, j1 + 1)
                    != #[trigger] seq_add(base, j2 + 1),
            forall|j: int| 0 <= j < 16 ==> #[trigger] seq_add(base, j + 1) != base,
        decreases 16 - i,
    {
        if bitmap & (1u16 << i) != 0 {
            let s = add_seq16(base, i + 1);
            let ghost pre_r = r@;
            r.push(s);
            proof {
                let gi = i as int;
                assert(r@[r@.len() - 1] == seq_add(base, gi + 1));
                assert(r@.contains(seq_add(base, gi + 1)));
                assert forall|k: int| 0 <= k < pre_r.len() implies r@[k] == pre_r[k] by {}
                assert(r@.contains(base)) by {
                    let k = choose|k: int| 0 <= k < pre_r.len() && pre_r[k] == base;
                    assert(r@[k] == base);
                }
                assert forall|j: int| 0 <= j < gi + 1 implies ((bitmap & (1u16 << j)) != 0)
                    == r@.contains(#[trigger] seq_add(base, j + 1)) by {
                    if j < gi {
                        if pre_r.contains(seq_add(base, j + 1)) {
                            let k = choose|k: int|
                                0 <= k < pre_r.len() && pre_r[k] == seq_add(base, j + 1);
                            assert(r@[k] == seq_add(base, j + 1));
                            assert(r@.contains(seq_add(base, j + 1)));
                        }
                        if r@.contains(seq_add(base, j + 1)) {
                            let k = choose|k: int|
                                0 <= k < r@.len() && r@[k] == seq_add(base, j + 1);
                            if k == r@.len() - 1 {
                                assert(seq_add(base, j + 1) == seq_add(base, gi + 1));
                                assert(false);
                            } else {
                                assert(pre_r[k] == seq_add(base, j + 1));
                                assert(pre_r.contains(seq_add(base, j + 1)));
                            }
                        }
                    }
                }
                assert forall|j: int| gi + 1 <= j < 16 implies !r@.contains(
                    #[trigger] seq_add(base, j + 1),
                ) by {
                    if r@.contains(seq_add(base, j + 1)) {
                        let k = choose|k: int|
                            0 <= k < r@.len() && r@[k] == seq_add(base, j + 1);
                        if k == r@.len() - 1 {
                            assert(seq_add(base, j + 1) == seq_add(base, gi + 1));
                            assert(false);
                        } else {
                            assert(pre_r[k] == seq_add(base, j + 1));
                            assert(pre_r.contains(seq_add(base, j + 1)));
                        }
                    }
                }
                assert forall|k: int|
                    0 <= k < r@.len() implies (#[trigger] r@[k]) == base || exists|j: int|
                        0 <= j < gi + 1 && r@[k] == #[trigger] seq_add(base, j + 1) && (bitmap
                            & (1u16 << j)) != 0 by {
                    if k == r@.len() - 1 {
                        assert(r@[k] == seq_add(base, gi + 1) && (bitmap & (1u16 << gi))
                            != 0);
                    } else {
                        assert(pre_r[k] == base || exists|j: int|
                            0 <= j < gi && pre_r[k] == #[trigger] seq_add(base, j + 1) && (
                            bitmap & (1u16 << j)) != 0);
                    }
                }
            }
        }
        i += 1;
    }
    r
}

/// A sequence number advanced by a small step.
fn add_seq16(base: u16, k: u16) -> (r: u16)
    requires
        k <= 16,
    ensures
        r == seq_add(base, k as int),
{
    let sum: u32 = base as u32 + k as u32;
    let r: u16 = if sum >= 0x10000 {
        (sum - 0x10000) as u16
    } else {
        sum as u16
    };
    proof {
        crate::packet_dispatch_queue::lemma_seq_add_vals(base, k as int);
    }
    r
}


/// A payload bounded by 255 MTUs cuts into at most 256 chunks, and never
/// fewer than one.
proof fn lemma_fragment_count(p: Seq<u8>, mtu: int)
    requires
        mtu >= 1,
        p.len() <= 255 * mtu,
    ensures
        1 <= fragment_chunks(p, mtu).len() <= 256,
    decreases p.len(),
{
    if p.len() > mtu {
        assert(p.skip(mtu).len() <= 254 * mtu) by (nonlinear_arith)
            requires
                mtu >= 1,
                p.len() <= 255 * mtu,
                p.skip(mtu).len() == p.len() - mtu,
        ;
        lemma_fragment_count_bounded(p.skip(mtu), mtu, 254);
    }
}

/// The counting helper: a payload within `n` MTUs cuts into at most n + 1
/// chunks.
proof fn lemma_fragment_count_bounded(p: Seq<u8>, mtu: int, n: int)
    requires
        mtu >= 1,
        n >= 0,
        p.len() <= n * mtu,
    ensures
        1 <= fragment_chunks(p, mtu).len() <= n + 1,
    decreases n,
{
    if p.len() > mtu {
        assert(n >= 2) by (nonlinear_arith)
            requires
                mtu >= 1,
                n >= 0,
                p.len() <= n * mtu,
                p.len() > mtu,
        ;
        assert(p.skip(mtu).len() <= (n - 1) * mtu) by (nonlinear_arith)
            requires
                mtu >= 1,
                p.len() <= n * mtu,
                p.skip(mtu).len() == p.len() - mtu,
        ;
        lemma_fragment_count_bounded(p.skip(mtu), mtu, n - 1);
    }
}

/// The next assigned sequence is not an in-flight one: every in-flight
/// sequence lies at least a full window behind the assignment cursor.
proof fn lemma_fresh_sequence(
    start: ReliableSubstream,
    cur: Seq<InFlight>,
    k: int,
    count: int,
)
    requires
        0 <= k < count <= 256,
        forall|i: int|
            0 <= i < start.window_spec().len() ==> seq_dist(
                start.next_out_spec(),
                (#[trigger] start.window_spec()[i]).sequence,
            ) >= 256,
        cur.len() == start.window_spec().len() + k,
        forall|i: int|
            0 <= i < start.window_spec().len() ==> cur[i] == #[trigger] start.window_spec()[i],
        forall|i: int|
            0 <= i < k ==> (#[trigger] cur[start.window_spec().len() + i]).sequence == seq_add(
                start.next_out_spec(),
                i,
            ),
    ensures
        !window_has(cur, seq_add(start.next_out_spec(), k)),
{
    let b = start.next_out_spec();
    let s = seq_add(b, k);
    crate::packet_dispatch_queue::lemma_seq_dist_add(b, k);
    assert forall|i: int| 0 <= i < cur.len() implies cur[i].sequence != s by {
        if i < start.window_spec().len() {
            assert(cur[i] == start.window_spec()[i]);
            assert(seq_dist(b, cur[i].sequence) >= 256);
            assert(seq_dist(b, s) == k);
            if cur[i].sequence == s {
                assert(false);
            }
        } else {
            let j = i - start.window_spec().len();
            assert(cur[start.window_spec().len() + j] == cur[i]);
            assert(cur[i].sequence == seq_add(b, j));
            crate::packet_dispatch_queue::lemma_seq_dist_add(b, j);
            if cur[i].sequence == s {
                assert(seq_dist(b, cur[i].sequence) == j);
                assert(seq_dist(b, s) == k);
                assert(false);
            }
        }
    }
}

} // verus!
