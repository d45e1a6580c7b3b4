use vstd::prelude::*;

verus! {

// The per-substream reordering buffer: payloads are released to the
// consumer strictly in sequence order, starting at the next expected
// sequence; early arrivals wait in the buffer, duplicates and far-future
// arrivals are discarded.

/// The forward distance from one 16-bit sequence number to another, with
/// wrap-around.
pub open spec fn seq_dist(from: u16, to: u16) -> int {
    if to - from < 0 {
        to - from + 0x10000
    } else {
        to - from
    }
}

/// A 16-bit sequence number advanced by `k`, with wrap-around.
pub open spec fn seq_add(base: u16, k: int) -> u16 {
    (((base + k) % 0x10000 + 0x10000) % 0x10000) as u16
}

/// Whether some entry carries the sequence number.
pub open spec fn es_has(es: Seq<(u16, Seq<u8>)>, s: u16) -> bool {
    exists|i: int| 0 <= i < es.len() && es[i].0 == s
}

/// The index of the entry that carries the sequence number.
pub open spec fn es_index_of(es: Seq<(u16, Seq<u8>)>, s: u16) -> int {
    choose|i: int| 0 <= i < es.len() && es[i].0 == s
}

/// The payload of the entry that carries the sequence number.
pub open spec fn es_payload(es: Seq<(u16, Seq<u8>)>, s: u16) -> Seq<u8> {
    es[es_index_of(es, s)].1
}

/// No two entries carry the same sequence number.
pub open spec fn es_keys_unique(es: Seq<(u16, Seq<u8>)>) -> bool {
    forall|i: int, j: int| 0 <= i < j < es.len() ==> es[i].0 != es[j].0
}

/// With unique keys, any entry that carries `s` is the entry of `s`.
pub proof fn lemma_es_payload_of(es: Seq<(u16, Seq<u8>)>, j: int)
    requires
        es_keys_unique(es),
        0 <= j < es.len(),
    ensures
        es_has(es, es[j].0),
        es_payload(es, es[j].0) == es[j].1,
{
    let s = es[j].0;
    assert(es_has(es, s));
    let k = es_index_of(es, s);
    if k != j {
        assert(es[k].0 == es[j].0);
        assert(false);
    }
}

/// Removing one entry removes exactly its sequence number and keeps the
/// payloads of the rest.
proof fn lemma_es_remove(es: Seq<(u16, Seq<u8>)>, i: int)
    requires
        es_keys_unique(es),
        0 <= i < es.len(),
    ensures
        es_keys_unique(es.remove(i)),
        forall|s: u16| es_has(es.remove(i), s) <==> (es_has(es, s) && s != es[i].0),
        forall|s: u16| #[trigger] es_has(es.remove(i), s) ==> es_payload(es.remove(i), s)
            == es_payload(es, s),
{
    let er = es.remove(i);
    assert forall|s: u16| es_has(er, s) implies (es_has(es, s) && s != es[i].0) by {
        let j = choose|j: int| 0 <= j < er.len() && er[j].0 == s;
        if j < i {
            assert(es[j].0 == s);
        } else {
            assert(es[j + 1].0 == s);
        }
    }
    assert forall|s: u16| es_has(es, s) && s != es[i].0 implies es_has(er, s) by {
        let j = choose|j: int| 0 <= j < es.len() && es[j].0 == s;
        if j < i {
            assert(er[j].0 == s);
        } else {
            assert(er[j - 1].0 == s);
        }
    }
    assert forall|s: u16| #[trigger] es_has(er, s) implies es_payload(er, s) == es_payload(
        es,
        s,
    ) by {
        let j = es_index_of(er, s);
        lemma_es_payload_of(er, j);
        if j < i {
            lemma_es_payload_of(es, j);
        } else {
            lemma_es_payload_of(es, j + 1);
        }
    }
}


/// `seq_add` is plain addition modulo 2^16.
proof fn lemma_seq_add_unfold(b: u16, t: int)
    requires
        t >= 0,
    ensures
        seq_add(b, t) == (b + t) % 0x10000,
        0 <= (b + t) % 0x10000 < 0x10000,
{
    vstd::arithmetic::div_mod::lemma_mod_bound(b + t, 0x10000);
    vstd::arithmetic::div_mod::lemma_small_mod(((b + t) % 0x10000) as nat, 0x10000nat);
}

/// Advancing by t then by one is advancing by t + 1.
pub proof fn lemma_seq_add_one(b: u16, t: int)
    requires
        t >= 0,
    ensures
        seq_add(b, t + 1) == (if seq_add(b, t) == 0xFFFF {
            0u16
        } else {
            (seq_add(b, t) + 1) as u16
        }),
{
    lemma_seq_add_unfold(b, t);
    lemma_seq_add_unfold(b, t + 1);
    let y = (b + t) % 0x10000;
    vstd::arithmetic::div_mod::lemma_add_mod_noop(b + t, 1, 0x10000);
    vstd::arithmetic::div_mod::lemma_mod_twice(b + t, 0x10000);
    vstd::arithmetic::div_mod::lemma_small_mod(1nat, 0x10000nat);
    assert((b + t + 1) % 0x10000 == (y + 1) % 0x10000);
    if y == 0xFFFF {
        vstd::arithmetic::div_mod::lemma_mod_self_0(0x10000);
    } else {
        vstd::arithmetic::div_mod::lemma_small_mod((y + 1) as nat, 0x10000nat);
    }
}

/// The distance to a sequence advanced by t is t.
pub proof fn lemma_seq_dist_add(b: u16, t: int)
    requires
        0 <= t < 0x10000,
    ensures
        seq_dist(b, seq_add(b, t)) == t,
{
    lemma_seq_add_unfold(b, t);
    if b + t < 0x10000 {
        vstd::arithmetic::div_mod::lemma_small_mod((b + t) as nat, 0x10000nat);
    } else {
        vstd::arithmetic::div_mod::lemma_mod_sub_multiples_vanish(b + t, 0x10000);
        vstd::arithmetic::div_mod::lemma_small_mod((b + t - 0x10000) as nat, 0x10000nat);
    }
}

/// The concrete value of a small advance: plain addition, wrapping past
/// the top of the sequence space.
pub proof fn lemma_seq_add_vals(b: u16, t: int)
    requires
        0 <= t < 0x10000,
    ensures
        b + t < 0x10000 ==> seq_add(b, t) == b + t,
        b + t >= 0x10000 ==> seq_add(b, t) == b + t - 0x10000,
{
    lemma_seq_add_unfold(b, t);
    if b + t < 0x10000 {
        vstd::arithmetic::div_mod::lemma_small_mod((b + t) as nat, 0x10000nat);
    } else {
        vstd::arithmetic::div_mod::lemma_mod_sub_multiples_vanish(b + t, 0x10000);
        vstd::arithmetic::div_mod::lemma_small_mod((b + t - 0x10000) as nat, 0x10000nat);
    }
}

/// Distances from a base shift down when the base advances, as long as the
/// advance does not pass the target.
proof fn lemma_seq_dist_sub(b: u16, s: u16, t: int)
    requires
        0 <= t < 0x10000,
        seq_dist(b, s) >= t,
    ensures
        seq_dist(seq_add(b, t) as u16, s) == seq_dist(b, s) - t,
{
    lemma_seq_add_unfold(b, t);
    let y = seq_add(b, t);
    let d = seq_dist(b, s);
    if b + t < 0x10000 {
        vstd::arithmetic::div_mod::lemma_small_mod((b + t) as nat, 0x10000nat);
        assert(y == b + t);
    } else {
        vstd::arithmetic::div_mod::lemma_mod_sub_multiples_vanish(b + t, 0x10000);
        vstd::arithmetic::div_mod::lemma_small_mod((b + t - 0x10000) as nat, 0x10000nat);
        assert(y == b + t - 0x10000);
    }
}

/// A sequence number is its distance from the base, applied to the base.
proof fn lemma_seq_dist_inv(b: u16, s: u16)
    ensures
        0 <= seq_dist(b, s) < 0x10000,
        seq_add(b, seq_dist(b, s)) == s,
{
    let d = seq_dist(b, s);
    lemma_seq_add_unfold(b, d);
    if s - b < 0 {
        vstd::arithmetic::div_mod::lemma_mod_sub_multiples_vanish(b + d, 0x10000);
        vstd::arithmetic::div_mod::lemma_small_mod(s as nat, 0x10000nat);
    } else {
        vstd::arithmetic::div_mod::lemma_small_mod(s as nat, 0x10000nat);
    }
}

/// Exactly-once delivery across drains: two successive in-order bursts
/// from one queue hand out disjoint sequence numbers, as long as the two
/// bursts together do not lap the 16-bit sequence space.
pub proof fn lemma_no_redelivery(base: u16, t1: int, t2: int, k1: int, k2: int)
    requires
        0 <= k1 < t1,
        t1 <= k2 < t1 + t2,
        t1 + t2 <= 0x10000,
    ensures
        seq_add(base, k1) != seq_add(base, k2),
{
    lemma_seq_dist_add(base, k1);
    lemma_seq_dist_add(base, k2);
}

/// What one arrival produced: deliveries, a buffered early arrival, or a
/// discard.
#[derive(Debug)]
pub enum PushOutcome {
    Delivered(Vec<Vec<u8>>),
    Buffered,
    Discarded,
}

/// The reordering buffer of one substream.
pub struct PacketDispatchQueue {
    next_expected: u16,
    window: u16,
    buffer: Vec<(u16, Vec<u8>)>,
}

impl PacketDispatchQueue {
    /// The sequence number the consumer is owed next.
    pub closed spec fn next_expected_spec(&self) -> u16 {
        self.next_expected
    }

    /// The receive window: how far ahead of the next expected sequence an
    /// arrival may run and still be buffered.
    pub closed spec fn window_spec(&self) -> u16 {
        self.window
    }

    /// The buffered early arrivals.
    pub closed spec fn entries(&self) -> Seq<(u16, Seq<u8>)> {
        self.buffer@.map_values(|e: (u16, Vec<u8>)| (e.0, e.1@))
    }

    /// Whether a sequence number waits in the buffer.
    pub open spec fn has_seq(&self, s: u16) -> bool {
        es_has(self.entries(), s)
    }

    /// The payload waiting under a sequence number.
    pub open spec fn payload_for(&self, s: u16) -> Seq<u8> {
        es_payload(self.entries(), s)
    }

    /// The buffer holds one payload per sequence number, and only for
    /// sequence numbers strictly ahead of the next expected one, within the
    /// window.
    pub open spec fn wf(&self) -> bool {
        &&& self.window_spec() >= 1
        &&& es_keys_unique(self.entries())
        &&& forall|i: int|
            0 <= i < self.entries().len() ==> 1 <= seq_dist(
                self.next_expected_spec(),
                #[trigger] self.entries()[i].0,
            ) <= self.window_spec()
    }

    pub fn new(next_expected: u16, window: u16) -> (r: Self)
        requires
            window >= 1,
        ensures
            r.wf(),
            r.next_expected_spec() == next_expected,
            r.window_spec() == window,
            r.entries() == Seq::<(u16, Seq<u8>)>::empty(),
    {
        let r = PacketDispatchQueue { next_expected, window, buffer: Vec::new() };
        proof {
            assert(r.entries() =~= Seq::<(u16, Seq<u8>)>::empty());
        }
        r
    }

    /// The index of a buffered sequence number, if any entry carries it.
    fn find(&self, s: u16) -> (r: Option<usize>)
        ensures
            r matches Some(i) ==> i < self.entries().len() && self.entries()[i as int].0 == s,
            r is None ==> !self.has_seq(s),
    {
        let mut i: usize = 0;
        while i < self.buffer.len()
            invariant
                i <= self.buffer@.len(),
                forall|j: int| 0 <= j < i ==> self.buffer@[j].0 != s,
            decreases self.buffer@.len() - i,
        {
            if self.buffer[i].0 == s {
                return Some(i);
            }
            i += 1;
        }
        proof {
            assert forall|j: int| 0 <= j < self.entries().len() implies self.entries()[j].0
                != s by {
                assert(self.buffer@[j].0 != s);
            }
        }
        None
    }

    /// Takes one arrival. An in-order arrival is delivered at once together
    /// with every buffered payload that has become contiguous; an early
    /// arrival within the window is buffered once and duplicates are
    /// discarded; anything else — an already-delivered sequence or one past
    /// the window — is discarded.
    #[verifier::rlimit(100)]
    pub fn push(&mut self, seq: u16, payload: Vec<u8>) -> (r: PushOutcome)
        requires
            old(self).wf(),
        ensures
            final(self).wf(),
            final(self).window_spec() == old(self).window_spec(),
            seq_dist(old(self).next_expected_spec(), seq) == 0 ==> {
                &&& r matches PushOutcome::Delivered(list)
                &&& list@.len() >= 1
                &&& list@[0]@ == payload@
                &&& final(self).next_expected_spec() == seq_add(
                    old(self).next_expected_spec(),
                    list@.len() as int,
                )
                &&& forall|k: int|
                    1 <= k < list@.len() ==> old(self).has_seq(
                        #[trigger] seq_add(old(self).next_expected_spec(), k),
                    ) && list@[k]@ == old(self).payload_for(
                        seq_add(old(self).next_expected_spec(), k),
                    )
                &&& forall|s: u16|
                    final(self).has_seq(s) <==> (old(self).has_seq(s) && !(1 <= seq_dist(
                        old(self).next_expected_spec(),
                        s,
                    ) < list@.len()))
                &&& forall|s: u16| #[trigger]
                    final(self).has_seq(s) ==> final(self).payload_for(s) == old(
                        self,
                    ).payload_for(s)
                &&& !final(self).has_seq(final(self).next_expected_spec())
            },
            (1 <= seq_dist(old(self).next_expected_spec(), seq) <= old(self).window_spec()
                && old(self).has_seq(seq)) ==> {
                &&& r is Discarded
                &&& final(self).entries() == old(self).entries()
                &&& final(self).next_expected_spec() == old(self).next_expected_spec()
            },
            (1 <= seq_dist(old(self).next_expected_spec(), seq) <= old(self).window_spec()
                && !old(self).has_seq(seq)) ==> {
                &&& r is Buffered
                &&& final(self).entries() == old(self).entries().push((seq, payload@))
                &&& final(self).next_expected_spec() == old(self).next_expected_spec()
            },
            seq_dist(old(self).next_expected_spec(), seq) > old(self).window_spec() ==> {
                &&& r is Discarded
                &&& final(self).entries() == old(self).entries()
                &&& final(self).next_expected_spec() == old(self).next_expected_spec()
            },
    {
        let ghost start = *self;
        let d = seq.wrapping_sub(self.next_expected);
        proof {
            assert(d == seq_dist(start.next_expected_spec(), seq));
        }
        if d == 0 {
            let mut delivered: Vec<Vec<u8>> = Vec::new();
            delivered.push(payload);
            self.next_expected = if self.next_expected == 0xFFFF {
                0
            } else {
                self.next_expected + 1
            };
            proof {
                lemma_seq_add_unfold(start.next_expected_spec(), 0);
                vstd::arithmetic::div_mod::lemma_small_mod(
                    start.next_expected_spec() as nat,
                    0x10000nat,
                );
                lemma_seq_add_one(start.next_expected_spec(), 0);
                assert(self.next_expected == seq_add(start.next_expected_spec(), 1));
            }
            loop
                invariant
                    self.window == start.window_spec(),
                    self.window >= 1,
                    es_keys_unique(self.entries()),
                    1 <= delivered@.len() <= 0x10000,
                    delivered@[0]@ == payload@,
                    self.next_expected == seq_add(
                        start.next_expected_spec(),
                        delivered@.len() as int,
                    ),
                    forall|k: int|
                        1 <= k < delivered@.len() ==> es_has(
                            start.entries(),
                            #[trigger] seq_add(start.next_expected_spec(), k),
                        ) && delivered@[k]@ == es_payload(
                            start.entries(),
                            seq_add(start.next_expected_spec(), k),
                        ),
                    forall|s: u16|
                        es_has(self.entries(), s) <==> (es_has(start.entries(), s) && !(1
                            <= seq_dist(start.next_expected_spec(), s)
                            < delivered@.len() as int)),
                    forall|s: u16| #[trigger]
                        es_has(self.entries(), s) ==> es_payload(self.entries(), s)
                            == es_payload(start.entries(), s),
                    forall|i: int|
                        0 <= i < start.entries().len() ==> 1 <= seq_dist(
                            start.next_expected_spec(),
                            #[trigger] start.entries()[i].0,
                        ) <= start.window_spec(),
                    es_keys_unique(start.entries()),
                ensures
                    self.window == start.window_spec(),
                    es_keys_unique(self.entries()),
                    1 <= delivered@.len() <= 0x10000,
                    delivered@[0]@ == payload@,
                    self.next_expected == seq_add(
                        start.next_expected_spec(),
                        delivered@.len() as int,
                    ),
                    forall|k: int|
                        1 <= k < delivered@.len() ==> es_has(
                            start.entries(),
                            #[trigger] seq_add(start.next_expected_spec(), k),
                        ) && delivered@[k]@ == es_payload(
                            start.entries(),
                            seq_add(start.next_expected_spec(), k),
                        ),
                    forall|s: u16|
                        es_has(self.entries(), s) <==> (es_has(start.entries(), s) && !(1
                            <= seq_dist(start.next_expected_spec(), s)
                            < delivered@.len() as int)),
                    forall|s: u16| #[trigger]
                        es_has(self.entries(), s) ==> es_payload(self.entries(), s)
                            == es_payload(start.entries(), s),
                    !es_has(self.entries(), self.next_expected_spec()),
                decreases self.buffer@.len(),
            {
                let next = self.next_expected;
                match self.find(next) {
                    Some(i) => {
                        let ghost es = self.entries();
                        let ghost t = delivered@.len() as int;
                        proof {
                            lemma_es_payload_of(es, i as int);
                            assert(es_has(es, next));
                            assert(es_has(start.entries(), next));
                            // The drain cannot lap the window: the found entry
                            // sits t steps ahead of the starting sequence.
                            let j = es_index_of(start.entries(), next);
                            lemma_es_payload_of(start.entries(), j);
                            if t == 0x10000 {
                                lemma_seq_add_unfold(start.next_expected_spec(), t);
                                vstd::arithmetic::div_mod::lemma_mod_sub_multiples_vanish(
                                    start.next_expected_spec() + 0x10000,
                                    0x10000,
                                );
                                vstd::arithmetic::div_mod::lemma_small_mod(
                                    start.next_expected_spec() as nat,
                                    0x10000nat,
                                );
                                assert(next == start.next_expected_spec());
                                lemma_seq_dist_add(start.next_expected_spec(), 0);
                                assert(seq_dist(start.next_expected_spec(), next) == 0);
                                assert(false);
                            }
                            lemma_seq_dist_add(start.next_expected_spec(), t);
                            assert(seq_dist(start.next_expected_spec(), next) == t);
                            lemma_es_remove(es, i as int);
                        }
                        let pair = self.buffer.remove(i);
                        proof {
                            assert(self.entries() =~~= es.remove(i as int));
                            assert(pair.1@ == es[i as int].1);
                            assert(es_payload(es, next) == es[i as int].1);
                        }
                        delivered.push(pair.1);
                        self.next_expected = if self.next_expected == 0xFFFF {
                            0
                        } else {
                            self.next_expected + 1
                        };
                        proof {
                            let t1 = delivered@.len() as int;
                            lemma_seq_add_one(start.next_expected_spec(), t1 - 1);
                            assert(self.next_expected == seq_add(
                                start.next_expected_spec(),
                                t1,
                            ));
                            // Re-establish the buffered-set characterization.
                            assert forall|s: u16|
                                es_has(self.entries(), s) <==> (es_has(start.entries(), s)
                                    && !(1 <= seq_dist(start.next_expected_spec(), s)
                                    < t1)) by {
                                assert(es_has(self.entries(), s) <==> es_has(
                                    es.remove(i as int),
                                    s,
                                ));
                                assert(es_has(es.remove(i as int), s) <==> (es_has(es, s)
                                    && s != next));
                                lemma_seq_dist_inv(start.next_expected_spec(), s);
                                if s == next {
                                    assert(seq_dist(start.next_expected_spec(), s) == t1
                                        - 1);
                                } else {
                                    assert(seq_dist(start.next_expected_spec(), s) != t1 - 1);
                                }
                            }
                            // Payloads of the entries that stay are untouched.
                            assert forall|s: u16| #[trigger]
                                es_has(self.entries(), s) implies es_payload(
                                self.entries(),
                                s,
                            ) == es_payload(start.entries(), s) by {
                                assert(es_has(es.remove(i as int), s));
                                assert(es_payload(es.remove(i as int), s) == es_payload(
                                    es,
                                    s,
                                ));
                                assert(es_has(es, s));
                            }
                            // The payload just drained is the one buffered for
                            // this sequence number.
                            assert(delivered@[t1 - 1]@ == es_payload(
                                start.entries(),
                                seq_add(start.next_expected_spec(), t1 - 1),
                            ));
                        }
                    },
                    None => {
                        break ;
                    },
                }
            }
            proof {
                assert forall|i: int| 0 <= i < self.entries().len() implies 1 <= seq_dist(
                    self.next_expected_spec(),
                    #[trigger] self.entries()[i].0,
                ) <= self.window_spec() by {
                    let s = self.entries()[i].0;
                    let t = delivered@.len() as int;
                    lemma_es_payload_of(self.entries(), i);
                    assert(es_has(self.entries(), s));
                    assert(es_has(start.entries(), s));
                    let j = es_index_of(start.entries(), s);
                    lemma_es_payload_of(start.entries(), j);
                    let d0 = seq_dist(start.next_expected_spec(), s);
                    assert(1 <= d0 <= start.window_spec());
                    assert(!(1 <= d0 < t));
                    assert(d0 >= t);
                    // The still-buffered entry is d0 - t steps ahead of the
                    // advanced sequence.
                    lemma_seq_dist_inv(start.next_expected_spec(), s);
                    lemma_seq_add_unfold(start.next_expected_spec(), d0);
                    lemma_seq_add_unfold(start.next_expected_spec(), t);
                    if s - self.next_expected < 0 {
                        vstd::arithmetic::div_mod::lemma_mod_sub_multiples_vanish(
                            start.next_expected_spec() + d0,
                            0x10000,
                        );
                        vstd::arithmetic::div_mod::lemma_mod_sub_multiples_vanish(
                            start.next_expected_spec() + t,
                            0x10000,
                        );
                    }
                    assert(seq_dist(self.next_expected_spec(), s) == d0 - t) by {
                        lemma_seq_dist_sub(start.next_expected_spec(), s, t);
                    }
                    // d0 != t: the drain stopped at the first missing sequence.
                    if d0 == t {
                        lemma_seq_dist_inv(start.next_expected_spec(), s);
                        assert(s == seq_add(start.next_expected_spec(), t));
                        assert(s == self.next_expected_spec());
                        assert(!es_has(self.entries(), self.next_expected_spec()));
                        assert(false);
                    }
                }
            }
            PushOutcome::Delivered(delivered)
        } else if d <= self.window {
            match self.find(seq) {
                Some(i) => {
                    proof {
                        lemma_es_payload_of(self.entries(), i as int);
                    }
                    PushOutcome::Discarded
                },
                None => {
                    self.buffer.push((seq, payload));
                    proof {
                        assert(self.entries() =~~= start.entries().push((seq, payload@)));
                        assert forall|i: int, j: int|
                            0 <= i < j < self.entries().len() implies self.entries()[i].0
                            != self.entries()[j].0 by {
                            if j == self.entries().len() - 1 {
                                if self.entries()[i].0 == seq {
                                    assert(start.entries()[i].0 == seq);
                                    assert(es_has(start.entries(), seq));
                                }
                            }
                        }
                    }
                    PushOutcome::Buffered
                },
            }
        } else {
            PushOutcome::Discarded
        }
    }
}

} // verus!
