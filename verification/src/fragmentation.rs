use vstd::prelude::*;

use crate::error::NexError;

verus! {

// Fragmentation of outbound payloads into MTU-sized chunks, and reassembly
// of inbound fragment chains. On the wire the chunks carry fragment ids
// 1, 2, ... with the final chunk marked 0; a single-chunk payload goes out
// as fragment 0 directly.

/// The chunks a payload is cut into: full `mtu`-sized slices, then whatever
/// remains (possibly empty only when the payload itself is empty).
pub open spec fn fragment_chunks(p: Seq<u8>, mtu: int) -> Seq<Seq<u8>>
    recommends
        mtu >= 1,
    decreases p.len(),
{
    if p.len() <= mtu || mtu < 1 {
        seq![p]
    } else {
        seq![p.take(mtu)] + fragment_chunks(p.skip(mtu), mtu)
    }
}

/// Fragmentation round trip: concatenating the chunks restores the payload,
/// for every payload and every positive MTU.
pub proof fn lemma_fragment_reassemble(p: Seq<u8>, mtu: int)
    requires
        mtu >= 1,
    ensures
        fragment_chunks(p, mtu).flatten() == p,
    decreases p.len(),
{
    if p.len() <= mtu {
        assert(fragment_chunks(p, mtu) =~~= seq![p]);
        Seq::lemma_flatten_one_element(seq![p]);
    } else {
        lemma_fragment_reassemble(p.skip(mtu), mtu);
        let chunks = fragment_chunks(p, mtu);
        assert(chunks.first() == p.take(mtu));
        assert(chunks.drop_first() =~~= fragment_chunks(p.skip(mtu), mtu));
        assert(chunks.flatten() == chunks.first() + chunks.drop_first().flatten());
        assert(p.take(mtu) + p.skip(mtu) =~= p);
    }
}

/// The fragment id of chunk `index` out of `count`: the final chunk is 0,
/// the rest count 1, 2, ...
pub open spec fn fragment_id_spec(index: int, count: int) -> u8
    recommends
        0 <= index < count <= 256,
{
    if index == count - 1 {
        0u8
    } else {
        (index + 1) as u8
    }
}

/// Cuts a payload into MTU-sized chunks.
pub fn fragment_payload(payload: &[u8], mtu: usize) -> (r: Vec<Vec<u8>>)
    requires
        mtu >= 1,
    ensures
        r@.map_values(|v: Vec<u8>| v@) =~~= fragment_chunks(payload@, mtu as int),
        r@.len() >= 1,
{
    let mut chunks: Vec<Vec<u8>> = Vec::new();
    let mut pos: usize = 0;
    proof {
        assert(payload@.skip(0) =~= payload@);
        assert(chunks@.map_values(|v: Vec<u8>| v@) =~~= Seq::<Seq<u8>>::empty());
        assert(Seq::<Seq<u8>>::empty() + fragment_chunks(payload@, mtu as int)
            =~~= fragment_chunks(payload@, mtu as int));
    }
    while payload.len() - pos > mtu
        invariant
            mtu >= 1,
            pos <= payload@.len(),
            fragment_chunks(payload@, mtu as int) =~~= chunks@.map_values(|v: Vec<u8>| v@)
                + fragment_chunks(payload@.skip(pos as int), mtu as int),
        decreases payload@.len() - pos,
    {
        let chunk = vstd::slice::slice_to_vec(
            vstd::slice::slice_subrange(payload, pos, pos + mtu),
        );
        proof {
            let rest = payload@.skip(pos as int);
            assert(rest.take(mtu as int) =~= chunk@);
            assert(rest.skip(mtu as int) =~= payload@.skip(pos + mtu));
            assert(fragment_chunks(rest, mtu as int) == seq![chunk@] + fragment_chunks(
                payload@.skip(pos + mtu),
                mtu as int,
            ));
            assert(chunks@.push(chunk).map_values(|v: Vec<u8>| v@) =~~= chunks@.map_values(
                |v: Vec<u8>| v@,
            ).push(chunk@));
            assert((chunks@.map_values(|v: Vec<u8>| v@) + (seq![chunk@] + fragment_chunks(
                payload@.skip(pos + mtu),
                mtu as int,
            ))) =~~= (chunks@.map_values(|v: Vec<u8>| v@).push(chunk@) + fragment_chunks(
                payload@.skip(pos + mtu),
                mtu as int,
            )));
        }
        chunks.push(chunk);
        pos += mtu;
    }
    let last = vstd::slice::slice_to_vec(
        vstd::slice::slice_subrange(payload, pos, payload.len()),
    );
    proof {
        let rest = payload@.skip(pos as int);
        assert(rest =~= last@);
        assert(fragment_chunks(rest, mtu as int) =~~= seq![last@]);
        assert(chunks@.push(last).map_values(|v: Vec<u8>| v@) =~~= chunks@.map_values(
            |v: Vec<u8>| v@,
        ).push(last@));
        assert((chunks@.map_values(|v: Vec<u8>| v@) + seq![last@]) =~~= chunks@.map_values(
            |v: Vec<u8>| v@,
        ).push(last@));
    }
    chunks.push(last);
    chunks
}

/// Concatenates reassembled chunks back into one payload.
pub fn reassemble(fragments: &Vec<Vec<u8>>) -> (r: Vec<u8>)
    ensures
        r@ == fragments@.map_values(|v: Vec<u8>| v@).flatten(),
{
    let mut out: Vec<u8> = Vec::new();
    let mut i: usize = 0;
    while i < fragments.len()
        invariant
            i <= fragments@.len(),
            out@ == fragments@.map_values(|v: Vec<u8>| v@).take(i as int).flatten(),
        decreases fragments@.len() - i,
    {
        proof {
            let mapped = fragments@.map_values(|v: Vec<u8>| v@);
            assert(mapped.take(i + 1) =~~= mapped.take(i as int).push(mapped[i as int]));
            mapped.take(i as int).lemma_flatten_push(mapped[i as int]);
        }
        out.append(&mut fragments[i].clone());
        i += 1;
    }
    proof {
        let mapped = fragments@.map_values(|v: Vec<u8>| v@);
        assert(mapped.take(mapped.len() as int) =~~= mapped);
    }
    out
}

/// Reassembly state for one substream: the fragments accepted so far and
/// the next expected nonzero fragment id.
pub struct FragmentAssembler {
    buf: Vec<u8>,
    expecting: u16,
}

impl FragmentAssembler {
    /// The bytes accepted so far.
    pub closed spec fn assembled(&self) -> Seq<u8> {
        self.buf@
    }

    /// The next expected nonzero fragment id.
    pub closed spec fn expecting_spec(&self) -> int {
        self.expecting as int
    }

    /// An assembler between deliveries: the next expected id counts the
    /// accepted fragments, one past them.
    pub open spec fn wf(&self) -> bool {
        1 <= self.expecting_spec() <= 256
    }

    pub fn new() -> (r: Self)
        ensures
            r.wf(),
            r.assembled() == Seq::<u8>::empty(),
            r.expecting_spec() == 1,
    {
        FragmentAssembler { buf: Vec::new(), expecting: 1 }
    }

    /// Feeds one fragment. Fragment 0 completes the payload and resets the
    /// assembler; the next expected id appends and waits; any other id is a
    /// gap, which aborts the assembly.
    pub fn push_fragment(&mut self, fragment_id: u8, payload: &[u8]) -> (r: Result<
        Option<Vec<u8>>,
        NexError,
    >)
        requires
            old(self).wf(),
        ensures
            final(self).wf(),
            fragment_id == 0 ==> {
                &&& r matches Ok(Some(v)) && v@ == old(self).assembled() + payload@
                &&& final(self).assembled() == Seq::<u8>::empty()
                &&& final(self).expecting_spec() == 1
            },
            fragment_id != 0 && fragment_id as int == old(self).expecting_spec() ==> {
                &&& r matches Ok(None)
                &&& final(self).assembled() == old(self).assembled() + payload@
                &&& final(self).expecting_spec() == old(self).expecting_spec() + 1
            },
            fragment_id != 0 && fragment_id as int != old(self).expecting_spec() ==> {
                &&& r matches Err(e) && e is Parse
                &&& final(self).assembled() == Seq::<u8>::empty()
                &&& final(self).expecting_spec() == 1
            },
    {
        if fragment_id == 0 {
            let mut done: Vec<u8> = Vec::new();
            core::mem::swap(&mut done, &mut self.buf);
            done.extend_from_slice(payload);
            self.expecting = 1;
            Ok(Some(done))
        } else if fragment_id as u16 == self.expecting {
            self.buf.extend_from_slice(payload);
            self.expecting = self.expecting + 1;
            Ok(None)
        } else {
            self.buf = Vec::new();
            self.expecting = 1;
            Err(NexError::Parse("fragment id gap aborts assembly".to_owned()))
        }
    }
}

} // verus!
