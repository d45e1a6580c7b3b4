use vstd::prelude::*;

use crate::bytes::{le32_val, le64_val, u32_bytes, u64_bytes};
use crate::error::NexError;
use crate::io::{ByteStreamIn, ByteStreamOut};

verus! {

/// A principal identifier: 8 bytes on the wire in the current era, 4 in
/// the earlier one, selected by the stream settings.
#[derive(Debug, Clone, Copy, PartialEq, Eq, Structural)]
pub struct Pid(pub u64);

impl Pid {
    /// Writes the pid at the width the stream settings call for; at the
    /// 4-byte width the upper half is dropped, as the wire cannot carry it.
    pub fn write_to(&self, out: &mut ByteStreamOut)
        ensures
            final(out).same_settings(old(out)),
            old(out).pid_size_spec() == 8 ==> final(out).out() == old(out).out() + u64_bytes(
                self.0,
            ),
            old(out).pid_size_spec() != 8 ==> final(out).out() == old(out).out() + u32_bytes(
                (self.0 % 0x100000000) as u32,
            ),
    {
        if out.pid_size() == 8 {
            out.write_u64_le(self.0);
        } else {
            let low = self.0 % 0x100000000;
            out.write_u32_le(low as u32);
        }
    }

    /// Reads a pid at the width the stream settings call for.
    pub fn read_from(input: &mut ByteStreamIn) -> (r: Result<Pid, NexError>)
        requires
            old(input).wf(),
        ensures
            final(input).wf(),
            final(input).same_stream(old(input)),
            old(input).pid_size_spec() == 8 ==> {
                &&& old(input).remaining_spec() >= 8 ==> (r matches Ok(p) && p.0 == le64_val(
                    old(input).data_seq().subrange(
                        old(input).position(),
                        old(input).position() + 8,
                    ),
                ) && final(input).position() == old(input).position() + 8)
                &&& old(input).remaining_spec() < 8 ==> (r matches Err(e) && e is Parse
                    && final(input).position() == old(input).position())
            },
            old(input).pid_size_spec() != 8 ==> {
                &&& old(input).remaining_spec() >= 4 ==> (r matches Ok(p) && p.0 == le32_val(
                    old(input).data_seq().subrange(
                        old(input).position(),
                        old(input).position() + 4,
                    ),
                ) && final(input).position() == old(input).position() + 4)
                &&& old(input).remaining_spec() < 4 ==> (r matches Err(e) && e is Parse
                    && final(input).position() == old(input).position())
            },
    {
        if input.pid_size() == 8 {
            match input.read_u64_le() {
                Ok(v) => Ok(Pid(v)),
                Err(e) => Err(e),
            }
        } else {
            match input.read_u32_le() {
                Ok(v) => Ok(Pid(v as u64)),
                Err(e) => Err(e),
            }
        }
    }
}

} // verus!
