use vstd::prelude::*;

use crate::error::NexError;
use crate::io::{ByteStreamIn, ByteStreamOut};

verus! {

/// A value that can be extracted from a byte stream.
pub trait Readable: Sized {
    fn read_from(stream: &mut ByteStreamIn) -> Result<Self, NexError>
        requires
            old(stream).wf(),
    ;
}

/// A value that can be written to a byte stream.
pub trait Writable {
    fn write_to(&self, stream: &mut ByteStreamOut);
}

} // verus!
