//! Filling a buffer from a source that may hand out fewer bytes than asked
//! for: when to ask again, and when to stop.

use vstd::prelude::*;

verus! {

/// What is due while a buffer is being filled.
#[derive(Debug, Clone, Copy, PartialEq, Eq, Structural)]
pub enum ReadStep {
    /// Read again, into the buffer from `filled` on.
    Again { filled: usize },
    /// The buffer is full or the source is at its end: `bytes_read` bytes
    /// were read in all.
    Done { bytes_read: usize },
}

/// What is due once `filled` bytes of a buffer of `capacity` bytes are
/// there, and the last read, if there was one, gave `read` bytes: done where
/// the buffer is full or the read gave nothing, else another read.
pub open spec fn read_due(filled: usize, capacity: usize, read: Option<usize>) -> ReadStep {
    match read {
        None => if filled < capacity {
            ReadStep::Again { filled }
        } else {
            ReadStep::Done { bytes_read: filled }
        },
        Some(n) => if n == 0 {
            ReadStep::Done { bytes_read: filled }
        } else if filled + n < capacity {
            ReadStep::Again { filled: (filled + n) as usize }
        } else {
            ReadStep::Done { bytes_read: (filled + n) as usize }
        },
    }
}

/// Decides the next step of filling a buffer of `capacity` bytes of which
/// `filled` were there before the last read, which gave `read` bytes
/// (`None` before the first read). A read gives no more bytes than the
/// space it was handed.
pub fn read_max(filled: usize, capacity: usize, read: Option<usize>) -> (r: ReadStep)
    requires
        filled <= capacity,
        read matches Some(n) ==> n <= capacity - filled,
    ensures
        r == read_due(filled, capacity, read),
        r matches ReadStep::Again { filled: next } ==> next < capacity,
        r matches ReadStep::Done { bytes_read } ==> bytes_read <= capacity,
{
    match read {
        None => {
            if filled < capacity {
                ReadStep::Again { filled }
            } else {
                ReadStep::Done { bytes_read: filled }
            }
        },
        Some(n) => {
            if n == 0 {
                ReadStep::Done { bytes_read: filled }
            } else if filled + n < capacity {
                ReadStep::Again { filled: filled + n }
            } else {
                ReadStep::Done { bytes_read: filled + n }
            }
        },
    }
}

} // verus!
