//! A sequential big-endian reader over an owned byte buffer. Every parser
//! and every frame's program counter is built on it. Reading past the end of
//! the buffer is reported as a malformed-input error and leaves the cursor
//! where it was.
use vstd::prelude::*;

use crate::VmError;

verus! {

/// The mathematical content of a cursor: the bytes and the offset.
pub struct FileView {
    pub data: Seq<u8>,
    pub pointer: int,
}

/// The big-endian value of the two bytes of `d` at `i`.
pub open spec fn be_u16(d: Seq<u8>, i: int) -> int {
    d[i] * 0x100 + d[i + 1]
}

/// The big-endian value of the four bytes of `d` at `i`.
pub open spec fn be_u32(d: Seq<u8>, i: int) -> int {
    d[i] * 0x1000000 + d[i + 1] * 0x10000 + d[i + 2] * 0x100 + d[i + 3]
}

/// Where a relative jump of `offset` from `pointer` lands: the target itself
/// when it lies inside the buffer, and the buffer's end otherwise, so that a
/// jump out of range stops the reader (there is nothing left to read).
pub open spec fn jump_target(data_len: int, pointer: int, offset: int) -> int {
    if 0 <= pointer + offset <= data_len {
        pointer + offset
    } else {
        data_len
    }
}

/// An owned byte buffer and an offset into it, advanced by each read.
#[derive(Debug)]
pub struct File {
    data: Vec<u8>,
    pointer: usize,
}

impl View for File {
    type V = FileView;

    closed spec fn view(&self) -> FileView {
        FileView {
            data: self.data@,
            pointer: if self.pointer <= self.data@.len() {
                self.pointer as int
            } else {
                self.data@.len() as int
            },
        }
    }
}

/// A cursor's offset always lies inside its buffer (or just past its end):
/// the constructor starts it at zero and every operation keeps it in range.
pub broadcast proof fn lemma_file_bounds(f: File)
    ensures
        0 <= (#[trigger] f@).pointer <= f@.data.len(),
{
}

impl File {
    #[verifier::type_invariant]
    spec fn wf(self) -> bool {
        self.pointer <= self.data@.len()
    }

    pub fn new(data: Vec<u8>) -> (f: File)
        ensures
            f@.data == data@,
            f@.pointer == 0,
    {
        File { data, pointer: 0 }
    }

    /// Moves the offset by `offset`, clamping a target outside the buffer to
    /// the buffer's end, where nothing more can be read.
    pub fn offset_pointer(&mut self, offset: isize)
        ensures
            final(self)@.data == old(self)@.data,
            final(self)@.pointer == jump_target(
                old(self)@.data.len() as int,
                old(self)@.pointer,
                offset as int,
            ),
    {
        proof {
            use_type_invariant(&*self);
        }
        let end = self.data.len();
        if offset >= 0 {
            let fwd = offset as usize;
            if fwd <= end - self.pointer {
                self.pointer = self.pointer + fwd;
            } else {
                self.pointer = end;
            }
        } else {
            let back: usize = if offset == isize::MIN {
                (isize::MAX as usize) + 1
            } else {
                (-offset) as usize
            };
            if back <= self.pointer {
                self.pointer = self.pointer - back;
            } else {
                self.pointer = end;
            }
        }
    }

    pub fn get_pointer(&self) -> (r: usize)
        ensures
            r == self@.pointer,
    {
        proof {
            use_type_invariant(self);
        }
        self.pointer
    }

    /// Reads one byte and advances by one.
    pub fn get_u1(&mut self) -> (r: Result<u8, VmError>)
        ensures
            final(self)@.data == old(self)@.data,
            old(self)@.pointer + 1 <= old(self)@.data.len() ==> {
                &&& r matches Ok(b) && b == old(self)@.data[old(self)@.pointer]
                &&& final(self)@.pointer == old(self)@.pointer + 1
            },
            old(self)@.pointer + 1 > old(self)@.data.len() ==> {
                &&& r matches Err(e) && e == VmError::MalformedInput
                &&& final(self)@.pointer == old(self)@.pointer
            },
    {
        proof {
            use_type_invariant(&*self);
        }
        if self.pointer < self.data.len() {
            let out = self.data[self.pointer];
            self.pointer = self.pointer + 1;
            Ok(out)
        } else {
            Err(VmError::MalformedInput)
        }
    }

    /// Reads a two-byte big-endian value and advances by two.
    pub fn get_u2(&mut self) -> (r: Result<u16, VmError>)
        ensures
            final(self)@.data == old(self)@.data,
            old(self)@.pointer + 2 <= old(self)@.data.len() ==> {
                &&& r matches Ok(v) && v == be_u16(old(self)@.data, old(self)@.pointer)
                &&& final(self)@.pointer == old(self)@.pointer + 2
            },
            old(self)@.pointer + 2 > old(self)@.data.len() ==> {
                &&& r matches Err(e) && e == VmError::MalformedInput
                &&& final(self)@.pointer == old(self)@.pointer
            },
    {
        proof {
            use_type_invariant(&*self);
        }
        if self.data.len() >= 2 && self.pointer <= self.data.len() - 2 {
            let hi = self.data[self.pointer];
            let lo = self.data[self.pointer + 1];
            let out: u16 = (hi as u16) * 0x100 + (lo as u16);
            self.pointer = self.pointer + 2;
            Ok(out)
        } else {
            Err(VmError::MalformedInput)
        }
    }

    /// Reads a four-byte big-endian value and advances by four.
    pub fn get_u4(&mut self) -> (r: Result<u32, VmError>)
        ensures
            final(self)@.data == old(self)@.data,
            old(self)@.pointer + 4 <= old(self)@.data.len() ==> {
                &&& r matches Ok(v) && v == be_u32(old(self)@.data, old(self)@.pointer)
                &&& final(self)@.pointer == old(self)@.pointer + 4
            },
            old(self)@.pointer + 4 > old(self)@.data.len() ==> {
                &&& r matches Err(e) && e == VmError::MalformedInput
                &&& final(self)@.pointer == old(self)@.pointer
            },
    {
        proof {
            use_type_invariant(&*self);
        }
        if self.data.len() >= 4 && self.pointer <= self.data.len() - 4 {
            let b0 = self.data[self.pointer];
            let b1 = self.data[self.pointer + 1];
            let b2 = self.data[self.pointer + 2];
            let b3 = self.data[self.pointer + 3];
            let out: u32 = (b0 as u32) * 0x1000000 + (b1 as u32) * 0x10000 + (b2 as u32) * 0x100
                + (b3 as u32);
            self.pointer = self.pointer + 4;
            Ok(out)
        } else {
            Err(VmError::MalformedInput)
        }
    }

    /// Reads `range` bytes as an owned buffer and advances past them.
    pub fn get_range(&mut self, range: usize) -> (r: Result<Vec<u8>, VmError>)
        ensures
            final(self)@.data == old(self)@.data,
            old(self)@.pointer + range <= old(self)@.data.len() ==> {
                &&& r matches Ok(v) && v@ == old(self)@.data.subrange(
                    old(self)@.pointer,
                    old(self)@.pointer + range,
                )
                &&& final(self)@.pointer == old(self)@.pointer + range
            },
            old(self)@.pointer + range > old(self)@.data.len() ==> {
                &&& r matches Err(e) && e == VmError::MalformedInput
                &&& final(self)@.pointer == old(self)@.pointer
            },
    {
        proof {
            use_type_invariant(&*self);
        }
        if range <= self.data.len() - self.pointer {
            let ghost start = self.pointer as int;
            let mut out: Vec<u8> = Vec::new();
            let mut i: usize = 0;
            while i < range
                invariant
                    i <= range,
                    0 <= start,
                    self@.data == old(self)@.data,
                    self@.pointer == start + i,
                    start + range <= self@.data.len(),
                    out@ == self@.data.subrange(start, start + i),
                decreases range - i,
            {
                let b = match self.get_u1() {
                    Ok(b) => b,
                    Err(_) => {
                        proof {
                            assert(false);
                        }
                        0
                    },
                };
                out.push(b);
                i = i + 1;
                proof {
                    assert(out@ =~= self@.data.subrange(start, start + i));
                }
            }
            Ok(out)
        } else {
            Err(VmError::MalformedInput)
        }
    }

    /// Reads `range` two-byte big-endian values and advances past them.
    pub fn get_range_u2(&mut self, range: usize) -> (r: Result<Vec<u16>, VmError>)
        ensures
            final(self)@.data == old(self)@.data,
            old(self)@.pointer + 2 * range <= old(self)@.data.len() ==> {
                &&& r matches Ok(v) && v@.len() == range
                &&& r matches Ok(v) && forall|i: int|
                    0 <= i < range ==> #[trigger] v@[i] == be_u16(
                        old(self)@.data,
                        old(self)@.pointer + 2 * i,
                    )
                &&& final(self)@.pointer == old(self)@.pointer + 2 * range
            },
            old(self)@.pointer + 2 * range > old(self)@.data.len() ==> {
                &&& r matches Err(e) && e == VmError::MalformedInput
                &&& final(self)@.pointer == old(self)@.pointer
            },
    {
        proof {
            use_type_invariant(&*self);
        }
        if range <= (self.data.len() - self.pointer) / 2 {
            let ghost start = self.pointer as int;
            let mut out: Vec<u16> = Vec::new();
            let mut i: usize = 0;
            while i < range
                invariant
                    i <= range,
                    0 <= start,
                    self@.data == old(self)@.data,
                    self@.pointer == start + 2 * i,
                    start + 2 * range <= self@.data.len(),
                    out@.len() == i,
                    forall|j: int|
                        0 <= j < i ==> #[trigger] out@[j] == be_u16(self@.data, start + 2 * j),
                decreases range - i,
            {
                let v = match self.get_u2() {
                    Ok(v) => v,
                    Err(_) => {
                        proof {
                            assert(false);
                        }
                        0
                    },
                };
                out.push(v);
                i = i + 1;
            }
            Ok(out)
        } else {
            Err(VmError::MalformedInput)
        }
    }

    /// Whether at least one byte is left to read.
    pub fn has_next(&self) -> (r: bool)
        ensures
            r == (self@.pointer < self@.data.len()),
    {
        self.pointer < self.data.len()
    }
}

} // verus!
