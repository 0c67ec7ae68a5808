//! A bounds- and alignment-checked window over the ASIC's memory-mapped
//! register space.
//!
//! The window owns the mapped words and is the only place a register transfer
//! happens: every access is a single 4-byte load or store at a byte offset
//! that has first been checked to be 4-byte aligned and inside the mapped
//! length.  Acquiring the mapping from the platform is not this crate's
//! business; the window is handed its contents as plain words, so every
//! component can equally run against a synthetic image of the register space.

use vstd::prelude::*;
use crate::errors::TfError;

verus! {

/// A mapped register window of fixed length, addressed by byte offset.
pub struct Pci {
    words: Vec<u32>,
}

impl View for Pci {
    type V = Seq<u32>;

    closed spec fn view(&self) -> Seq<u32> {
        self.words@
    }
}

impl Pci {
    /// The window stays addressable with 32-bit byte offsets.
    pub open spec fn wf(&self) -> bool {
        4 * self@.len() <= 0xFFFF_FFFF
    }

    /// Length of the window in bytes.
    pub open spec fn spec_len_bytes(&self) -> int {
        4 * (self@.len() as int)
    }

    /// A byte offset at which a 4-byte transfer is accepted.
    pub open spec fn offset_ok(&self, offset: int) -> bool {
        offset % 4 == 0 && offset + 4 <= self.spec_len_bytes()
    }

    /// The error a transfer at `offset` reports: misalignment is checked
    /// before bounds.
    pub open spec fn access_error(&self, offset: u32) -> TfError {
        if offset % 4 != 0 {
            TfError::Alignment(offset)
        } else {
            TfError::Bounds(offset as u64)
        }
    }

    /// Wrap an already-mapped register image in a checked window.
    pub fn new(words: Vec<u32>) -> (r: Pci)
        requires
            4 * words@.len() <= 0xFFFF_FFFF,
        ensures
            r@ == words@,
            r.wf(),
    {
        Pci { words }
    }

    /// Length of the window in bytes.
    pub fn len_bytes(&self) -> (r: usize)
        requires
            self.wf(),
        ensures
            r == self.spec_len_bytes(),
    {
        self.words.len() * 4
    }

    /// Read the 4-byte word at the given byte offset.
    pub fn read4(&self, offset: u32) -> (r: Result<u32, TfError>)
        requires
            self.wf(),
        ensures
            self.offset_ok(offset as int) ==> r == Ok::<u32, TfError>(self@[offset as int / 4]),
            !self.offset_ok(offset as int) ==> r == Err::<u32, TfError>(self.access_error(offset)),
    {
        if offset % 4 != 0 {
            return Err(TfError::Alignment(offset));
        }
        let idx = (offset / 4) as usize;
        if idx >= self.words.len() {
            return Err(TfError::Bounds(offset as u64));
        }
        Ok(self.words[idx])
    }

    /// Write a 4-byte word at the given byte offset.  A rejected offset never
    /// touches the window.
    pub fn write4(&mut self, offset: u32, val: u32) -> (r: Result<(), TfError>)
        requires
            old(self).wf(),
        ensures
            final(self).wf(),
            old(self).offset_ok(offset as int) ==> r == Ok::<(), TfError>(()) && final(self)@
                == old(self)@.update(offset as int / 4, val),
            !old(self).offset_ok(offset as int) ==> r == Err::<(), TfError>(
                old(self).access_error(offset),
            ) && final(self)@ == old(self)@,
    {
        if offset % 4 != 0 {
            return Err(TfError::Alignment(offset));
        }
        let idx = (offset / 4) as usize;
        if idx >= self.words.len() {
            return Err(TfError::Bounds(offset as u64));
        }
        self.words[idx] = val;
        Ok(())
    }
}

} // verus!
