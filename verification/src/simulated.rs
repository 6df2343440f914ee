use vstd::prelude::*;

use crate::volatile::Access;
use crate::volatile::VolatileMemory;

verus! {

/// A register block held in ordinary memory.
///
/// It stands in for a controller where none is attached: loads return the
/// word last stored. A block made with `latched == false` drops every
/// store, like a register the hardware never updates.
pub struct SimulatedRegisters {
    base: usize,
    words: Vec<u32>,
    latched: bool,
    log: Ghost<Seq<Access>>,
}

impl SimulatedRegisters {
    /// The address of the first word.
    pub closed spec fn base(&self) -> usize {
        self.base
    }

    /// The words of the block, lowest address first.
    pub closed spec fn contents(&self) -> Seq<u32> {
        self.words@
    }

    /// Whether stores change the block.
    pub closed spec fn latched(&self) -> bool {
        self.latched
    }

    /// `addr` is the address of a word of the block.
    pub open spec fn holds(&self, addr: int) -> bool {
        &&& self.base() <= addr
        &&& (addr - self.base()) % 4 == 0
        &&& (addr - self.base()) / 4 < self.contents().len()
    }

    /// The word at `addr`; zero outside the block.
    pub open spec fn word_at(&self, addr: int) -> u32 {
        if self.holds(addr) {
            self.contents()[(addr - self.base()) / 4]
        } else {
            0
        }
    }

    /// The block after a store of `value` to the word at `addr`.
    pub open spec fn contents_after_store(&self, addr: int, value: u32) -> Seq<u32> {
        if self.latched() && self.holds(addr) {
            self.contents().update((addr - self.base()) / 4, value)
        } else {
            self.contents()
        }
    }

    /// The block after a 64-bit store of `value` at `addr`: the low half goes
    /// to the word at `addr`, the high half to the word after it.
    pub open spec fn contents_after_wide_store(&self, addr: int, value: u64) -> Seq<u32> {
        let first = self.contents_after_store(addr, (value & 0xffff_ffff) as u32);
        if addr + 4 <= usize::MAX && self.latched() && self.holds(addr + 4) {
            first.update((addr + 4 - self.base()) / 4, (value >> 32) as u32)
        } else {
            first
        }
    }

    /// The 64-bit value whose low half is the word at `addr` and whose high
    /// half is the word after it.
    pub open spec fn wide_at(&self, addr: int) -> u64 {
        (self.word_at(addr) as u64) | ((self.word_above(addr) as u64) << 32)
    }

    /// The word four bytes above `addr`; zero where that address does not
    /// exist.
    pub open spec fn word_above(&self, addr: int) -> u32 {
        if addr + 4 <= usize::MAX {
            self.word_at(addr + 4)
        } else {
            0
        }
    }

    pub fn new(base: usize, words: Vec<u32>, latched: bool) -> (block: Self)
        ensures
            block.base() == base,
            block.contents() == words@,
            block.latched() == latched,
            block.history() == Seq::<Access>::empty(),
    {
        SimulatedRegisters { base, words, latched, log: Ghost(Seq::empty()) }
    }

    /// The word at `addr`, without recording an access.
    pub fn word(&self, addr: usize) -> (value: u32)
        ensures
            value == self.word_at(addr as int),
    {
        if addr >= self.base && (addr - self.base) % 4 == 0 && (addr - self.base) / 4
            < self.words.len() {
            self.words[(addr - self.base) / 4]
        } else {
            0
        }
    }

    fn upper_word(&self, addr: usize) -> (value: u32)
        ensures
            value == self.word_above(addr as int),
    {
        if addr <= usize::MAX - 4 {
            self.word(addr + 4)
        } else {
            0
        }
    }

    fn put(&mut self, addr: usize, value: u32)
        ensures
            final(self).base() == old(self).base(),
            final(self).latched() == old(self).latched(),
            final(self).history() == old(self).history(),
            final(self).contents() == old(self).contents_after_store(addr as int, value),
    {
        if self.latched && addr >= self.base && (addr - self.base) % 4 == 0 && (addr - self.base)
            / 4 < self.words.len() {
            let index: usize = (addr - self.base) / 4;
            self.words.set(index, value);
        }
    }
}

impl VolatileMemory for SimulatedRegisters {
    closed spec fn history(&self) -> Seq<Access> {
        self.log@
    }

    fn read_volatile_32(&mut self, addr: usize) -> (value: u32)
        ensures
            value == old(self).word_at(addr as int),
            final(self).base() == old(self).base(),
            final(self).latched() == old(self).latched(),
            final(self).contents() == old(self).contents(),
    {
        let value = self.word(addr);
        proof {
            self.log@ = self.log@.push(
                Access { write: false, wide: false, addr, value: value as u64 },
            );
        }
        value
    }

    fn write_volatile_32(&mut self, addr: usize, value: u32)
        ensures
            final(self).base() == old(self).base(),
            final(self).latched() == old(self).latched(),
            final(self).contents() == old(self).contents_after_store(addr as int, value),
    {
        self.put(addr, value);
        proof {
            self.log@ = self.log@.push(
                Access { write: true, wide: false, addr, value: value as u64 },
            );
        }
    }

    fn read_volatile_64(&mut self, addr: usize) -> (value: u64)
        ensures
            value == old(self).wide_at(addr as int),
            final(self).base() == old(self).base(),
            final(self).latched() == old(self).latched(),
            final(self).contents() == old(self).contents(),
    {
        let low = self.word(addr);
        let high = self.upper_word(addr);
        let value: u64 = (low as u64) | ((high as u64) << 32);
        proof {
            self.log@ = self.log@.push(Access { write: false, wide: true, addr, value });
        }
        value
    }

    fn write_volatile_64(&mut self, addr: usize, value: u64)
        ensures
            final(self).base() == old(self).base(),
            final(self).latched() == old(self).latched(),
            final(self).contents() == old(self).contents_after_wide_store(addr as int, value),
    {
        let low: u32 = (value & 0xffff_ffff) as u32;
        let high: u32 = (value >> 32) as u32;
        self.put(addr, low);
        if addr <= usize::MAX - 4 {
            self.put(addr + 4, high);
        }
        proof {
            self.log@ = self.log@.push(Access { write: true, wide: true, addr, value });
        }
    }
}

} // verus!
