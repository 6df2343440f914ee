use vstd::prelude::*;

use crate::volatile::extends;
use crate::volatile::Access;
use crate::volatile::VolatileMemory;

verus! {

/// The byte with the number `index`, counted from the least significant,
/// of `word`.
pub open spec fn byte_of(word: u64, index: int) -> u8 {
    if index == 0 {
        (word & 0xff) as u8
    } else if index == 1 {
        ((word >> 8) & 0xff) as u8
    } else if index == 2 {
        ((word >> 16) & 0xff) as u8
    } else {
        ((word >> 24) & 0xff) as u8
    }
}

/// `t[start + k]` is the 32-bit load of the word with the number `k` of
/// the memory at `addr`.
pub open spec fn word_loaded(t: Seq<Access>, start: int, k: int, addr: int) -> bool {
    &&& 0 <= start + k < t.len()
    &&& !t[start + k].write
    &&& !t[start + k].wide
    &&& t[start + k].addr == addr + 4 * k
}

/// The number of 32-bit words that hold `count` bytes.
pub open spec fn words_for(count: int) -> int {
    (count + 3) / 4
}

/// The accesses of `t` from index `at` on are the loads that read `count`
/// bytes from the address `addr` on, word by word.
pub open spec fn read_run(t: Seq<Access>, at: int, addr: int, count: int) -> bool {
    &&& 0 <= at
    &&& at + words_for(count) <= t.len()
    &&& forall|k: int| 0 <= k < words_for(count) ==> #[trigger] word_loaded(t, at, k, addr)
}

/// The `count` bytes that the loads of `t` from index `at` on read: each
/// word gives four bytes, the least significant first.
pub open spec fn bytes_read(t: Seq<Access>, at: int, count: int) -> Seq<u8> {
    Seq::new(count as nat, |i: int| byte_of(t[at + i / 4].value, i % 4))
}

/// Reads `count` bytes of memory that the controller has written, from the
/// address `addr` on, with one 32-bit load for every four bytes.
pub fn read_bytes<M: VolatileMemory>(mem: &mut M, addr: usize, count: usize) -> (bytes: Vec<u8>)
    requires
        addr + count + 3 <= usize::MAX,
    ensures
        bytes@.len() == count,
        bytes@ == bytes_read(final(mem).history(), old(mem).history().len() as int, count as int),
        read_run(
            final(mem).history(),
            old(mem).history().len() as int,
            addr as int,
            count as int,
        ),
        extends(old(mem).history(), final(mem).history()),
        final(mem).history().len() == old(mem).history().len() + words_for(count as int),
        forall|i: int|
            0 <= i < old(mem).history().len() ==> #[trigger] final(mem).history()[i] == old(mem).history()[i],
        forall|k: int|
            0 <= k < words_for(count as int) ==> #[trigger] word_loaded(
                final(mem).history(),
                old(mem).history().len() as int,
                k,
                addr as int,
            ),
        forall|i: int|
            0 <= i < count ==> #[trigger] bytes@[i] == byte_of(
                final(mem).history()[old(mem).history().len() + i / 4].value,
                i % 4,
            ),
{
    let mut bytes: Vec<u8> = Vec::new();
    let ghost start = mem.history();
    let mut done: usize = 0;
    while done < count
        invariant
            addr + count + 3 <= usize::MAX,
            start == old(mem).history(),
            done % 4 == 0 || done == count,
            done <= count,
            bytes@.len() == done,
            mem.history().len() == start.len() + words_for(done as int),
            forall|i: int| 0 <= i < start.len() ==> #[trigger] mem.history()[i] == start[i],
            forall|k: int|
                0 <= k < words_for(done as int) ==> #[trigger] word_loaded(
                    mem.history(),
                    start.len() as int,
                    k,
                    addr as int,
                ),
            forall|i: int|
                0 <= i < done ==> #[trigger] bytes@[i] == byte_of(
                    mem.history()[start.len() + i / 4].value,
                    i % 4,
                ),
        decreases count - done,
    {
        let ghost before = mem.history();
        let ghost read = bytes@;
        let word = mem.read_volatile_32(addr + done);
        let ghost at = before.len() as int;
        proof {
            assert(done % 4 == 0);
            assert(at == start.len() + done / 4);
            assert forall|i: int| 0 <= i < start.len() implies #[trigger] mem.history()[i]
                == start[i] by {
                assert(mem.history()[i] == before[i]);
            }
        }
        let lane0: u8 = #[verifier::truncate]
        ((word & 0xff) as u8);
        let lane1: u8 = #[verifier::truncate]
        (((word >> 8) & 0xff) as u8);
        let lane2: u8 = #[verifier::truncate]
        (((word >> 16) & 0xff) as u8);
        let lane3: u8 = #[verifier::truncate]
        (((word >> 24) & 0xff) as u8);
        let ghost wide = word as u64;
        proof {
            assert(byte_of(wide, 0) == lane0 && byte_of(wide, 1) == lane1 && byte_of(wide, 2)
                == lane2 && byte_of(wide, 3) == lane3) by (bit_vector)
                requires
                    wide == word as u64,
                    lane0 == (word & 0xff) as u8,
                    lane1 == ((word >> 8) & 0xff) as u8,
                    lane2 == ((word >> 16) & 0xff) as u8,
                    lane3 == ((word >> 24) & 0xff) as u8,
            ;
        }
        let base = done;
        bytes.push(lane0);
        done = done + 1;
        if done < count {
            bytes.push(lane1);
            done = done + 1;
        }
        if done < count {
            bytes.push(lane2);
            done = done + 1;
        }
        if done < count {
            bytes.push(lane3);
            done = done + 1;
        }
        proof {
            let now = mem.history();
            assert(words_for(done as int) == base / 4 + 1);
            assert forall|k: int| 0 <= k < words_for(done as int) implies #[trigger] word_loaded(
                now,
                start.len() as int,
                k,
                addr as int,
            ) by {
                if k < base / 4 {
                    assert(word_loaded(before, start.len() as int, k, addr as int));
                    assert(now[start.len() + k] == before[start.len() + k]);
                }
            }
            assert forall|i: int| 0 <= i < done implies #[trigger] bytes@[i] == byte_of(
                now[start.len() + i / 4].value,
                i % 4,
            ) by {
                if i < base {
                    assert(bytes@[i] == read[i]);
                    assert(now[start.len() + i / 4] == before[start.len() + i / 4]);
                } else {
                    assert(i / 4 == base / 4);
                    assert(now[at].value == wide);
                }
            }
        }
    }
    proof {
        assert(bytes@ =~= bytes_read(mem.history(), old(mem).history().len() as int, count as int));
    }
    bytes
}

} // verus!
