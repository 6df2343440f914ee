use vstd::prelude::*;

use crate::error::OperationReason;
use crate::error::PciError;
use crate::error::PciResult;

verus! {

/// One access to the controller's address space, as the hardware saw it.
pub struct Access {
    /// `true` for a store, `false` for a load.
    pub write: bool,
    /// `true` for a 64-bit access, `false` for a 32-bit access.
    pub wide: bool,
    pub addr: usize,
    /// The value stored, or the value the load returned.
    pub value: u64,
}

/// Uncached access to memory-mapped registers.
///
/// Every call reaches the hardware: nothing is promised about the value a
/// load returns, since the controller changes its registers on its own. The
/// only state the trait exposes is the record of the accesses made so far.
pub trait VolatileMemory {
    /// The accesses performed through this value, oldest first.
    spec fn history(&self) -> Seq<Access>;

    fn read_volatile_32(&mut self, addr: usize) -> (value: u32)
        ensures
            final(self).history() == old(self).history().push(
                Access { write: false, wide: false, addr, value: value as u64 },
            ),
    ;

    fn write_volatile_32(&mut self, addr: usize, value: u32)
        ensures
            final(self).history() == old(self).history().push(
                Access { write: true, wide: false, addr, value: value as u64 },
            ),
    ;

    fn read_volatile_64(&mut self, addr: usize) -> (value: u64)
        ensures
            final(self).history() == old(self).history().push(
                Access { write: false, wide: true, addr, value },
            ),
    ;

    fn write_volatile_64(&mut self, addr: usize, value: u64)
        ensures
            final(self).history() == old(self).history().push(
                Access { write: true, wide: true, addr, value },
            ),
    ;
}

/// Bare access to memory-mapped registers, as a platform provides it.
/// Nothing is promised about it.
pub trait RawMemory {
    fn load_32(&mut self, addr: usize) -> u32;

    fn store_32(&mut self, addr: usize, value: u32);

    fn load_64(&mut self, addr: usize) -> u64;

    fn store_64(&mut self, addr: usize, value: u64);
}

/// Access to memory-mapped registers through `R`, with a record of the
/// accesses made.
pub struct Recorded<R> {
    raw: R,
    log: Ghost<Seq<Access>>,
}

impl<R> Recorded<R> {
    /// The accesses made so far, oldest first.
    pub closed spec fn log(&self) -> Seq<Access> {
        self.log@
    }

    /// What the accesses are made through.
    pub closed spec fn inner(&self) -> R {
        self.raw
    }

    /// Access through `raw`, with nothing recorded yet.
    pub fn new(raw: R) -> (recorded: Self)
        ensures
            recorded.log() == Seq::<Access>::empty(),
            recorded.inner() == raw,
    {
        Recorded { raw, log: Ghost(Seq::empty()) }
    }

    /// What the accesses are made through.
    pub fn raw(&self) -> (raw: &R)
        ensures
            *raw == self.inner(),
    {
        &self.raw
    }

    /// Gives back what the accesses were made through.
    pub fn into_raw(self) -> (raw: R)
        ensures
            raw == self.inner(),
    {
        self.raw
    }
}

impl<R: RawMemory> VolatileMemory for Recorded<R> {
    open spec fn history(&self) -> Seq<Access> {
        self.log()
    }

    fn read_volatile_32(&mut self, addr: usize) -> (value: u32) {
        let value = self.raw.load_32(addr);
        proof {
            self.log@ = self.log@.push(
                Access { write: false, wide: false, addr, value: value as u64 },
            );
        }
        value
    }

    fn write_volatile_32(&mut self, addr: usize, value: u32) {
        self.raw.store_32(addr, value);
        proof {
            self.log@ = self.log@.push(
                Access { write: true, wide: false, addr, value: value as u64 },
            );
        }
    }

    fn read_volatile_64(&mut self, addr: usize) -> (value: u64) {
        let value = self.raw.load_64(addr);
        proof {
            self.log@ = self.log@.push(Access { write: false, wide: true, addr, value });
        }
        value
    }

    fn write_volatile_64(&mut self, addr: usize, value: u64) {
        self.raw.store_64(addr, value);
        proof {
            self.log@ = self.log@.push(Access { write: true, wide: true, addr, value });
        }
    }
}

/// `post` continues `pre`: nothing already recorded was changed.
pub open spec fn extends(pre: Seq<Access>, post: Seq<Access>) -> bool {
    &&& pre.len() <= post.len()
    &&& forall|i: int| 0 <= i < pre.len() ==> #[trigger] post[i] == pre[i]
}

/// `post` continues `pre` by exactly the accesses of `run`, which is what an
/// operation does on the accesses of `post` from index `pre.len()` on.
pub open spec fn extends_by<R>(pre: Seq<Access>, post: Seq<Access>, run: Option<(int, R)>) -> bool {
    &&& extends(pre, post)
    &&& run matches Some((end, _)) && end == post.len()
}

/// What an operation made of two steps does: the second step runs from
/// where the first ended, unless the first failed or its accesses are not
/// there.
pub open spec fn and_then_run(
    first: Option<(int, PciResult)>,
    next: spec_fn(int) -> Option<(int, PciResult)>,
) -> Option<(int, PciResult)> {
    match first {
        Some((end, Ok(_))) => next(end),
        other => other,
    }
}

/// The outcome of a confirmation loop as a result.
pub open spec fn confirmed_run(run: Option<(int, bool)>, expect: u64, attempts: usize) -> Option<
    (int, PciResult),
> {
    match run {
        Some((end, true)) => Some((end, Ok(()))),
        Some((end, false)) => Some((end, Err(spin_timeout(expect, attempts)))),
        None => None,
    }
}

/// Between `pre` and `post` exactly one access was made: a load of the
/// register of `field`, in which the field held `value`.
pub open spec fn read_step(pre: Seq<Access>, post: Seq<Access>, field: BitField, value: u64) -> bool {
    &&& extends(pre, post)
    &&& post.len() == pre.len() + 1
    &&& field.loaded_at(post, pre.len() as int)
    &&& value == field.value_at(post, pre.len() as int)
}

/// Between `pre` and `post` exactly two accesses were made: a load of the
/// register of `field` and the store that puts `value` into the field.
pub open spec fn write_step(pre: Seq<Access>, post: Seq<Access>, field: BitField, value: u64) -> bool {
    &&& extends(pre, post)
    &&& post.len() == pre.len() + 2
    &&& field.stored_at(post, pre.len() as int, value)
}

/// The value of a one-bit field that holds `flag`.
pub open spec fn flag_value(flag: bool) -> u64 {
    if flag {
        1
    } else {
        0
    }
}

/// The mask of the `bits` lowest bits.
pub open spec fn low_mask(bits: u32) -> u64 {
    if bits >= 64 {
        u64::MAX
    } else {
        ((1u64 << bits) - 1) as u64
    }
}

/// A run of adjacent bits inside one 32-bit or 64-bit register.
#[derive(Clone, Copy, Debug)]
pub struct BitField {
    pub addr: usize,
    pub wide: bool,
    pub offset: u32,
    pub bits: u32,
}

impl BitField {
    pub open spec fn width(self) -> int {
        if self.wide {
            64
        } else {
            32
        }
    }

    /// The field is not empty and lies inside its register.
    pub open spec fn wf(self) -> bool {
        &&& 1 <= self.bits
        &&& self.offset + self.bits <= self.width()
    }

    /// The field's value inside the register value `raw`.
    pub open spec fn extract(self, raw: u64) -> u64 {
        (raw >> self.offset) & low_mask(self.bits)
    }

    /// The register value `raw` with the field replaced by the low bits of
    /// `value`; all other bits stay as they are.
    pub open spec fn insert(self, raw: u64, value: u64) -> u64 {
        (raw & !(low_mask(self.bits) << self.offset)) | ((value & low_mask(self.bits))
            << self.offset)
    }

    /// The largest value the field can hold.
    pub open spec fn max_value(self) -> u64 {
        low_mask(self.bits)
    }

    /// `t[at]` is a load of this field's register.
    pub open spec fn loaded_at(self, t: Seq<Access>, at: int) -> bool {
        &&& 0 <= at < t.len()
        &&& !t[at].write
        &&& t[at].wide == self.wide
        &&& t[at].addr == self.addr
        &&& (!self.wide ==> t[at].value <= u32::MAX)
    }

    /// The field's value in the load `t[at]`.
    pub open spec fn value_at(self, t: Seq<Access>, at: int) -> u64 {
        self.extract(t[at].value)
    }

    /// `t[at]` and `t[at + 1]` are a load of this field's register and the
    /// store that puts `value` into the field and keeps the other bits.
    pub open spec fn stored_at(self, t: Seq<Access>, at: int, value: u64) -> bool {
        &&& self.loaded_at(t, at)
        &&& at + 1 < t.len()
        &&& t[at + 1] == Access {
            write: true,
            wide: self.wide,
            addr: self.addr,
            value: self.insert(t[at].value, value),
        }
    }

    pub fn new(addr: usize, wide: bool, offset: u32, bits: u32) -> (field: BitField)
        ensures
            field == (BitField { addr, wide, offset, bits }),
    {
        BitField { addr, wide, offset, bits }
    }

    fn mask(&self) -> (m: u64)
        ensures
            m == low_mask(self.bits),
    {
        if self.bits >= 64 {
            u64::MAX
        } else {
            let bits: u32 = self.bits;
            assert((1u64 << bits) >= 1) by (bit_vector)
                requires
                    bits < 64,
            ;
            (1u64 << bits) - 1
        }
    }

    fn load<M: VolatileMemory>(&self, mem: &mut M) -> (raw: u64)
        ensures
            final(mem).history() == old(mem).history().push(
                Access { write: false, wide: self.wide, addr: self.addr, value: raw },
            ),
            !self.wide ==> raw <= u32::MAX,
    {
        if self.wide {
            mem.read_volatile_64(self.addr)
        } else {
            mem.read_volatile_32(self.addr) as u64
        }
    }

    /// Loads the register and returns the field's value.
    pub fn read<M: VolatileMemory>(&self, mem: &mut M) -> (value: u64)
        requires
            self.wf(),
        ensures
            read_step(old(mem).history(), final(mem).history(), *self, value),
            value <= self.max_value(),
    {
        let raw = self.load(mem);
        let m = self.mask();
        let offset: u32 = self.offset;
        assert(((raw >> offset) & m) <= m) by (bit_vector);
        (raw >> self.offset) & m
    }

    /// Loads the register, replaces the field by the low bits of `value` and
    /// stores the result.
    pub fn write<M: VolatileMemory>(&self, mem: &mut M, value: u64)
        requires
            self.wf(),
        ensures
            write_step(old(mem).history(), final(mem).history(), *self, value),
    {
        let raw = self.load(mem);
        let m = self.mask();
        let offset: u32 = self.offset;
        let bits: u32 = self.bits;
        let updated: u64 = (raw & !(m << offset)) | ((value & m) << offset);
        if self.wide {
            mem.write_volatile_64(self.addr, updated);
        } else {
            assert(updated <= u32::MAX) by (bit_vector)
                requires
                    raw <= u32::MAX,
                    1 <= bits,
                    offset + bits <= 32,
                    m == (((1u64 << bits) - 1) as u64),
                    updated == (raw & !(m << offset)) | ((value & m) << offset),
            ;
            mem.write_volatile_32(self.addr, updated as u32);
        }
    }
}


/// What a confirmation loop of at most `attempts` loads of `field` does on
/// the accesses of `t` from index `at` on: where it ends and whether a load
/// showed `expect`. `None` when the accesses are not those of such a loop.
///
/// The loop stops at the first load that shows `expect`; it gives up after
/// `attempts` loads that do not, and not before.
pub open spec fn confirm_run(
    t: Seq<Access>,
    at: int,
    field: BitField,
    expect: u64,
    attempts: nat,
) -> Option<(int, bool)>
    decreases attempts,
{
    if attempts == 0 {
        Some((at, false))
    } else if !field.loaded_at(t, at) {
        None
    } else if field.value_at(t, at) == expect {
        Some((at + 1, true))
    } else {
        confirm_run(t, at + 1, field, expect, (attempts - 1) as nat)
    }
}

/// What storing `value` into `field` and then confirming it does on the
/// accesses of `t` from index `at` on: a load and a store of the register,
/// followed by a confirmation loop.
pub open spec fn update_run(
    t: Seq<Access>,
    at: int,
    field: BitField,
    value: u64,
    attempts: nat,
) -> Option<(int, bool)> {
    if field.stored_at(t, at, value) {
        confirm_run(t, at + 2, field, value, attempts)
    } else {
        None
    }
}

/// The error of a confirmation loop that gave up.
pub open spec fn spin_timeout(expect: u64, attempts: usize) -> PciError {
    PciError::FailedOperateToRegister(OperationReason::SpinTimeout { expect, attempts })
}

/// `t[i]` is a load of `field` that does not show `expect`.
pub open spec fn missed(t: Seq<Access>, i: int, field: BitField, expect: u64) -> bool {
    field.loaded_at(t, i) && field.value_at(t, i) != expect
}

proof fn lemma_confirm_skip(
    t: Seq<Access>,
    at: int,
    field: BitField,
    expect: u64,
    attempts: nat,
    k: nat,
)
    requires
        k <= attempts,
        forall|i: int| at <= i < at + k ==> #[trigger] missed(t, i, field, expect),
    ensures
        confirm_run(t, at, field, expect, attempts) == confirm_run(
            t,
            at + k,
            field,
            expect,
            (attempts - k) as nat,
        ),
    decreases k,
{
    if k > 0 {
        assert(missed(t, at, field, expect));
        lemma_confirm_skip(t, at + 1, field, expect, (attempts - 1) as nat, (k - 1) as nat);
    }
}

/// Reads `field` until it shows `expect`, at most `attempts` times.
///
/// Returns `Ok` as soon as a load shows `expect`, and the timeout error
/// after `attempts` loads that did not: never earlier, never silently.
pub fn wait_update_for<M: VolatileMemory>(
    mem: &mut M,
    attempts: usize,
    expect: u64,
    field: &BitField,
) -> (r: PciResult)
    requires
        field.wf(),
    ensures
        extends(old(mem).history(), final(mem).history()),
        confirmed_run(
            confirm_run(
                final(mem).history(),
                old(mem).history().len() as int,
                *field,
                expect,
                attempts as nat,
            ),
            expect,
            attempts,
        ) == Some((final(mem).history().len() as int, r)),
{
    let ghost start = mem.history();
    let ghost at = start.len() as int;
    let mut done: usize = 0;
    while done < attempts
        invariant
            done <= attempts,
            field.wf(),
            start == old(mem).history(),
            at == start.len(),
            extends(start, mem.history()),
            mem.history().len() == at + done,
            forall|i: int|
                at <= i < at + done ==> #[trigger] missed(mem.history(), i, *field, expect),
        decreases attempts - done,
    {
        let ghost before = mem.history();
        let value = field.read(mem);
        proof {
            let now = mem.history();
            assert forall|i: int| at <= i < at + done implies #[trigger] missed(
                now,
                i,
                *field,
                expect,
            ) by {
                assert(missed(before, i, *field, expect));
                assert(now[i] == before[i]);
            }
            assert forall|i: int| 0 <= i < start.len() implies #[trigger] now[i] == start[i] by {
                assert(now[i] == before[i]);
            }
        }
        if value == expect {
            proof {
                let now = mem.history();
                lemma_confirm_skip(now, at, *field, expect, attempts as nat, done as nat);
                assert(confirm_run(now, at, *field, expect, attempts as nat) == Some(
                    (now.len() as int, true),
                ));
            }
            return Ok(());
        }
        proof {
            assert(missed(mem.history(), at + done, *field, expect));
        }
        done = done + 1;
    }
    proof {
        let now = mem.history();
        lemma_confirm_skip(now, at, *field, expect, attempts as nat, attempts as nat);
        assert(confirm_run(now, at, *field, expect, attempts as nat) == Some(
            (now.len() as int, false),
        ));
    }
    Err(PciError::FailedOperateToRegister(OperationReason::SpinTimeout { expect, attempts }))
}

/// [`wait_update_for`] on a 32-bit register.
pub fn wait_update_32bits_register_for<M: VolatileMemory>(
    mem: &mut M,
    wait_limit_count: usize,
    expect_value: u32,
    field: &BitField,
) -> (r: PciResult)
    requires
        field.wf(),
    ensures
        extends(old(mem).history(), final(mem).history()),
        confirmed_run(
            confirm_run(
                final(mem).history(),
                old(mem).history().len() as int,
                *field,
                expect_value as u64,
                wait_limit_count as nat,
            ),
            expect_value as u64,
            wait_limit_count,
        ) == Some((final(mem).history().len() as int, r)),
{
    wait_update_for(mem, wait_limit_count, expect_value as u64, field)
}

/// [`wait_update_for`] on a 64-bit register.
pub fn wait_update_64bits_register_for<M: VolatileMemory>(
    mem: &mut M,
    wait_limit_count: usize,
    expect_value: u64,
    field: &BitField,
) -> (r: PciResult)
    requires
        field.wf(),
    ensures
        extends(old(mem).history(), final(mem).history()),
        confirmed_run(
            confirm_run(
                final(mem).history(),
                old(mem).history().len() as int,
                *field,
                expect_value,
                wait_limit_count as nat,
            ),
            expect_value,
            wait_limit_count,
        ) == Some((final(mem).history().len() as int, r)),
{
    wait_update_for(mem, wait_limit_count, expect_value, field)
}

/// Stores `value` into `field` and waits until the register shows it.
pub fn update_and_confirm<M: VolatileMemory>(
    mem: &mut M,
    field: &BitField,
    value: u64,
    attempts: usize,
) -> (r: PciResult)
    requires
        field.wf(),
    ensures
        extends(old(mem).history(), final(mem).history()),
        confirmed_run(
            update_run(
                final(mem).history(),
                old(mem).history().len() as int,
                *field,
                value,
                attempts as nat,
            ),
            value,
            attempts,
        ) == Some((final(mem).history().len() as int, r)),
{
    let ghost start = mem.history();
    field.write(mem, value);
    let ghost mid = mem.history();
    let r = wait_update_for(mem, attempts, value, field);
    proof {
        let now = mem.history();
        let at = start.len() as int;
        assert(now[at] == mid[at]);
        assert(now[at + 1] == mid[at + 1]);
        assert forall|i: int| 0 <= i < start.len() implies #[trigger] now[i] == start[i] by {
            assert(now[i] == mid[i]);
        }
    }
    r
}


/// The masks of the field widths the controller's registers use.
pub proof fn lemma_low_mask_values()
    by (bit_vector)
    ensures
        low_mask(1) == 0x1,
        low_mask(2) == 0x3,
        low_mask(3) == 0x7,
        low_mask(4) == 0xf,
        low_mask(5) == 0x1f,
        low_mask(8) == 0xff,
        low_mask(16) == 0xffff,
        low_mask(27) == 0x7ff_ffff,
        low_mask(30) == 0x3fff_ffff,
        low_mask(32) == 0xffff_ffff,
        low_mask(58) == 0x3ff_ffff_ffff_ffff,
        low_mask(60) == 0xfff_ffff_ffff_ffff,
        low_mask(64) == 0xffff_ffff_ffff_ffff,
{
}

/// Putting a value into a field and taking the field out again gives the
/// low bits of that value.
pub proof fn lemma_extract_insert(field: BitField, raw: u64, value: u64)
    requires
        field.wf(),
    ensures
        field.extract(field.insert(raw, value)) == value & low_mask(field.bits),
        value <= field.max_value() ==> field.extract(field.insert(raw, value)) == value,
{
    let o: u32 = field.offset;
    let b: u32 = field.bits;
    let m: u64 = low_mask(b);
    assert(o + b <= 64);
    assert((((raw & !(m << o)) | ((value & m) << o)) >> o) & m == value & m) by (bit_vector)
        requires
            1 <= b,
            o + b <= 64,
            m == (if b >= 64 {
                0xffff_ffff_ffff_ffffu64
            } else {
                ((1u64 << b) - 1) as u64
            }),
    ;
    assert(value <= m ==> value & m == value) by (bit_vector)
        requires
            m == (if b >= 64 {
                0xffff_ffff_ffff_ffffu64
            } else {
                ((1u64 << b) - 1) as u64
            }),
    ;
}

/// Storing into a field leaves every field that does not overlap it as it
/// was.
pub proof fn lemma_insert_keeps_other(field: BitField, other: BitField, raw: u64, value: u64)
    requires
        field.wf(),
        other.wf(),
        other.offset + other.bits <= field.offset || field.offset + field.bits <= other.offset,
    ensures
        other.extract(field.insert(raw, value)) == other.extract(raw),
{
    let o: u32 = field.offset;
    let b: u32 = field.bits;
    let m: u64 = low_mask(b);
    let p: u32 = other.offset;
    let c: u32 = other.bits;
    let n: u64 = low_mask(c);
    assert(o + b <= 64 && p + c <= 64);
    assert((((raw & !(m << o)) | ((value & m) << o)) >> p) & n == (raw >> p) & n) by (bit_vector)
        requires
            1 <= b,
            1 <= c,
            o + b <= 64,
            p + c <= 64,
            p + c <= o || o + b <= p,
            m == (if b >= 64 {
                0xffff_ffff_ffff_ffffu64
            } else {
                ((1u64 << b) - 1) as u64
            }),
            n == (if c >= 64 {
                0xffff_ffff_ffff_ffffu64
            } else {
                ((1u64 << c) - 1) as u64
            }),
    ;
}

/// The value of the most recent store to the register at `addr` among the
/// first `before` accesses of `t`, if there is one.
pub open spec fn latest_store(t: Seq<Access>, before: int, addr: usize, wide: bool) -> Option<u64>
    decreases before,
{
    if before <= 0 || before > t.len() {
        None
    } else if t[before - 1].write && t[before - 1].addr == addr && t[before - 1].wide == wide {
        Some(t[before - 1].value)
    } else {
        latest_store(t, before - 1, addr, wide)
    }
}

/// Every load of a register that was stored to before returns the value
/// last stored there.
pub open spec fn reflects_stores(t: Seq<Access>) -> bool {
    forall|i: int|
        0 <= i < t.len() && !(#[trigger] t[i]).write ==> match latest_store(
            t,
            i,
            t[i].addr,
            t[i].wide,
        ) {
            Some(v) => t[i].value == v,
            None => true,
        }
}

/// No load of `field` from index `from` on shows `expect`.
pub open spec fn never_shows(t: Seq<Access>, from: int, field: BitField, expect: u64) -> bool {
    forall|i: int|
        from <= i < t.len() && field.loaded_at(t, i) ==> #[trigger] field.value_at(t, i) != expect
}

/// A confirmation loop on a register that never shows the expected value
/// gives up, and does so after exactly `attempts` loads.
pub proof fn lemma_confirm_times_out(
    t: Seq<Access>,
    at: int,
    field: BitField,
    expect: u64,
    attempts: nat,
)
    requires
        confirm_run(t, at, field, expect, attempts) is Some,
        never_shows(t, at, field, expect),
    ensures
        confirm_run(t, at, field, expect, attempts) == Some((at + attempts, false)),
    decreases attempts,
{
    if attempts > 0 {
        assert(field.loaded_at(t, at));
        assert(field.value_at(t, at) != expect);
        lemma_confirm_times_out(t, at + 1, field, expect, (attempts - 1) as nat);
    }
}

/// On a register whose loads return the value last stored, a store that is
/// then confirmed succeeds with the first confirming load.
pub proof fn lemma_update_succeeds_at_once(
    t: Seq<Access>,
    at: int,
    field: BitField,
    value: u64,
    attempts: nat,
)
    requires
        field.wf(),
        value <= field.max_value(),
        attempts >= 1,
        reflects_stores(t),
        update_run(t, at, field, value, attempts) is Some,
    ensures
        update_run(t, at, field, value, attempts) == Some((at + 3, true)),
{
    assert(field.loaded_at(t, at + 2));
    assert(t[at + 1].write);
    assert(latest_store(t, at + 2, field.addr, field.wide) == Some(t[at + 1].value));
    assert(!t[at + 2].write);
    assert(t[at + 2].value == field.insert(t[at].value, value));
    lemma_extract_insert(field, t[at].value, value);
}

/// On a register that never shows the stored value, a store that is then
/// confirmed fails, and only after all `attempts` confirming loads.
pub proof fn lemma_update_times_out(
    t: Seq<Access>,
    at: int,
    field: BitField,
    value: u64,
    attempts: nat,
)
    requires
        never_shows(t, at + 2, field, value),
        update_run(t, at, field, value, attempts) is Some,
    ensures
        update_run(t, at, field, value, attempts) == Some((at + 2 + attempts, false)),
{
    lemma_confirm_times_out(t, at + 2, field, value, attempts);
}


/// A confirmation loop ends at or after the index it starts from.
pub proof fn lemma_confirm_bounds(
    t: Seq<Access>,
    at: int,
    field: BitField,
    expect: u64,
    attempts: nat,
)
    requires
        confirm_run(t, at, field, expect, attempts) is Some,
    ensures
        at <= confirm_run(t, at, field, expect, attempts)->Some_0.0,
    decreases attempts,
{
    if attempts > 0 && field.value_at(t, at) != expect {
        lemma_confirm_bounds(t, at + 1, field, expect, (attempts - 1) as nat);
    }
}

/// A confirmed store ends after the index it starts from.
pub proof fn lemma_update_bounds(
    t: Seq<Access>,
    at: int,
    field: BitField,
    value: u64,
    attempts: nat,
)
    requires
        update_run(t, at, field, value, attempts) is Some,
    ensures
        at + 2 <= update_run(t, at, field, value, attempts)->Some_0.0,
{
    lemma_confirm_bounds(t, at + 2, field, value, attempts);
}

/// What a confirmation loop did stays what it did when more accesses
/// follow.
pub proof fn lemma_confirm_stable(
    t: Seq<Access>,
    later: Seq<Access>,
    at: int,
    field: BitField,
    expect: u64,
    attempts: nat,
)
    requires
        extends(t, later),
        confirm_run(t, at, field, expect, attempts) matches Some((end, _)) && end <= t.len(),
        0 <= at,
    ensures
        confirm_run(later, at, field, expect, attempts) == confirm_run(
            t,
            at,
            field,
            expect,
            attempts,
        ),
    decreases attempts,
{
    if attempts > 0 {
        assert(field.loaded_at(t, at));
        assert(later[at] == t[at]);
        if field.value_at(t, at) != expect {
            lemma_confirm_stable(t, later, at + 1, field, expect, (attempts - 1) as nat);
        }
    }
}

/// What a confirmed store did stays what it did when more accesses follow.
pub proof fn lemma_update_stable(
    t: Seq<Access>,
    later: Seq<Access>,
    at: int,
    field: BitField,
    value: u64,
    attempts: nat,
)
    requires
        extends(t, later),
        update_run(t, at, field, value, attempts) matches Some((end, _)) && end <= t.len(),
        0 <= at,
    ensures
        update_run(later, at, field, value, attempts) == update_run(t, at, field, value, attempts),
{
    assert(later[at] == t[at]);
    assert(later[at + 1] == t[at + 1]);
    lemma_confirm_stable(t, later, at + 2, field, value, attempts);
}

/// Continuation is transitive.
pub proof fn lemma_extends_transitive(a: Seq<Access>, b: Seq<Access>, c: Seq<Access>)
    requires
        extends(a, b),
        extends(b, c),
    ensures
        extends(a, c),
{
    assert forall|i: int| 0 <= i < a.len() implies #[trigger] c[i] == a[i] by {
        assert(c[i] == b[i]);
        assert(b[i] == a[i]);
    }
}

} // verus!
