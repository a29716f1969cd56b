//! PCI bus logic: where a register of a device function lies in the
//! memory-mapped configuration space, and the allocation of MMIO regions for
//! PCI BARs.
use vstd::arithmetic::div_mod::{lemma_fundamental_div_mod, lemma_mod_multiples_basic};
use vstd::arithmetic::power2::{lemma_pow2_pos, pow2};
use vstd::bits::{lemma_u64_low_bits_mask_is_mod, low_bits_mask};
use vstd::prelude::*;

verus! {

/// A PCI Configuration Access Mechanism.
#[derive(Clone, Copy, Debug, PartialEq, Eq, Structural)]
pub enum Cam {
    /// The PCI memory-mapped Configuration Access Mechanism.
    ///
    /// This provides access to 256 bytes of configuration space per device function.
    MmioCam,
    /// The PCIe memory-mapped Enhanced Configuration Access Mechanism.
    ///
    /// This provides access to 4 KiB of configuration space per device function.
    Ecam,
}

impl Cam {
    /// The total size in bytes of the memory-mapped region.
    pub open spec fn spec_size(self) -> u32 {
        match self {
            Cam::MmioCam => 0x1000000,
            Cam::Ecam => 0x10000000,
        }
    }

    /// The bytes of configuration space that each device function has.
    pub open spec fn function_stride(self) -> int {
        match self {
            Cam::MmioCam => 256,
            Cam::Ecam => 4096,
        }
    }

    /// Returns the total size in bytes of the memory-mapped region.
    pub fn size(self) -> (r: u32)
        ensures
            r == self.spec_size(),
    {
        match self {
            Cam::MmioCam => 0x1000000,
            Cam::Ecam => 0x10000000,
        }
    }
}

/// An identifier for a PCI bus, device and function.
#[derive(Clone, Copy, Debug, PartialEq, Eq, Structural)]
pub struct DeviceFunction {
    /// The PCI bus number, between 0 and 255.
    pub bus: u8,
    /// The device number on the bus, between 0 and 31.
    pub device: u8,
    /// The function number of the device, between 0 and 7.
    pub function: u8,
}

impl DeviceFunction {
    /// The device number is below 32 and the function number below 8.
    pub open spec fn spec_valid(&self) -> bool {
        self.device < 32 && self.function < 8
    }

    /// The bus, device and function packed into 16 bits, as the
    /// configuration space lays them out.
    pub open spec fn packed(&self) -> int {
        self.bus * 256 + self.device * 8 + self.function
    }

    /// Returns whether the device and function numbers are valid, i.e. the
    /// device is between 0 and 31, and the function is between 0 and 7.
    pub fn valid(&self) -> (r: bool)
        ensures
            r == self.spec_valid(),
    {
        self.device < 32 && self.function < 8
    }
}

/// The offset of the configuration-space word that holds `register_offset`
/// of `device_function`, within the region of `cam`.
pub open spec fn cam_offset_spec(cam: Cam, device_function: DeviceFunction, register_offset: u8) -> int {
    device_function.packed() * cam.function_stride() + (register_offset - register_offset % 4)
}

proof fn lemma_cam_offset_bits(bus: u32, device: u32, function: u32, reg: u32, shift: u32)
    by (bit_vector)
    requires
        bus < 256,
        device < 32,
        function < 8,
        reg < 256,
        shift == 8 || shift == 12,
    ensures
        shift == 8 ==> (bus << 8 | device << 3 | function) << shift | (reg & !3u32) == (bus * 256
            + device * 8 + function) * 256 + (reg - reg % 4),
        shift == 12 ==> (bus << 8 | device << 3 | function) << shift | (reg & !3u32) == (bus * 256
            + device * 8 + function) * 4096 + (reg - reg % 4),
{
}

/// Returns the offset in bytes within the region of `cam` of the
/// configuration-space word that holds `register_offset` of
/// `device_function`.
///
/// The offset is word-aligned and lies inside the region.
pub fn cam_offset(cam: Cam, device_function: DeviceFunction, register_offset: u8) -> (r: u32)
    requires
        device_function.spec_valid(),
    ensures
        r == cam_offset_spec(cam, device_function, register_offset),
        cam == Cam::MmioCam ==> r == device_function.bus * 0x10000 + device_function.device
            * 0x800 + device_function.function * 0x100 + register_offset / 4 * 4,
        cam == Cam::Ecam ==> r == device_function.bus * 0x100000 + device_function.device
            * 0x8000 + device_function.function * 0x1000 + register_offset / 4 * 4,
        device_function.packed() * cam.function_stride() <= r < (device_function.packed() + 1)
            * cam.function_stride(),
        r < cam.spec_size(),
        r % 4 == 0,
{
    let bdf = (device_function.bus as u32) << 8 | (device_function.device as u32) << 3
        | device_function.function as u32;
    let shift: u32 = match cam {
        Cam::MmioCam => 8,
        Cam::Ecam => 12,
    };
    let address = bdf << shift | (register_offset as u32 & !0x3u32);
    proof {
        lemma_cam_offset_bits(
            device_function.bus as u32,
            device_function.device as u32,
            device_function.function as u32,
            register_offset as u32,
            shift,
        );
    }
    address
}

/// The index, counted in 32-bit words from the start of the region of
/// `cam`, of the configuration-space word that holds `register_offset` of
/// `device_function`.
pub fn config_word_index(cam: Cam, device_function: DeviceFunction, register_offset: u8) -> (r: usize)
    requires
        device_function.spec_valid(),
    ensures
        r == cam_offset_spec(cam, device_function, register_offset) / 4,
        r < cam.spec_size() / 4,
{
    let address = cam_offset(cam, device_function, register_offset);
    proof {
        assert(address >> 2 == address / 4) by (bit_vector);
    }
    (address >> 2) as usize
}

/// The layout of the configuration space: the CAM gives each bus 64 KiB,
/// each device 2 KiB and each function 256 bytes; the ECAM gives them 1 MiB,
/// 32 KiB and 4 KiB. A register lies in the word that starts at its offset
/// rounded down to a multiple of 4.
pub proof fn lemma_cam_offset_layout(cam: Cam, df: DeviceFunction, reg: u8)
    ensures
        cam == Cam::MmioCam ==> cam_offset_spec(cam, df, reg) == df.bus * 0x10000 + df.device
            * 0x800 + df.function * 0x100 + reg / 4 * 4,
        cam == Cam::Ecam ==> cam_offset_spec(cam, df, reg) == df.bus * 0x100000 + df.device
            * 0x8000 + df.function * 0x1000 + reg / 4 * 4,
{
}

/// Two registers of valid device functions share a configuration-space
/// offset only when they are in the same word of the same device function.
pub proof fn lemma_cam_offset_injective(
    cam: Cam,
    df1: DeviceFunction,
    reg1: u8,
    df2: DeviceFunction,
    reg2: u8,
)
    requires
        df1.spec_valid(),
        df2.spec_valid(),
        cam_offset_spec(cam, df1, reg1) == cam_offset_spec(cam, df2, reg2),
    ensures
        df1 == df2,
        reg1 / 4 == reg2 / 4,
{
}

/// `u64::is_power_of_two` as std documents it: `n` is `2^k` for some `k`.
pub open spec fn is_pow2(n: u64) -> bool {
    exists|k: nat| k < 64 && n == #[trigger] pow2(k)
}

/// A power of two is positive.
proof fn lemma_pow2_positive(n: u64)
    requires
        is_pow2(n),
    ensures
        n > 0,
{
    let k = choose|k: nat| k < 64 && n == pow2(k);
    lemma_pow2_pos(k);
}

/// Calls `u64::is_power_of_two`, which std documents as true if and only if
/// the number is `2^k` for some `k`.
#[verifier::external_body]
fn u64_is_power_of_two(n: u64) -> (r: bool)
    ensures
        r == is_pow2(n),
{
    n.is_power_of_two()
}

/// The least multiple of `align` that is not below `addr`.
pub open spec fn align_up_spec(addr: int, align: int) -> int {
    (addr + align - 1) / align * align
}

/// Rounding up to a power of two gives the least multiple of it that is not
/// below the address.
pub proof fn lemma_align_up(addr: int, align: int)
    requires
        addr >= 0,
        align > 0,
    ensures
        align_up_spec(addr, align) % align == 0,
        addr <= align_up_spec(addr, align) < addr + align,
{
    let q = (addr + align - 1) / align;
    lemma_fundamental_div_mod(addr + align - 1, align);
    assert(q * align % align == 0) by {
        lemma_mod_multiples_basic(q, align);
    }
    assert(q * align == align * q) by (nonlinear_arith);
}

proof fn lemma_clear_low_bits(v: u64, m: u64)
    by (bit_vector)
    ensures
        v & !m == v - (v & m),
{
}

/// Rounds `addr` up to a multiple of the power of two `align`.
fn align_up(addr: u64, align: u64) -> (r: u64)
    requires
        is_pow2(align),
        addr + align - 1 <= u64::MAX,
    ensures
        r == align_up_spec(addr as int, align as int),
{
    proof {
        lemma_pow2_positive(align);
    }
    let v = addr + (align - 1);
    proof {
        let k = choose|k: nat| k < 64 && align == pow2(k);
        lemma_u64_low_bits_mask_is_mod(v, k);
        assert(low_bits_mask(k) as u64 == align - 1);
        lemma_clear_low_bits(v, (align - 1) as u64);
        lemma_fundamental_div_mod(v as int, align as int);
        assert((v / align) * align == align * (v / align)) by (nonlinear_arith);
    }
    v & !(align - 1)
}

/// Where an allocation of `size` bytes lands when the next free address is
/// `current` and the range ends at `end`, or `None` where it is refused.
pub open spec fn alloc_spec(current: int, end: int, size: u64) -> Option<u64> {
    if !is_pow2(size) {
        None
    } else if align_up_spec(current, size as int) + size > end {
        None
    } else {
        Some(align_up_spec(current, size as int) as u64)
    }
}

/// Used to allocate MMIO regions for PCI BARs.
pub struct PciRangeAllocator {
    start: u64,
    end: u64,
    current: u64,
}

impl PciRangeAllocator {
    /// The next free address never leaves the range.
    #[verifier::type_invariant]
    spec fn inv(&self) -> bool {
        self.start <= self.current <= self.end
    }

    /// The first address of the range.
    pub closed spec fn range_start(&self) -> int {
        self.start as int
    }

    /// The address just past the range.
    pub closed spec fn range_end(&self) -> int {
        self.end as int
    }

    /// The first address that no allocation has handed out yet.
    pub closed spec fn next_free(&self) -> int {
        self.current as int
    }

    /// The next free address lies inside the range, and the range inside
    /// the 64-bit address space.
    pub open spec fn wf(&self) -> bool {
        0 <= self.range_start() <= self.next_free() <= self.range_end() <= u64::MAX
    }

    /// Creates a new allocator from a memory range.
    pub fn new(base: u64, size: u64) -> (r: Self)
        requires
            base + size <= u64::MAX,
        ensures
            r.wf(),
            r.range_start() == base,
            r.range_end() == base + size,
            r.next_free() == base,
    {
        Self { start: base, end: base + size, current: base }
    }

    /// Whether the address arithmetic of allocating `size` bytes stays within
    /// `u64`: rounding the next free address up to `size` and adding `size`.
    pub fn alloc_in_bounds(&self, size: u64) -> (r: bool)
        ensures
            self.wf(),
            r == (is_pow2(size) ==> align_up_spec(self.next_free(), size as int) + size
                <= u64::MAX),
    {
        proof {
            use_type_invariant(self);
        }
        if !u64_is_power_of_two(size) {
            return true;
        }
        proof {
            lemma_pow2_positive(size);
            lemma_align_up(self.current as int, size as int);
        }
        if self.current > u64::MAX - size {
            return false;
        }
        let ret = align_up(self.current, size);
        ret <= u64::MAX - size
    }

    /// Allocates a memory region with the given size.
    ///
    /// The `size` should be a power of 2, and the returned value is also a
    /// multiple of `size`.
    pub fn allocate(&mut self, size: u64) -> (r: Option<u64>)
        requires
            is_pow2(size) ==> align_up_spec(old(self).next_free(), size as int) + size
                <= u64::MAX,
        ensures
            old(self).wf(),
            final(self).wf(),
            final(self).range_start() == old(self).range_start(),
            final(self).range_end() == old(self).range_end(),
            r == alloc_spec(old(self).next_free(), old(self).range_end(), size),
            final(self).next_free() == next_free_after(
                old(self).next_free(),
                old(self).range_end(),
                size,
            ),
            is_pow2(size) && align_up_spec(old(self).next_free(), size as int) + size
                <= old(self).range_end() ==> r == Some(
                align_up_spec(old(self).next_free(), size as int) as u64,
            ),
            r is None ==> !is_pow2(size) || align_up_spec(old(self).next_free(), size as int)
                + size > old(self).range_end(),
            forall|m: int|
                #![trigger m % (size as int)]
                is_pow2(size) && old(self).next_free() <= m && m % (size as int) == 0 && m + size
                    <= old(self).range_end() ==> r is Some && r.unwrap() <= m,
            r matches Some(a) ==> {
                &&& a % size == 0
                &&& old(self).next_free() <= a
                &&& a + size <= old(self).range_end()
                &&& final(self).next_free() == a + size
            },
            r is None ==> final(self).next_free() == old(self).next_free(),
    {
        proof {
            use_type_invariant(&*self);
            assert forall|m: int|
                #![trigger m % (size as int)]
                is_pow2(size) && self.next_free() <= m && m % (size as int) == 0 && m + size
                    <= self.range_end() implies alloc_spec(self.next_free(), self.range_end(), size)
                is Some && alloc_spec(self.next_free(), self.range_end(), size).unwrap() <= m by {
                lemma_alloc_complete(self.next_free(), self.range_end(), size, m);
            }
        }
        if !u64_is_power_of_two(size) {
            return None;
        }
        proof {
            lemma_pow2_positive(size);
            lemma_align_up(self.current as int, size as int);
        }
        let ret = align_up(self.current, size);
        if ret + size > self.end {
            return None;
        }
        self.current = ret + size;
        Some(ret)
    }
}

/// An allocation that succeeds hands out a region of `size` bytes that
/// starts at a multiple of `size`, at or after the next free address, and
/// ends inside the range.
pub proof fn lemma_alloc_region(current: int, end: int, size: u64)
    requires
        current >= 0,
        end <= u64::MAX,
        alloc_spec(current, end, size) is Some,
    ensures
        ({
            let a = alloc_spec(current, end, size).unwrap();
            &&& a % size == 0
            &&& current <= a
            &&& a + size <= end
        }),
{
    lemma_pow2_positive(size);
    lemma_align_up(current, size as int);
}

/// An allocation of a power-of-two `size` is refused only when no region
/// fits: wherever some multiple `m` of `size` at or after the next free
/// address has `m + size` inside the range, the allocation succeeds, and
/// hands out the least such multiple (at most `m`, less than
/// `current + size`).
pub proof fn lemma_alloc_complete(current: int, end: int, size: u64, m: int)
    requires
        0 <= current,
        end <= u64::MAX,
        is_pow2(size),
        m % (size as int) == 0,
        current <= m,
        m + size <= end,
    ensures
        alloc_spec(current, end, size) is Some,
        alloc_spec(current, end, size).unwrap() <= m,
        alloc_spec(current, end, size).unwrap() % size == 0,
        current <= alloc_spec(current, end, size).unwrap() < current + size,
{
    lemma_pow2_positive(size);
    lemma_align_up(current, size as int);
    let a = align_up_spec(current, size as int);
    if a > m {
        let q = m / (size as int);
        let p = a / (size as int);
        lemma_fundamental_div_mod(m, size as int);
        lemma_fundamental_div_mod(a, size as int);
        assert(m == size * q);
        assert(a == size * p);
        assert(p > q) by (nonlinear_arith)
            requires
                a == size * p,
                m == size * q,
                a > m,
                size > 0,
        ;
        assert(a >= m + size) by (nonlinear_arith)
            requires
                a == size * p,
                m == size * q,
                p >= q + 1,
                size > 0,
        ;
    }
}

/// An allocation is refused exactly when the size is not a power of two or
/// the least multiple of it at or after the next free address does not
/// leave room for `size` bytes before the end of the range.
pub proof fn lemma_alloc_refusal(current: int, end: int, size: u64)
    requires
        0 <= current,
        end <= u64::MAX,
    ensures
        alloc_spec(current, end, size) is None <==> (!is_pow2(size) || forall|m: int|
            #![trigger m % (size as int)]
            current <= m && m % (size as int) == 0 ==> m + size > end),
{
    if is_pow2(size) {
        lemma_pow2_positive(size);
        lemma_align_up(current, size as int);
        if alloc_spec(current, end, size) is None {
            assert forall|m: int|
                #![trigger m % (size as int)]
                current <= m && m % (size as int) == 0 implies m + size > end by {
                if m + size <= end {
                    lemma_alloc_complete(current, end, size, m);
                }
            }
        } else {
            let a = align_up_spec(current, size as int);
            assert(a % (size as int) == 0);
        }
    }
}

/// Two successive allocations never overlap: the second region starts at
/// or after the end of the first.
pub proof fn lemma_successive_allocs_disjoint(current: int, end: int, first: u64, second: u64)
    requires
        current >= 0,
        end <= u64::MAX,
        alloc_spec(current, end, first) is Some,
        alloc_spec(alloc_spec(current, end, first).unwrap() + first, end, second) is Some,
    ensures
        alloc_spec(current, end, first).unwrap() + first <= alloc_spec(
            alloc_spec(current, end, first).unwrap() + first,
            end,
            second,
        ).unwrap(),
{
    let a1 = alloc_spec(current, end, first).unwrap();
    lemma_alloc_region(current, end, first);
    lemma_alloc_region(a1 + first, end, second);
}

/// The next free address after an allocation of `size` bytes from
/// `current`: the end of the region where it succeeds, `current` where it
/// is refused.
pub open spec fn next_free_after(current: int, end: int, size: u64) -> int {
    match alloc_spec(current, end, size) {
        Some(a) => a + size,
        None => current,
    }
}

/// The next free address and the results after allocating `sizes` in turn,
/// starting from the next free address `current` in a range that ends at
/// `end`.
pub open spec fn alloc_all(current: int, end: int, sizes: Seq<u64>) -> (int, Seq<Option<u64>>)
    decreases sizes.len(),
{
    if sizes.len() == 0 {
        (current, Seq::empty())
    } else {
        let (c, results) = alloc_all(current, end, sizes.drop_last());
        (next_free_after(c, end, sizes.last()), results.push(alloc_spec(c, end, sizes.last())))
    }
}

/// Over any sequence of allocations, every region handed out is a multiple
/// of its size and lies inside the range, and each region lies wholly
/// before every region handed out after it: no two regions overlap.
pub proof fn lemma_alloc_sequence(current: int, end: int, sizes: Seq<u64>)
    requires
        0 <= current <= end <= u64::MAX,
    ensures
        ({
            let (c, results) = alloc_all(current, end, sizes);
            &&& results.len() == sizes.len()
            &&& current <= c <= end
            &&& forall|k: int|
                0 <= k < results.len() && #[trigger] results[k] is Some ==> {
                    &&& results[k].unwrap() % sizes[k] == 0
                    &&& current <= results[k].unwrap()
                    &&& results[k].unwrap() + sizes[k] <= c
                }
            &&& forall|i: int, j: int|
                0 <= i < j < results.len() && #[trigger] results[i] is Some
                    && #[trigger] results[j] is Some ==> results[i].unwrap() + sizes[i]
                    <= results[j].unwrap()
        }),
    decreases sizes.len(),
{
    if sizes.len() > 0 {
        let prefix = sizes.drop_last();
        let size = sizes.last();
        lemma_alloc_sequence(current, end, prefix);
        let (c0, results0) = alloc_all(current, end, prefix);
        let (c, results) = alloc_all(current, end, sizes);
        let r = alloc_spec(c0, end, size);
        assert(results == results0.push(r));
        if r is Some {
            lemma_alloc_region(c0, end, size);
        }
        assert forall|k: int|
            0 <= k < results.len() && #[trigger] results[k] is Some implies {
                &&& results[k].unwrap() % sizes[k] == 0
                &&& current <= results[k].unwrap()
                &&& results[k].unwrap() + sizes[k] <= c
            } by {
            if k < results0.len() {
                assert(results[k] == results0[k]);
                assert(sizes[k] == prefix[k]);
            }
        }
        assert forall|i: int, j: int|
            0 <= i < j < results.len() && #[trigger] results[i] is Some
                && #[trigger] results[j] is Some implies results[i].unwrap() + sizes[i]
                <= results[j].unwrap() by {
            assert(results[i] == results0[i]);
            assert(sizes[i] == prefix[i]);
            assert(results0[i] is Some);
            if j < results0.len() {
                assert(results[j] == results0[j]);
                assert(sizes[j] == prefix[j]);
                assert(results0[j] is Some);
            }
        }
    }
}

} // verus!
