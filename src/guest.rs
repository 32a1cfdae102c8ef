//! Guest registers and memory, as seen by the syscall layer.
use std::collections::HashMap;
use vstd::prelude::*;

verus! {

broadcast use vstd::std_specs::hash::group_hash_axioms;

/// Index of `$v0`, which carries the syscall code and most results.
pub const V0_REG: usize = 2;

/// Index of `$a0`, the first argument register.
pub const A0_REG: usize = 4;

/// Index of `$a1`.
pub const A1_REG: usize = 5;

/// Index of `$a2`.
pub const A2_REG: usize = 6;

/// Index of `$a3`.
pub const A3_REG: usize = 7;

/// Number of general purpose registers.
pub const REGISTER_COUNT: usize = 32;

/// A CPU-level fault raised while the syscall layer touches the guest.
#[derive(Debug, Clone, Copy, PartialEq, Eq, Structural)]
pub enum CpuError {
    /// The guest executed a `syscall` instruction.
    CpuSyscall,
    /// A fatal trap, such as an address that wraps past the end of memory.
    CpuTrap,
    /// An access to an address that no region maps.
    MemoryUnmapped(u32),
}

/// Guest memory: the bytes at the addresses that are mapped.
pub struct GuestMemory {
    cells: HashMap<u32, u8>,
}

impl View for GuestMemory {
    type V = Map<u32, u8>;

    closed spec fn view(&self) -> Map<u32, u8> {
        self.cells@
    }
}

/// What reading the byte at `addr` gives.
pub open spec fn load(mem: Map<u32, u8>, addr: u32) -> Result<u8, CpuError> {
    if mem.contains_key(addr) {
        Ok(mem[addr])
    } else {
        Err(CpuError::MemoryUnmapped(addr))
    }
}

impl GuestMemory {
    /// Memory with nothing mapped.
    pub fn new() -> (r: GuestMemory)
        ensures
            r@ == Map::<u32, u8>::empty(),
    {
        GuestMemory { cells: HashMap::new() }
    }

    /// Maps `len` zero bytes from `start` on; bytes already mapped there are cleared.
    pub fn map_zeroed(&mut self, start: u32, len: u32)
        requires
            start as int + len as int <= u32::MAX as int + 1,
        ensures
            forall|a: u32|
                start <= a < start as int + len as int ==> #[trigger] load(final(self)@, a) == Ok::<
                    u8,
                    CpuError,
                >(0),
            forall|a: u32|
                !(start <= a < start as int + len as int) ==> #[trigger] load(final(self)@, a)
                    == load(old(self)@, a),
    {
        let mut i: u32 = 0;
        while i < len
            invariant
                i <= len,
                start as int + len as int <= u32::MAX as int + 1,
                forall|a: u32|
                    start <= a < start as int + i as int ==> #[trigger] load(self@, a) == Ok::<
                        u8,
                        CpuError,
                    >(0),
                forall|a: u32|
                    !(start <= a < start as int + i as int) ==> #[trigger] load(self@, a) == load(
                        old(self)@,
                        a,
                    ),
            decreases len - i,
        {
            let ghost prev = self@;
            self.cells.insert(start + i, 0);
            assert forall|a: u32| #[trigger]
                load(self@, a) == (if a == start + i {
                    Ok::<u8, CpuError>(0)
                } else {
                    load(prev, a)
                }) by {}
            i = i + 1;
        }
    }

    /// The byte at `addr`, or the fault that reading it raises.
    pub fn get(&self, addr: u32) -> (r: Result<u8, CpuError>)
        ensures
            r == load(self@, addr),
    {
        match self.cells.get(&addr) {
            Some(b) => Ok(*b),
            None => Err(CpuError::MemoryUnmapped(addr)),
        }
    }

    /// Stores `byte` at `addr` if it is mapped.
    pub fn set(&mut self, addr: u32, byte: u8) -> (r: Result<(), CpuError>)
        ensures
            old(self)@.contains_key(addr) ==> r is Ok && final(self)@ == old(self)@.insert(
                addr,
                byte,
            ),
            !old(self)@.contains_key(addr) ==> r == Err::<(), CpuError>(
                CpuError::MemoryUnmapped(addr),
            ) && final(self)@ == old(self)@,
    {
        if self.cells.contains_key(&addr) {
            self.cells.insert(addr, byte);
            Ok(())
        } else {
            Err(CpuError::MemoryUnmapped(addr))
        }
    }
}

/// The registers and memory of the guest at a syscall trap.
pub struct Machine {
    pub registers: Vec<u32>,
    pub memory: GuestMemory,
}

impl Machine {
    /// The machine has a full register bank.
    pub open spec fn wf(&self) -> bool {
        self.registers@.len() == REGISTER_COUNT
    }

    /// Value of register `i`.
    pub open spec fn reg_spec(&self, i: int) -> u32 {
        self.registers@[i]
    }

    /// All registers zero and no memory mapped.
    pub fn new() -> (r: Machine)
        ensures
            r.wf(),
            forall|i: int| 0 <= i < REGISTER_COUNT ==> r.registers@[i] == 0,
            r.memory@ == Map::<u32, u8>::empty(),
    {
        let mut registers: Vec<u32> = Vec::new();
        let mut i: usize = 0;
        while i < REGISTER_COUNT
            invariant
                i <= REGISTER_COUNT,
                registers@.len() == i,
                forall|j: int| 0 <= j < i ==> registers@[j] == 0,
            decreases REGISTER_COUNT - i,
        {
            registers.push(0);
            i = i + 1;
        }
        Machine { registers, memory: GuestMemory::new() }
    }

    /// Value of register `i`.
    pub fn reg(&self, i: usize) -> (r: u32)
        requires
            self.wf(),
            i < REGISTER_COUNT,
        ensures
            r == self.registers@[i as int],
    {
        self.registers[i]
    }

    /// Sets register `i` to `value`.
    pub fn set_reg(&mut self, i: usize, value: u32)
        requires
            old(self).wf(),
            i < REGISTER_COUNT,
        ensures
            final(self).wf(),
            final(self).registers@ == old(self).registers@.update(i as int, value),
            final(self).memory@ == old(self).memory@,
    {
        self.registers.set(i, value);
    }
}

/// Whether `max` bytes have already been taken.
pub open spec fn cap_reached(taken: nat, max: Option<usize>) -> bool {
    match max {
        Some(m) => taken >= m,
        None => false,
    }
}

/// The NUL-terminated string at `addr`, having already taken `taken` bytes:
/// it ends at a NUL byte (not included) or after `max` bytes in all, and a
/// fault comes from an unmapped byte or from running past the last address.
pub open spec fn c_string(mem: Map<u32, u8>, addr: u32, taken: nat, max: Option<usize>) -> Result<
    Seq<u8>,
    CpuError,
>
    decreases u32::MAX - addr,
{
    if cap_reached(taken, max) {
        Ok(Seq::empty())
    } else {
        match load(mem, addr) {
            Err(e) => Err(e),
            Ok(b) => if b == 0 {
                Ok(Seq::empty())
            } else if addr == u32::MAX {
                Err(CpuError::CpuTrap)
            } else {
                match c_string(mem, (addr + 1) as u32, taken + 1, max) {
                    Ok(rest) => Ok(seq![b] + rest),
                    Err(e) => Err(e),
                }
            },
        }
    }
}

/// `r` with `prefix` put before its string.
pub open spec fn prepend(prefix: Seq<u8>, r: Result<Seq<u8>, CpuError>) -> Result<Seq<u8>, CpuError> {
    match r {
        Ok(s) => Ok(prefix + s),
        Err(e) => Err(e),
    }
}

/// Reads the NUL-terminated string at `address`, at most `max` bytes of it.
pub fn grab_string(memory: &GuestMemory, address: u32, max: Option<usize>) -> (r: Result<
    Vec<u8>,
    CpuError,
>)
    ensures
        match r {
            Ok(v) => c_string(memory@, address, 0, max) == Ok::<Seq<u8>, CpuError>(v@),
            Err(e) => c_string(memory@, address, 0, max) == Err::<Seq<u8>, CpuError>(e),
        },
{
    let mut buffer: Vec<u8> = Vec::new();
    let mut addr = address;
    loop
        invariant
            c_string(memory@, address, 0, max) == prepend(
                buffer@,
                c_string(memory@, addr, buffer@.len() as nat, max),
            ),
        decreases u32::MAX - addr,
    {
        let full = match max {
            Some(m) => buffer.len() >= m,
            None => false,
        };
        if full {
            assert(buffer@ + Seq::<u8>::empty() == buffer@);
            return Ok(buffer);
        }
        let byte = match memory.get(addr) {
            Ok(b) => b,
            Err(e) => {
                return Err(e);
            },
        };
        if byte == 0 {
            assert(buffer@ + Seq::<u8>::empty() == buffer@);
            return Ok(buffer);
        }
        if addr == u32::MAX {
            return Err(CpuError::CpuTrap);
        }
        let ghost before = buffer@;
        buffer.push(byte);
        proof {
            let rest = c_string(memory@, (addr + 1) as u32, buffer@.len() as nat, max);
            match rest {
                Ok(t) => {
                    assert(before + (seq![byte] + t) == buffer@ + t);
                },
                Err(_) => {},
            }
        }
        addr = addr + 1;
    }
}

/// The `count` bytes from `addr` on; running past the last address traps.
pub open spec fn loaded(mem: Map<u32, u8>, addr: int, count: nat) -> Result<Seq<u8>, CpuError>
    decreases count,
{
    if count == 0 {
        Ok(Seq::empty())
    } else if addr < 0 || addr > u32::MAX {
        Err(CpuError::CpuTrap)
    } else {
        match load(mem, addr as u32) {
            Err(e) => Err(e),
            Ok(b) => prepend(seq![b], loaded(mem, addr + 1, (count - 1) as nat)),
        }
    }
}

/// Storing `bytes` from `addr` on, one at a time: the memory afterwards and
/// the fault that stopped the stores, if one did. With `wrap` the address
/// wraps around past the last one; without it, running past the end traps.
pub open spec fn stored(mem: Map<u32, u8>, addr: int, bytes: Seq<u8>, wrap: bool) -> (
    Map<u32, u8>,
    Option<CpuError>,
)
    decreases bytes.len(),
{
    if bytes.len() == 0 {
        (mem, None)
    } else if !wrap && (addr < 0 || addr > u32::MAX) {
        (mem, Some(CpuError::CpuTrap))
    } else {
        let a = (addr % 0x1_0000_0000) as u32;
        if !mem.contains_key(a) {
            (mem, Some(CpuError::MemoryUnmapped(a)))
        } else {
            stored(mem.insert(a, bytes[0]), addr + 1, bytes.drop_first(), wrap)
        }
    }
}

/// Reads `count` bytes from `address` on.
pub fn load_range(memory: &GuestMemory, address: u32, count: u32) -> (r: Result<Vec<u8>, CpuError>)
    ensures
        match r {
            Ok(v) => loaded(memory@, address as int, count as nat) == Ok::<Seq<u8>, CpuError>(v@),
            Err(e) => loaded(memory@, address as int, count as nat) == Err::<Seq<u8>, CpuError>(e),
        },
{
    let mut buffer: Vec<u8> = Vec::new();
    let mut i: u32 = 0;
    while i < count
        invariant
            i <= count,
            buffer@.len() == i,
            loaded(memory@, address as int, count as nat) == prepend(
                buffer@,
                loaded(memory@, address as int + i as int, (count - i) as nat),
            ),
        decreases count - i,
    {
        if address as u64 + i as u64 > u32::MAX as u64 {
            return Err(CpuError::CpuTrap);
        }
        let byte = match memory.get(address + i) {
            Ok(b) => b,
            Err(e) => {
                return Err(e);
            },
        };
        let ghost before = buffer@;
        buffer.push(byte);
        proof {
            let rest = loaded(memory@, address as int + i as int + 1, (count - i - 1) as nat);
            match rest {
                Ok(t) => {
                    assert(before + (seq![byte] + t) == buffer@ + t);
                },
                Err(_) => {},
            }
        }
        i = i + 1;
    }
    assert(buffer@ + Seq::<u8>::empty() == buffer@);
    Ok(buffer)
}

/// Stores `bytes` from `address` on, stopping at the first fault.
pub fn store_bytes(memory: &mut GuestMemory, address: u32, bytes: &Vec<u8>, wrap: bool) -> (r:
    Option<CpuError>)
    ensures
        (final(memory)@, r) == stored(old(memory)@, address as int, bytes@, wrap),
{
    let mut i: usize = 0;
    assert(bytes@.skip(0) == bytes@);
    while i < bytes.len()
        invariant
            i <= bytes@.len(),
            stored(old(memory)@, address as int, bytes@, wrap) == stored(
                memory@,
                address as int + i as int,
                bytes@.skip(i as int),
                wrap,
            ),
        decreases bytes@.len() - i,
    {
        let target = address as u128 + i as u128;
        if !wrap && target > u32::MAX as u128 {
            return Some(CpuError::CpuTrap);
        }
        let a = (target % 0x1_0000_0000) as u32;
        match memory.set(a, bytes[i]) {
            Ok(()) => {},
            Err(e) => {
                return Some(e);
            },
        }
        assert(bytes@.skip(i as int).drop_first() == bytes@.skip(i + 1));
        i = i + 1;
    }
    (None)
}

proof fn stored_places_bytes(mem: Map<u32, u8>, addr: int, bytes: Seq<u8>, wrap: bool)
    requires
        0 <= addr,
        addr + bytes.len() <= u32::MAX as int + 1,
        stored(mem, addr, bytes, wrap).1 is None,
    ensures
        forall|i: int|
            0 <= i < bytes.len() ==> #[trigger] load(stored(mem, addr, bytes, wrap).0, (addr + i) as u32)
                == Ok::<u8, CpuError>(bytes[i]),
        forall|a: u32|
            !(addr <= a < addr + bytes.len()) ==> #[trigger] load(stored(mem, addr, bytes, wrap).0, a)
                == load(mem, a),
    decreases bytes.len(),
{
    if bytes.len() > 0 {
        let a = (addr % 0x1_0000_0000) as u32;
        assert(addr % 0x1_0000_0000 == addr);
        let next = mem.insert(a, bytes[0]);
        stored_places_bytes(next, addr + 1, bytes.drop_first(), wrap);
        let m = stored(mem, addr, bytes, wrap).0;
        assert forall|i: int| 0 <= i < bytes.len() implies #[trigger] load(m, (addr + i) as u32)
            == Ok::<u8, CpuError>(bytes[i]) by {
            if i > 0 {
                assert(bytes.drop_first()[i - 1] == bytes[i]);
                assert(load(m, (addr + 1 + (i - 1)) as u32) == Ok::<u8, CpuError>(
                    bytes.drop_first()[i - 1],
                ));
            } else {
                assert(load(m, a) == load(next, a));
            }
        }
        assert forall|x: u32| !(addr <= x < addr + bytes.len()) implies #[trigger] load(m, x) == load(
            mem,
            x,
        ) by {
            assert(load(m, x) == load(next, x));
        }
    }
}

proof fn c_string_of_placed(m: Map<u32, u8>, addr: int, data: Seq<u8>, k: int, cap: usize)
    requires
        0 <= k <= data.len(),
        data.len() <= cap,
        0 <= addr,
        addr + data.len() <= u32::MAX,
        forall|i: int| 0 <= i < data.len() ==> data[i] != 0,
        forall|i: int|
            0 <= i < data.len() ==> #[trigger] load(m, (addr + i) as u32) == Ok::<u8, CpuError>(data[i]),
        load(m, (addr + data.len()) as u32) == Ok::<u8, CpuError>(0),
    ensures
        c_string(m, (addr + k) as u32, k as nat, Some(cap)) == Ok::<Seq<u8>, CpuError>(data.skip(k)),
    decreases data.len() - k,
{
    if k == data.len() {
        assert(data.skip(k) =~= Seq::<u8>::empty());
    } else {
        c_string_of_placed(m, addr, data, k + 1, cap);
        assert(load(m, (addr + k) as u32) == Ok::<u8, CpuError>(data[k]));
        assert(((addr + k) as u32 + 1) as u32 == (addr + k + 1) as u32);
        assert(data.skip(k) =~= seq![data[k]] + data.skip(k + 1));
    }
}

/// A string stored as its bytes and a NUL, without wrapping past the last
/// address, reads back as those bytes, when it holds no NUL of its own and
/// fits under the read's cap.
pub proof fn stored_string_reads_back(mem: Map<u32, u8>, address: u32, data: Seq<u8>, cap: usize)
    requires
        forall|i: int| 0 <= i < data.len() ==> data[i] != 0,
        data.len() <= cap,
        address + data.len() <= u32::MAX,
        stored(mem, address as int, data.push(0), true).1 is None,
    ensures
        c_string(stored(mem, address as int, data.push(0), true).0, address, 0, Some(cap)) == Ok::<
            Seq<u8>,
            CpuError,
        >(data),
{
    let bytes = data.push(0);
    stored_places_bytes(mem, address as int, bytes, true);
    let m = stored(mem, address as int, bytes, true).0;
    assert forall|i: int| 0 <= i < data.len() implies #[trigger] load(m, (address + i) as u32)
        == Ok::<u8, CpuError>(data[i]) by {
        assert(bytes[i] == data[i]);
    }
    assert(bytes[data.len() as int] == 0);
    assert(load(m, (address + data.len()) as u32) == Ok::<u8, CpuError>(0));
    c_string_of_placed(m, address as int, data, 0, cap);
    assert(data.skip(0) == data);
}

proof fn stored_mapped_no_fault(mem: Map<u32, u8>, addr: int, bytes: Seq<u8>)
    requires
        0 <= addr,
        addr + bytes.len() <= u32::MAX as int + 1,
        forall|i: int| 0 <= i < bytes.len() ==> #[trigger] mem.contains_key((addr + i) as u32),
    ensures
        stored(mem, addr, bytes, false).1 is None,
    decreases bytes.len(),
{
    if bytes.len() > 0 {
        let a = (addr % 0x1_0000_0000) as u32;
        assert(addr % 0x1_0000_0000 == addr);
        assert(mem.contains_key((addr + 0) as u32));
        let next = mem.insert(a, bytes[0]);
        assert forall|i: int| 0 <= i < bytes.drop_first().len() implies #[trigger] next.contains_key(
            (addr + 1 + i) as u32,
        ) by {
            assert(mem.contains_key((addr + (i + 1)) as u32));
        }
        stored_mapped_no_fault(next, addr + 1, bytes.drop_first());
    }
}

proof fn loaded_of_placed(m: Map<u32, u8>, addr: int, bytes: Seq<u8>, k: int)
    requires
        0 <= k <= bytes.len(),
        0 <= addr,
        addr + bytes.len() <= u32::MAX as int + 1,
        forall|i: int|
            0 <= i < bytes.len() ==> #[trigger] load(m, (addr + i) as u32) == Ok::<u8, CpuError>(bytes[i]),
    ensures
        loaded(m, addr + k, (bytes.len() - k) as nat) == Ok::<Seq<u8>, CpuError>(bytes.skip(k)),
    decreases bytes.len() - k,
{
    if k == bytes.len() {
        assert(bytes.skip(k) =~= Seq::<u8>::empty());
    } else {
        loaded_of_placed(m, addr, bytes, k + 1);
        assert(load(m, (addr + k) as u32) == Ok::<u8, CpuError>(bytes[k]));
        assert(bytes.skip(k) =~= seq![bytes[k]] + bytes.skip(k + 1));
    }
}

/// Bytes stored, without wrapping, into mapped memory read back as the
/// same bytes, and no store faults.
pub proof fn stored_bytes_read_back(mem: Map<u32, u8>, addr: int, bytes: Seq<u8>)
    requires
        0 <= addr,
        addr + bytes.len() <= u32::MAX as int + 1,
        forall|i: int| 0 <= i < bytes.len() ==> #[trigger] mem.contains_key((addr + i) as u32),
    ensures
        stored(mem, addr, bytes, false).1 is None,
        loaded(stored(mem, addr, bytes, false).0, addr, bytes.len()) == Ok::<Seq<u8>, CpuError>(
            bytes,
        ),
{
    stored_mapped_no_fault(mem, addr, bytes);
    stored_places_bytes(mem, addr, bytes, false);
    loaded_of_placed(stored(mem, addr, bytes, false).0, addr, bytes, 0);
    assert(bytes.skip(0) == bytes);
}

} // verus!
