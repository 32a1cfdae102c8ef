//! Decoding and serving guest syscalls.
//!
//! A syscall starts with [`SyscallState::dispatch`]. It either finishes at
//! once or asks the host for an [`Effect`]; the host performs it and hands
//! the outcome back through [`SyscallState::resume`] as an [`Event`], until
//! a [`Step::Done`] carries the result.
use crate::channel::{int_result, int_run, line_read_takes_prefix, line_run, ByteChannel, IntReader, IntScan, LineReader, LineScan};
use crate::format::{digits, format_binary, format_hex, format_signed, format_unsigned, signed_decimal};
use crate::guest::{stored_bytes_read_back, c_string, grab_string, load_range, loaded, store_bytes, stored, stored_string_reads_back, CpuError, Machine, A0_REG, A1_REG, A2_REG, A3_REG, V0_REG};
use crate::rng::{draw_step, ranged_step, seeded, DrawError, GenState, RngPool};
use std::collections::HashSet;
use vstd::prelude::*;

verus! {

broadcast use vstd::std_specs::hash::group_hash_axioms;

/// First address that `sbrk` hands out.
pub const HEAP_BASE: u32 = 0x2000_0000;

/// First descriptor that `open_file` hands out; 0, 1 and 2 are reserved.
pub const FIRST_DESCRIPTOR: u32 = 3;

/// Longest string that `print_string` prints.
pub const PRINT_STRING_CAP: usize = 1000;

/// Longest file name that `open_file` reads.
pub const FILE_NAME_CAP: usize = 400;

/// `$v0` after an unknown descriptor or a failed open (-1).
pub const BAD_DESCRIPTOR: u32 = 0xFFFF_FFFF;

/// `$v0` after a host read or write error (-2).
pub const IO_ERROR: u32 = 0xFFFF_FFFE;

/// A note for the MIDI sink.
#[derive(Debug, Clone, Copy, PartialEq, Eq, Structural)]
pub struct MidiRequest {
    /// 0 to 127.
    pub pitch: u32,
    /// In milliseconds.
    pub duration: u32,
    /// 0 to 127.
    pub instrument: u32,
    /// 0 to 127.
    pub volume: u32,
}

/// Why a syscall could not do what the guest asked.
#[derive(Debug, Clone, PartialEq, Eq)]
pub enum Failure {
    /// `open_file` with flags other than 0, 1 or 9, and the file name read.
    InvalidFlags { flags: u32, name: Vec<u8> },
    /// A random syscall named a generator that does not exist.
    NoGenerator(u32),
    /// `random_int_ranged` with a bound of zero.
    EmptyRange,
    /// The host clock gave no time.
    ClockFailed,
}

/// How a syscall ended.
#[derive(Debug, Clone, PartialEq, Eq)]
pub enum SyscallResult {
    Completed,
    Failure(Failure),
    Terminated(u32),
    Aborted,
    Unimplemented(u32),
    Unknown(u32),
    Exception(CpuError),
}

/// The cancellation signal of the syscall in flight.
#[derive(Debug, Clone, Copy, PartialEq, Eq, Structural)]
pub enum CancelToken {
    /// No syscall is in flight.
    Idle,
    /// The controller asked to stop; syscalls end with `Aborted` until cleared.
    Cancelled,
    /// A syscall is in flight and may be cancelled.
    Armed,
}

/// How `open_file` opens the host file.
#[derive(Debug, Clone, Copy, PartialEq, Eq, Structural)]
pub enum OpenMode {
    /// Flags 0: read.
    Read,
    /// Flags 1: create or truncate, then write.
    Create,
    /// Flags 9: append.
    Append,
}

/// Work that only the host can do, asked for by a syscall in flight.
#[derive(Debug)]
pub enum Effect {
    /// Write the text to the console, then pause for five milliseconds.
    Print(Vec<char>),
    /// Sleep for this many milliseconds.
    Sleep(u32),
    /// Wait until more input is posted.
    AwaitInput,
    /// Read the wall clock, in milliseconds since the epoch.
    ReadClock,
    /// Tell whether this instrument is installed.
    CheckInstrument(u32),
    /// Install this instrument and tell whether that worked.
    InstallInstrument(u32),
    /// Play the note; `true` when the guest waits for it to end.
    Play(MidiRequest, bool),
    /// Wait until the host signals that the synchronous note ended.
    AwaitWake,
    /// Open the named host file and tell whether that worked.
    OpenFile { name: Vec<u8>, mode: OpenMode },
    /// Read up to `size` bytes from the file.
    ReadFile { descriptor: u32, size: u32 },
    /// Write the bytes to the file.
    WriteFile { descriptor: u32, bytes: Vec<u8> },
    /// Close the file.
    CloseFile(u32),
}

/// What the host reports back after performing an effect.
#[derive(Debug)]
pub enum Event {
    /// The effect was carried out (for `AwaitInput`: input was posted).
    Done,
    /// The yes or no answer of a check, an install or an open.
    Answer(bool),
    /// The clock reading, if the clock gave one.
    Clock(Option<u64>),
    /// The bytes read from a file, or `None` on a read error.
    Read(Option<Vec<u8>>),
    /// How many bytes were written, or `None` on a write error.
    Written(Option<usize>),
}

/// The next step of a syscall.
#[derive(Debug)]
pub enum Step {
    /// The syscall is over.
    Done(SyscallResult),
    /// The host must perform the effect and then resume.
    Perform(Effect),
}

/// What a syscall in flight waits for.
pub enum Pending {
    /// Any effect whose completion ends the syscall.
    Finish,
    /// A note was handed out for play; `true` when the guest waits for it.
    AfterPlay(bool),
    /// An integer read.
    ReadInt(IntReader),
    /// A line read and the guest buffer it goes to.
    ReadLine(LineReader, u32),
    /// A character read.
    ReadChar,
    /// The clock reading.
    Clock,
    /// Whether the instrument is installed.
    MidiCheck(MidiRequest, bool),
    /// Whether installing the instrument worked.
    MidiInstall(MidiRequest, bool),
    /// Whether the file opened.
    Open,
    /// The bytes read from a file, and the guest buffer and its size.
    FileRead(u32, u32),
    /// The count written to a file.
    FileWrite,
}

/// Whether `e` is the kind of outcome that `p` waits for.
pub open spec fn fits(p: Pending, e: Event) -> bool {
    match p {
        Pending::Finish | Pending::AfterPlay(_) | Pending::ReadInt(_) | Pending::ReadLine(_, _)
        | Pending::ReadChar => e is Done,
        Pending::MidiCheck(_, _) | Pending::MidiInstall(_, _) | Pending::Open => e is Answer,
        Pending::Clock => e is Clock,
        Pending::FileRead(_, _) => e is Read,
        Pending::FileWrite => e is Written,
    }
}

/// The mode that `open_file` flags select.
pub open spec fn open_mode(flags: u32) -> Option<OpenMode> {
    if flags == 0 {
        Some(OpenMode::Read)
    } else if flags == 1 {
        Some(OpenMode::Create)
    } else if flags == 9 {
        Some(OpenMode::Append)
    } else {
        None
    }
}

/// Bytes shown as the characters of the same code.
pub open spec fn latin1(s: Seq<u8>) -> Seq<char> {
    s.map_values(|b: u8| b as char)
}

/// The result of a syscall that needs no host work, by its code.
pub open spec fn immediate(code: u32, a0: u32) -> Option<SyscallResult> {
    if code == 2 || code == 3 || code == 6 || code == 7 || code == 43 || code == 44 {
        Some(SyscallResult::Unimplemented(code))
    } else if code == 10 {
        Some(SyscallResult::Terminated(0))
    } else if code == 17 {
        Some(SyscallResult::Terminated(a0))
    } else {
        None
    }
}

/// Whether the syscall layer serves `code`.
pub open spec fn known_code(code: u32) -> bool {
    (1 <= code <= 17) || (30 <= code <= 36) || (40 <= code <= 44)
}

/// The shared state of the syscall layer for one guest program.
pub struct SyscallState {
    cancel_token: CancelToken,
    input_buffer: ByteChannel,
    heap_start: u32,
    generators: RngPool,
    next_file: u32,
    files: HashSet<u32>,
    pending: Option<Pending>,
}

/// Guest registers and memory are as they were.
pub open spec fn same_guest(a: &Machine, b: &Machine) -> bool {
    a.registers@ == b.registers@ && a.memory@ == b.memory@
}

/// Register `i` of the guest is now `v`; nothing else changed.
pub open spec fn reg_written(a: &Machine, b: &Machine, i: int, v: u32) -> bool {
    b.registers@ == a.registers@.update(i, v) && b.memory@ == a.memory@
}


/// No syscall but `sbrk` moves the heap pointer.
pub proof fn heap_moves_only_by_sbrk(
    s0: &SyscallState,
    s1: &SyscallState,
    g0: &Machine,
    g1: &Machine,
    code: u32,
    r: Step,
)
    requires
        dispatch_outcome(s0, s1, g0, g1, code, r),
        code != 9,
    ensures
        s1.heap() == s0.heap(),
{
}

/// Carrying a syscall on never moves the heap pointer.
pub proof fn resume_keeps_heap(
    s0: &SyscallState,
    s1: &SyscallState,
    g0: &Machine,
    g1: &Machine,
    event: Event,
    r: Step,
)
    requires
        s0.waiting() is Some,
        resume_post(s0, s1, g0, g1, event, r),
    ensures
        s1.heap() == s0.heap(),
{
}

/// Starting a syscall never hands out a descriptor.
pub proof fn dispatch_keeps_next_descriptor(
    s0: &SyscallState,
    s1: &SyscallState,
    g0: &Machine,
    g1: &Machine,
    code: u32,
    r: Step,
)
    requires
        dispatch_outcome(s0, s1, g0, g1, code, r),
    ensures
        s1.next_descriptor() == s0.next_descriptor(),
{
}

/// Only an open that the host reports as done hands out a descriptor: it
/// is the next one, which was not open, it is now open and returned in
/// `$v0`, and the next one moves up by one. Any other resumption keeps the
/// next descriptor.
pub proof fn only_open_hands_out_descriptors(
    s0: &SyscallState,
    s1: &SyscallState,
    g0: &Machine,
    g1: &Machine,
    event: Event,
    r: Step,
)
    requires
        s0.wf(),
        g0.wf(),
        s0.waiting() is Some,
        resume_post(s0, s1, g0, g1, event, r),
    ensures
        ({
            let opened = s0.token() != CancelToken::Cancelled && s0.waiting() == Some(Pending::Open)
                && event == Event::Answer(true);
            &&& opened ==> {
                &&& s1.next_descriptor() == s0.next_descriptor() + 1
                &&& !s0.open_files().contains(s0.next_descriptor())
                &&& s1.open_files() == s0.open_files().insert(s0.next_descriptor())
                &&& g1.registers@[V0_REG as int] == s0.next_descriptor()
                &&& r == Step::Done(SyscallResult::Completed)
            }
            &&& !opened ==> s1.next_descriptor() == s0.next_descriptor()
        }),
{
    next_descriptor_fresh(s0);
}

/// A file round trip: the bytes that `write_file` hands to the host are
/// the guest buffer it names, and when the host hands the same bytes back
/// to a `read_file` of that many bytes, into a mapped buffer that does not
/// run past the last address, the read completes with the count in `$v0`
/// and the buffer holds the bytes.
pub proof fn file_round_trip(
    w0: &SyscallState,
    w1: &SyscallState,
    wg0: &Machine,
    wg1: &Machine,
    wr: Step,
    s0: &SyscallState,
    s1: &SyscallState,
    g0: &Machine,
    g1: &Machine,
    data: Vec<u8>,
    r: Step,
)
    requires
        wg0.wf(),
        g0.wf(),
        dispatch_outcome(w0, w1, wg0, wg1, 15, wr),
        wr matches Step::Perform(Effect::WriteFile { bytes: b, .. }) && b@ == data@,
        s0.token() != CancelToken::Cancelled,
        s0.waiting() matches Some(Pending::FileRead(dst, size)) && size == data@.len() && dst
            + size <= u32::MAX as int + 1 && forall|i: int|
            0 <= i < size ==> #[trigger] g0.memory@.contains_key((dst + i) as u32),
        resume_post(s0, s1, g0, g1, Event::Read(Some(data)), r),
    ensures
        loaded(wg0.memory@, wg0.registers@[A1_REG as int] as int, wg0.registers@[A2_REG as int] as nat)
            == Ok::<Seq<u8>, CpuError>(data@),
        r == Step::Done(SyscallResult::Completed),
        g1.registers@[V0_REG as int] == data@.len(),
        s0.waiting() matches Some(Pending::FileRead(dst, _)) && loaded(
            g1.memory@,
            dst as int,
            data@.len(),
        ) == Ok::<Seq<u8>, CpuError>(data@),
{
    let dst = s0.waiting()->0->FileRead_0;
    assert(data@.take(data@.len() as int) == data@);
    stored_bytes_read_back(g0.memory@, dst as int, data@);
}

/// Heap, descriptors, open files, generators and input are as they were,
/// but for the heap pointer.
pub open spec fn kept_but_heap(s0: &SyscallState, s1: &SyscallState) -> bool {
    &&& s1.next_descriptor() == s0.next_descriptor()
    &&& s1.open_files() == s0.open_files()
    &&& s1.pool() == s0.pool()
    &&& s1.input() == s0.input()
}

/// Everything but the generators is as it was.
pub open spec fn kept_but_pool(s0: &SyscallState, s1: &SyscallState) -> bool {
    &&& s1.heap() == s0.heap()
    &&& s1.next_descriptor() == s0.next_descriptor()
    &&& s1.open_files() == s0.open_files()
    &&& s1.input() == s0.input()
}

/// Everything but the input is as it was.
pub open spec fn kept_but_input(s0: &SyscallState, s1: &SyscallState) -> bool {
    &&& s1.heap() == s0.heap()
    &&& s1.next_descriptor() == s0.next_descriptor()
    &&& s1.open_files() == s0.open_files()
    &&& s1.pool() == s0.pool()
}

/// The syscall ended with `result` and changed nothing else.
pub open spec fn ended_with(
    s0: &SyscallState,
    s1: &SyscallState,
    g0: &Machine,
    g1: &Machine,
    r: Step,
    result: SyscallResult,
) -> bool {
    &&& r == Step::Done(result)
    &&& s0.kept(s1)
    &&& s1.settled(r)
    &&& same_guest(g0, g1)
}

/// The syscall completed after writing `v` to register `i`.
pub open spec fn completed_with(
    s0: &SyscallState,
    s1: &SyscallState,
    g0: &Machine,
    g1: &Machine,
    r: Step,
    i: int,
    v: u32,
) -> bool {
    &&& r == Step::Done(SyscallResult::Completed)
    &&& s0.kept(s1)
    &&& s1.settled(r)
    &&& reg_written(g0, g1, i, v)
}

/// The syscall waits as `p` for the host to perform `effect`; nothing else changed.
pub open spec fn waits_for(
    s0: &SyscallState,
    s1: &SyscallState,
    g0: &Machine,
    g1: &Machine,
    r: Step,
    p: Pending,
    effect: Effect,
) -> bool {
    &&& r == Step::Perform(effect)
    &&& s1.waiting() == Some(p)
    &&& s0.kept(s1)
    &&& s1.settled(r)
    &&& same_guest(g0, g1)
}

/// The syscall asks for `text` to be printed, then ends.
pub open spec fn prints(
    s0: &SyscallState,
    s1: &SyscallState,
    g0: &Machine,
    g1: &Machine,
    r: Step,
    text: Seq<char>,
) -> bool {
    &&& (r matches Step::Perform(Effect::Print(t)) && t@ == text)
    &&& s1.waiting() == Some(Pending::Finish)
    &&& s0.kept(s1)
    &&& s1.settled(r)
    &&& same_guest(g0, g1)
}

/// An integer read from `scan` on, over the input waiting: it completes
/// once the read stops, with its value in `$v0`, and waits for more input
/// otherwise. Bytes taken leave the channel either way.
pub open spec fn int_read(
    s0: &SyscallState,
    s1: &SyscallState,
    g0: &Machine,
    g1: &Machine,
    r: Step,
    scan: IntScan,
) -> bool {
    let (sc, n, stopped) = int_run(scan, s0.input());
    &&& s1.input() == s0.input().skip(n as int)
    &&& kept_but_input(s0, s1)
    &&& s1.settled(r)
    &&& stopped ==> r == Step::Done(SyscallResult::Completed) && reg_written(
        g0,
        g1,
        V0_REG as int,
        int_result(sc),
    )
    &&& !stopped ==> r == Step::Perform(Effect::AwaitInput) && same_guest(g0, g1) && (
    s1.waiting() matches Some(Pending::ReadInt(rd)) && rd@ == sc)
}

/// A line read from `scan` on into the buffer at `address`: once it stops,
/// the bytes and a NUL go to the buffer (a fault ends it with the fault);
/// otherwise it waits for more input.
pub open spec fn line_read(
    s0: &SyscallState,
    s1: &SyscallState,
    g0: &Machine,
    g1: &Machine,
    r: Step,
    scan: LineScan,
    address: u32,
) -> bool {
    let (sc, n, stopped) = line_run(scan, s0.input());
    let (m, fault) = stored(g0.memory@, address as int, sc.data.push(0), true);
    &&& s1.input() == s0.input().skip(n as int)
    &&& kept_but_input(s0, s1)
    &&& s1.settled(r)
    &&& stopped ==> g1.registers@ == g0.registers@ && g1.memory@ == m && r == Step::Done(
        match fault {
            Some(e) => SyscallResult::Exception(e),
            None => SyscallResult::Completed,
        },
    )
    &&& !stopped ==> r == Step::Perform(Effect::AwaitInput) && same_guest(g0, g1) && (
    s1.waiting() matches Some(Pending::ReadLine(rd, a)) && rd@ == sc && a == address)
}

/// A character read: the first waiting byte goes to `$v0`, or the
/// syscall waits for input.
pub open spec fn char_read(
    s0: &SyscallState,
    s1: &SyscallState,
    g0: &Machine,
    g1: &Machine,
    r: Step,
) -> bool {
    if s0.input().len() > 0 {
        &&& r == Step::Done(SyscallResult::Completed)
        &&& s1.input() == s0.input().skip(1)
        &&& kept_but_input(s0, s1)
        &&& s1.settled(r)
        &&& reg_written(g0, g1, V0_REG as int, s0.input()[0] as u32)
    } else {
        waits_for(s0, s1, g0, g1, r, Pending::ReadChar, Effect::AwaitInput)
    }
}

/// The result that a fault in a store gives.
pub open spec fn fault_result(fault: Option<CpuError>) -> SyscallResult {
    match fault {
        Some(e) => SyscallResult::Exception(e),
        None => SyscallResult::Completed,
    }
}

/// What a syscall that the dispatcher serves does, the cancellation token
/// being clear, from code and argument registers.
pub open spec fn dispatch_outcome(
    s0: &SyscallState,
    s1: &SyscallState,
    g0: &Machine,
    g1: &Machine,
    code: u32,
    r: Step,
) -> bool {
    let a0 = g0.registers@[A0_REG as int];
    let a1 = g0.registers@[A1_REG as int];
    let a2 = g0.registers@[A2_REG as int];
    let a3 = g0.registers@[A3_REG as int];
    if immediate(code, a0) is Some {
        ended_with(s0, s1, g0, g1, r, immediate(code, a0)->0)
    } else if code == 1 {
        prints(s0, s1, g0, g1, r, signed_decimal(a0))
    } else if code == 4 {
        match c_string(g0.memory@, a0, 0, Some(PRINT_STRING_CAP)) {
            Ok(text) => prints(s0, s1, g0, g1, r, latin1(text)),
            Err(e) => ended_with(s0, s1, g0, g1, r, SyscallResult::Exception(e)),
        }
    } else if code == 5 {
        int_read(s0, s1, g0, g1, r, IntScan { positive: None, value: 0 })
    } else if code == 8 {
        if a1 < 1 {
            ended_with(s0, s1, g0, g1, r, SyscallResult::Completed)
        } else {
            line_read(s0, s1, g0, g1, r, LineScan { data: Seq::empty(), limit: (a1 - 1) as nat }, a0)
        }
    } else if code == 9 {
        &&& r == Step::Done(SyscallResult::Completed)
        &&& s1.heap() == (s0.heap() + a0) % 0x1_0000_0000
        &&& kept_but_heap(s0, s1)
        &&& s1.settled(r)
        &&& reg_written(g0, g1, V0_REG as int, s0.heap())
    } else if code == 11 {
        prints(s0, s1, g0, g1, r, seq![(a0 as u8) as char])
    } else if code == 12 {
        char_read(s0, s1, g0, g1, r)
    } else if code == 13 {
        match c_string(g0.memory@, a0, 0, Some(FILE_NAME_CAP)) {
            Err(e) => ended_with(s0, s1, g0, g1, r, SyscallResult::Exception(e)),
            Ok(name) => match open_mode(a1) {
                None => {
                    &&& (r matches Step::Done(SyscallResult::Failure(Failure::InvalidFlags { flags, name: n })) && flags == a1 && n@ == name)
                    &&& s0.kept(s1)
                    &&& s1.settled(r)
                    &&& same_guest(g0, g1)
                },
                Some(mode) => if s0.next_descriptor() == u32::MAX {
                    completed_with(s0, s1, g0, g1, r, V0_REG as int, BAD_DESCRIPTOR)
                } else {
                    &&& (r matches Step::Perform(Effect::OpenFile { name: n, mode: m }) && n@ == name && m == mode)
                    &&& s1.waiting() == Some(Pending::Open)
                    &&& s0.kept(s1)
                    &&& s1.settled(r)
                    &&& same_guest(g0, g1)
                },
            },
        }
    } else if code == 14 {
        if !s0.open_files().contains(a0) {
            completed_with(s0, s1, g0, g1, r, V0_REG as int, BAD_DESCRIPTOR)
        } else {
            waits_for(
                s0,
                s1,
                g0,
                g1,
                r,
                Pending::FileRead(a1, a2),
                Effect::ReadFile { descriptor: a0, size: a2 },
            )
        }
    } else if code == 15 {
        if !s0.open_files().contains(a0) {
            completed_with(s0, s1, g0, g1, r, V0_REG as int, BAD_DESCRIPTOR)
        } else {
            match loaded(g0.memory@, a1 as int, a2 as nat) {
                Err(e) => ended_with(s0, s1, g0, g1, r, SyscallResult::Exception(e)),
                Ok(bytes) => {
                    &&& (r matches Step::Perform(Effect::WriteFile { descriptor: d, bytes: b }) && d == a0 && b@ == bytes)
                    &&& s1.waiting() == Some(Pending::FileWrite)
                    &&& s0.kept(s1)
                    &&& s1.settled(r)
                    &&& same_guest(g0, g1)
                },
            }
        }
    } else if code == 16 {
        if s0.open_files().contains(a0) {
            &&& r == Step::Perform(Effect::CloseFile(a0))
            &&& s1.waiting() == Some(Pending::Finish)
            &&& s1.open_files() == s0.open_files().remove(a0)
            &&& s1.heap() == s0.heap()
            &&& s1.next_descriptor() == s0.next_descriptor()
            &&& s1.pool() == s0.pool()
            &&& s1.input() == s0.input()
            &&& s1.settled(r)
            &&& same_guest(g0, g1)
        } else {
            ended_with(s0, s1, g0, g1, r, SyscallResult::Completed)
        }
    } else if code == 30 {
        waits_for(s0, s1, g0, g1, r, Pending::Clock, Effect::ReadClock)
    } else if code == 31 || code == 33 {
        let request = MidiRequest { pitch: a0, duration: a1, instrument: a2, volume: a3 };
        waits_for(s0, s1, g0, g1, r, Pending::MidiCheck(request, code == 33), Effect::CheckInstrument(a2))
    } else if code == 32 {
        waits_for(s0, s1, g0, g1, r, Pending::Finish, Effect::Sleep(a0))
    } else if code == 34 {
        prints(s0, s1, g0, g1, r, digits(a0 as nat, 16))
    } else if code == 35 {
        prints(s0, s1, g0, g1, r, digits(a0 as nat, 2))
    } else if code == 36 {
        prints(s0, s1, g0, g1, r, digits(a0 as nat, 10))
    } else if code == 40 {
        &&& r == Step::Done(SyscallResult::Completed)
        &&& s1.pool() == s0.pool().insert(a0, seeded(a1 as u64))
        &&& kept_but_pool(s0, s1)
        &&& s1.settled(r)
        &&& same_guest(g0, g1)
    } else if code == 41 {
        if !s0.pool().contains_key(a0) {
            ended_with(s0, s1, g0, g1, r, SyscallResult::Failure(Failure::NoGenerator(a0)))
        } else {
            &&& r == Step::Done(SyscallResult::Completed)
            &&& draw_step(s0.pool(), a0, s1.pool(), g1.registers@[A0_REG as int])
            &&& kept_but_pool(s0, s1)
            &&& s1.settled(r)
            &&& reg_written(g0, g1, A0_REG as int, g1.registers@[A0_REG as int])
        }
    } else if code == 42 {
        if !s0.pool().contains_key(a0) {
            ended_with(s0, s1, g0, g1, r, SyscallResult::Failure(Failure::NoGenerator(a0)))
        } else if a1 == 0 {
            ended_with(s0, s1, g0, g1, r, SyscallResult::Failure(Failure::EmptyRange))
        } else {
            &&& r == Step::Done(SyscallResult::Completed)
            &&& ranged_step(s0.pool(), a0, a1, s1.pool(), g1.registers@[A0_REG as int])
            &&& kept_but_pool(s0, s1)
            &&& s1.settled(r)
            &&& reg_written(g0, g1, A0_REG as int, g1.registers@[A0_REG as int])
        }
    } else {
        false
    }
}

/// What resuming a syscall that waits as `s0.waiting()` does with `event`,
/// the cancellation token being clear.
pub open spec fn resume_outcome(
    s0: &SyscallState,
    s1: &SyscallState,
    g0: &Machine,
    g1: &Machine,
    event: Event,
    r: Step,
) -> bool {
    match s0.waiting()->0 {
        Pending::Finish => ended_with(s0, s1, g0, g1, r, SyscallResult::Completed),
        Pending::AfterPlay(sync) => if sync {
            waits_for(s0, s1, g0, g1, r, Pending::Finish, Effect::AwaitWake)
        } else {
            ended_with(s0, s1, g0, g1, r, SyscallResult::Completed)
        },
        Pending::ReadInt(rd) => int_read(s0, s1, g0, g1, r, rd@),
        Pending::ReadLine(rd, address) => line_read(s0, s1, g0, g1, r, rd@, address),
        Pending::ReadChar => char_read(s0, s1, g0, g1, r),
        Pending::Clock => match event {
            Event::Clock(Some(ms)) => {
                &&& r == Step::Done(SyscallResult::Completed)
                &&& s0.kept(s1)
                &&& s1.settled(r)
                &&& g1.memory@ == g0.memory@
                &&& g1.registers@ == g0.registers@.update(
                    A0_REG as int,
                    (ms % 0x1_0000_0000) as u32,
                ).update(A1_REG as int, (ms / 0x1_0000_0000) as u32)
            },
            _ => ended_with(s0, s1, g0, g1, r, SyscallResult::Failure(Failure::ClockFailed)),
        },
        Pending::MidiCheck(request, sync) => if event == Event::Answer(true) {
            waits_for(s0, s1, g0, g1, r, Pending::AfterPlay(sync), Effect::Play(request, sync))
        } else {
            waits_for(
                s0,
                s1,
                g0,
                g1,
                r,
                Pending::MidiInstall(request, sync),
                Effect::InstallInstrument(request.instrument),
            )
        },
        Pending::MidiInstall(request, sync) => if event == Event::Answer(true) {
            waits_for(s0, s1, g0, g1, r, Pending::AfterPlay(sync), Effect::Play(request, sync))
        } else {
            ended_with(s0, s1, g0, g1, r, SyscallResult::Completed)
        },
        Pending::Open => if event == Event::Answer(true) {
            let d = s0.next_descriptor();
            &&& r == Step::Done(SyscallResult::Completed)
            &&& s1.next_descriptor() == d + 1
            &&& s1.open_files() == s0.open_files().insert(d)
            &&& s1.heap() == s0.heap()
            &&& s1.pool() == s0.pool()
            &&& s1.input() == s0.input()
            &&& s1.settled(r)
            &&& reg_written(g0, g1, V0_REG as int, d)
        } else {
            completed_with(s0, s1, g0, g1, r, V0_REG as int, BAD_DESCRIPTOR)
        },
        Pending::FileRead(address, size) => match event {
            Event::Read(Some(bytes)) => {
                let n: nat = if bytes@.len() < size {
                    bytes@.len()
                } else {
                    size as nat
                };
                let (m, fault) = stored(g0.memory@, address as int, bytes@.take(n as int), false);
                &&& r == Step::Done(fault_result(fault))
                &&& s0.kept(s1)
                &&& s1.settled(r)
                &&& g1.memory@ == m
                &&& g1.registers@ == (if fault is None {
                    g0.registers@.update(V0_REG as int, n as u32)
                } else {
                    g0.registers@
                })
            },
            _ => completed_with(s0, s1, g0, g1, r, V0_REG as int, IO_ERROR),
        },
        Pending::FileWrite => match event {
            Event::Written(Some(n)) => completed_with(s0, s1, g0, g1, r, V0_REG as int, n as u32),
            _ => completed_with(s0, s1, g0, g1, r, V0_REG as int, IO_ERROR),
        },
    }
}

/// The state after `cancel`: everything kept, the token cancelled, and
/// `was_armed` telling whether a syscall was in flight.
pub open spec fn cancel_post(s0: &SyscallState, s1: &SyscallState, was_armed: bool) -> bool {
    &&& s0.kept(s1)
    &&& s1.token() == CancelToken::Cancelled
    &&& s1.waiting() == s0.waiting()
    &&& was_armed == (s0.token() == CancelToken::Armed)
}

/// The syscall ended with `Aborted` and nothing else changed.
pub open spec fn aborted(s0: &SyscallState, s1: &SyscallState, g0: &Machine, g1: &Machine, r: Step) -> bool {
    &&& r == Step::Done(SyscallResult::Aborted)
    &&& s0.kept(s1)
    &&& s1.token() == CancelToken::Cancelled
    &&& s1.waiting() is None
    &&& same_guest(g0, g1)
}

/// What `resume` guarantees.
pub open spec fn resume_post(
    s0: &SyscallState,
    s1: &SyscallState,
    g0: &Machine,
    g1: &Machine,
    event: Event,
    r: Step,
) -> bool {
    &&& s1.next_descriptor() >= s0.next_descriptor()
    &&& s0.token() == CancelToken::Cancelled ==> aborted(s0, s1, g0, g1, r)
    &&& s0.token() != CancelToken::Cancelled ==> resume_outcome(s0, s1, g0, g1, event, r)
}

impl SyscallState {
    /// Next address that `sbrk` hands out.
    pub closed spec fn heap(&self) -> u32 {
        self.heap_start
    }

    /// Next descriptor that `open_file` hands out.
    pub closed spec fn next_descriptor(&self) -> u32 {
        self.next_file
    }

    /// Descriptors of the open files.
    pub closed spec fn open_files(&self) -> Set<u32> {
        self.files@
    }

    /// The generators by id.
    pub closed spec fn pool(&self) -> Map<u32, GenState> {
        self.generators@
    }

    /// Input bytes not yet consumed.
    pub closed spec fn input(&self) -> Seq<u8> {
        self.input_buffer@
    }

    /// The cancellation token.
    pub closed spec fn token(&self) -> CancelToken {
        self.cancel_token
    }

    /// What the syscall in flight waits for.
    pub closed spec fn waiting(&self) -> Option<Pending> {
        self.pending
    }

    /// The invariant: descriptors below the next one and not reserved,
    /// generator 0 present, and a syscall in flight exactly while the
    /// token is armed (or cancelled under it).
    pub closed spec fn wf(&self) -> bool {
        &&& self.next_file >= FIRST_DESCRIPTOR
        &&& forall|fd: u32| #[trigger]
            self.files@.contains(fd) ==> FIRST_DESCRIPTOR <= fd < self.next_file
        &&& self.generators@.contains_key(0)
        &&& (self.cancel_token is Armed ==> self.pending is Some)
        &&& (self.pending is Some ==> !(self.cancel_token is Idle))
        &&& (self.pending matches Some(Pending::ReadInt(r)) ==> r.wf())
        &&& (self.pending matches Some(Pending::Open) ==> self.next_file < u32::MAX)
    }

    /// Nothing but the syscall bookkeeping changed.
    pub open spec fn kept(&self, other: &SyscallState) -> bool {
        &&& other.heap() == self.heap()
        &&& other.next_descriptor() == self.next_descriptor()
        &&& other.open_files() == self.open_files()
        &&& other.pool() == self.pool()
        &&& other.input() == self.input()
    }

    /// The syscall ended with `step`, or is in flight waiting as `step` asks.
    pub open spec fn settled(&self, step: Step) -> bool {
        match step {
            Step::Done(_) => self.waiting() is None && self.token() == CancelToken::Idle,
            Step::Perform(_) => self.waiting() is Some && self.token() == CancelToken::Armed,
        }
    }

    /// A fresh state: heap at its base, no files, generator 0 keyed from
    /// the system's entropy, no input and nothing in flight.
    pub fn new() -> (r: SyscallState)
        ensures
            r.wf(),
            r.heap() == HEAP_BASE,
            r.next_descriptor() == FIRST_DESCRIPTOR,
            r.open_files() == Set::<u32>::empty(),
            r.pool().dom() == set![0u32],
            r.input() == Seq::<u8>::empty(),
            r.token() == CancelToken::Idle,
            r.waiting() is None,
    {
        SyscallState {
            cancel_token: CancelToken::Idle,
            input_buffer: ByteChannel::new(),
            heap_start: HEAP_BASE,
            generators: RngPool::new(),
            next_file: FIRST_DESCRIPTOR,
            files: HashSet::new(),
            pending: None,
        }
    }

    /// Lets syscalls run again after a cancellation.
    pub fn clear_cancelled(&mut self)
        requires
            old(self).wf(),
            old(self).waiting() is None,
        ensures
            final(self).wf(),
            old(self).kept(&*final(self)),
            final(self).token() == CancelToken::Idle,
            final(self).waiting() is None,
    {
        self.cancel_token = CancelToken::Idle;
    }

    /// Cancels the syscall in flight, if any, and every later one until
    /// `clear_cancelled`. Returns whether a syscall was in flight, so that
    /// the host wakes whatever it waits on.
    pub fn cancel(&mut self) -> (was_armed: bool)
        requires
            old(self).wf(),
        ensures
            final(self).wf(),
            cancel_post(&*old(self), &*final(self), was_armed),
    {
        let was_armed = match self.cancel_token {
            CancelToken::Armed => true,
            _ => false,
        };
        self.cancel_token = CancelToken::Cancelled;
        was_armed
    }

    /// Appends input bytes (keyboard, pasted text) to the channel.
    pub fn post_input(&mut self, data: &[u8])
        requires
            old(self).wf(),
        ensures
            final(self).wf(),
            final(self).input() == old(self).input() + data@,
            final(self).heap() == old(self).heap(),
            final(self).next_descriptor() == old(self).next_descriptor(),
            final(self).open_files() == old(self).open_files(),
            final(self).pool() == old(self).pool(),
            final(self).token() == old(self).token(),
            final(self).waiting() == old(self).waiting(),
    {
        self.input_buffer.post(data);
    }

    /// Whether a syscall is in flight.
    pub fn in_flight(&self) -> (r: bool)
        ensures
            r == (self.waiting() is Some),
    {
        self.pending.is_some()
    }

    /// Number of input bytes not yet consumed.
    pub fn input_len(&self) -> (r: usize)
        ensures
            r == self.input().len(),
    {
        self.input_buffer.len()
    }

    /// Whether `resume` takes `event` now.
    pub fn accepts(&self, event: &Event) -> (r: bool)
        ensures
            r == (self.waiting() is Some && (self.token() == CancelToken::Cancelled || fits(
                self.waiting()->0,
                *event,
            ))),
    {
        match &self.pending {
            None => false,
            Some(p) => {
                if let CancelToken::Cancelled = self.cancel_token {
                    return true;
                }
                match p {
                    Pending::Finish | Pending::AfterPlay(_) | Pending::ReadInt(_)
                    | Pending::ReadLine(_, _) | Pending::ReadChar => matches!(event, Event::Done),
                    Pending::MidiCheck(_, _) | Pending::MidiInstall(_, _) | Pending::Open => {
                        matches!(event, Event::Answer(_))
                    },
                    Pending::Clock => matches!(event, Event::Clock(_)),
                    Pending::FileRead(_, _) => matches!(event, Event::Read(_)),
                    Pending::FileWrite => matches!(event, Event::Written(_)),
                }
            },
        }
    }

    fn done(&mut self, result: SyscallResult) -> (r: Step)
        requires
            old(self).wf(),
            !(old(self).cancel_token is Cancelled),
        ensures
            final(self).wf(),
            old(self).kept(&*final(self)),
            r == Step::Done(result),
            final(self).settled(r),
    {
        self.pending = None;
        self.cancel_token = CancelToken::Idle;
        Step::Done(result)
    }

    fn wait(&mut self, p: Pending, effect: Effect) -> (r: Step)
        requires
            old(self).wf(),
            !(old(self).cancel_token is Cancelled),
            p matches Pending::ReadInt(rd) ==> rd.wf(),
            p matches Pending::Open ==> old(self).next_file < u32::MAX,
        ensures
            final(self).wf(),
            old(self).kept(&*final(self)),
            r == Step::Perform(effect),
            final(self).waiting() == Some(p),
            final(self).settled(r),
    {
        self.pending = Some(p);
        self.cancel_token = CancelToken::Armed;
        Step::Perform(effect)
    }

    fn print_text(&mut self, text: Vec<char>) -> (r: Step)
        requires
            old(self).wf(),
            old(self).token() == CancelToken::Idle,
        ensures
            final(self).wf(),
            (r matches Step::Perform(Effect::Print(t)) && t@ == text@),
            final(self).waiting() == Some(Pending::Finish),
            old(self).kept(&*final(self)),
            final(self).settled(r),
    {
        self.wait(Pending::Finish, Effect::Print(text))
    }

    fn continue_int(&mut self, guest: &mut Machine, reader: IntReader) -> (r: Step)
        requires
            old(self).wf(),
            !(old(self).token() is Cancelled),
            old(guest).wf(),
            reader.wf(),
        ensures
            final(self).wf(),
            final(guest).wf(),
            int_read(&*old(self), &*final(self), &*old(guest), &*final(guest), r, reader@),
    {
        let mut reader = reader;
        let stopped = self.input_buffer.read_int_until(&mut reader);
        if stopped {
            let v = reader.result();
            guest.set_reg(V0_REG, v);
            self.done(SyscallResult::Completed)
        } else {
            self.wait(Pending::ReadInt(reader), Effect::AwaitInput)
        }
    }

    fn continue_line(&mut self, guest: &mut Machine, reader: LineReader, address: u32) -> (r: Step)
        requires
            old(self).wf(),
            !(old(self).token() is Cancelled),
            old(guest).wf(),
        ensures
            final(self).wf(),
            final(guest).wf(),
            line_read(&*old(self), &*final(self), &*old(guest), &*final(guest), r, reader@, address),
    {
        let mut reader = reader;
        let stopped = self.input_buffer.read_line_until(&mut reader);
        if stopped {
            let mut data = reader.into_data();
            data.push(0);
            let fault = store_bytes(&mut guest.memory, address, &data, true);
            match fault {
                Some(e) => self.done(SyscallResult::Exception(e)),
                None => self.done(SyscallResult::Completed),
            }
        } else {
            self.wait(Pending::ReadLine(reader, address), Effect::AwaitInput)
        }
    }

    fn continue_char(&mut self, guest: &mut Machine) -> (r: Step)
        requires
            old(self).wf(),
            !(old(self).token() is Cancelled),
            old(guest).wf(),
        ensures
            final(self).wf(),
            final(guest).wf(),
            char_read(&*old(self), &*final(self), &*old(guest), &*final(guest), r),
    {
        if self.input_buffer.len() > 0 {
            let bytes = self.input_buffer.read(1);
            guest.set_reg(V0_REG, bytes[0] as u32);
            self.done(SyscallResult::Completed)
        } else {
            self.wait(Pending::ReadChar, Effect::AwaitInput)
        }
    }

    fn open_file(&mut self, guest: &mut Machine) -> (r: Step)
        requires
            old(self).wf(),
            old(self).token() == CancelToken::Idle,
            old(guest).wf(),
        ensures
            final(self).wf(),
            final(guest).wf(),
            dispatch_outcome(&*old(self), &*final(self), &*old(guest), &*final(guest), 13, r),
    {
        let address = guest.reg(A0_REG);
        let flags = guest.reg(A1_REG);
        let name = match grab_string(&guest.memory, address, Some(FILE_NAME_CAP)) {
            Ok(n) => n,
            Err(e) => {
                return self.done(SyscallResult::Exception(e));
            },
        };
        let mode = if flags == 0 {
            OpenMode::Read
        } else if flags == 1 {
            OpenMode::Create
        } else if flags == 9 {
            OpenMode::Append
        } else {
            return self.done(SyscallResult::Failure(Failure::InvalidFlags { flags, name }));
        };
        if self.next_file == u32::MAX {
            guest.set_reg(V0_REG, BAD_DESCRIPTOR);
            return self.done(SyscallResult::Completed);
        }
        self.wait(Pending::Open, Effect::OpenFile { name, mode })
    }

    fn read_file(&mut self, guest: &mut Machine) -> (r: Step)
        requires
            old(self).wf(),
            old(self).token() == CancelToken::Idle,
            old(guest).wf(),
        ensures
            final(self).wf(),
            final(guest).wf(),
            dispatch_outcome(&*old(self), &*final(self), &*old(guest), &*final(guest), 14, r),
    {
        let descriptor = guest.reg(A0_REG);
        let address = guest.reg(A1_REG);
        let size = guest.reg(A2_REG);
        if !self.files.contains(&descriptor) {
            guest.set_reg(V0_REG, BAD_DESCRIPTOR);
            return self.done(SyscallResult::Completed);
        }
        self.wait(Pending::FileRead(address, size), Effect::ReadFile { descriptor, size })
    }

    fn write_file(&mut self, guest: &mut Machine) -> (r: Step)
        requires
            old(self).wf(),
            old(self).token() == CancelToken::Idle,
            old(guest).wf(),
        ensures
            final(self).wf(),
            final(guest).wf(),
            dispatch_outcome(&*old(self), &*final(self), &*old(guest), &*final(guest), 15, r),
    {
        let descriptor = guest.reg(A0_REG);
        let address = guest.reg(A1_REG);
        let size = guest.reg(A2_REG);
        if !self.files.contains(&descriptor) {
            guest.set_reg(V0_REG, BAD_DESCRIPTOR);
            return self.done(SyscallResult::Completed);
        }
        match load_range(&guest.memory, address, size) {
            Ok(bytes) => self.wait(Pending::FileWrite, Effect::WriteFile { descriptor, bytes }),
            Err(e) => self.done(SyscallResult::Exception(e)),
        }
    }

    fn close_file(&mut self, guest: &mut Machine) -> (r: Step)
        requires
            old(self).wf(),
            old(self).token() == CancelToken::Idle,
            old(guest).wf(),
        ensures
            final(self).wf(),
            final(guest).wf(),
            dispatch_outcome(&*old(self), &*final(self), &*old(guest), &*final(guest), 16, r),
    {
        let descriptor = guest.reg(A0_REG);
        if self.files.contains(&descriptor) {
            self.files.remove(&descriptor);
            self.wait(Pending::Finish, Effect::CloseFile(descriptor))
        } else {
            self.done(SyscallResult::Completed)
        }
    }

    fn alloc_heap(&mut self, guest: &mut Machine) -> (r: Step)
        requires
            old(self).wf(),
            old(self).token() == CancelToken::Idle,
            old(guest).wf(),
        ensures
            final(self).wf(),
            final(guest).wf(),
            dispatch_outcome(&*old(self), &*final(self), &*old(guest), &*final(guest), 9, r),
    {
        let size = guest.reg(A0_REG);
        let pointer = self.heap_start;
        // The pointer wraps past the top of the address space without a fault.
        self.heap_start = ((pointer as u64 + size as u64) % 0x1_0000_0000) as u32;
        guest.set_reg(V0_REG, pointer);
        self.done(SyscallResult::Completed)
    }

    fn set_seed(&mut self, guest: &mut Machine) -> (r: Step)
        requires
            old(self).wf(),
            old(self).token() == CancelToken::Idle,
            old(guest).wf(),
        ensures
            final(self).wf(),
            final(guest).wf(),
            dispatch_outcome(&*old(self), &*final(self), &*old(guest), &*final(guest), 40, r),
    {
        let id = guest.reg(A0_REG);
        let seed = guest.reg(A1_REG);
        self.generators.set_seed(id, seed as u64);
        self.done(SyscallResult::Completed)
    }

    fn random_int(&mut self, guest: &mut Machine) -> (r: Step)
        requires
            old(self).wf(),
            old(self).token() == CancelToken::Idle,
            old(guest).wf(),
        ensures
            final(self).wf(),
            final(guest).wf(),
            dispatch_outcome(&*old(self), &*final(self), &*old(guest), &*final(guest), 41, r),
    {
        let id = guest.reg(A0_REG);
        match self.generators.random_int(id) {
            None => self.done(SyscallResult::Failure(Failure::NoGenerator(id))),
            Some(v) => {
                guest.set_reg(A0_REG, v);
                self.done(SyscallResult::Completed)
            },
        }
    }

    fn random_int_ranged(&mut self, guest: &mut Machine) -> (r: Step)
        requires
            old(self).wf(),
            old(self).token() == CancelToken::Idle,
            old(guest).wf(),
        ensures
            final(self).wf(),
            final(guest).wf(),
            dispatch_outcome(&*old(self), &*final(self), &*old(guest), &*final(guest), 42, r),
    {
        let id = guest.reg(A0_REG);
        let bound = guest.reg(A1_REG);
        match self.generators.random_below(id, bound) {
            Err(DrawError::NoGenerator(missing)) => self.done(
                SyscallResult::Failure(Failure::NoGenerator(missing)),
            ),
            Err(DrawError::EmptyRange) => self.done(SyscallResult::Failure(Failure::EmptyRange)),
            Ok(v) => {
                guest.set_reg(A0_REG, v);
                self.done(SyscallResult::Completed)
            },
        }
    }

    /// Serves syscall `code` for the guest stopped at a syscall trap.
    ///
    /// An unknown code gives `Unknown`. Otherwise, once cancelled, the call
    /// gives `Aborted` and touches nothing; else it does what
    /// `dispatch_outcome` says for the code.
    pub fn dispatch(&mut self, guest: &mut Machine, code: u32) -> (r: Step)
        requires
            old(self).wf(),
            old(self).waiting() is None,
            old(guest).wf(),
        ensures
            final(self).wf(),
            final(guest).wf(),
            final(self).next_descriptor() >= old(self).next_descriptor(),
            !known_code(code) ==> {
                &&& r == Step::Done(SyscallResult::Unknown(code))
                &&& old(self).kept(&*final(self))
                &&& final(self).token() == old(self).token()
                &&& final(self).waiting() is None
                &&& same_guest(&*old(guest), &*final(guest))
            },
            known_code(code) && old(self).token() == CancelToken::Cancelled ==> {
                &&& r == Step::Done(SyscallResult::Aborted)
                &&& old(self).kept(&*final(self))
                &&& final(self).token() == CancelToken::Cancelled
                &&& final(self).waiting() is None
                &&& same_guest(&*old(guest), &*final(guest))
            },
            known_code(code) && old(self).token() != CancelToken::Cancelled ==> dispatch_outcome(
                &*old(self),
                &*final(self),
                &*old(guest),
                &*final(guest),
                code,
                r,
            ),
    {
        if !((1 <= code && code <= 17) || (30 <= code && code <= 36) || (40 <= code && code <= 44)) {
            return Step::Done(SyscallResult::Unknown(code));
        }
        if let CancelToken::Cancelled = self.cancel_token {
            return Step::Done(SyscallResult::Aborted);
        }
        let a0 = guest.reg(A0_REG);
        match code {
            1 => self.print_text(format_signed(a0)),
            2 | 3 | 6 | 7 | 43 | 44 => self.done(SyscallResult::Unimplemented(code)),
            4 => match grab_string(&guest.memory, a0, Some(PRINT_STRING_CAP)) {
                Ok(bytes) => self.print_text(latin1_chars(&bytes)),
                Err(e) => self.done(SyscallResult::Exception(e)),
            },
            5 => self.continue_int(guest, IntReader::new()),
            8 => {
                let count = guest.reg(A1_REG);
                if count < 1 {
                    self.done(SyscallResult::Completed)
                } else {
                    self.continue_line(guest, LineReader::new((count - 1) as usize), a0)
                }
            },
            9 => self.alloc_heap(guest),
            10 => self.done(SyscallResult::Terminated(0)),
            11 => {
                let mut text: Vec<char> = Vec::new();
                text.push((a0 as u8) as char);
                self.print_text(text)
            },
            12 => self.continue_char(guest),
            13 => self.open_file(guest),
            14 => self.read_file(guest),
            15 => self.write_file(guest),
            16 => self.close_file(guest),
            17 => self.done(SyscallResult::Terminated(a0)),
            30 => self.wait(Pending::Clock, Effect::ReadClock),
            31 | 33 => {
                let request = MidiRequest {
                    pitch: a0,
                    duration: guest.reg(A1_REG),
                    instrument: guest.reg(A2_REG),
                    volume: guest.reg(A3_REG),
                };
                self.wait(
                    Pending::MidiCheck(request, code == 33),
                    Effect::CheckInstrument(request.instrument),
                )
            },
            32 => self.wait(Pending::Finish, Effect::Sleep(a0)),
            34 => self.print_text(format_hex(a0)),
            35 => self.print_text(format_binary(a0)),
            36 => self.print_text(format_unsigned(a0)),
            40 => self.set_seed(guest),
            41 => self.random_int(guest),
            _ => self.random_int_ranged(guest),
        }
    }

    /// Carries the syscall in flight on with the outcome of the effect it
    /// asked for. Once cancelled, it ends with `Aborted` and touches nothing.
    pub fn resume(&mut self, guest: &mut Machine, event: Event) -> (r: Step)
        requires
            old(self).wf(),
            old(guest).wf(),
            old(self).waiting() is Some,
            old(self).token() == CancelToken::Cancelled || fits(old(self).waiting()->0, event),
        ensures
            final(self).wf(),
            final(guest).wf(),
            resume_post(&*old(self), &*final(self), &*old(guest), &*final(guest), event, r),
    {
        if let CancelToken::Cancelled = self.cancel_token {
            self.pending = None;
            return Step::Done(SyscallResult::Aborted);
        }
        let pending = self.pending.take();
        self.cancel_token = CancelToken::Idle;
        match pending {
            None => Step::Done(SyscallResult::Aborted),
            Some(Pending::Finish) => self.done(SyscallResult::Completed),
            Some(Pending::AfterPlay(sync)) => {
                if sync {
                    self.wait(Pending::Finish, Effect::AwaitWake)
                } else {
                    self.done(SyscallResult::Completed)
                }
            },
            Some(Pending::ReadInt(reader)) => self.continue_int(guest, reader),
            Some(Pending::ReadLine(reader, address)) => self.continue_line(guest, reader, address),
            Some(Pending::ReadChar) => self.continue_char(guest),
            Some(Pending::Clock) => match event {
                Event::Clock(Some(ms)) => {
                    guest.set_reg(A0_REG, (ms % 0x1_0000_0000) as u32);
                    guest.set_reg(A1_REG, (ms / 0x1_0000_0000) as u32);
                    self.done(SyscallResult::Completed)
                },
                _ => self.done(SyscallResult::Failure(Failure::ClockFailed)),
            },
            Some(Pending::MidiCheck(request, sync)) => match event {
                Event::Answer(true) => self.wait(Pending::AfterPlay(sync), Effect::Play(request, sync)),
                _ => self.wait(
                    Pending::MidiInstall(request, sync),
                    Effect::InstallInstrument(request.instrument),
                ),
            },
            Some(Pending::MidiInstall(request, sync)) => match event {
                Event::Answer(true) => self.wait(Pending::AfterPlay(sync), Effect::Play(request, sync)),
                _ => self.done(SyscallResult::Completed),
            },
            Some(Pending::Open) => match event {
                Event::Answer(true) => {
                    let descriptor = self.next_file;
                    self.next_file = descriptor + 1;
                    self.files.insert(descriptor);
                    guest.set_reg(V0_REG, descriptor);
                    self.done(SyscallResult::Completed)
                },
                _ => {
                    guest.set_reg(V0_REG, BAD_DESCRIPTOR);
                    self.done(SyscallResult::Completed)
                },
            },
            Some(Pending::FileRead(address, size)) => match event {
                Event::Read(Some(bytes)) => {
                    let mut data = bytes;
                    let ghost whole = data@;
                    if data.len() > size as usize {
                        data.truncate(size as usize);
                    }
                    assert(data@ == whole.take(data@.len() as int));
                    let count = data.len() as u32;
                    match store_bytes(&mut guest.memory, address, &data, false) {
                        Some(e) => self.done(SyscallResult::Exception(e)),
                        None => {
                            guest.set_reg(V0_REG, count);
                            self.done(SyscallResult::Completed)
                        },
                    }
                },
                _ => {
                    guest.set_reg(V0_REG, IO_ERROR);
                    self.done(SyscallResult::Completed)
                },
            },
            Some(Pending::FileWrite) => match event {
                Event::Written(Some(n)) => {
                    guest.set_reg(V0_REG, #[verifier::truncate] (n as u32));
                    self.done(SyscallResult::Completed)
                },
                _ => {
                    guest.set_reg(V0_REG, IO_ERROR);
                    self.done(SyscallResult::Completed)
                },
            },
        }
    }
}

/// Cancelling while a syscall waits makes the next resume end it with
/// `Aborted`, whatever the host reports, leaving the guest as it was.
pub proof fn cancel_then_resume_aborts(
    s0: &SyscallState,
    s1: &SyscallState,
    s2: &SyscallState,
    g1: &Machine,
    g2: &Machine,
    was_armed: bool,
    event: Event,
    r: Step,
)
    requires
        s0.waiting() is Some,
        cancel_post(s0, s1, was_armed),
        resume_post(s1, s2, g1, g2, event, r),
    ensures
        r == Step::Done(SyscallResult::Aborted),
        same_guest(g1, g2),
        s2.waiting() is None,
        s1.kept(s2),
{
}

/// The descriptor a state hands out next is not open, and every open
/// descriptor is below it and above the reserved ones.
pub proof fn next_descriptor_fresh(s: &SyscallState)
    requires
        s.wf(),
    ensures
        !s.open_files().contains(s.next_descriptor()),
        forall|fd: u32|
            #[trigger] s.open_files().contains(fd) ==> FIRST_DESCRIPTOR <= fd < s.next_descriptor(),
{
}

proof fn descriptors_increase_from(ds: Seq<u32>, before: Seq<u32>, after: Seq<u32>, i: int, j: int)
    requires
        ds.len() == before.len(),
        ds.len() == after.len(),
        forall|k: int| 0 <= k < ds.len() ==> ds[k] == before[k] && after[k] == ds[k] + 1,
        forall|k: int| 0 <= k < ds.len() - 1 ==> before[k + 1] >= after[k],
        0 <= i < j < ds.len(),
    ensures
        ds[i] < ds[j],
    decreases j - i,
{
    if j > i + 1 {
        descriptors_increase_from(ds, before, after, i, j - 1);
    }
    assert(before[j] >= after[j - 1]);
}

/// Successive successful opens hand out strictly increasing descriptors:
/// each takes the next descriptor and advances it by one, and no step
/// moves it back.
pub proof fn descriptors_increase(ds: Seq<u32>, before: Seq<u32>, after: Seq<u32>)
    requires
        ds.len() == before.len(),
        ds.len() == after.len(),
        forall|k: int| 0 <= k < ds.len() ==> ds[k] == before[k] && after[k] == ds[k] + 1,
        forall|k: int| 0 <= k < ds.len() - 1 ==> before[k + 1] >= after[k],
    ensures
        forall|i: int, j: int| 0 <= i < j < ds.len() ==> ds[i] < ds[j],
{
    assert forall|i: int, j: int| 0 <= i < j < ds.len() implies ds[i] < ds[j] by {
        descriptors_increase_from(ds, before, after, i, j);
    }
}

/// Sum of the sizes.
pub open spec fn total(sizes: Seq<u32>) -> int
    decreases sizes.len(),
{
    if sizes.len() == 0 {
        0
    } else {
        total(sizes.drop_last()) + sizes.last()
    }
}

/// After `sbrk` calls of the given sizes from a fresh state, the heap
/// pointer is the base plus the sum of the sizes, modulo 2^32. Other
/// syscalls in between keep the pointer, and count as a size of zero.
pub proof fn heap_after_allocations(heaps: Seq<u32>, sizes: Seq<u32>)
    requires
        heaps.len() == sizes.len() + 1,
        heaps[0] == HEAP_BASE,
        forall|i: int|
            0 <= i < sizes.len() ==> heaps[i + 1] as int == (heaps[i] + sizes[i]) % 0x1_0000_0000,
    ensures
        heaps.last() as int == (HEAP_BASE + total(sizes)) % 0x1_0000_0000,
    decreases sizes.len(),
{
    if sizes.len() == 0 {
        vstd::arithmetic::div_mod::lemma_small_mod(HEAP_BASE as nat, 0x1_0000_0000);
    } else {
        let n = sizes.len() as int;
        heap_after_allocations(heaps.drop_last(), sizes.drop_last());
        assert(heaps.drop_last().last() == heaps[n - 1]);
        let t = HEAP_BASE + total(sizes.drop_last());
        assert(heaps[n] as int == (heaps[n - 1] + sizes[n - 1]) % 0x1_0000_0000);
        vstd::arithmetic::div_mod::lemma_add_mod_noop(t, sizes[n - 1] as int, 0x1_0000_0000);
        vstd::arithmetic::div_mod::lemma_mod_twice(sizes[n - 1] as int, 0x1_0000_0000);
        vstd::arithmetic::div_mod::lemma_small_mod(sizes[n - 1] as nat, 0x1_0000_0000);
    }
}

/// A `read_string` of `count` that completes, into a buffer that does not
/// wrap past the last address, is printed back by `print_string` as the
/// input up to its first newline or its first `count - 1` bytes, whichever
/// comes first, when the input holds no NUL byte and the line fits the
/// print cap.
pub proof fn read_string_prints_back(
    s0: &SyscallState,
    s1: &SyscallState,
    g0: &Machine,
    g1: &Machine,
    r: Step,
    address: u32,
    count: u32,
)
    requires
        1 <= count <= PRINT_STRING_CAP + 1,
        address as int + count as int <= u32::MAX as int,
        forall|i: int| 0 <= i < s0.input().len() ==> s0.input()[i] != 0,
        line_read(s0, s1, g0, g1, r, LineScan { data: Seq::empty(), limit: (count - 1) as nat }, address),
        r == Step::Done(SyscallResult::Completed),
    ensures
        c_string(g1.memory@, address, 0, Some(PRINT_STRING_CAP)) matches Ok(t) && {
            let input = s0.input();
            &&& t == input.take(t.len() as int)
            &&& forall|i: int| 0 <= i < t.len() ==> t[i] != 10
            &&& t.len() == count - 1 || (t.len() < input.len() && input[t.len() as int] == 10)
        },
{
    let scan = LineScan { data: Seq::empty(), limit: (count - 1) as nat };
    let input = s0.input();
    line_read_takes_prefix(scan, input);
    let (sc, n, stopped) = line_run(scan, input);
    let data = sc.data;
    assert(Seq::<u8>::empty() + input.take(data.len() as int) == input.take(data.len() as int));
    assert forall|i: int| 0 <= i < data.len() implies data[i] != 0 by {
        assert(data[i] == input[i]);
    }
    stored_string_reads_back(g0.memory@, address, data, PRINT_STRING_CAP);
}

/// The characters of `bytes`, one for each byte.
pub fn latin1_chars(bytes: &Vec<u8>) -> (r: Vec<char>)
    ensures
        r@ == latin1(bytes@),
{
    let mut out: Vec<char> = Vec::new();
    let mut i: usize = 0;
    while i < bytes.len()
        invariant
            i <= bytes@.len(),
            out@.len() == i,
            forall|j: int| 0 <= j < i ==> out@[j] == (bytes@[j] as char),
        decreases bytes@.len() - i,
    {
        out.push(bytes[i] as char);
        i = i + 1;
    }
    assert(out@ =~= latin1(bytes@));
    out
}

} // verus!
