use saturn_syscall::channel::{ByteChannel, Consumption, IntReader, LineReader};
use saturn_syscall::driver::{after_syscall, on_frame, AfterSyscall, DebugFrame, ExecutorMode, FrameAction};
use saturn_syscall::format::{format_binary, format_hex, format_signed, format_unsigned};
use saturn_syscall::guest::{grab_string, CpuError, GuestMemory, Machine, V0_REG};
use saturn_syscall::syscall::SyscallResult;
use saturn_syscall::time::{clock_word, TimeHandler, TokioTimeHandler};

fn text(v: Vec<char>) -> String {
    v.into_iter().collect()
}

#[test]
fn formats() {
    assert_eq!(text(format_signed(0xFFFF_FFD6)), "-42");
    assert_eq!(text(format_unsigned(1234567890)), "1234567890");
    assert_eq!(text(format_hex(0xDEAD_BEEF)), "deadbeef");
    assert_eq!(text(format_hex(0)), "0");
    assert_eq!(text(format_binary(0)), "0");
    assert_eq!(text(format_binary(0x8000_0000)), format!("{:b}", i32::MIN));
}

#[test]
fn channel_reads_in_order() {
    let mut c = ByteChannel::new();
    c.post(b"abc");
    c.post(b"de");
    assert_eq!(c.read(2), b"ab".to_vec());
    assert_eq!(c.read(10), b"cde".to_vec());
    assert_eq!(c.read(1), Vec::<u8>::new());
}

#[test]
fn int_reader_decisions() {
    let mut r = IntReader::new();
    assert_eq!(r.feed(b' '), Consumption::ConsumeAndContinue);
    assert_eq!(r.feed(b'-'), Consumption::ConsumeAndContinue);
    assert_eq!(r.feed(b'-'), Consumption::IgnoreAndStop);
    assert_eq!(r.result(), 0);
    let mut c = ByteChannel::new();
    c.post(b"4294967297!");
    let mut r = IntReader::new();
    assert!(c.read_int_until(&mut r));
    assert_eq!(r.result(), 1);
    assert_eq!(c.len(), 1);
}

#[test]
fn line_reader_decisions() {
    let mut r = LineReader::new(2);
    assert_eq!(r.feed(b'a'), Consumption::ConsumeAndContinue);
    assert_eq!(r.feed(b'\n'), Consumption::ConsumeAndStop);
    assert_eq!(r.feed(b'b'), Consumption::ConsumeAndContinue);
    assert_eq!(r.feed(b'c'), Consumption::IgnoreAndStop);
    assert_eq!(r.into_data(), b"ab".to_vec());
}

#[test]
fn grab_string_caps_and_faults() {
    let mut m = GuestMemory::new();
    m.map_zeroed(0xFFFF_FFF0, 0x10);
    for i in 0..0x10u32 {
        m.set(0xFFFF_FFF0 + i, b'a').unwrap();
    }
    assert_eq!(grab_string(&m, 0xFFFF_FFF0, Some(4)), Ok(b"aaaa".to_vec()));
    assert_eq!(grab_string(&m, 0xFFFF_FFF0, None), Err(CpuError::CpuTrap));
    assert_eq!(grab_string(&m, 5, None), Err(CpuError::MemoryUnmapped(5)));
}

#[test]
fn driver_decisions() {
    let mut g = Machine::new();
    g.set_reg(V0_REG, 5);
    let trap = DebugFrame { mode: ExecutorMode::Invalid(CpuError::CpuSyscall), pc: 0x400 };
    assert_eq!(on_frame(&trap, &g), FrameAction::Dispatch(5));
    let paused = DebugFrame { mode: ExecutorMode::Paused, pc: 0x404 };
    assert_eq!(on_frame(&paused, &g), FrameAction::Halt);
    assert!(matches!(after_syscall(trap, SyscallResult::Completed), AfterSyscall::Handled));
    match after_syscall(trap, SyscallResult::Terminated(3)) {
        AfterSyscall::Stop(f, r) => {
            assert_eq!(f, trap);
            assert_eq!(r, SyscallResult::Terminated(3));
        }
        other => panic!("{:?}", other),
    }
}

#[test]
fn system_clock_reads() {
    let t = TokioTimeHandler::new();
    assert!(t.time().unwrap() > 1_500_000_000_000);
}

#[test]
fn clock_word_keeps_low_64_bits() {
    assert_eq!(clock_word(None), None);
    assert_eq!(clock_word(Some(1_700_000_000_123)), Some(1_700_000_000_123));
    assert_eq!(clock_word(Some((1u128 << 64) + 5)), Some(5));
}
