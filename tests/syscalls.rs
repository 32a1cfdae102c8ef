use saturn_syscall::guest::{CpuError, Machine, A0_REG, A1_REG, A2_REG, A3_REG, V0_REG};
use saturn_syscall::syscall::{
    CancelToken, Effect, Event, Failure, MidiRequest, OpenMode, Step, SyscallResult,
    SyscallState,
};

fn machine() -> Machine {
    let mut g = Machine::new();
    g.memory.map_zeroed(0x1000, 0x1000);
    g
}

fn call(st: &mut SyscallState, g: &mut Machine, code: u32, args: &[u32]) -> Step {
    g.set_reg(V0_REG, code);
    for (i, a) in args.iter().enumerate() {
        g.set_reg(A0_REG + i, *a);
    }
    st.dispatch(g, code)
}

fn write_mem(g: &mut Machine, addr: u32, bytes: &[u8]) {
    for (i, b) in bytes.iter().enumerate() {
        g.memory.set(addr + i as u32, *b).unwrap();
    }
}

fn read_mem(g: &Machine, addr: u32, n: u32) -> Vec<u8> {
    (0..n).map(|i| g.memory.get(addr + i).unwrap()).collect()
}

fn printed(step: Step) -> String {
    match step {
        Step::Perform(Effect::Print(t)) => t.into_iter().collect(),
        other => panic!("expected a print, got {:?}", other),
    }
}

fn finish(st: &mut SyscallState, g: &mut Machine) -> SyscallResult {
    match st.resume(g, Event::Done) {
        Step::Done(r) => r,
        other => panic!("expected the end, got {:?}", other),
    }
}

#[test]
fn print_int_of_all_ones_is_minus_one() {
    let mut st = SyscallState::new();
    let mut g = machine();
    let step = call(&mut st, &mut g, 1, &[0xFFFF_FFFF]);
    assert_eq!(printed(step), "-1");
    assert_eq!(finish(&mut st, &mut g), SyscallResult::Completed);
}

#[test]
fn print_int_extremes() {
    let mut st = SyscallState::new();
    let mut g = machine();
    assert_eq!(printed(call(&mut st, &mut g, 1, &[0x8000_0000])), "-2147483648");
    finish(&mut st, &mut g);
    assert_eq!(printed(call(&mut st, &mut g, 1, &[0])), "0");
    finish(&mut st, &mut g);
    assert_eq!(printed(call(&mut st, &mut g, 1, &[2147483647])), "2147483647");
    finish(&mut st, &mut g);
}

#[test]
fn print_hex_binary_unsigned_char() {
    let mut st = SyscallState::new();
    let mut g = machine();
    assert_eq!(printed(call(&mut st, &mut g, 34, &[0xFFFF_FFFF])), format!("{:x}", -1i32));
    finish(&mut st, &mut g);
    assert_eq!(printed(call(&mut st, &mut g, 34, &[255])), "ff");
    finish(&mut st, &mut g);
    assert_eq!(printed(call(&mut st, &mut g, 35, &[5])), "101");
    finish(&mut st, &mut g);
    assert_eq!(printed(call(&mut st, &mut g, 35, &[0xFFFF_FFFE])), format!("{:b}", -2i32));
    finish(&mut st, &mut g);
    assert_eq!(printed(call(&mut st, &mut g, 36, &[0xFFFF_FFFF])), "4294967295");
    finish(&mut st, &mut g);
    assert_eq!(printed(call(&mut st, &mut g, 11, &[0x141])), "A");
    finish(&mut st, &mut g);
}

#[test]
fn print_string_reads_until_nul() {
    let mut st = SyscallState::new();
    let mut g = machine();
    write_mem(&mut g, 0x1100, b"hi there\0tail");
    assert_eq!(printed(call(&mut st, &mut g, 4, &[0x1100])), "hi there");
    assert_eq!(finish(&mut st, &mut g), SyscallResult::Completed);
}

#[test]
fn print_string_from_unmapped_address_faults() {
    let mut st = SyscallState::new();
    let mut g = machine();
    let step = call(&mut st, &mut g, 4, &[0x9000]);
    assert!(matches!(
        step,
        Step::Done(SyscallResult::Exception(CpuError::MemoryUnmapped(0x9000)))
    ));
}

#[test]
fn read_int_takes_sign_and_digits() {
    let mut st = SyscallState::new();
    let mut g = machine();
    st.post_input(b"  -42xyz");
    let step = call(&mut st, &mut g, 5, &[]);
    assert!(matches!(step, Step::Done(SyscallResult::Completed)));
    assert_eq!(g.reg(V0_REG), 0xFFFF_FFD6);
    assert_eq!(st.input_len(), 3);
    for expected in [b'x', b'y', b'z'] {
        assert!(matches!(call(&mut st, &mut g, 12, &[]), Step::Done(SyscallResult::Completed)));
        assert_eq!(g.reg(V0_REG), expected as u32);
    }
}

#[test]
fn read_int_waits_for_more_digits() {
    let mut st = SyscallState::new();
    let mut g = machine();
    st.post_input(b"+12");
    assert!(matches!(call(&mut st, &mut g, 5, &[]), Step::Perform(Effect::AwaitInput)));
    assert_eq!(st.input_len(), 0);
    st.post_input(b"3\n");
    assert!(matches!(st.resume(&mut g, Event::Done), Step::Done(SyscallResult::Completed)));
    assert_eq!(g.reg(V0_REG), 123);
    assert_eq!(st.input_len(), 1);
}

#[test]
fn read_string_stops_at_newline() {
    let mut st = SyscallState::new();
    let mut g = machine();
    st.post_input(b"hello\nworld");
    let step = call(&mut st, &mut g, 8, &[0x1000, 10]);
    assert!(matches!(step, Step::Done(SyscallResult::Completed)));
    assert_eq!(read_mem(&g, 0x1000, 6), b"hello\0".to_vec());
    assert_eq!(st.input_len(), 5);
}

#[test]
fn read_string_limit_leaves_byte() {
    let mut st = SyscallState::new();
    let mut g = machine();
    st.post_input(b"abcdef");
    let step = call(&mut st, &mut g, 8, &[0x1000, 4]);
    assert!(matches!(step, Step::Done(SyscallResult::Completed)));
    assert_eq!(read_mem(&g, 0x1000, 4), b"abc\0".to_vec());
    assert_eq!(st.input_len(), 3);
}

#[test]
fn read_string_of_zero_length_does_nothing() {
    let mut st = SyscallState::new();
    let mut g = machine();
    st.post_input(b"abc");
    let step = call(&mut st, &mut g, 8, &[0x1000, 0]);
    assert!(matches!(step, Step::Done(SyscallResult::Completed)));
    assert_eq!(st.input_len(), 3);
}

#[test]
fn read_string_then_print_string_round_trip() {
    let mut st = SyscallState::new();
    let mut g = machine();
    st.post_input(b"line one\nrest");
    assert!(matches!(call(&mut st, &mut g, 8, &[0x1200, 100]), Step::Done(_)));
    assert_eq!(printed(call(&mut st, &mut g, 4, &[0x1200])), "line one");
}

#[test]
fn read_char_waits_then_reads() {
    let mut st = SyscallState::new();
    let mut g = machine();
    assert!(matches!(call(&mut st, &mut g, 12, &[]), Step::Perform(Effect::AwaitInput)));
    st.post_input(b"q");
    assert_eq!(finish(&mut st, &mut g), SyscallResult::Completed);
    assert_eq!(g.reg(V0_REG), b'q' as u32);
}

#[test]
fn sbrk_bumps_heap() {
    let mut st = SyscallState::new();
    let mut g = machine();
    call(&mut st, &mut g, 9, &[16]);
    assert_eq!(g.reg(V0_REG), 0x2000_0000);
    call(&mut st, &mut g, 9, &[0x100]);
    assert_eq!(g.reg(V0_REG), 0x2000_0010);
    call(&mut st, &mut g, 9, &[0xF000_0000]);
    assert_eq!(g.reg(V0_REG), 0x2000_0110);
    call(&mut st, &mut g, 9, &[0]);
    assert_eq!(g.reg(V0_REG), 0x1000_0110);
}

#[test]
fn exit_and_unimplemented_and_unknown() {
    let mut st = SyscallState::new();
    let mut g = machine();
    assert!(matches!(call(&mut st, &mut g, 10, &[]), Step::Done(SyscallResult::Terminated(0))));
    assert!(matches!(call(&mut st, &mut g, 17, &[7]), Step::Done(SyscallResult::Terminated(7))));
    for code in [2u32, 3, 6, 7, 43, 44] {
        match call(&mut st, &mut g, code, &[]) {
            Step::Done(SyscallResult::Unimplemented(c)) => assert_eq!(c, code),
            other => panic!("{:?}", other),
        }
    }
    assert!(matches!(call(&mut st, &mut g, 99, &[]), Step::Done(SyscallResult::Unknown(99))));
    assert!(matches!(call(&mut st, &mut g, 20, &[]), Step::Done(SyscallResult::Unknown(20))));
}

#[test]
fn sleep_cancelled_aborts() {
    let mut st = SyscallState::new();
    let mut g = machine();
    let step = call(&mut st, &mut g, 32, &[10000]);
    assert!(matches!(step, Step::Perform(Effect::Sleep(10000))));
    let before = g.registers.clone();
    assert!(st.cancel());
    assert!(st.accepts(&Event::Done));
    assert_eq!(finish(&mut st, &mut g), SyscallResult::Aborted);
    assert_eq!(g.registers, before);
}

#[test]
fn cancelled_state_aborts_until_cleared() {
    let mut st = SyscallState::new();
    let mut g = machine();
    assert!(!st.cancel());
    assert!(!st.cancel());
    assert!(matches!(call(&mut st, &mut g, 9, &[4]), Step::Done(SyscallResult::Aborted)));
    st.clear_cancelled();
    assert!(matches!(call(&mut st, &mut g, 9, &[4]), Step::Done(SyscallResult::Completed)));
    assert_eq!(g.reg(V0_REG), 0x2000_0000);
}

#[test]
fn empty_range_fails_without_touching_registers() {
    let mut st = SyscallState::new();
    let mut g = machine();
    g.set_reg(V0_REG, 42);
    g.set_reg(A0_REG, 0);
    g.set_reg(A1_REG, 0);
    let before = g.registers.clone();
    let step = st.dispatch(&mut g, 42);
    match step {
        Step::Done(SyscallResult::Failure(f)) => assert_eq!(f, Failure::EmptyRange),
        other => panic!("{:?}", other),
    }
    assert_eq!(g.registers, before);
}

#[test]
fn missing_generator_fails() {
    let mut st = SyscallState::new();
    let mut g = machine();
    match call(&mut st, &mut g, 41, &[5]) {
        Step::Done(SyscallResult::Failure(f)) => assert_eq!(f, Failure::NoGenerator(5)),
        other => panic!("{:?}", other),
    }
    match call(&mut st, &mut g, 42, &[5, 10]) {
        Step::Done(SyscallResult::Failure(f)) => assert_eq!(f, Failure::NoGenerator(5)),
        other => panic!("{:?}", other),
    }
    assert!(matches!(call(&mut st, &mut g, 41, &[0]), Step::Done(SyscallResult::Completed)));
}

#[test]
fn ranged_values_stay_below_bound() {
    let mut st = SyscallState::new();
    let mut g = machine();
    call(&mut st, &mut g, 40, &[3, 99]);
    for _ in 0..50 {
        assert!(matches!(call(&mut st, &mut g, 42, &[3, 7]), Step::Done(SyscallResult::Completed)));
        assert!(g.reg(A0_REG) < 7);
    }
}

#[test]
fn system_time_splits_milliseconds() {
    let mut st = SyscallState::new();
    let mut g = machine();
    assert!(matches!(call(&mut st, &mut g, 30, &[]), Step::Perform(Effect::ReadClock)));
    let ms: u64 = 0x0000_0123_4567_89AB;
    assert!(matches!(st.resume(&mut g, Event::Clock(Some(ms))), Step::Done(SyscallResult::Completed)));
    assert_eq!(g.reg(A0_REG), 0x4567_89AB);
    assert_eq!(g.reg(A1_REG), 0x0123);
}

#[test]
fn system_time_failure() {
    let mut st = SyscallState::new();
    let mut g = machine();
    call(&mut st, &mut g, 30, &[]);
    match st.resume(&mut g, Event::Clock(None)) {
        Step::Done(SyscallResult::Failure(f)) => assert_eq!(f, Failure::ClockFailed),
        other => panic!("{:?}", other),
    }
}

#[test]
fn midi_plays_installed_instrument() {
    let mut st = SyscallState::new();
    let mut g = machine();
    let step = call(&mut st, &mut g, 31, &[60, 500, 3, 100]);
    assert!(matches!(step, Step::Perform(Effect::CheckInstrument(3))));
    let request = MidiRequest { pitch: 60, duration: 500, instrument: 3, volume: 100 };
    match st.resume(&mut g, Event::Answer(true)) {
        Step::Perform(Effect::Play(r, sync)) => {
            assert_eq!(r, request);
            assert!(!sync);
        }
        other => panic!("{:?}", other),
    }
    assert_eq!(finish(&mut st, &mut g), SyscallResult::Completed);
}

#[test]
fn midi_install_failure_completes_silently() {
    let mut st = SyscallState::new();
    let mut g = machine();
    call(&mut st, &mut g, 31, &[60, 500, 3, 100]);
    assert!(matches!(
        st.resume(&mut g, Event::Answer(false)),
        Step::Perform(Effect::InstallInstrument(3))
    ));
    assert!(matches!(
        st.resume(&mut g, Event::Answer(false)),
        Step::Done(SyscallResult::Completed)
    ));
}

#[test]
fn midi_sync_waits_for_wake() {
    let mut st = SyscallState::new();
    let mut g = machine();
    call(&mut st, &mut g, 33, &[60, 500, 3, 100]);
    st.resume(&mut g, Event::Answer(false));
    assert!(matches!(st.resume(&mut g, Event::Answer(true)), Step::Perform(Effect::Play(_, true))));
    assert!(matches!(st.resume(&mut g, Event::Done), Step::Perform(Effect::AwaitWake)));
    assert_eq!(finish(&mut st, &mut g), SyscallResult::Completed);
}

#[test]
fn midi_request_fields() {
    let mut g = machine();
    g.set_reg(A2_REG, 9);
    g.set_reg(A3_REG, 127);
    let r = MidiRequest { pitch: 1, duration: 2, instrument: g.reg(A2_REG), volume: g.reg(A3_REG) };
    assert_eq!(r.instrument, 9);
    assert_eq!(r.volume, 127);
}

#[test]
fn token_lifecycle() {
    let mut st = SyscallState::new();
    let mut g = machine();
    assert!(!st.accepts(&Event::Done));
    call(&mut st, &mut g, 32, &[1]);
    assert!(st.accepts(&Event::Done));
    assert!(!st.accepts(&Event::Answer(true)));
    finish(&mut st, &mut g);
    assert!(!st.cancel());
    let _ = CancelToken::Idle;
}
