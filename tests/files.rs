use saturn_syscall::guest::{Machine, A0_REG, V0_REG};
use saturn_syscall::syscall::{Effect, Event, Failure, OpenMode, Step, SyscallResult, SyscallState};
use std::collections::HashMap;

fn machine() -> Machine {
    let mut g = Machine::new();
    g.memory.map_zeroed(0x1000, 0x1000);
    g
}

fn call(st: &mut SyscallState, g: &mut Machine, code: u32, args: &[u32]) -> Step {
    g.set_reg(V0_REG, code);
    for (i, a) in args.iter().enumerate() {
        g.set_reg(A0_REG + i, *a);
    }
    st.dispatch(g, code)
}

fn write_mem(g: &mut Machine, addr: u32, bytes: &[u8]) {
    for (i, b) in bytes.iter().enumerate() {
        g.memory.set(addr + i as u32, *b).unwrap();
    }
}

/// A host file system kept in memory, serving the effects of the file syscalls.
struct Host {
    files: HashMap<String, Vec<u8>>,
    open: HashMap<u32, (String, usize)>,
}

impl Host {
    fn serve(&mut self, st: &mut SyscallState, g: &mut Machine, mut step: Step) -> SyscallResult {
        let mut last_name = None;
        loop {
            step = match step {
                Step::Done(r) => return r,
                Step::Perform(Effect::OpenFile { name, mode }) => {
                    let name = String::from_utf8(name).unwrap();
                    let ok = match mode {
                        OpenMode::Read => self.files.contains_key(&name),
                        OpenMode::Create => {
                            self.files.insert(name.clone(), vec![]);
                            true
                        }
                        OpenMode::Append => self.files.contains_key(&name),
                    };
                    last_name = Some(name);
                    let s = st.resume(g, Event::Answer(ok));
                    if ok {
                        self.open.insert(g.reg(V0_REG), (last_name.clone().unwrap(), 0));
                    }
                    s
                }
                Step::Perform(Effect::WriteFile { descriptor, bytes }) => {
                    let (name, _) = self.open[&descriptor].clone();
                    self.files.get_mut(&name).unwrap().extend_from_slice(&bytes);
                    st.resume(g, Event::Written(Some(bytes.len())))
                }
                Step::Perform(Effect::ReadFile { descriptor, size }) => {
                    let (name, pos) = self.open[&descriptor].clone();
                    let data = &self.files[&name];
                    let end = (pos + size as usize).min(data.len());
                    let chunk = data[pos..end].to_vec();
                    self.open.insert(descriptor, (name, end));
                    st.resume(g, Event::Read(Some(chunk)))
                }
                Step::Perform(Effect::CloseFile(descriptor)) => {
                    self.open.remove(&descriptor);
                    st.resume(g, Event::Done)
                }
                other => panic!("unexpected {:?}", other),
            };
        }
    }
}

#[test]
fn write_close_reopen_read_round_trip() {
    let mut st = SyscallState::new();
    let mut g = machine();
    let mut host = Host { files: HashMap::new(), open: HashMap::new() };
    write_mem(&mut g, 0x1000, b"notes.txt\0");
    write_mem(&mut g, 0x1100, b"payload bytes");

    let s = call(&mut st, &mut g, 13, &[0x1000, 1]);
    assert_eq!(host.serve(&mut st, &mut g, s), SyscallResult::Completed);
    let fd = g.reg(V0_REG);
    assert_eq!(fd, 3);

    let s = call(&mut st, &mut g, 15, &[fd, 0x1100, 13]);
    assert_eq!(host.serve(&mut st, &mut g, s), SyscallResult::Completed);
    assert_eq!(g.reg(V0_REG), 13);

    let s = call(&mut st, &mut g, 16, &[fd]);
    assert_eq!(host.serve(&mut st, &mut g, s), SyscallResult::Completed);

    let s = call(&mut st, &mut g, 13, &[0x1000, 0]);
    assert_eq!(host.serve(&mut st, &mut g, s), SyscallResult::Completed);
    let fd2 = g.reg(V0_REG);
    assert_eq!(fd2, 4);

    let s = call(&mut st, &mut g, 14, &[fd2, 0x1800, 13]);
    assert_eq!(host.serve(&mut st, &mut g, s), SyscallResult::Completed);
    assert_eq!(g.reg(V0_REG), 13);
    let back: Vec<u8> = (0..13).map(|i| g.memory.get(0x1800 + i).unwrap()).collect();
    assert_eq!(back, b"payload bytes".to_vec());
}

#[test]
fn descriptors_strictly_increase_and_are_not_reused() {
    let mut st = SyscallState::new();
    let mut g = machine();
    write_mem(&mut g, 0x1000, b"a\0");
    let mut seen = vec![];
    for _ in 0..4 {
        let s = call(&mut st, &mut g, 13, &[0x1000, 1]);
        assert!(matches!(s, Step::Perform(Effect::OpenFile { .. })));
        st.resume(&mut g, Event::Answer(true));
        let fd = g.reg(V0_REG);
        let s = call(&mut st, &mut g, 16, &[fd]);
        st.resume(&mut g, Event::Done);
        let _ = s;
        seen.push(fd);
    }
    assert_eq!(seen, vec![3, 4, 5, 6]);
}

#[test]
fn failed_open_gives_minus_one() {
    let mut st = SyscallState::new();
    let mut g = machine();
    write_mem(&mut g, 0x1000, b"missing\0");
    call(&mut st, &mut g, 13, &[0x1000, 0]);
    st.resume(&mut g, Event::Answer(false));
    assert_eq!(g.reg(V0_REG), 0xFFFF_FFFF);
}

#[test]
fn open_with_bad_flags_fails() {
    let mut st = SyscallState::new();
    let mut g = machine();
    write_mem(&mut g, 0x1000, b"x.bin\0");
    match call(&mut st, &mut g, 13, &[0x1000, 5]) {
        Step::Done(SyscallResult::Failure(f)) => {
            assert_eq!(f, Failure::InvalidFlags { flags: 5, name: b"x.bin".to_vec() })
        }
        other => panic!("{:?}", other),
    }
}

#[test]
fn unknown_descriptor_gives_minus_one() {
    let mut st = SyscallState::new();
    let mut g = machine();
    for code in [14u32, 15] {
        g.set_reg(V0_REG, 0);
        assert!(matches!(
            call(&mut st, &mut g, code, &[1, 0x1000, 4]),
            Step::Done(SyscallResult::Completed)
        ));
        assert_eq!(g.reg(V0_REG), 0xFFFF_FFFF);
    }
    assert!(matches!(call(&mut st, &mut g, 16, &[9]), Step::Done(SyscallResult::Completed)));
}

#[test]
fn host_errors_give_minus_two() {
    let mut st = SyscallState::new();
    let mut g = machine();
    write_mem(&mut g, 0x1000, b"f\0");
    call(&mut st, &mut g, 13, &[0x1000, 0]);
    st.resume(&mut g, Event::Answer(true));
    let fd = g.reg(V0_REG);
    call(&mut st, &mut g, 14, &[fd, 0x1100, 8]);
    st.resume(&mut g, Event::Read(None));
    assert_eq!(g.reg(V0_REG), 0xFFFF_FFFE);
    call(&mut st, &mut g, 15, &[fd, 0x1100, 8]);
    st.resume(&mut g, Event::Written(None));
    assert_eq!(g.reg(V0_REG), 0xFFFF_FFFE);
}

#[test]
fn write_from_unmapped_memory_faults() {
    let mut st = SyscallState::new();
    let mut g = machine();
    write_mem(&mut g, 0x1000, b"f\0");
    call(&mut st, &mut g, 13, &[0x1000, 1]);
    st.resume(&mut g, Event::Answer(true));
    let fd = g.reg(V0_REG);
    assert!(matches!(
        call(&mut st, &mut g, 15, &[fd, 0x1FFE, 4]),
        Step::Done(SyscallResult::Exception(_))
    ));
}
