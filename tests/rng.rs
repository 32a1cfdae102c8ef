use rand::Rng;
use rand_chacha::rand_core::SeedableRng;
use rand_chacha::ChaCha8Rng;
use saturn_syscall::guest::{Machine, A0_REG, V0_REG};
use saturn_syscall::syscall::{Step, SyscallResult, SyscallState};

fn call(st: &mut SyscallState, g: &mut Machine, code: u32, args: &[u32]) -> Step {
    g.set_reg(V0_REG, code);
    for (i, a) in args.iter().enumerate() {
        g.set_reg(A0_REG + i, *a);
    }
    st.dispatch(g, code)
}

fn three_draws() -> Vec<u32> {
    let mut st = SyscallState::new();
    let mut g = Machine::new();
    assert!(matches!(call(&mut st, &mut g, 40, &[7, 123]), Step::Done(SyscallResult::Completed)));
    (0..3)
        .map(|_| {
            assert!(matches!(call(&mut st, &mut g, 41, &[7]), Step::Done(SyscallResult::Completed)));
            g.reg(A0_REG)
        })
        .collect()
}

#[test]
fn reseeding_repeats_the_stream() {
    let first = three_draws();
    let second = three_draws();
    assert_eq!(first, second);
}

#[test]
fn draws_match_one_continuous_generator() {
    let mut rng = ChaCha8Rng::seed_from_u64(123);
    let expected: Vec<u32> = (0..3).map(|_| rng.gen::<u32>()).collect();
    assert_eq!(three_draws(), expected);
}

#[test]
fn ranged_draws_match_one_continuous_generator() {
    let mut rng = ChaCha8Rng::seed_from_u64(77);
    let expected: Vec<u32> = (0..20).map(|_| rng.gen_range(0..1000u32)).collect();
    let mut st = SyscallState::new();
    let mut g = Machine::new();
    call(&mut st, &mut g, 40, &[2, 77]);
    let got: Vec<u32> = (0..20)
        .map(|_| {
            call(&mut st, &mut g, 42, &[2, 1000]);
            g.reg(A0_REG)
        })
        .collect();
    assert_eq!(got, expected);
}

#[test]
fn different_seeds_differ() {
    let mut st = SyscallState::new();
    let mut g = Machine::new();
    call(&mut st, &mut g, 40, &[1, 1]);
    call(&mut st, &mut g, 40, &[2, 2]);
    call(&mut st, &mut g, 41, &[1]);
    let a = g.reg(A0_REG);
    call(&mut st, &mut g, 41, &[2]);
    let b = g.reg(A0_REG);
    assert_ne!(a, b);
}
