//! The input channel: a FIFO of bytes that producers append to and the
//! current syscall consumes, with the readers that decide how much to take.
use std::collections::VecDeque;
use vstd::prelude::*;

verus! {

/// What a reader does with the next byte of the channel.
#[derive(Debug, Clone, Copy, PartialEq, Eq, Structural)]
pub enum Consumption {
    /// Take the byte and ask for the next one.
    ConsumeAndContinue,
    /// Take the byte and stop.
    ConsumeAndStop,
    /// Leave the byte in the channel and stop.
    IgnoreAndStop,
}

/// Unbounded FIFO of input bytes.
pub struct ByteChannel {
    bytes: VecDeque<u8>,
}

impl View for ByteChannel {
    type V = Seq<u8>;

    closed spec fn view(&self) -> Seq<u8> {
        self.bytes@
    }
}

/// Modulus of 32-bit register arithmetic.
pub open spec fn word_modulus() -> int {
    0x1_0000_0000
}

/// Whether `b`, read as a character, is white space.
pub open spec fn is_space(b: u8) -> bool {
    (9 <= b <= 13) || b == 32 || b == 0x85 || b == 0xA0
}

/// Whether `b` is an ASCII decimal digit.
pub open spec fn is_digit(b: u8) -> bool {
    48 <= b <= 57
}

/// The progress of an integer read: the sign once it is known, and the
/// value of the digits taken so far.
pub struct IntScan {
    pub positive: Option<bool>,
    pub value: nat,
}

/// One byte of an integer read: leading white space and at most one sign
/// are taken before the digits; the first byte that is not a digit after
/// that stops the read and stays in the channel.
pub open spec fn int_step(s: IntScan, b: u8) -> (IntScan, Consumption) {
    if s.positive is None && is_space(b) {
        (s, Consumption::ConsumeAndContinue)
    } else if s.positive is None && (b == 43 || b == 45) {
        (IntScan { positive: Some(b == 43), value: s.value }, Consumption::ConsumeAndContinue)
    } else {
        let positive = if s.positive is None {
            Some(true)
        } else {
            s.positive
        };
        if is_digit(b) {
            (
                IntScan { positive, value: s.value * 10 + (b - 48) as nat },
                Consumption::ConsumeAndContinue,
            )
        } else {
            (IntScan { positive, value: s.value }, Consumption::IgnoreAndStop)
        }
    }
}

/// The register value of a finished integer read: the signed value taken
/// modulo 2^32.
pub open spec fn int_result(s: IntScan) -> u32 {
    let signed: int = if s.positive == Some(false) {
        -(s.value as int)
    } else {
        s.value as int
    };
    (signed % word_modulus()) as u32
}

/// The progress of a line read: the bytes taken and how many may be taken.
pub struct LineScan {
    pub data: Seq<u8>,
    pub limit: nat,
}

/// One byte of a line read: a newline is taken and ends the read; once
/// `limit` bytes are held the read ends and the byte stays in the channel.
pub open spec fn line_step(s: LineScan, b: u8) -> (LineScan, Consumption) {
    if s.data.len() >= s.limit {
        (s, Consumption::IgnoreAndStop)
    } else if b == 10 {
        (s, Consumption::ConsumeAndStop)
    } else {
        (LineScan { data: s.data.push(b), limit: s.limit }, Consumption::ConsumeAndContinue)
    }
}

/// Feeding `input` to an integer read from `s`: the state reached, how many
/// bytes were taken, and whether the read stopped before the input ran out.
pub open spec fn int_run(s: IntScan, input: Seq<u8>) -> (IntScan, nat, bool)
    decreases input.len(),
{
    if input.len() == 0 {
        (s, 0, false)
    } else {
        let (t, c) = int_step(s, input[0]);
        match c {
            Consumption::ConsumeAndContinue => {
                let (u, n, stopped) = int_run(t, input.drop_first());
                (u, n + 1, stopped)
            },
            Consumption::ConsumeAndStop => (t, 1, true),
            Consumption::IgnoreAndStop => (t, 0, true),
        }
    }
}

/// Feeding `input` to a line read from `s`, as `int_run` does for integers.
pub open spec fn line_run(s: LineScan, input: Seq<u8>) -> (LineScan, nat, bool)
    decreases input.len(),
{
    if input.len() == 0 {
        (s, 0, false)
    } else {
        let (t, c) = line_step(s, input[0]);
        match c {
            Consumption::ConsumeAndContinue => {
                let (u, n, stopped) = line_run(t, input.drop_first());
                (u, n + 1, stopped)
            },
            Consumption::ConsumeAndStop => (t, 1, true),
            Consumption::IgnoreAndStop => (t, 0, true),
        }
    }
}

/// An integer read in progress, which survives while the syscall waits for input.
pub struct IntReader {
    positive: Option<bool>,
    value: u32,
    exact: Ghost<nat>,
}

impl View for IntReader {
    type V = IntScan;

    closed spec fn view(&self) -> IntScan {
        IntScan { positive: self.positive, value: self.exact@ }
    }
}

impl IntReader {
    /// The held value is the exact value modulo 2^32.
    pub closed spec fn wf(&self) -> bool {
        self.value as int == self.exact@ as int % word_modulus()
    }

    /// A read that has taken nothing.
    pub fn new() -> (r: IntReader)
        ensures
            r.wf(),
            r@ == (IntScan { positive: None, value: 0 }),
    {
        IntReader { positive: None, value: 0, exact: Ghost(0) }
    }

    /// Decides on the next byte.
    pub fn feed(&mut self, b: u8) -> (c: Consumption)
        requires
            old(self).wf(),
        ensures
            final(self).wf(),
            (final(self)@, c) == int_step(old(self)@, b),
    {
        if self.positive.is_none() && ((9 <= b && b <= 13) || b == 32 || b == 0x85 || b == 0xA0) {
            return Consumption::ConsumeAndContinue;
        }
        if self.positive.is_none() && (b == 43 || b == 45) {
            self.positive = Some(b == 43);
            return Consumption::ConsumeAndContinue;
        }
        if self.positive.is_none() {
            self.positive = Some(true);
        }
        if 48 <= b && b <= 57 {
            let d = (b - 48) as u32;
            let ghost e = self.exact@;
            let next = ((self.value as u64 * 10 + d as u64) % 0x1_0000_0000) as u32;
            proof {
                let m = word_modulus();
                let x = e as int;
                assert((self.value as int * 10 + d) % m == (x * 10 + d) % m) by (nonlinear_arith)
                    requires
                        self.value as int == x % m,
                        m > 0,
                        x >= 0,
                {
                    vstd::arithmetic::div_mod::lemma_mul_mod_noop_left(x, 10, m);
                    vstd::arithmetic::div_mod::lemma_add_mod_noop(x * 10, d as int, m);
                    vstd::arithmetic::div_mod::lemma_add_mod_noop((x % m) * 10, d as int, m);
                };
            }
            self.value = next;
            self.exact = Ghost(e * 10 + d as nat);
            Consumption::ConsumeAndContinue
        } else {
            Consumption::IgnoreAndStop
        }
    }

    /// The register value of the read once it has stopped.
    pub fn result(&self) -> (r: u32)
        requires
            self.wf(),
        ensures
            r == int_result(self@),
    {
        if self.positive == Some(false) {
            proof {
                let m = word_modulus();
                let x = self.exact@ as int;
                vstd::arithmetic::div_mod::lemma_mod_bound(x, m);
                if self.value == 0 {
                    vstd::arithmetic::div_mod::lemma_mod_sub_multiples_vanish(-x, m);
                    assert((-x) % m == 0) by {
                        vstd::arithmetic::div_mod::lemma_mod_multiples_vanish(x / m, 0, m);
                        vstd::arithmetic::div_mod::lemma_fundamental_div_mod(x, m);
                        vstd::arithmetic::div_mod::lemma_mod_multiples_basic(-(x / m), m);
                    };
                } else {
                    vstd::arithmetic::div_mod::lemma_fundamental_div_mod(x, m);
                    let q = x / m;
                    let rem = x % m;
                    assert(-x == (m - rem) + m * (-q - 1)) by (nonlinear_arith)
                        requires
                            x == m * q + rem,
                    ;
                    vstd::arithmetic::div_mod::lemma_mod_multiples_vanish(-(x / m) - 1, m - x % m, m);
                    vstd::arithmetic::div_mod::lemma_small_mod((m - x % m) as nat, m as nat);
                }
            }
            if self.value == 0 {
                0
            } else {
                u32::MAX - self.value + 1
            }
        } else {
            proof {
                vstd::arithmetic::div_mod::lemma_mod_bound(self.exact@ as int, word_modulus());
            }
            self.value
        }
    }
}

/// A line read in progress.
pub struct LineReader {
    data: Vec<u8>,
    limit: usize,
}

impl View for LineReader {
    type V = LineScan;

    closed spec fn view(&self) -> LineScan {
        LineScan { data: self.data@, limit: self.limit as nat }
    }
}

impl LineReader {
    /// A read that may take up to `limit` bytes and has taken none.
    pub fn new(limit: usize) -> (r: LineReader)
        ensures
            r@ == (LineScan { data: Seq::empty(), limit: limit as nat }),
    {
        LineReader { data: Vec::new(), limit }
    }

    /// Decides on the next byte.
    pub fn feed(&mut self, b: u8) -> (c: Consumption)
        ensures
            (final(self)@, c) == line_step(old(self)@, b),
    {
        if self.data.len() >= self.limit {
            Consumption::IgnoreAndStop
        } else if b == 10 {
            Consumption::ConsumeAndStop
        } else {
            self.data.push(b);
            Consumption::ConsumeAndContinue
        }
    }

    /// The bytes taken.
    pub fn into_data(self) -> (r: Vec<u8>)
        ensures
            r@ == self@.data,
    {
        self.data
    }
}

impl ByteChannel {
    /// An empty channel.
    pub fn new() -> (r: ByteChannel)
        ensures
            r@ == Seq::<u8>::empty(),
    {
        ByteChannel { bytes: VecDeque::new() }
    }

    /// Number of bytes waiting.
    pub fn len(&self) -> (r: usize)
        ensures
            r == self@.len(),
    {
        self.bytes.len()
    }

    /// Appends `data` after the bytes already waiting.
    pub fn post(&mut self, data: &[u8])
        ensures
            final(self)@ == old(self)@ + data@,
    {
        let mut i: usize = 0;
        while i < data.len()
            invariant
                i <= data@.len(),
                self@ == old(self)@ + data@.subrange(0, i as int),
            decreases data@.len() - i,
        {
            self.bytes.push_back(data[i]);
            assert(data@.subrange(0, i + 1) == data@.subrange(0, i as int).push(data@[i as int]));
            i = i + 1;
        }
        assert(data@.subrange(0, data@.len() as int) == data@);
    }

    /// Takes up to `n` bytes from the front; fewer when fewer are waiting.
    pub fn read(&mut self, n: usize) -> (r: Vec<u8>)
        ensures
            r@.len() == if n < old(self)@.len() {
                n as nat
            } else {
                old(self)@.len()
            },
            r@ == old(self)@.take(r@.len() as int),
            final(self)@ == old(self)@.skip(r@.len() as int),
    {
        let mut out: Vec<u8> = Vec::new();
        while out.len() < n && self.bytes.len() > 0
            invariant
                out@.len() <= n,
                out@.len() <= old(self)@.len(),
                out@ == old(self)@.take(out@.len() as int),
                self@ == old(self)@.skip(out@.len() as int),
            decreases old(self)@.len() - out@.len(),
        {
            let b = self.bytes.pop_front();
            match b {
                Some(x) => {
                    out.push(x);
                },
                None => {},
            }
            assert(old(self)@.take(out@.len() as int) == old(self)@.take(out@.len() - 1).push(
                old(self)@[out@.len() - 1],
            ));
        }
        out
    }

    /// Feeds waiting bytes to an integer read until it stops or the
    /// channel runs dry; returns whether it stopped.
    pub fn read_int_until(&mut self, reader: &mut IntReader) -> (stopped: bool)
        requires
            old(reader).wf(),
        ensures
            final(reader).wf(),
            final(reader)@ == int_run(old(reader)@, old(self)@).0,
            stopped == int_run(old(reader)@, old(self)@).2,
            int_run(old(reader)@, old(self)@).1 <= old(self)@.len(),
            final(self)@ == old(self)@.skip(int_run(old(reader)@, old(self)@).1 as int),
    {
        let ghost start = reader@;
        let ghost input = self@;
        let ghost mut taken: nat = 0;
        loop
            invariant
                reader.wf(),
                start == old(reader)@,
                input == old(self)@,
                taken <= input.len(),
                self@ == input.skip(taken as int),
                ({
                    let (s, n, st) = int_run(start, input);
                    let (s2, n2, st2) = int_run(reader@, self@);
                    s == s2 && n == taken + n2 && st == st2
                }),
            decreases self@.len(),
        {
            if self.bytes.len() == 0 {
                assert(int_run(reader@, self@) == (reader@, 0nat, false));
                return false;
            }
            let b = self.bytes[0];
            let ghost r0 = reader@;
            let ghost in0 = self@;
            let c = reader.feed(b);
            match c {
                Consumption::ConsumeAndContinue => {
                    self.bytes.pop_front();
                    proof {
                        taken = taken + 1;
                        assert(in0.drop_first() == self@);
                        let (u, n, st) = int_run(reader@, self@);
                        assert(int_run(r0, in0) == (u, n + 1, st));
                    }
                    assert(self@ == input.skip(taken as int));
                },
                Consumption::ConsumeAndStop => {
                    self.bytes.pop_front();
                    proof {
                        taken = taken + 1;
                        assert(int_run(r0, in0) == (reader@, 1nat, true));
                    }
                    assert(self@ == input.skip(taken as int));
                    return true;
                },
                Consumption::IgnoreAndStop => {
                    assert(int_run(r0, in0) == (reader@, 0nat, true));
                    return true;
                },
            }
        }
    }

    /// Feeds waiting bytes to a line read until it stops or the channel
    /// runs dry; returns whether it stopped.
    pub fn read_line_until(&mut self, reader: &mut LineReader) -> (stopped: bool)
        ensures
            final(reader)@ == line_run(old(reader)@, old(self)@).0,
            stopped == line_run(old(reader)@, old(self)@).2,
            line_run(old(reader)@, old(self)@).1 <= old(self)@.len(),
            final(self)@ == old(self)@.skip(line_run(old(reader)@, old(self)@).1 as int),
    {
        let ghost start = reader@;
        let ghost input = self@;
        let ghost mut taken: nat = 0;
        loop
            invariant
                start == old(reader)@,
                input == old(self)@,
                taken <= input.len(),
                self@ == input.skip(taken as int),
                ({
                    let (s, n, st) = line_run(start, input);
                    let (s2, n2, st2) = line_run(reader@, self@);
                    s == s2 && n == taken + n2 && st == st2
                }),
            decreases self@.len(),
        {
            if self.bytes.len() == 0 {
                assert(line_run(reader@, self@) == (reader@, 0nat, false));
                return false;
            }
            let b = self.bytes[0];
            let ghost r0 = reader@;
            let ghost in0 = self@;
            let c = reader.feed(b);
            match c {
                Consumption::ConsumeAndContinue => {
                    self.bytes.pop_front();
                    proof {
                        taken = taken + 1;
                        assert(in0.drop_first() == self@);
                        let (u, n, st) = line_run(reader@, self@);
                        assert(line_run(r0, in0) == (u, n + 1, st));
                    }
                    assert(self@ == input.skip(taken as int));
                },
                Consumption::ConsumeAndStop => {
                    self.bytes.pop_front();
                    proof {
                        taken = taken + 1;
                        assert(line_run(r0, in0) == (reader@, 1nat, true));
                    }
                    assert(self@ == input.skip(taken as int));
                    return true;
                },
                Consumption::IgnoreAndStop => {
                    assert(line_run(r0, in0) == (reader@, 0nat, true));
                    return true;
                },
            }
        }
    }
}

/// A line read takes a prefix of the input: what it holds is what it held
/// before followed by the next input bytes, none of them a newline, and at
/// most `limit` bytes in all. It stops at the limit, leaving the next byte,
/// or on a newline, taking it; otherwise it took all the input.
pub proof fn line_read_takes_prefix(scan: LineScan, input: Seq<u8>)
    requires
        scan.data.len() <= scan.limit,
    ensures
        ({
            let (sc, n, stopped) = line_run(scan, input);
            let k = sc.data.len() - scan.data.len();
            &&& 0 <= k <= input.len()
            &&& sc.data == scan.data + input.take(k)
            &&& sc.limit == scan.limit
            &&& sc.data.len() <= scan.limit
            &&& forall|i: int| 0 <= i < k ==> input[i] != 10
            &&& stopped ==> (sc.data.len() == scan.limit && n == k) || (k < input.len() && n == k
                + 1 && input[k] == 10)
            &&& !stopped ==> n == input.len() && k == input.len()
        }),
    decreases input.len(),
{
    if input.len() == 0 {
        assert(scan.data + input.take(0) =~= scan.data);
    } else {
        let (t, c) = line_step(scan, input[0]);
        if c == Consumption::ConsumeAndContinue {
            line_read_takes_prefix(t, input.drop_first());
            let (sc, n, stopped) = line_run(t, input.drop_first());
            let k = sc.data.len() - scan.data.len();
            assert(t.data == scan.data.push(input[0]));
            assert(sc.data == t.data + input.drop_first().take(k - 1));
            assert(scan.data + input.take(k) =~= t.data + input.drop_first().take(k - 1));
            assert forall|i: int| 0 <= i < k implies input[i] != 10 by {
                if i > 0 {
                    assert(input[i] == input.drop_first()[i - 1]);
                }
            }
        } else {
            assert(scan.data + input.take(0) =~= scan.data);
        }
    }
}

} // verus!
