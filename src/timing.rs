//! The bit-timing program that runs on the programmable I/O co-processor, described by
//! the wire level and cycle count of each of its instructions, and the pulse train it
//! produces from a frame of transport words.
use vstd::prelude::*;
use crate::encoder::{frame_words, group_word, word_value};

verus! {

/// Target high time of a zero symbol, in nanoseconds.
pub const ZERO_HIGH_NS: u64 = 350;

/// Target high time of a one symbol, in nanoseconds.
pub const ONE_HIGH_NS: u64 = 900;

/// Target length of a whole symbol, in nanoseconds.
pub const SYMBOL_NS: u64 = 1250;

/// Allowed deviation from each target, in nanoseconds.
pub const TOLERANCE_NS: u64 = 150;

/// System clock of the target board, in hertz.
pub const SYS_CLOCK_HZ: u32 = 125_000_000;

/// Integer part of the co-processor's clock divisor.
pub const CLOCK_DIV_INT: u16 = 15;

/// Fractional part of the co-processor's clock divisor, in 256ths.
pub const CLOCK_DIV_FRAC: u8 = 160;

/// One instruction of the bit-timing program: the level it drives on the wire, and its
/// delay annotation, the cycles it waits after its own.
#[derive(Debug, Clone, Copy, PartialEq, Eq, Structural)]
pub struct Slot {
    pub high: bool,
    pub delay: u8,
}

/// The bit-timing program, by the part each instruction plays in a symbol. It loops
/// through three states: `load` shifts the next bit out of the current word (load-bit),
/// `branch` tests it and raises the line (branch-on-bit), then `one` keeps the line high
/// or `zero` drops it (continue), and the program wraps to `load`.
#[derive(Debug, Clone, Copy, PartialEq, Eq, Structural)]
pub struct BitProgram {
    pub load: Slot,
    pub branch: Slot,
    pub one: Slot,
    pub zero: Slot,
}

/// The cycles one instruction takes.
pub open spec fn slot_cycles(s: Slot) -> nat {
    s.delay as nat + 1
}

/// The instruction that finishes the symbol for `bit`.
pub open spec fn tail(p: BitProgram, bit: bool) -> Slot {
    if bit {
        p.one
    } else {
        p.zero
    }
}

/// The cycles of `s` spent at the given level.
pub open spec fn level_cycles(s: Slot, high: bool) -> nat {
    if s.high == high {
        slot_cycles(s)
    } else {
        0
    }
}

/// Cycles at the given level in the symbol for `bit`: from the branch that raises the
/// line through the load of the following bit.
pub open spec fn phase_cycles(p: BitProgram, bit: bool, high: bool) -> nat {
    level_cycles(p.branch, high) + level_cycles(tail(p, bit), high) + level_cycles(p.load, high)
}

/// Cycles of the whole symbol for `bit`.
pub open spec fn symbol_cycles(p: BitProgram, bit: bool) -> nat {
    slot_cycles(p.branch) + slot_cycles(tail(p, bit)) + slot_cycles(p.load)
}

/// Every symbol is one high phase followed by one low phase: the branch raises the line,
/// a one keeps it high, a zero drops it, and the load of the next bit holds it low.
/// The co-processor stalls at the load when its queue is empty, so with this shape a
/// stall between symbols lengthens a low phase and never a high one.
pub open spec fn is_pulse_shaped(p: BitProgram) -> bool {
    p.branch.high && p.one.high && !p.zero.high && !p.load.high
}

/// The protocol's timing discipline: both symbols fill the same slot, and a one is
/// high for longer than a zero.
pub open spec fn keeps_discipline(p: BitProgram) -> bool {
    &&& symbol_cycles(p, true) == symbol_cycles(p, false)
    &&& phase_cycles(p, true, true) > phase_cycles(p, false, true)
}

/// The program the driver installs:
/// `out x 1 side 0 [2]`, `jmp !x do_zero side 1 [1]`, `jmp bitloop side 1 [4]`, `nop side 0 [4]`.
pub open spec fn ws2812_program() -> BitProgram {
    BitProgram {
        load: Slot { high: false, delay: 2 },
        branch: Slot { high: true, delay: 1 },
        one: Slot { high: true, delay: 4 },
        zero: Slot { high: false, delay: 4 },
    }
}

/// The length of one co-processor cycle in picoseconds, for a system clock and a
/// divisor of `div_int + div_frac / 256`, rounded down.
pub open spec fn cycle_period_ps(sys_hz: u32, div_int: u16, div_frac: u8) -> int {
    (1_000_000_000_000 * (div_int * 256 + div_frac)) / (256 * sys_hz)
}

/// Whether a duration in picoseconds lies within the tolerance around a target in nanoseconds.
pub open spec fn within_tolerance(t_ps: int, target_ns: int) -> bool {
    (target_ns - TOLERANCE_NS) * 1000 <= t_ps <= (target_ns + TOLERANCE_NS) * 1000
}

/// Whether the program, run with the given cycle length, meets the device's timing window.
pub open spec fn meets_device_timing(p: BitProgram, period_ps: int) -> bool {
    &&& is_pulse_shaped(p)
    &&& within_tolerance(phase_cycles(p, false, true) * period_ps, ZERO_HIGH_NS as int)
    &&& within_tolerance(phase_cycles(p, true, true) * period_ps, ONE_HIGH_NS as int)
    &&& within_tolerance(symbol_cycles(p, false) * period_ps, SYMBOL_NS as int)
    &&& within_tolerance(symbol_cycles(p, true) * period_ps, SYMBOL_NS as int)
}

/// The bit of a transport word that goes out `i`-th: the co-processor shifts words out
/// to the left, so bit 31 goes first.
pub open spec fn word_bit(w: u32, i: int) -> bool {
    (w >> ((31 - i) as u32)) & 1u32 == 1u32
}

/// The bits of a frame in the order they reach the wire, thirty-two per word.
pub open spec fn frame_bits(words: Seq<u32>) -> Seq<bool> {
    Seq::new(words.len() * 32, |k: int| word_bit(words[k / 32], k % 32))
}

/// The bit of a byte that goes out `t`-th, most significant first.
pub open spec fn byte_bit(b: u8, t: int) -> bool {
    (b >> ((7 - t) as u8)) & 1u8 == 1u8
}

/// The bits of a color buffer in order, eight per byte, each byte from its most
/// significant bit.
pub open spec fn buffer_bits(buf: Seq<u8>) -> Seq<bool> {
    Seq::new(buf.len() * 8, |k: int| byte_bit(buf[k / 8], k % 8))
}

proof fn lemma_word_bit_is_byte_bit(b0: u8, b1: u8, b2: u8, b3: u8, j: u32)
    requires
        j < 32,
    ensures
        word_bit(word_value(b0, b1, b2, b3) as u32, j as int) == byte_bit(
            if j < 8 { b0 } else if j < 16 { b1 } else if j < 24 { b2 } else { b3 },
            (j % 8) as int,
        ),
{
    let w = word_value(b0, b1, b2, b3) as u32;
    assert(w == ((b0 as u32) << 24u32) | ((b1 as u32) << 16u32) | ((b2 as u32) << 8u32) | (b3 as u32)) by (bit_vector)
        requires w == b0 * 0x100_0000 + b1 * 0x1_0000 + b2 * 0x100 + b3;
    let b = if j < 8 { b0 } else if j < 16 { b1 } else if j < 24 { b2 } else { b3 };
    assert(((w >> ((31 - j) as u32)) & 1u32 == 1u32) == ((b >> ((7 - j % 8) as u8)) & 1u8 == 1u8)) by (bit_vector)
        requires
            w == ((b0 as u32) << 24u32) | ((b1 as u32) << 16u32) | ((b2 as u32) << 8u32) | (b3 as u32),
            j < 32,
            b == if j < 8 { b0 } else if j < 16 { b1 } else if j < 24 { b2 } else { b3 },
    ;
}

/// The bits that an encoded buffer puts on the wire are the buffer's own bytes, in buffer
/// order and each from its most significant bit: thirty-two symbols per word, eight per byte.
pub proof fn lemma_wire_bits_follow_buffer(buf: Seq<u8>)
    requires
        buf.len() % 4 == 0,
    ensures
        frame_bits(frame_words(buf)) == buffer_bits(buf),
{
    let words = frame_words(buf);
    assert(words.len() * 32 == buf.len() * 8);
    assert forall|k: int| 0 <= k < buf.len() * 8 implies #[trigger] frame_bits(words)[k] == buffer_bits(buf)[k] by {
        let i = k / 32;
        let j = k % 32;
        assert(k / 8 == 4 * i + j / 8 && k % 8 == j % 8 && 0 <= j < 32) by (nonlinear_arith)
            requires i == k / 32, j == k % 32, k >= 0;
        assert(0 <= i < words.len()) by (nonlinear_arith)
            requires i == k / 32, k >= 0, k < buf.len() * 8, words.len() * 32 == buf.len() * 8;
        assert(words[i] == group_word(buf, i));
        lemma_word_bit_is_byte_bit(buf[4 * i], buf[4 * i + 1], buf[4 * i + 2], buf[4 * i + 3], j as u32);
    }
    assert(frame_bits(words) =~= buffer_bits(buf));
}

/// One symbol on the wire, in co-processor cycles: the high phase, then the low phase.
#[derive(Debug, Clone, Copy, PartialEq, Eq, Structural)]
pub struct Pulse {
    pub high_cycles: u32,
    pub low_cycles: u32,
}

/// The symbol that the program puts on the wire for `bit`.
pub open spec fn pulse_for(p: BitProgram, bit: bool) -> Pulse {
    Pulse {
        high_cycles: phase_cycles(p, bit, true) as u32,
        low_cycles: phase_cycles(p, bit, false) as u32,
    }
}

/// The length of one co-processor cycle in picoseconds, for a system clock in hertz and
/// a divisor of `div_int + div_frac / 256`, rounded down.
pub fn cycle_period(sys_hz: u32, div_int: u16, div_frac: u8) -> (r: u64)
    requires
        sys_hz > 0,
    ensures
        r == cycle_period_ps(sys_hz, div_int, div_frac),
{
    let div: u64 = div_int as u64 * 256 + div_frac as u64;
    assert(div <= 16_777_215);
    assert(1_000_000_000_000 * div <= 16_777_215_000_000_000_000) by (nonlinear_arith)
        requires
            div <= 16_777_215,
    ;
    let num: u64 = 1_000_000_000_000u64 * div;
    let den: u64 = 256 * sys_hz as u64;
    num / den
}

/// Whether `t_ps` picoseconds lie within the tolerance around `target_ns` nanoseconds.
fn within_tolerance_exec(t_ps: u128, target_ns: u64) -> (r: bool)
    requires
        target_ns >= TOLERANCE_NS,
        target_ns <= 1_000_000,
    ensures
        r == within_tolerance(t_ps as int, target_ns as int),
{
    let lo: u128 = (target_ns - TOLERANCE_NS) as u128 * 1000;
    let hi: u128 = (target_ns + TOLERANCE_NS) as u128 * 1000;
    lo <= t_ps && t_ps <= hi
}

/// `cycles` co-processor cycles of `period_ps` picoseconds each, in picoseconds.
fn cycles_ps(cycles: u32, period_ps: u64) -> (r: u128)
    ensures
        r == cycles * period_ps,
{
    assert(cycles * period_ps <= 0xffff_ffff * 0xffff_ffff_ffff_ffff) by (nonlinear_arith);
    cycles as u128 * period_ps as u128
}

/// Both symbols of the installed program last equally long and a one stays high longer
/// than a zero, whatever the length `t` of one cycle; and every symbol is one high phase
/// followed by one low phase.
pub proof fn lemma_ws2812_symbol_timing(t: int)
    requires
        t > 0,
    ensures
        is_pulse_shaped(ws2812_program()),
        t * symbol_cycles(ws2812_program(), true) == t * symbol_cycles(ws2812_program(), false),
        t * phase_cycles(ws2812_program(), true, true) > t * phase_cycles(ws2812_program(), false, true),
{
    let p = ws2812_program();
    assert(symbol_cycles(p, true) == 10 && symbol_cycles(p, false) == 10);
    assert(phase_cycles(p, true, true) == 7 && phase_cycles(p, false, true) == 2);
    assert(t * 7 > t * 2) by (nonlinear_arith)
        requires
            t > 0,
    ;
}

/// With the board's clock and divisor one cycle lasts 125 ns, and the installed program then
/// keeps both high times and the symbol length within the device's tolerance.
pub proof fn lemma_ws2812_meets_device_timing()
    ensures
        cycle_period_ps(SYS_CLOCK_HZ, CLOCK_DIV_INT, CLOCK_DIV_FRAC) == 125_000,
        meets_device_timing(ws2812_program(), 125_000),
{
    assert(1_000_000_000_000int * (15 * 256 + 160) == 4_000_000_000_000_000int);
    assert(256 * 125_000_000int == 32_000_000_000int);
    assert(4_000_000_000_000_000int / 32_000_000_000int == 125_000) by (nonlinear_arith);
}

/// In every symbol the high and the low phase together fill the whole symbol.
pub proof fn lemma_phases_fill_symbol(p: BitProgram, bit: bool)
    ensures
        phase_cycles(p, bit, true) + phase_cycles(p, bit, false) == symbol_cycles(p, bit),
{
}

impl Slot {
    /// The cycles this instruction takes.
    pub fn cycles(&self) -> (r: u32)
        ensures
            r == slot_cycles(*self),
    {
        self.delay as u32 + 1
    }

    /// The cycles of this instruction spent at the given level.
    pub fn cycles_at(&self, high: bool) -> (r: u32)
        ensures
            r == level_cycles(*self, high),
    {
        if self.high == high {
            self.cycles()
        } else {
            0
        }
    }
}

impl BitProgram {
    /// The program the driver installs.
    pub fn ws2812() -> (p: BitProgram)
        ensures
            p == ws2812_program(),
            keeps_discipline(p),
            is_pulse_shaped(p),
    {
        BitProgram {
            load: Slot { high: false, delay: 2 },
            branch: Slot { high: true, delay: 1 },
            one: Slot { high: true, delay: 4 },
            zero: Slot { high: false, delay: 4 },
        }
    }

    /// The instruction that finishes the symbol for `bit`.
    pub fn tail(&self, bit: bool) -> (s: Slot)
        ensures
            s == tail(*self, bit),
    {
        if bit {
            self.one
        } else {
            self.zero
        }
    }

    /// Cycles at the given level in the symbol for `bit`.
    pub fn phase_cycles(&self, bit: bool, high: bool) -> (r: u32)
        ensures
            r == phase_cycles(*self, bit, high),
    {
        self.branch.cycles_at(high) + self.tail(bit).cycles_at(high) + self.load.cycles_at(high)
    }

    /// Cycles of the whole symbol for `bit`.
    pub fn symbol_cycles(&self, bit: bool) -> (r: u32)
        ensures
            r == symbol_cycles(*self, bit),
    {
        self.branch.cycles() + self.tail(bit).cycles() + self.load.cycles()
    }

    /// Whether every symbol is one high phase followed by one low phase.
    pub fn is_pulse_shaped(&self) -> (r: bool)
        ensures
            r == is_pulse_shaped(*self),
    {
        self.branch.high && self.one.high && !self.zero.high && !self.load.high
    }

    /// Whether both symbols last equally long and a one stays high longer than a zero.
    pub fn keeps_discipline(&self) -> (r: bool)
        ensures
            r == keeps_discipline(*self),
    {
        self.symbol_cycles(true) == self.symbol_cycles(false) && self.phase_cycles(true, true)
            > self.phase_cycles(false, true)
    }

    /// Whether the program, run with cycles of `period_ps` picoseconds, keeps the high
    /// time of each symbol and the length of both within the device's tolerance.
    pub fn meets_device_timing(&self, period_ps: u64) -> (r: bool)
        ensures
            r == meets_device_timing(*self, period_ps as int),
    {
        self.is_pulse_shaped()
            && within_tolerance_exec(cycles_ps(self.phase_cycles(false, true), period_ps), ZERO_HIGH_NS)
            && within_tolerance_exec(cycles_ps(self.phase_cycles(true, true), period_ps), ONE_HIGH_NS)
            && within_tolerance_exec(cycles_ps(self.symbol_cycles(false), period_ps), SYMBOL_NS)
            && within_tolerance_exec(cycles_ps(self.symbol_cycles(true), period_ps), SYMBOL_NS)
    }

    /// The symbol this program puts on the wire for `bit`.
    pub fn pulse(&self, bit: bool) -> (r: Pulse)
        ensures
            r == pulse_for(*self, bit),
    {
        Pulse { high_cycles: self.phase_cycles(bit, true), low_cycles: self.phase_cycles(bit, false) }
    }

    /// The pulse train this program puts on the wire for a frame: one symbol per bit,
    /// thirty-two per word, words in order and each word's bits from the most significant.
    pub fn frame_pulses(&self, words: &[u32]) -> (r: Vec<Pulse>)
        requires
            words@.len() * 32 <= usize::MAX,
        ensures
            r@.len() == words@.len() * 32,
            forall|k: int| 0 <= k < r@.len() ==> #[trigger] r@[k] == pulse_for(*self, frame_bits(words@)[k]),
    {
        let mut out: Vec<Pulse> = Vec::with_capacity(words.len() * 32);
        let mut i: usize = 0;
        while i < words.len()
            invariant
                i <= words@.len(),
                words@.len() * 32 <= usize::MAX,
                out@.len() == i * 32,
                forall|k: int| 0 <= k < out@.len() ==> #[trigger] out@[k] == pulse_for(*self, frame_bits(words@)[k]),
            decreases words@.len() - i,
        {
            let w = words[i];
            let mut j: u32 = 0;
            while j < 32
                invariant
                    i < words@.len(),
                    w == words@[i as int],
                    j <= 32,
                    out@.len() == i * 32 + j,
                    forall|k: int| 0 <= k < out@.len() ==> #[trigger] out@[k] == pulse_for(*self, frame_bits(words@)[k]),
                decreases 32 - j,
            {
                let bit = (w >> (31 - j)) & 1u32 == 1u32;
                proof {
                    let k = i * 32 + j;
                    assert(k / 32 == i && k % 32 == j) by (nonlinear_arith)
                        requires k == i * 32 + j, j < 32;
                    assert(k < words@.len() * 32) by (nonlinear_arith)
                        requires k == i * 32 + j, j < 32, i < words@.len();
                    assert(frame_bits(words@)[k] == bit);
                }
                out.push(self.pulse(bit));
                j += 1;
            }
            i += 1;
        }
        out
    }
}

} // verus!
