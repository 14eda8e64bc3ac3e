//! The diagnostic-sink wire protocol and target-decoding rules of the host
//! tool that loads the firmware and drains its log.
//!
//! The firmware publishes log bytes through a circular buffer with free-running
//! 32-bit read/write cursors: the readable amount is `write - read` (mod
//! 2^32), the region is drained in one pass — or in a split transfer when it
//! wraps past the buffer end — and the read cursor then advances by the
//! amount consumed. The stream itself interleaves plain UTF-8 text with
//! level markers, compressed-string references and embedded timestamps.

use vstd::prelude::*;
use vstd::string::StrSliceExecFns;

verus! {

/// A log level marker, referenced by the five reserved string-table
/// addresses.
#[derive(Clone, Copy, Debug, PartialEq, Eq, Structural)]
pub enum Level {
    /// Diagnostic chatter.
    Debug,
    /// A failure.
    Error,
    /// Progress information.
    Info,
    /// Fine-grained tracing.
    Trace,
    /// A suspicious condition.
    Warn,
}

/// Which level the given string-table address stands for, if any: the five
/// lowest addresses are reserved for the level markers.
pub open spec fn level_of(addr: u64) -> Option<Level> {
    if addr == 0 {
        Some(Level::Error)
    } else if addr == 1 {
        Some(Level::Warn)
    } else if addr == 2 {
        Some(Level::Info)
    } else if addr == 3 {
        Some(Level::Debug)
    } else if addr == 4 {
        Some(Level::Trace)
    } else {
        None
    }
}

impl Level {
    /// Decodes a level from its reserved string-table address.
    pub fn try_from(addr: u64) -> (r: Option<Level>)
        ensures
            r == level_of(addr),
    {
        if addr == 0 {
            Some(Level::Error)
        } else if addr == 1 {
            Some(Level::Warn)
        } else if addr == 2 {
            Some(Level::Info)
        } else if addr == 3 {
            Some(Level::Debug)
        } else if addr == 4 {
            Some(Level::Trace)
        } else {
            None
        }
    }

    /// The level's display label.
    pub fn label(&self) -> (r: &'static str)
        ensures
            *self is Debug ==> r@ == "DEBUG"@,
            *self is Error ==> r@ == "ERROR"@,
            *self is Info ==> r@ == "INFO"@,
            *self is Trace ==> r@ == "TRACE"@,
            *self is Warn ==> r@ == "WARN"@,
    {
        match self {
            Level::Debug => "DEBUG",
            Level::Error => "ERROR",
            Level::Info => "INFO",
            Level::Trace => "TRACE",
            Level::Warn => "WARN",
        }
    }
}

/// An embedded relative timestamp: free-running 32.768 kHz ticks.
#[derive(Clone, Copy, Debug, PartialEq, Eq, Structural)]
pub struct Timestamp(pub u32);

impl Timestamp {
    /// Splits the tick count into whole seconds and microseconds, the form in
    /// which the host prints it.
    pub fn split(&self) -> (r: (u32, u32))
        ensures
            r.0 == self.0 as int / 32768,
            r.1 == (self.0 as int % 32768) * 1000000 / 32768,
            r.1 < 1000000,
    {
        let secs = self.0 / 32768;
        let frac = self.0 % 32768;
        proof {
            assert((frac as int % 32768) * 1000000 / 32768 < 1000000 && frac as int % 32768
                == frac as int) by (nonlinear_arith)
                requires
                    0 <= frac < 32768,
            ;
        }
        let micros = ((frac as u64) * 1000000 / 32768) as u32;
        (secs, micros)
    }
}

/// ARM core part number, decoded from the CPUID register.
#[derive(Clone, Copy, Debug, PartialEq, Eq, Structural)]
pub enum Part {
    /// ARM Cortex-M0
    CortexM0,
    /// ARM Cortex-M0+
    CortexM0Plus,
    /// ARM Cortex-M3
    CortexM3,
    /// ARM Cortex-M4
    CortexM4,
    /// ARM Cortex-M7
    CortexM7,
    /// ARM Cortex-M23
    CortexM23,
    /// ARM Cortex-M33
    CortexM33,
    /// Unknown part
    Unknown,
}

/// The part named by a CPUID value: implementer 0x41 (ARM) with the ARMv6-M
/// or ARMv7-M architecture code, then by part number; anything else is
/// unknown.
pub open spec fn part_of(bits: u32) -> Part {
    let implementer = bits >> 24;
    let arch = (bits >> 16) & 0xf;
    let partno = (bits >> 4) & 0xfff;
    if implementer != 0x41 {
        Part::Unknown
    } else if arch == 0xc {
        if partno == 0xc20 {
            Part::CortexM0
        } else if partno == 0xc60 {
            Part::CortexM0Plus
        } else if partno == 0xd20 {
            Part::CortexM23
        } else {
            Part::Unknown
        }
    } else if arch == 0xf {
        if partno == 0xc23 {
            Part::CortexM3
        } else if partno == 0xc24 {
            Part::CortexM4
        } else if partno == 0xc27 {
            Part::CortexM7
        } else if partno == 0xd21 {
            Part::CortexM33
        } else {
            Part::Unknown
        }
    } else {
        Part::Unknown
    }
}

impl Part {
    /// Decodes the part from the CPUID register value.
    pub fn from(bits: u32) -> (r: Part)
        ensures
            r == part_of(bits),
    {
        let implementer: u32 = bits >> 24;
        let arch: u32 = (bits >> 16) & 0xf;
        let partno: u32 = (bits >> 4) & 0xfff;
        if implementer != 0x41 {
            Part::Unknown
        } else if arch == 0xc {
            if partno == 0xc20 {
                Part::CortexM0
            } else if partno == 0xc60 {
                Part::CortexM0Plus
            } else if partno == 0xd20 {
                Part::CortexM23
            } else {
                Part::Unknown
            }
        } else if arch == 0xf {
            if partno == 0xc23 {
                Part::CortexM3
            } else if partno == 0xc24 {
                Part::CortexM4
            } else if partno == 0xc27 {
                Part::CortexM7
            } else if partno == 0xd21 {
                Part::CortexM33
            } else {
                Part::Unknown
            }
        } else {
            Part::Unknown
        }
    }

    /// The part's display name.
    pub fn name(&self) -> (r: &'static str)
        ensures
            *self is CortexM0 ==> r@ == "ARM Cortex-M0"@,
            *self is CortexM0Plus ==> r@ == "ARM Cortex-M0+"@,
            *self is CortexM3 ==> r@ == "ARM Cortex-M3"@,
            *self is CortexM4 ==> r@ == "ARM Cortex-M4"@,
            *self is CortexM7 ==> r@ == "ARM Cortex-M7"@,
            *self is CortexM23 ==> r@ == "ARM Cortex-M23"@,
            *self is CortexM33 ==> r@ == "ARM Cortex-M33"@,
            *self is Unknown ==> r@ == "unknown part"@,
    {
        match self {
            Part::CortexM0 => "ARM Cortex-M0",
            Part::CortexM0Plus => "ARM Cortex-M0+",
            Part::CortexM3 => "ARM Cortex-M3",
            Part::CortexM4 => "ARM Cortex-M4",
            Part::CortexM7 => "ARM Cortex-M7",
            Part::CortexM23 => "ARM Cortex-M23",
            Part::CortexM33 => "ARM Cortex-M33",
            Part::Unknown => "unknown part",
        }
    }
}

/// True when `c` is a hexadecimal digit.
pub open spec fn is_hex_digit(c: char) -> bool {
    ('0' <= c && c <= '9') || ('a' <= c && c <= 'f') || ('A' <= c && c <= 'F')
}

/// The value of one hexadecimal digit.
pub open spec fn hex_val(c: char) -> int {
    if '0' <= c && c <= '9' {
        c as int - '0' as int
    } else if 'a' <= c && c <= 'f' {
        c as int - 'a' as int + 10
    } else {
        c as int - 'A' as int + 10
    }
}

/// The number written by a sequence of hexadecimal digits.
pub open spec fn hex_value(s: Seq<char>) -> int
    decreases s.len(),
{
    if s.len() == 0 {
        0
    } else {
        hex_value(s.drop_last()) * 16 + hex_val(s.last())
    }
}

/// The digits of a hexadecimal number string, after the optional leading
/// plus sign.
pub open spec fn hex_body(s: Seq<char>) -> Seq<char> {
    if s.len() > 0 && s[0] == '+' {
        s.skip(1)
    } else {
        s
    }
}

/// True when `s` is a well-formed hexadecimal number that fits in 16 bits:
/// an optional leading plus sign, then at least one hexadecimal digit,
/// writing a value of at most 0xffff.
pub open spec fn valid_hex_u16(s: Seq<char>) -> bool {
    &&& hex_body(s).len() >= 1
    &&& (forall|i: int| 0 <= i < hex_body(s).len() ==> is_hex_digit(#[trigger] hex_body(s)[i]))
    &&& hex_value(hex_body(s)) <= 0xffff
}

/// Appending digits never shrinks the written value.
proof fn lemma_hex_value_grows(s: Seq<char>, i: int)
    requires
        0 <= i <= s.len(),
        forall|j: int| 0 <= j < s.len() ==> is_hex_digit(#[trigger] s[j]),
    ensures
        hex_value(s) >= hex_value(s.take(i)),
        hex_value(s) >= 0,
    decreases s.len() - i,
{
    if i == s.len() {
        assert(s.take(i) =~= s);
        lemma_hex_value_nonneg(s);
    } else {
        lemma_hex_value_grows(s, i + 1);
        assert(s.take(i + 1).drop_last() =~= s.take(i));
        lemma_hex_value_nonneg(s.take(i));
    }
}

/// The value written by hexadecimal digits is never negative.
proof fn lemma_hex_value_nonneg(s: Seq<char>)
    requires
        forall|j: int| 0 <= j < s.len() ==> is_hex_digit(#[trigger] s[j]),
    ensures
        hex_value(s) >= 0,
    decreases s.len(),
{
    if s.len() > 0 {
        lemma_hex_value_nonneg(s.drop_last());
    }
}

/// Parses a 16-bit hexadecimal number, as the host tool parses its
/// vendor/product identifier arguments: `Some` exactly on well-formed inputs
/// whose value fits.
pub fn parse_hex(s: &str) -> (r: Option<u16>)
    ensures
        r is Some <==> valid_hex_u16(s@),
        (r matches Some(v) ==> v as int == hex_value(hex_body(s@))),
{
    let n: usize = s.unicode_len();
    let mut i: usize = 0;
    if n > 0 && s.get_char(0) == '+' {
        i = 1;
    }
    let ghost body = hex_body(s@);
    proof {
        assert(body =~= s@.skip(i as int));
    }
    if i >= n {
        return None;
    }
    let start = i;
    let mut value: u32 = 0;
    while i < n
        invariant
            start <= i <= n,
            n == s@.len(),
            start == (if s@.len() > 0 && s@[0] == '+' {
                1int
            } else {
                0int
            }),
            body == hex_body(s@),
            body == s@.skip(start as int),
            value as int == hex_value(body.take(i - start)),
            value <= 0xffff,
            forall|j: int| 0 <= j < i - start ==> is_hex_digit(#[trigger] body[j]),
        decreases n - i,
    {
        let c = s.get_char(i);
        let d: u32;
        if c >= '0' && c <= '9' {
            d = c as u32 - '0' as u32;
        } else if c >= 'a' && c <= 'f' {
            d = c as u32 - 'a' as u32 + 10;
        } else if c >= 'A' && c <= 'F' {
            d = c as u32 - 'A' as u32 + 10;
        } else {
            proof {
                assert(!is_hex_digit(body[i - start]));
            }
            return None;
        }
        proof {
            assert(body[i - start] == s@[i as int]);
            assert(is_hex_digit(body[i - start]));
            assert(hex_val(body[i - start]) == d as int);
            assert(body.take(i - start + 1).drop_last() =~= body.take(i - start));
            assert(body.take(i - start + 1).last() == body[i - start]);
        }
        value = value * 16 + d;
        i = i + 1;
        proof {
            assert(value as int == hex_value(body.take(i - start)));
        }
        if value > 0xffff {
            proof {
                if forall|j: int| 0 <= j < body.len() ==> is_hex_digit(#[trigger] body[j]) {
                    lemma_hex_value_grows(body, i - start);
                    assert(hex_value(body) > 0xffff);
                }
                assert(!valid_hex_u16(s@));
            }
            return None;
        }
    }
    proof {
        assert(body.take(n - start) =~= body);
    }
    Some(value as u16)
}

/// How many bytes are readable in the circular log buffer: the write cursor
/// minus the read cursor, modulo 2^32 (the cursors are free-running).
pub open spec fn available_of(read: u32, write: u32) -> int {
    if write >= read {
        write - read
    } else {
        write - read + 0x1_0000_0000
    }
}

/// The readable window of a circular buffer: `avail` bytes starting at
/// `cursor`, wrapping past the end of the buffer.
pub open spec fn ring_window(buf: Seq<u8>, cursor: int, avail: int) -> Seq<u8>
    recommends
        0 <= cursor < buf.len(),
        0 <= avail <= buf.len(),
{
    Seq::new(
        avail as nat,
        |i: int|
            if cursor + i < buf.len() {
                buf[cursor + i]
            } else {
                buf[cursor + i - buf.len()]
            },
    )
}

/// The host's plan for draining the circular log buffer: one read of
/// `first_len` bytes at `first_offset`, then — only when the readable region
/// wraps past the buffer end — a second read of `second_len` bytes from the
/// buffer start, after which the read cursor advances by the amount consumed.
#[derive(Clone, Copy, Debug, PartialEq, Eq, Structural)]
pub struct DrainPlan {
    /// How many bytes are readable.
    pub available: u32,
    /// Where the first read starts.
    pub first_offset: u32,
    /// How many bytes the first read covers.
    pub first_len: u32,
    /// How many bytes the second read covers (0 when nothing wraps).
    pub second_len: u32,
    /// The value to store back into the read cursor: it advances by
    /// `available`, which lands it exactly on the write cursor.
    pub new_read: u32,
}

/// The drain plan for cursors `read`/`write` over a buffer of `cap` bytes.
pub open spec fn spec_drain_plan(read: u32, write: u32, cap: u32) -> DrainPlan {
    let avail = available_of(read, write);
    let cursor = read as int % cap as int;
    let first_len = if cursor + avail > cap {
        cap - cursor
    } else {
        avail
    };
    DrainPlan {
        available: avail as u32,
        first_offset: cursor as u32,
        first_len: first_len as u32,
        second_len: (avail - first_len) as u32,
        new_read: write,
    }
}

/// Computes the drain plan. The device-side writer never lets more than one
/// buffer's worth of bytes accumulate, so the readable amount is at most the
/// capacity.
pub fn drain_plan(read: u32, write: u32, cap: u32) -> (r: DrainPlan)
    requires
        cap >= 1,
        available_of(read, write) <= cap,
    ensures
        r == spec_drain_plan(read, write, cap),
        r.new_read == write,
        r.first_len + r.second_len == r.available,
        r.first_offset + r.first_len <= cap,
        r.second_len <= r.first_offset,
{
    proof {
        vstd::arithmetic::div_mod::lemma_mod_bound(read as int, cap as int);
    }
    let available = write.wrapping_sub(read);
    let cursor = read % cap;
    if available > cap - cursor {
        DrainPlan {
            available,
            first_offset: cursor,
            first_len: cap - cursor,
            second_len: available - (cap - cursor),
            new_read: write,
        }
    } else {
        DrainPlan {
            available,
            first_offset: cursor,
            first_len: available,
            second_len: 0,
            new_read: write,
        }
    }
}

/// The drain plan reads exactly the readable window, in order: the bytes of
/// the first read followed by the bytes of the second are the `available`
/// bytes starting at the read cursor, wrapping past the buffer end.
pub proof fn lemma_drain_plan_covers_window(buf: Seq<u8>, read: u32, write: u32)
    requires
        1 <= buf.len() <= 0xffff_ffff,
        available_of(read, write) <= buf.len(),
    ensures
        ({
            let p = spec_drain_plan(read, write, buf.len() as u32);
            buf.subrange(p.first_offset as int, p.first_offset + p.first_len) + buf.subrange(
                0,
                p.second_len as int,
            ) == ring_window(buf, read as int % buf.len() as int, available_of(read, write))
        }),
{
    let cap = buf.len() as int;
    vstd::arithmetic::div_mod::lemma_mod_bound(read as int, cap);
    let p = spec_drain_plan(read, write, buf.len() as u32);
    let cursor = read as int % cap;
    let avail = available_of(read, write);
    assert(buf.subrange(p.first_offset as int, p.first_offset + p.first_len) + buf.subrange(
        0,
        p.second_len as int,
    ) =~= ring_window(buf, cursor, avail));
}

/// Drains the readable window out of an in-memory image of the circular
/// buffer: the bytes come out in stream order even when the region wraps.
pub fn drain_from_image(image: &Vec<u8>, read: u32, write: u32) -> (r: Vec<u8>)
    requires
        1 <= image@.len() <= 0xffff_ffff,
        available_of(read, write) <= image@.len(),
    ensures
        r@ == ring_window(
            image@,
            read as int % image@.len() as int,
            available_of(read, write),
        ),
{
    let cap: u32 = image.len() as u32;
    let plan = drain_plan(read, write, cap);
    let mut out: Vec<u8> = Vec::new();
    let first_end: usize = (plan.first_offset + plan.first_len) as usize;
    let mut i: usize = plan.first_offset as usize;
    while i < first_end
        invariant
            plan.first_offset <= i <= first_end,
            first_end == plan.first_offset + plan.first_len,
            first_end <= image@.len(),
            out@ == image@.subrange(plan.first_offset as int, i as int),
        decreases first_end - i,
    {
        out.push(image[i]);
        proof {
            assert(out@ =~= image@.subrange(plan.first_offset as int, i + 1));
        }
        i = i + 1;
    }
    let mut j: usize = 0;
    let second_end: usize = plan.second_len as usize;
    while j < second_end
        invariant
            j <= second_end,
            second_end <= image@.len(),
            out@ == image@.subrange(
                plan.first_offset as int,
                plan.first_offset + plan.first_len,
            ) + image@.subrange(0, j as int),
        decreases second_end - j,
    {
        out.push(image[j]);
        proof {
            assert(out@ =~= image@.subrange(
                plan.first_offset as int,
                plan.first_offset + plan.first_len,
            ) + image@.subrange(0, j + 1));
        }
        j = j + 1;
    }
    proof {
        lemma_drain_plan_covers_window(image@, read, write);
    }
    out
}

/// The system calls the firmware performs by halting on a breakpoint
/// instruction; the immediate value selects the call.
#[derive(Clone, Copy, Debug, PartialEq, Eq, Structural)]
pub enum Syscall {
    /// Abort: print a backtrace and exit with code 134.
    Abort,
    /// An unhandled exception: decode and report it.
    Exception,
    /// Exit with the status code held in register 0.
    Exit,
}

/// Which system call the halted instruction encodes, if any: BKPT 0xAA is
/// abort, BKPT 0xFF is exception, BKPT 0xAB is exit.
pub open spec fn syscall_of(insn: u16) -> Option<Syscall> {
    if insn == 0xbeaa {
        Some(Syscall::Abort)
    } else if insn == 0xbeff {
        Some(Syscall::Exception)
    } else if insn == 0xbeab {
        Some(Syscall::Exit)
    } else {
        None
    }
}

/// Decodes the system call from the instruction the target halted on.
pub fn decode_syscall(insn: u16) -> (r: Option<Syscall>)
    ensures
        r == syscall_of(insn),
{
    if insn == 0xbeaa {
        Some(Syscall::Abort)
    } else if insn == 0xbeff {
        Some(Syscall::Exception)
    } else if insn == 0xbeab {
        Some(Syscall::Exit)
    } else {
        None
    }
}

/// The registers the hardware pushes onto the stack on exception entry, in
/// stacking order.
#[derive(Clone, Copy, Debug, PartialEq, Eq, Structural)]
pub struct Stacked {
    /// Stacked R0.
    pub r0: u32,
    /// Stacked R1.
    pub r1: u32,
    /// Stacked R2.
    pub r2: u32,
    /// Stacked R3.
    pub r3: u32,
    /// Stacked R12.
    pub r12: u32,
    /// Stacked link register.
    pub lr: u32,
    /// Stacked program counter.
    pub pc: u32,
    /// Stacked program status register.
    pub xpsr: u32,
}

impl Stacked {
    /// Assembles the stacked register frame from the eight words read off the
    /// stack.
    pub fn from_words(words: &[u32]) -> (r: Stacked)
        requires
            words@.len() == 8,
        ensures
            r == (Stacked {
                r0: words@[0],
                r1: words@[1],
                r2: words@[2],
                r3: words@[3],
                r12: words@[4],
                lr: words@[5],
                pc: words@[6],
                xpsr: words@[7],
            }),
    {
        Stacked {
            r0: words[0],
            r1: words[1],
            r2: words[2],
            r3: words[3],
            r12: words[4],
            lr: words[5],
            pc: words[6],
            xpsr: words[7],
        }
    }

    /// Stack-overflow heuristic: on overflow the stacked copies were pushed
    /// into invalid memory and read back as zero, so they disagree with the
    /// live register values.
    pub fn differs_from(&self, r0: u32, r1: u32, r2: u32, r3: u32, r12: u32) -> (r: bool)
        ensures
            r == (self.r0 != r0 || self.r1 != r1 || self.r2 != r2 || self.r3 != r3 || self.r12
                != r12),
    {
        self.r0 != r0 || self.r1 != r1 || self.r2 != r2 || self.r3 != r3 || self.r12 != r12
    }
}

/// Which exception a VECTACTIVE value names.
#[allow(non_camel_case_types)]
#[derive(Clone, Copy, Debug, PartialEq, Eq, Structural)]
pub enum ExceptionKind {
    /// Non-maskable interrupt.
    NMI,
    /// Hard fault.
    HardFault,
    /// Memory management fault.
    MemManage,
    /// Bus fault.
    BusFault,
    /// Usage fault.
    UsageFault,
    /// Supervisor call.
    SVCall,
    /// Debug monitor.
    DebugMonitor,
    /// Pendable service call.
    PendSV,
    /// System tick.
    SysTick,
    /// An external interrupt, numbered from 0.
    Irq { number: u8 },
    /// A value outside the table.
    Unknown { vectactive: u8 },
}

/// The exception named by a VECTACTIVE value.
pub open spec fn exception_of(v: u8) -> ExceptionKind {
    if v == 2 {
        ExceptionKind::NMI
    } else if v == 3 {
        ExceptionKind::HardFault
    } else if v == 4 {
        ExceptionKind::MemManage
    } else if v == 5 {
        ExceptionKind::BusFault
    } else if v == 6 {
        ExceptionKind::UsageFault
    } else if v == 11 {
        ExceptionKind::SVCall
    } else if v == 12 {
        ExceptionKind::DebugMonitor
    } else if v == 14 {
        ExceptionKind::PendSV
    } else if v == 15 {
        ExceptionKind::SysTick
    } else if v > 16 {
        ExceptionKind::Irq { number: (v - 16) as u8 }
    } else {
        ExceptionKind::Unknown { vectactive: v }
    }
}

/// Decodes the active exception from the VECTACTIVE field of the interrupt
/// control and state register.
pub fn exception_kind(vectactive: u8) -> (r: ExceptionKind)
    ensures
        r == exception_of(vectactive),
{
    if vectactive == 2 {
        ExceptionKind::NMI
    } else if vectactive == 3 {
        ExceptionKind::HardFault
    } else if vectactive == 4 {
        ExceptionKind::MemManage
    } else if vectactive == 5 {
        ExceptionKind::BusFault
    } else if vectactive == 6 {
        ExceptionKind::UsageFault
    } else if vectactive == 11 {
        ExceptionKind::SVCall
    } else if vectactive == 12 {
        ExceptionKind::DebugMonitor
    } else if vectactive == 14 {
        ExceptionKind::PendSV
    } else if vectactive == 15 {
        ExceptionKind::SysTick
    } else if vectactive > 16 {
        ExceptionKind::Irq { number: vectactive - 16 }
    } else {
        ExceptionKind::Unknown { vectactive }
    }
}

/// Splits the combined CONTROL/FAULTMASK/BASEPRI/PRIMASK register into its
/// four bytes, highest first.
pub fn cfbp_split(cfbp: u32) -> (r: (u32, u32, u32, u32))
    ensures
        r.0 == cfbp >> 24,
        r.1 == (cfbp >> 16) & 0xff,
        r.2 == (cfbp >> 8) & 0xff,
        r.3 == cfbp & 0xff,
{
    (cfbp >> 24, (cfbp >> 16) & 0xff, (cfbp >> 8) & 0xff, cfbp & 0xff)
}

/// What the unwinder does after recovering one frame's link register.
#[derive(Clone, Copy, Debug, PartialEq, Eq, Structural)]
pub enum FrameStep {
    /// The link register holds its reset value: the end of the stack.
    Done,
    /// Neither the canonical frame address nor the link register moved: the
    /// stack is corrupted beyond this point.
    Corrupted,
    /// The link register holds an exception-return value: unwind through the
    /// stacked exception frame.
    ExceptionEntry,
    /// An ordinary return address without the Thumb bit: malformed.
    MissingThumbBit,
    /// Continue at the return address with the Thumb bit cleared.
    Next { pc: u32 },
}

/// The unwinder's decision for one frame, given whether the canonical frame
/// address changed, the recovered link register and the current program
/// counter.
pub open spec fn frame_step_of(cfa_changed: bool, lr: u32, pc: u32) -> FrameStep {
    if lr == 0xffff_ffff {
        FrameStep::Done
    } else if !cfa_changed && lr == pc {
        FrameStep::Corrupted
    } else if lr > 0xffff_fff0 {
        FrameStep::ExceptionEntry
    } else if lr & 1 == 0 {
        FrameStep::MissingThumbBit
    } else {
        FrameStep::Next { pc: lr & 0xffff_fffe }
    }
}

/// Decides how the backtrace walk proceeds after one frame.
pub fn frame_step(cfa_changed: bool, lr: u32, pc: u32) -> (r: FrameStep)
    ensures
        r == frame_step_of(cfa_changed, lr, pc),
{
    if lr == 0xffff_ffff {
        FrameStep::Done
    } else if !cfa_changed && lr == pc {
        FrameStep::Corrupted
    } else if lr > 0xffff_fff0 {
        FrameStep::ExceptionEntry
    } else if lr & 1 == 0 {
        FrameStep::MissingThumbBit
    } else {
        FrameStep::Next { pc: lr & 0xffff_fffe }
    }
}

/// The core registers the unwind rules of this target name.
#[allow(non_camel_case_types)]
#[derive(Clone, Copy, Debug, PartialEq, Eq, Structural)]
pub enum CoreRegister {
    /// General purpose register 7 (the frame pointer on this target).
    R7,
    /// The stack pointer.
    SP,
    /// The link register.
    LR,
}

/// Maps a DWARF register number to the core register it names on this
/// target, if any: 13 is SP, 14 is LR, 7 is R7.
pub fn dwarf_to_core_register(reg: u16) -> (r: Option<CoreRegister>)
    ensures
        r == (if reg == 13 {
            Some(CoreRegister::SP)
        } else if reg == 14 {
            Some(CoreRegister::LR)
        } else if reg == 7 {
            Some(CoreRegister::R7)
        } else {
            None::<CoreRegister>
        }),
{
    if reg == 13 {
        Some(CoreRegister::SP)
    } else if reg == 14 {
        Some(CoreRegister::LR)
    } else if reg == 7 {
        Some(CoreRegister::R7)
    } else {
        None
    }
}

/// Finds the symbol range containing `pc`: the index of the first pair
/// `(start, end)` with `start <= pc < end`, or `None` when no range holds it.
pub fn find_range(ranges: &Vec<(u64, u64)>, pc: u64) -> (r: Option<usize>)
    ensures
        (r matches Some(i) ==> i < ranges@.len() && ranges@[i as int].0 <= pc
            && pc < ranges@[i as int].1 && forall|j: int|
            0 <= j < i ==> !(ranges@[j].0 <= pc < #[trigger] ranges@[j].1)),
        (r is None ==> forall|j: int|
            0 <= j < ranges@.len() ==> !(ranges@[j].0 <= pc < #[trigger] ranges@[j].1)),
{
    let n = ranges.len();
    let mut i: usize = 0;
    while i < n
        invariant
            i <= n,
            n == ranges@.len(),
            forall|j: int| 0 <= j < i ==> !(ranges@[j].0 <= pc < #[trigger] ranges@[j].1),
        decreases n - i,
    {
        let (start, end) = ranges[i];
        if start <= pc && pc < end {
            return Some(i);
        }
        i = i + 1;
    }
    None
}

} // verus!
