//! Benchmark workloads: tiny bare-metal RV64 programs, built with the
//! assembler, that loop forever; a runner executes them for a while and
//! counts retired guest instructions.

pub mod assembler;

use vstd::prelude::*;
use assembler::{
    addi, assembled, csrrs, csrrw, ecall, emit, emit_branch, emit_jump, emit_la, emit_li, emit_n, empty_program,
    fence, i_word, ld, lemma_labels_within, lemma_small_program_assembles, lr_w, mark, mret, r_word, remu,
    s_word, sc_w, sd, sw, Asm, AsmView,
};
use assembler::bcond;

verus! {

/// DRAM size the workloads are laid out for.
pub const WORKLOAD_DRAM_SIZE: usize = 8 * 1024 * 1024;
pub const SRC_OFFSET: u64 = 0x10_0000;
pub const DST_OFFSET: u64 = 0x20_0000;
pub const LOCK_OFFSET: u64 = 0x30_0000;
/// Counter of the spinlock workload (its own reservation granule).
pub const COUNTER_OFFSET: u64 = 0x30_0040;
/// Shadow copy of the counter: equal to it inside the critical section, or
/// mutual exclusion is broken.
pub const SHADOW_OFFSET: u64 = 0x30_0080;
/// Set non-zero by the guest if counter != shadow inside the lock.
pub const CORRUPT_FLAG_OFFSET: u64 = 0x30_00C0;
/// Where the prime workload publishes its per-pass result.
pub const PRIME_RESULT_OFFSET: u64 = 0x30_0100;

pub const MEMCPY_WORDS: u64 = 8192;
pub const PRIME_LIMIT: u64 = 500;
/// Number of primes below the prime workload's limit.
pub const PRIME_EXPECTED: u64 = 95;

pub const CSR_MEDELEG: u32 = 0x302;
pub const CSR_MIDELEG: u32 = 0x303;
pub const CSR_MTVEC: u32 = 0x305;
pub const CSR_MEPC: u32 = 0x341;

/// Names of all available workloads.
pub const WORKLOADS: [&'static str; 5] = ["nop", "prime", "memcpy", "spinlock", "ecall"];

/// Tight ALU loop: 32 increments and a jump back.
pub open spec fn nop_program() -> AsmView {
    let a = mark(empty_program(), "loop"@);
    let a = emit_n(a, i_word(0x13, 5, 0, 5, 1), 32);
    emit_jump(a, 0, "loop"@)
}

/// Count primes below the limit by trial division, publish the count, restart.
pub open spec fn prime_program(dram_base: u64) -> AsmView {
    let a = emit_li(empty_program(), 28, PRIME_LIMIT);
    let a = emit_li(a, 31, (dram_base + PRIME_RESULT_OFFSET) as u64);
    let a = mark(a, "restart"@);
    let a = emit_li(a, 6, 0);
    let a = emit_li(a, 5, 2);
    let a = mark(a, "outer"@);
    let a = emit_branch(a, bcond::GE, 5, 28, "done"@);
    let a = emit_li(a, 7, 2);
    let a = mark(a, "inner"@);
    let a = emit_branch(a, bcond::GE, 7, 5, "is_prime"@);
    let a = emit(a, r_word(0x33, 29, 7, 5, 7, 0x01));
    let a = emit_branch(a, bcond::EQ, 29, 0, "not_prime"@);
    let a = emit(a, i_word(0x13, 7, 0, 7, 1));
    let a = emit_jump(a, 0, "inner"@);
    let a = mark(a, "is_prime"@);
    let a = emit(a, i_word(0x13, 6, 0, 6, 1));
    let a = mark(a, "not_prime"@);
    let a = emit(a, i_word(0x13, 5, 0, 5, 1));
    let a = emit_jump(a, 0, "outer"@);
    let a = mark(a, "done"@);
    let a = emit(a, s_word(0x23, 3, 31, 6, 0));
    emit_jump(a, 0, "restart"@)
}

/// Fill a 64 KiB source buffer once, then copy it with 8-byte loads and
/// stores forever.
pub open spec fn memcpy_program(dram_base: u64) -> AsmView {
    let a = emit_li(empty_program(), 5, (dram_base + SRC_OFFSET) as u64);
    let a = emit_li(a, 6, (dram_base + DST_OFFSET) as u64);
    let a = emit_li(a, 28, MEMCPY_WORDS);
    let a = emit_li(a, 29, 0x0123_4567_89AB_CDEF);
    let a = emit(a, i_word(0x13, 30, 0, 5, 0));
    let a = mark(a, "init"@);
    let a = emit(a, s_word(0x23, 3, 30, 29, 0));
    let a = emit(a, i_word(0x13, 30, 0, 30, 8));
    let a = emit(a, i_word(0x13, 28, 0, 28, -1i32));
    let a = emit_branch(a, bcond::NE, 28, 0, "init"@);
    let a = mark(a, "restart"@);
    let a = emit(a, i_word(0x13, 30, 0, 5, 0));
    let a = emit(a, i_word(0x13, 31, 0, 6, 0));
    let a = emit_li(a, 28, MEMCPY_WORDS);
    let a = mark(a, "copy"@);
    let a = emit(a, i_word(0x03, 29, 3, 30, 0));
    let a = emit(a, s_word(0x23, 3, 31, 29, 0));
    let a = emit(a, i_word(0x13, 30, 0, 30, 8));
    let a = emit(a, i_word(0x13, 31, 0, 31, 8));
    let a = emit(a, i_word(0x13, 28, 0, 28, -1i32));
    let a = emit_branch(a, bcond::NE, 28, 0, "copy"@);
    emit_jump(a, 0, "restart"@)
}

/// LR/SC spinlock: acquire, check counter == shadow (else raise the corrupt
/// flag), bump shadow then counter, fence, release.
pub open spec fn spinlock_program(dram_base: u64) -> AsmView {
    let a = emit_li(empty_program(), 5, (dram_base + LOCK_OFFSET) as u64);
    let a = emit_li(a, 6, (dram_base + COUNTER_OFFSET) as u64);
    let a = emit_li(a, 30, (dram_base + SHADOW_OFFSET) as u64);
    let a = emit_li(a, 31, (dram_base + CORRUPT_FLAG_OFFSET) as u64);
    let a = mark(a, "acquire"@);
    let a = emit(a, r_word(0x2F, 7, 2, 5, 0, 0x08));
    let a = emit_branch(a, bcond::NE, 7, 0, "acquire"@);
    let a = emit_li(a, 28, 1);
    let a = emit(a, r_word(0x2F, 7, 2, 5, 28, 0x0C));
    let a = emit_branch(a, bcond::NE, 7, 0, "acquire"@);
    let a = emit(a, i_word(0x03, 29, 3, 6, 0));
    let a = emit(a, i_word(0x03, 7, 3, 30, 0));
    let a = emit_branch(a, bcond::EQ, 29, 7, "consistent"@);
    let a = emit_li(a, 7, 1);
    let a = emit(a, s_word(0x23, 3, 31, 7, 0));
    let a = mark(a, "consistent"@);
    let a = emit(a, i_word(0x13, 29, 0, 29, 1));
    let a = emit(a, s_word(0x23, 3, 30, 29, 0));
    let a = emit(a, s_word(0x23, 3, 6, 29, 0));
    let a = emit(a, 0x0FF0_000F);
    let a = emit(a, s_word(0x23, 2, 5, 0, 0));
    emit_jump(a, 0, "acquire"@)
}

/// M-mode trap round trip: clear delegation, point mtvec at a handler that
/// steps mepc past the ecall and returns with mret; ecall in a loop.
pub open spec fn ecall_program() -> AsmView {
    let a = emit(empty_program(), i_word(0x73, 0, 1, 0, CSR_MEDELEG as i32));
    let a = emit(a, i_word(0x73, 0, 1, 0, CSR_MIDELEG as i32));
    let a = emit_la(a, 5, "handler"@);
    let a = emit(a, i_word(0x73, 0, 1, 5, CSR_MTVEC as i32));
    let a = mark(a, "loop"@);
    let a = emit(a, 0x0000_0073);
    let a = emit_jump(a, 0, "loop"@);
    let a = mark(a, "handler"@);
    let a = emit(a, i_word(0x73, 6, 2, 0, CSR_MEPC as i32));
    let a = emit(a, i_word(0x13, 6, 0, 6, 4));
    let a = emit(a, i_word(0x73, 0, 1, 6, CSR_MEPC as i32));
    emit(a, 0x3020_0073)
}

/// Image of a named workload loaded at `dram_base`, or `None` for an unknown name.
pub open spec fn workload_image(name: Seq<char>, dram_base: u64) -> Option<Seq<u8>> {
    if name == "nop"@ {
        Some(assembled(nop_program()))
    } else if name == "prime"@ {
        Some(assembled(prime_program(dram_base)))
    } else if name == "memcpy"@ {
        Some(assembled(memcpy_program(dram_base)))
    } else if name == "spinlock"@ {
        Some(assembled(spinlock_program(dram_base)))
    } else if name == "ecall"@ {
        Some(assembled(ecall_program()))
    } else {
        None
    }
}

/// Assemble a finished workload program.
fn finish(a: Asm) -> (r: Vec<u8>)
    requires
        a.wf(),
        assembler::labels_defined(a@),
        a@.words.len() + 2 * a@.fixups.len() + 2 <= 512,
    ensures
        r@ == assembled(a@),
{
    proof {
        lemma_labels_within(&a);
        lemma_small_program_assembles(a@);
    }
    a.assemble()
}

fn workload_nop() -> (r: Vec<u8>)
    ensures
        r@ == assembled(nop_program()),
{
    let mut a = Asm::new();
    a.label("loop");
    let ghost start = a@;
    let mut i: u32 = 0;
    while i < 32
        invariant
            i <= 32,
            a.wf(),
            a@ == emit_n(start, i_word(0x13, 5, 0, 5, 1), i as nat),
        decreases 32 - i,
    {
        a.raw(addi(5, 5, 1));
        i = i + 1;
    }
    a.jump(0, "loop");
    proof {
        reveal_with_fuel(emit_n, 33);
    }
    finish(a)
}

fn workload_prime(dram_base: u64) -> (r: Vec<u8>)
    requires
        dram_base + PRIME_RESULT_OFFSET <= u64::MAX,
    ensures
        r@ == assembled(prime_program(dram_base)),
{
    let mut a = Asm::new();
    a.li(28, PRIME_LIMIT);
    a.li(31, dram_base + PRIME_RESULT_OFFSET);
    a.label("restart");
    a.li(6, 0);
    a.li(5, 2);
    a.label("outer");
    a.branch(bcond::GE, 5, 28, "done");
    a.li(7, 2);
    a.label("inner");
    a.branch(bcond::GE, 7, 5, "is_prime");
    a.raw(remu(29, 5, 7));
    a.branch(bcond::EQ, 29, 0, "not_prime");
    a.raw(addi(7, 7, 1));
    a.jump(0, "inner");
    a.label("is_prime");
    a.raw(addi(6, 6, 1));
    a.label("not_prime");
    a.raw(addi(5, 5, 1));
    a.jump(0, "outer");
    a.label("done");
    a.raw(sd(31, 6, 0));
    a.jump(0, "restart");
    finish(a)
}

fn workload_memcpy(dram_base: u64) -> (r: Vec<u8>)
    requires
        dram_base + DST_OFFSET <= u64::MAX,
    ensures
        r@ == assembled(memcpy_program(dram_base)),
{
    let mut a = Asm::new();
    a.li(5, dram_base + SRC_OFFSET);
    a.li(6, dram_base + DST_OFFSET);
    a.li(28, MEMCPY_WORDS);
    a.li(29, 0x0123_4567_89AB_CDEF);
    a.raw(addi(30, 5, 0));
    a.label("init");
    a.raw(sd(30, 29, 0));
    a.raw(addi(30, 30, 8));
    a.raw(addi(28, 28, -1));
    a.branch(bcond::NE, 28, 0, "init");
    a.label("restart");
    a.raw(addi(30, 5, 0));
    a.raw(addi(31, 6, 0));
    a.li(28, MEMCPY_WORDS);
    a.label("copy");
    a.raw(ld(29, 30, 0));
    a.raw(sd(31, 29, 0));
    a.raw(addi(30, 30, 8));
    a.raw(addi(31, 31, 8));
    a.raw(addi(28, 28, -1));
    a.branch(bcond::NE, 28, 0, "copy");
    a.jump(0, "restart");
    finish(a)
}

fn workload_spinlock(dram_base: u64) -> (r: Vec<u8>)
    requires
        dram_base + CORRUPT_FLAG_OFFSET <= u64::MAX,
    ensures
        r@ == assembled(spinlock_program(dram_base)),
{
    let mut a = Asm::new();
    a.li(5, dram_base + LOCK_OFFSET);
    a.li(6, dram_base + COUNTER_OFFSET);
    a.li(30, dram_base + SHADOW_OFFSET);
    a.li(31, dram_base + CORRUPT_FLAG_OFFSET);
    a.label("acquire");
    a.raw(lr_w(7, 5));
    a.branch(bcond::NE, 7, 0, "acquire");
    a.li(28, 1);
    a.raw(sc_w(7, 5, 28));
    a.branch(bcond::NE, 7, 0, "acquire");
    a.raw(ld(29, 6, 0));
    a.raw(ld(7, 30, 0));
    a.branch(bcond::EQ, 29, 7, "consistent");
    a.li(7, 1);
    a.raw(sd(31, 7, 0));
    a.label("consistent");
    a.raw(addi(29, 29, 1));
    a.raw(sd(30, 29, 0));
    a.raw(sd(6, 29, 0));
    a.raw(fence());
    a.raw(sw(5, 0, 0));
    a.jump(0, "acquire");
    finish(a)
}

fn workload_ecall() -> (r: Vec<u8>)
    ensures
        r@ == assembled(ecall_program()),
{
    let mut a = Asm::new();
    a.raw(csrrw(0, CSR_MEDELEG, 0));
    a.raw(csrrw(0, CSR_MIDELEG, 0));
    a.la(5, "handler");
    a.raw(csrrw(0, CSR_MTVEC, 5));
    a.label("loop");
    a.raw(ecall());
    a.jump(0, "loop");
    a.label("handler");
    a.raw(csrrs(6, CSR_MEPC, 0));
    a.raw(addi(6, 6, 4));
    a.raw(csrrw(0, CSR_MEPC, 6));
    a.raw(mret());
    finish(a)
}

/// Flat binary of a named workload (loaded at `dram_base`, run in M-mode),
/// or `None` for an unknown name.
pub fn workload_binary(name: &str, dram_base: u64) -> (r: Option<Vec<u8>>)
    requires
        name@ == "prime"@ ==> dram_base + PRIME_RESULT_OFFSET <= u64::MAX,
        name@ == "memcpy"@ ==> dram_base + DST_OFFSET <= u64::MAX,
        name@ == "spinlock"@ ==> dram_base + CORRUPT_FLAG_OFFSET <= u64::MAX,
    ensures
        match r {
            Some(v) => workload_image(name@, dram_base) == Some(v@),
            None => workload_image(name@, dram_base) is None,
        },
{
    let n = name.to_string();
    if n == "nop".to_string() {
        Some(workload_nop())
    } else if n == "prime".to_string() {
        Some(workload_prime(dram_base))
    } else if n == "memcpy".to_string() {
        Some(workload_memcpy(dram_base))
    } else if n == "spinlock".to_string() {
        Some(workload_spinlock(dram_base))
    } else if n == "ecall".to_string() {
        Some(workload_ecall())
    } else {
        None
    }
}

} // verus!
