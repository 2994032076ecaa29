//! A small register machine: a fixed-width file of signed registers, a
//! closed catalogue of sixteen opcodes, and a CPU that drives a program
//! whose instruction pointer lives in one of the registers.
//!
//! Arithmetic follows the machine convention of wrapping two's-complement
//! addition and multiplication; the comparison and bitwise opcodes are
//! exact.  Applying an opcode never mutates its input register file: it
//! returns a fresh snapshot, so "before" and "after" files can be kept and
//! compared independently.

use vstd::prelude::*;
use vstd::string::StringExecFns;
use vstd::string::StringSliceAdditionalSpecFns;
use vstd::wrapping::i64_specs;

use crate::text;

verus! {

/// A fixed-length, zero-indexed file of signed registers.
///
/// Its mathematical view is the sequence of register values.  Applying an
/// opcode produces a new `Registers` value; the only in-place mutation is
/// the explicit `set`.
#[derive(Debug, Eq)]
pub struct Registers {
    vals: Vec<i64>,
}

impl View for Registers {
    type V = Seq<i64>;

    closed spec fn view(&self) -> Seq<i64> {
        self.vals@
    }
}

impl Registers {
    /// A register file of `size` registers, all zero.
    pub fn new(size: usize) -> (r: Self)
        ensures
            r@.len() == size,
            forall|i: int| 0 <= i < size ==> r@[i] == 0,
    {
        Self { vals: vec![0i64; size] }
    }

    /// A register file holding exactly the values of `slice`, in order.
    pub fn from_slice(slice: &[i64]) -> (r: Self)
        ensures
            r@ == slice@,
    {
        Self { vals: vstd::slice::slice_to_vec(slice) }
    }

    /// The value of register `index`.
    pub fn get(&self, index: usize) -> (r: i64)
        requires
            index < self@.len(),
        ensures
            r == self@[index as int],
    {
        self.vals[index]
    }

    /// Overwrites register `index` with `value`.
    pub fn set(&mut self, index: usize, value: i64)
        requires
            index < old(self)@.len(),
        ensures
            final(self)@ == old(self)@.update(index as int, value),
    {
        self.vals.set(index, value);
    }

    /// How many registers the file holds.
    pub fn len(&self) -> (r: usize)
        ensures
            r == self@.len(),
    {
        self.vals.len()
    }
}

impl Clone for Registers {
    /// An independent snapshot with the same register values.
    fn clone(&self) -> (r: Self)
        ensures
            r@ == self@,
    {
        let vals = self.vals.clone();
        assert(vals@ =~= self.vals@);
        Self { vals }
    }
}

impl PartialEq for Registers {
    fn eq(&self, other: &Self) -> (r: bool) {
        let n = self.vals.len();
        if n != other.vals.len() {
            assert(self@ !~= other@);
            return false;
        }
        for i in 0..n
            invariant
                n == self@.len(),
                n == other@.len(),
                forall|j: int| 0 <= j < i ==> self@[j] == other@[j],
        {
            if self.vals[i] != other.vals[i] {
                return false;
            }
        }
        assert(self@ =~= other@);
        true
    }
}

impl vstd::std_specs::cmp::PartialEqSpecImpl for Registers {
    open spec fn obeys_eq_spec() -> bool {
        true
    }

    open spec fn eq_spec(&self, other: &Self) -> bool {
        self@ == other@
    }
}

/// The sixteen semantic operations of the machine.  Each writes one result
/// into the register named by its third operand `c`; the first two operands
/// are register indices or immediate values depending on the variant.
#[derive(Debug, Clone, Copy, PartialEq, Eq, Hash, Structural)]
pub enum Opcode {
    Addr,
    Addi,
    Mulr,
    Muli,
    Banr,
    Bani,
    Borr,
    Bori,
    Setr,
    Seti,
    Gtir,
    Gtri,
    Gtrr,
    Eqir,
    Eqri,
    Eqrr,
}

/// The canonical order of the sixteen opcodes.
pub open spec fn opcode_list() -> Seq<Opcode> {
    seq![
        Opcode::Addr,
        Opcode::Addi,
        Opcode::Mulr,
        Opcode::Muli,
        Opcode::Banr,
        Opcode::Bani,
        Opcode::Borr,
        Opcode::Bori,
        Opcode::Setr,
        Opcode::Seti,
        Opcode::Gtir,
        Opcode::Gtri,
        Opcode::Gtrr,
        Opcode::Eqir,
        Opcode::Eqri,
        Opcode::Eqrr,
    ]
}

/// Whether operand `a` names a register (rather than an immediate value).
pub open spec fn a_is_register(o: Opcode) -> bool {
    match o {
        Opcode::Seti | Opcode::Gtir | Opcode::Eqir => false,
        _ => true,
    }
}

/// Whether operand `b` names a register (rather than an immediate value).
pub open spec fn b_is_register(o: Opcode) -> bool {
    match o {
        Opcode::Addr | Opcode::Mulr | Opcode::Banr | Opcode::Borr | Opcode::Gtir | Opcode::Gtrr
            | Opcode::Eqir | Opcode::Eqrr => true,
        _ => false,
    }
}

/// The operands `(a, b, c)` address only existing registers of a file of
/// `n` registers, under the interpretation that `o` gives them.
pub open spec fn operands_in_range(o: Opcode, a: i64, b: i64, c: i64, n: nat) -> bool {
    &&& 0 <= c < n
    &&& (a_is_register(o) ==> 0 <= a < n)
    &&& (b_is_register(o) ==> 0 <= b < n)
}

/// The first input value of `o`: a register read or the immediate `a`.
pub open spec fn value_a(o: Opcode, a: i64, regs: Seq<i64>) -> i64 {
    if a_is_register(o) {
        regs[a as int]
    } else {
        a
    }
}

/// The second input value of `o`: a register read or the immediate `b`.
pub open spec fn value_b(o: Opcode, b: i64, regs: Seq<i64>) -> i64 {
    if b_is_register(o) {
        regs[b as int]
    } else {
        b
    }
}

/// The value that `o` writes into register `c`.
pub open spec fn op_result(o: Opcode, a: i64, b: i64, regs: Seq<i64>) -> i64 {
    let x = value_a(o, a, regs);
    let y = value_b(o, b, regs);
    match o {
        Opcode::Addr | Opcode::Addi => i64_specs::wrapping_add(x, y),
        Opcode::Mulr | Opcode::Muli => i64_specs::wrapping_mul(x, y),
        Opcode::Banr | Opcode::Bani => x & y,
        Opcode::Borr | Opcode::Bori => x | y,
        Opcode::Setr | Opcode::Seti => x,
        Opcode::Gtir | Opcode::Gtri | Opcode::Gtrr => if x > y {
            1
        } else {
            0
        },
        Opcode::Eqir | Opcode::Eqri | Opcode::Eqrr => if x == y {
            1
        } else {
            0
        },
    }
}

/// The register file after `o (a, b, c)` acts on `regs`: register `c`
/// receives the opcode's result and every other register keeps its value.
pub open spec fn apply_spec(o: Opcode, a: i64, b: i64, c: i64, regs: Seq<i64>) -> Seq<i64> {
    regs.update(c as int, op_result(o, a, b, regs))
}

/// Runtime test for `a_is_register`.
fn reads_a(o: Opcode) -> (r: bool)
    ensures
        r == a_is_register(o),
{
    !(matches!(o, Opcode::Seti | Opcode::Gtir | Opcode::Eqir))
}

/// Runtime test for `b_is_register`.
fn reads_b(o: Opcode) -> (r: bool)
    ensures
        r == b_is_register(o),
{
    matches!(
        o,
        Opcode::Addr | Opcode::Mulr | Opcode::Banr | Opcode::Borr | Opcode::Gtir | Opcode::Gtrr
            | Opcode::Eqir | Opcode::Eqrr
    )
}

/// Runtime test for `operands_in_range`.
pub fn operands_check(o: Opcode, a: i64, b: i64, c: i64, n: usize) -> (r: bool)
    ensures
        r == operands_in_range(o, a, b, c, n as nat),
{
    0 <= c && (c as u64) < (n as u64) && (!reads_a(o) || (0 <= a && (a as u64) < (n as u64))) && (
    !reads_b(o) || (0 <= b && (b as u64) < (n as u64)))
}

impl Opcode {
    /// The sixteen opcodes, in canonical order.
    pub fn iter() -> (r: Vec<Opcode>)
        ensures
            r@ == opcode_list(),
    {
        let mut v: Vec<Opcode> = Vec::new();
        v.push(Opcode::Addr);
        v.push(Opcode::Addi);
        v.push(Opcode::Mulr);
        v.push(Opcode::Muli);
        v.push(Opcode::Banr);
        v.push(Opcode::Bani);
        v.push(Opcode::Borr);
        v.push(Opcode::Bori);
        v.push(Opcode::Setr);
        v.push(Opcode::Seti);
        v.push(Opcode::Gtir);
        v.push(Opcode::Gtri);
        v.push(Opcode::Gtrr);
        v.push(Opcode::Eqir);
        v.push(Opcode::Eqri);
        v.push(Opcode::Eqrr);
        assert(v@ =~= opcode_list());
        v
    }

    /// Applies this opcode to a snapshot of `registers` and returns the new
    /// snapshot; `registers` itself is left untouched.
    pub fn apply(&self, a: i64, b: i64, c: i64, registers: &Registers) -> (r: Registers)
        requires
            operands_in_range(*self, a, b, c, registers@.len()),
        ensures
            r@ == apply_spec(*self, a, b, c, registers@),
    {
        // Binding the width as a `usize` lets the register-index casts go
        // through: a nonnegative operand below it fits the index type.
        let n = registers.len();
        let x = if reads_a(*self) {
            registers.get(a as usize)
        } else {
            a
        };
        let y = if reads_b(*self) {
            registers.get(b as usize)
        } else {
            b
        };
        let v: i64 = match *self {
            Opcode::Addr | Opcode::Addi => x.wrapping_add(y),
            Opcode::Mulr | Opcode::Muli => x.wrapping_mul(y),
            Opcode::Banr | Opcode::Bani => x & y,
            Opcode::Borr | Opcode::Bori => x | y,
            Opcode::Setr | Opcode::Seti => x,
            Opcode::Gtir | Opcode::Gtri | Opcode::Gtrr => if x > y {
                1
            } else {
                0
            },
            Opcode::Eqir | Opcode::Eqri | Opcode::Eqrr => if x == y {
                1
            } else {
                0
            },
        };
        proof {
            assert(v == op_result(*self, a, b, registers@));
        }
        let mut out = registers.clone();
        out.set(c as usize, v);
        out
    }
}

/// Applying an opcode is deterministic: any two results that `apply`'s
/// contract admits for the same opcode, operands and register snapshot are
/// equal.  Together with `apply` taking its input by shared reference and
/// returning a fresh snapshot, two calls on identical inputs yield
/// identical outputs and leave the input untouched.
pub proof fn lemma_apply_deterministic(
    o: Opcode,
    a: i64,
    b: i64,
    c: i64,
    regs: Seq<i64>,
    r1: Seq<i64>,
    r2: Seq<i64>,
)
    requires
        r1 == apply_spec(o, a, b, c, regs),
        r2 == apply_spec(o, a, b, c, regs),
    ensures
        r1 == r2,
{
}

/// An opcode writes only register `c`: every other register keeps its
/// value.
pub proof fn lemma_apply_frame(o: Opcode, a: i64, b: i64, c: i64, regs: Seq<i64>, i: int)
    requires
        0 <= c < regs.len(),
        0 <= i < regs.len(),
        i != c,
    ensures
        apply_spec(o, a, b, c, regs)[i] == regs[i],
        apply_spec(o, a, b, c, regs).len() == regs.len(),
{
}

/// The addition opcodes, in both operand families: whenever the exact sum
/// fits the register width, register `c` receives it - `R[a] + R[b]` for
/// the register-register form, `R[a] + b` for the register-immediate form.
pub proof fn lemma_add_family(a: i64, b: i64, c: i64, regs: Seq<i64>)
    requires
        0 <= c < regs.len(),
    ensures
        0 <= a < regs.len() && 0 <= b < regs.len() && i64::MIN <= regs[a as int] + regs[b as int]
            <= i64::MAX ==> apply_spec(Opcode::Addr, a, b, c, regs) == regs.update(
            c as int,
            (regs[a as int] + regs[b as int]) as i64,
        ),
        0 <= a < regs.len() && i64::MIN <= regs[a as int] + b <= i64::MAX ==> apply_spec(
            Opcode::Addi,
            a,
            b,
            c,
            regs,
        ) == regs.update(c as int, (regs[a as int] + b) as i64),
{
}

/// The multiplication opcodes: whenever the exact product fits the
/// register width, register `c` receives it.
pub proof fn lemma_mul_family(a: i64, b: i64, c: i64, regs: Seq<i64>)
    requires
        0 <= c < regs.len(),
    ensures
        0 <= a < regs.len() && 0 <= b < regs.len() && i64::MIN <= regs[a as int] * regs[b as int]
            <= i64::MAX ==> apply_spec(Opcode::Mulr, a, b, c, regs) == regs.update(
            c as int,
            (regs[a as int] * regs[b as int]) as i64,
        ),
        0 <= a < regs.len() && i64::MIN <= regs[a as int] * b <= i64::MAX ==> apply_spec(
            Opcode::Muli,
            a,
            b,
            c,
            regs,
        ) == regs.update(c as int, (regs[a as int] * b) as i64),
{
    if 0 <= a < regs.len() && 0 <= b < regs.len() && i64::MIN <= regs[a as int] * regs[b as int]
        <= i64::MAX {
        lemma_wrapping_mul_exact(regs[a as int], regs[b as int]);
    }
    if 0 <= a < regs.len() && i64::MIN <= regs[a as int] * b <= i64::MAX {
        lemma_wrapping_mul_exact(regs[a as int], b);
    }
}

/// Wrapping multiplication agrees with exact multiplication whenever the
/// product fits.
proof fn lemma_wrapping_mul_exact(x: i64, y: i64)
    requires
        i64::MIN <= x * y <= i64::MAX,
    ensures
        i64_specs::wrapping_mul(x, y) == x * y,
{
}

/// The bitwise opcodes: register `c` receives the bitwise AND or OR of
/// the two input values, each a register read or an immediate.
pub proof fn lemma_bitwise_family(a: i64, b: i64, c: i64, regs: Seq<i64>)
    requires
        0 <= c < regs.len(),
    ensures
        0 <= a < regs.len() && 0 <= b < regs.len() ==> apply_spec(Opcode::Banr, a, b, c, regs)
            == regs.update(c as int, regs[a as int] & regs[b as int]),
        0 <= a < regs.len() ==> apply_spec(Opcode::Bani, a, b, c, regs) == regs.update(
            c as int,
            regs[a as int] & b,
        ),
        0 <= a < regs.len() && 0 <= b < regs.len() ==> apply_spec(Opcode::Borr, a, b, c, regs)
            == regs.update(c as int, regs[a as int] | regs[b as int]),
        0 <= a < regs.len() ==> apply_spec(Opcode::Bori, a, b, c, regs) == regs.update(
            c as int,
            regs[a as int] | b,
        ),
{
}

/// The assignment opcodes: `Setr` copies register `a` into register `c`,
/// `Seti` stores the immediate `a` there, and `b` is ignored by both.
pub proof fn lemma_set_family(a: i64, b: i64, c: i64, regs: Seq<i64>)
    requires
        0 <= c < regs.len(),
    ensures
        0 <= a < regs.len() ==> apply_spec(Opcode::Setr, a, b, c, regs) == regs.update(
            c as int,
            regs[a as int],
        ),
        apply_spec(Opcode::Seti, a, b, c, regs) == regs.update(c as int, a),
{
}

/// The greater-than opcodes, in all three operand families: register `c`
/// receives 1 when the first value exceeds the second, else 0.
pub proof fn lemma_gt_family(a: i64, b: i64, c: i64, regs: Seq<i64>)
    requires
        0 <= c < regs.len(),
    ensures
        0 <= b < regs.len() ==> apply_spec(Opcode::Gtir, a, b, c, regs) == regs.update(
            c as int,
            if a > regs[b as int] { 1i64 } else { 0i64 },
        ),
        0 <= a < regs.len() ==> apply_spec(Opcode::Gtri, a, b, c, regs) == regs.update(
            c as int,
            if regs[a as int] > b { 1i64 } else { 0i64 },
        ),
        0 <= a < regs.len() && 0 <= b < regs.len() ==> apply_spec(Opcode::Gtrr, a, b, c, regs)
            == regs.update(c as int, if regs[a as int] > regs[b as int] { 1i64 } else { 0i64 }),
{
}

/// The equality opcodes, in all three operand families: register `c`
/// receives 1 when the two values are equal, else 0.
pub proof fn lemma_eq_family(a: i64, b: i64, c: i64, regs: Seq<i64>)
    requires
        0 <= c < regs.len(),
    ensures
        0 <= b < regs.len() ==> apply_spec(Opcode::Eqir, a, b, c, regs) == regs.update(
            c as int,
            if a == regs[b as int] { 1i64 } else { 0i64 },
        ),
        0 <= a < regs.len() ==> apply_spec(Opcode::Eqri, a, b, c, regs) == regs.update(
            c as int,
            if regs[a as int] == b { 1i64 } else { 0i64 },
        ),
        0 <= a < regs.len() && 0 <= b < regs.len() ==> apply_spec(Opcode::Eqrr, a, b, c, regs)
            == regs.update(c as int, if regs[a as int] == regs[b as int] { 1i64 } else { 0i64 }),
{
}

/// One machine instruction: an opcode and its three operands.
#[derive(Debug, Clone, Copy)]
pub struct Instruction {
    pub opcode: Opcode,
    pub a: i64,
    pub b: i64,
    pub c: i64,
}

/// The instruction's operands address only registers of a file of `n`.
pub open spec fn instr_ok(i: Instruction, n: nat) -> bool {
    operands_in_range(i.opcode, i.a, i.b, i.c, n)
}

/// Whether a machine with program `prog`, pointer register `ip` and
/// registers `regs` has halted: the pointer value addresses no instruction.
pub open spec fn machine_halted(prog: Seq<Instruction>, ip: nat, regs: Seq<i64>) -> bool {
    !(0 <= regs[ip as int] < prog.len())
}

/// The registers after one fetch-execute-advance cycle: the addressed
/// instruction acts on the file, then the pointer register is incremented.
/// A halted machine keeps its registers.
pub open spec fn step_regs(prog: Seq<Instruction>, ip: nat, regs: Seq<i64>) -> Seq<i64> {
    if machine_halted(prog, ip, regs) {
        regs
    } else {
        let i = prog[regs[ip as int] as int];
        let after = apply_spec(i.opcode, i.a, i.b, i.c, regs);
        after.update(ip as int, i64_specs::wrapping_add(after[ip as int], 1))
    }
}

/// The registers after at most `fuel` cycles, stopping early at a halt.
pub open spec fn run_regs(prog: Seq<Instruction>, ip: nat, regs: Seq<i64>, fuel: nat) -> Seq<i64>
    decreases fuel,
{
    if fuel == 0 || machine_halted(prog, ip, regs) {
        regs
    } else {
        run_regs(prog, ip, step_regs(prog, ip, regs), (fuel - 1) as nat)
    }
}

/// Extending a partial run by one cycle: if the machine has not halted
/// after `n` cycles, cycle `n + 1` performs one more step.
proof fn lemma_run_regs_unfold_last(prog: Seq<Instruction>, ip: nat, regs: Seq<i64>, n: nat)
    requires
        !machine_halted(prog, ip, run_regs(prog, ip, regs, n)),
    ensures
        run_regs(prog, ip, regs, n + 1) == step_regs(prog, ip, run_regs(prog, ip, regs, n)),
    decreases n,
{
    if n == 0 {
        assert(run_regs(prog, ip, regs, 1) == run_regs(prog, ip, step_regs(prog, ip, regs), 0));
    } else {
        if machine_halted(prog, ip, regs) {
            assert(run_regs(prog, ip, regs, n) == regs);
        } else {
            lemma_run_regs_unfold_last(prog, ip, step_regs(prog, ip, regs), (n - 1) as nat);
            assert(run_regs(prog, ip, regs, n + 1) == run_regs(
                prog,
                ip,
                step_regs(prog, ip, regs),
                n,
            ));
        }
    }
}

/// The machine: a register file, the index of the register that holds the
/// instruction pointer, and the program.  The register file and the pointer
/// are the whole mutable state.
#[derive(Debug)]
pub struct Cpu {
    registers: Registers,
    ip: usize,
    instructions: Vec<Instruction>,
}

impl Cpu {
    /// The current register values.
    pub closed spec fn spec_regs(&self) -> Seq<i64> {
        self.registers@
    }

    /// Which register holds the instruction pointer.
    pub closed spec fn spec_ip(&self) -> nat {
        self.ip as nat
    }

    /// The program.
    pub closed spec fn spec_prog(&self) -> Seq<Instruction> {
        self.instructions@
    }

    /// A well-formed machine: the pointer register exists, the program
    /// length fits the pointer arithmetic, and every instruction addresses
    /// only existing registers.  Construction establishes this and every
    /// step preserves it.
    pub open spec fn wf(&self) -> bool {
        &&& self.spec_ip() < self.spec_regs().len()
        &&& self.spec_prog().len() <= 0x7fff_ffff_ffff_ffff
        &&& forall|k: int|
            0 <= k < self.spec_prog().len() ==> instr_ok(
                #[trigger] self.spec_prog()[k],
                self.spec_regs().len(),
            )
    }

    /// Builds a machine with `register_count` zeroed registers, pointer
    /// register `ip` and program `instructions`, after validating that the
    /// pointer register exists and that every instruction addresses only
    /// existing registers; rejects the program otherwise.
    pub fn new(register_count: usize, ip: usize, instructions: Vec<Instruction>) -> (r: Result<
        Cpu,
        String,
    >)
        ensures
            r is Ok <==> {
                &&& ip < register_count
                &&& instructions@.len() <= 0x7fff_ffff_ffff_ffff
                &&& forall|k: int|
                    0 <= k < instructions@.len() ==> instr_ok(
                        #[trigger] instructions@[k],
                        register_count as nat,
                    )
            },
            r matches Ok(c) ==> {
                &&& c.wf()
                &&& c.spec_ip() == ip
                &&& c.spec_prog() == instructions@
                &&& c.spec_regs().len() == register_count
                &&& forall|k: int| 0 <= k < register_count ==> c.spec_regs()[k] == 0
            },
    {
        if ip >= register_count {
            return Err("instruction pointer register out of range".to_owned());
        }
        if instructions.len() as u64 > 0x7fff_ffff_ffff_ffffu64 {
            return Err("program too long".to_owned());
        }
        let n = instructions.len();
        for k in 0..n
            invariant
                n == instructions@.len(),
                forall|j: int|
                    0 <= j < k ==> instr_ok(#[trigger] instructions@[j], register_count as nat),
        {
            let i = instructions[k];
            let ok = 0 <= i.c && (i.c as u64) < (register_count as u64) && (!reads_a(i.opcode)
                || (0 <= i.a && (i.a as u64) < (register_count as u64))) && (!reads_b(i.opcode)
                || (0 <= i.b && (i.b as u64) < (register_count as u64)));
            if !ok {
                return Err("instruction operand out of range".to_owned());
            }
        }
        Ok(Cpu { registers: Registers::new(register_count), ip, instructions })
    }

    /// Executes cycles until the machine halts, or until an extreme budget
    /// of `u64::MAX` cycles is spent; a program that loops forever simply
    /// keeps running.  The final registers are what repeated stepping
    /// produces from the starting registers.
    pub fn run(&mut self)
        requires
            old(self).wf(),
        ensures
            final(self).wf(),
            final(self).spec_prog() == old(self).spec_prog(),
            final(self).spec_ip() == old(self).spec_ip(),
            exists|n: nat|
                final(self).spec_regs() == run_regs(
                    old(self).spec_prog(),
                    old(self).spec_ip(),
                    old(self).spec_regs(),
                    n,
                ) && (machine_halted(
                    old(self).spec_prog(),
                    old(self).spec_ip(),
                    final(self).spec_regs(),
                ) || n == u64::MAX),
    {
        let ghost prog0 = self.spec_prog();
        let ghost ip0 = self.spec_ip();
        let ghost regs0 = self.spec_regs();
        let ghost mut steps: nat = 0;
        let mut budget: u64 = u64::MAX;
        loop
            invariant_except_break
                steps + budget == u64::MAX,
            invariant
                self.wf(),
                self.spec_prog() == prog0,
                self.spec_ip() == ip0,
                self.spec_regs() == run_regs(prog0, ip0, regs0, steps),
            ensures
                self.wf(),
                self.spec_prog() == prog0,
                self.spec_ip() == ip0,
                exists|n: nat|
                    self.spec_regs() == run_regs(prog0, ip0, regs0, n) && (machine_halted(
                        prog0,
                        ip0,
                        self.spec_regs(),
                    ) || n == u64::MAX),
            decreases budget,
        {
            if budget == 0 {
                break;
            }
            budget = budget - 1;
            let stepped = self.step();
            proof {
                if stepped {
                    lemma_run_regs_unfold_last(prog0, ip0, regs0, steps);
                    steps = steps + 1;
                }
            }
            if !stepped {
                break;
            }
        }
    }

    /// One fetch-execute-advance cycle.  If the pointer register addresses
    /// no instruction the machine halts: `false` comes back and no register
    /// changes.  Otherwise the addressed instruction acts on the register
    /// file, the pointer register is then incremented (so an instruction
    /// that wrote the pointer register produces a jump), and `true` comes
    /// back.
    pub fn step(&mut self) -> (r: bool)
        requires
            old(self).wf(),
        ensures
            final(self).wf(),
            final(self).spec_prog() == old(self).spec_prog(),
            final(self).spec_ip() == old(self).spec_ip(),
            r == !machine_halted(old(self).spec_prog(), old(self).spec_ip(), old(self).spec_regs()),
            final(self).spec_regs() == step_regs(
                old(self).spec_prog(),
                old(self).spec_ip(),
                old(self).spec_regs(),
            ),
    {
        let pc = self.registers.get(self.ip);
        if pc < 0 || pc >= self.instructions.len() as i64 {
            return false;
        }
        let instr = self.instructions[pc as usize];
        self.registers = instr.opcode.apply(instr.a, instr.b, instr.c, &self.registers);
        let advanced = self.registers.get(self.ip).wrapping_add(1);
        self.registers.set(self.ip, advanced);
        true
    }

    /// The value of register `index`.
    pub fn get(&self, index: usize) -> (r: i64)
        requires
            index < self.spec_regs().len(),
        ensures
            r == self.spec_regs()[index as int],
    {
        self.registers.get(index)
    }

    /// Overwrites register `index` with `value`; used to seed machine state
    /// before a run.
    pub fn set(&mut self, index: usize, value: i64)
        requires
            index < old(self).spec_regs().len(),
        ensures
            final(self).spec_regs() == old(self).spec_regs().update(index as int, value),
            final(self).spec_prog() == old(self).spec_prog(),
            final(self).spec_ip() == old(self).spec_ip(),
            old(self).wf() ==> final(self).wf(),
    {
        self.registers.set(index, value);
    }

    /// The live value of the instruction pointer register.
    pub fn ip(&self) -> (r: i64)
        requires
            self.wf(),
        ensures
            r == self.spec_regs()[self.spec_ip() as int],
    {
        self.registers.get(self.ip)
    }

    /// A snapshot of the whole register file.
    pub fn get_registers(&self) -> (r: Registers)
        ensures
            r@ == self.spec_regs(),
    {
        self.registers.clone()
    }

    /// Reads a program text, exactly as `cpu_text_ok` describes it: an
    /// `ip N` declaration naming one of six pointer registers, then one
    /// instruction per line whose operands address only the six zeroed
    /// registers the machine gets.  Anything else - a missing or bad
    /// declaration, an unknown mnemonic, a malformed or out-of-range
    /// operand - is a construction failure, and no machine is produced.
    pub fn parse(s: &str) -> (r: Result<Cpu, String>)
        ensures
            r is Ok <==> vstd::string::is_ascii(s) && cpu_text_ok(s.spec_bytes()),
            r matches Ok(c) ==> {
                &&& c.wf()
                &&& c.spec_regs().len() == 6
                &&& forall|k: int| 0 <= k < 6 ==> c.spec_regs()[k] == 0
                &&& c.spec_ip() == cpu_ip_of(s.spec_bytes())
                &&& c.spec_prog() == cpu_program_of(s.spec_bytes())
            },
    {
        if !s.is_ascii() {
            return Err("program text is not ascii".to_owned());
        }
        let bytes = s.as_bytes();
        let ghost ls = text::lines_of(bytes@);
        let lines = text::split_lines(bytes);
        if lines.len() == 0 {
            return Err("missing ip".to_owned());
        }
        assert(lines@[0]@ == ls[0]);
        let header = text::split_fields(lines[0].as_slice());
        if header.len() < 2 {
            return Err("missing ip value".to_owned());
        }
        assert(header@[1]@ == text::fields_of(ls[0])[1]);
        let ip = match text::parse_u64(header[1].as_slice()) {
            Some(v) => {
                if v >= 6 {
                    return Err("invalid ip".to_owned());
                }
                v as usize
            },
            None => {
                return Err("invalid ip".to_owned());
            },
        };
        assert(header_ip(ls[0]) == Some(ip as nat));
        let mut instructions: Vec<Instruction> = Vec::new();
        let n = lines.len();
        for k in 1..n
            invariant
                bytes@ == s.spec_bytes(),
                n == lines@.len(),
                ls == text::lines_of(bytes@),
                text::views_of(lines@) == ls,
                instructions@.len() == k - 1,
                forall|j: int|
                    0 <= j < k - 1 ==> instr_line_ok(#[trigger] ls[j + 1]) && instructions@[j]
                        == instr_of_line(ls[j + 1]),
        {
            assert(lines@[k as int]@ == ls[k as int]);
            match parse_instruction(lines[k].as_slice()) {
                Some(i) => instructions.push(i),
                None => {
                    assert(!instr_line_ok(ls[k as int]));
                    return Err("invalid instruction".to_owned());
                },
            }
        }
        let ghost prog = instructions@;
        let built = Cpu::new(6, ip, instructions);
        proof {
            if cpu_text_ok(bytes@) {
                assert forall|j: int| 0 <= j < prog.len() implies instr_ok(
                    #[trigger] prog[j],
                    6,
                ) by {
                    assert(prog[j] == instr_of_line(ls[j + 1]));
                    assert(instr_line_ok(ls[j + 1]) && instr_ok(instr_of_line(ls[j + 1]), 6));
                }
            }
            if built is Ok {
                assert(prog =~= cpu_program_of(bytes@));
                assert forall|k: int| 1 <= k < ls.len() implies instr_line_ok(#[trigger] ls[k])
                    && instr_ok(instr_of_line(ls[k]), 6) by {
                    assert(prog[k - 1] == instr_of_line(ls[k]));
                    assert(instr_ok(prog[k - 1], 6));
                }
                assert(cpu_text_ok(bytes@));
            } else {
                if prog.len() > 0x7fff_ffff_ffff_ffff {
                    assert(ls.len() > 0x8000_0000_0000_0000);
                } else {
                    let j = choose|j: int| 0 <= j < prog.len() && !instr_ok(#[trigger] prog[j], 6);
                    assert(prog[j] == instr_of_line(ls[j + 1]));
                    assert(!(instr_line_ok(ls[j + 1]) && instr_ok(instr_of_line(ls[j + 1]), 6)));
                }
                assert(!cpu_text_ok(bytes@));
            }
        }
        built
    }
}

impl core::str::FromStr for Cpu {
    type Err = String;

    fn from_str(s: &str) -> Result<Cpu, String> {
        Cpu::parse(s)
    }
}

/// The pointer register a header line declares: its second field, read
/// as a decimal register index below six.
pub open spec fn header_ip(l: Seq<u8>) -> Option<nat> {
    let f = text::fields_of(l);
    if f.len() >= 2 && f[1].len() > 0 && text::all_digits(f[1]) && text::dec_val(f[1]) < 6 {
        Some(text::dec_val(f[1]) as nat)
    } else {
        None
    }
}

/// A whole program text parses: a header line declaring the pointer
/// register, then instruction lines whose operands address only the six
/// registers, in a program short enough for the pointer arithmetic.
pub open spec fn cpu_text_ok(s: Seq<u8>) -> bool {
    let ls = text::lines_of(s);
    &&& ls.len() >= 1
    &&& ls.len() <= 0x8000_0000_0000_0000
    &&& header_ip(ls[0]) is Some
    &&& forall|k: int|
        1 <= k < ls.len() ==> instr_line_ok(#[trigger] ls[k]) && instr_ok(instr_of_line(ls[k]), 6)
}

/// The pointer register index a program text declares.
pub open spec fn cpu_ip_of(s: Seq<u8>) -> nat {
    match header_ip(text::lines_of(s)[0]) {
        Some(v) => v,
        None => 0,
    }
}

/// The instruction sequence a program text denotes, in line order.
pub open spec fn cpu_program_of(s: Seq<u8>) -> Seq<Instruction> {
    let ls = text::lines_of(s);
    Seq::new((ls.len() - 1) as nat, |k: int| instr_of_line(ls[k + 1]))
}

/// The four ASCII bytes of each opcode's mnemonic, `addr` through `eqrr`.
pub open spec fn mnemonic(o: Opcode) -> Seq<u8> {
    match o {
        Opcode::Addr => seq![97u8, 100, 100, 114],
        Opcode::Addi => seq![97u8, 100, 100, 105],
        Opcode::Mulr => seq![109u8, 117, 108, 114],
        Opcode::Muli => seq![109u8, 117, 108, 105],
        Opcode::Banr => seq![98u8, 97, 110, 114],
        Opcode::Bani => seq![98u8, 97, 110, 105],
        Opcode::Borr => seq![98u8, 111, 114, 114],
        Opcode::Bori => seq![98u8, 111, 114, 105],
        Opcode::Setr => seq![115u8, 101, 116, 114],
        Opcode::Seti => seq![115u8, 101, 116, 105],
        Opcode::Gtir => seq![103u8, 116, 105, 114],
        Opcode::Gtri => seq![103u8, 116, 114, 105],
        Opcode::Gtrr => seq![103u8, 116, 114, 114],
        Opcode::Eqir => seq![101u8, 113, 105, 114],
        Opcode::Eqri => seq![101u8, 113, 114, 105],
        Opcode::Eqrr => seq![101u8, 113, 114, 114],
    }
}

/// The opcode a byte string names: the unique opcode whose mnemonic it
/// is, if any.
pub open spec fn mnemonic_opcode(w: Seq<u8>) -> Option<Opcode> {
    if w == mnemonic(Opcode::Addr) {
        Some(Opcode::Addr)
    } else if w == mnemonic(Opcode::Addi) {
        Some(Opcode::Addi)
    } else if w == mnemonic(Opcode::Mulr) {
        Some(Opcode::Mulr)
    } else if w == mnemonic(Opcode::Muli) {
        Some(Opcode::Muli)
    } else if w == mnemonic(Opcode::Banr) {
        Some(Opcode::Banr)
    } else if w == mnemonic(Opcode::Bani) {
        Some(Opcode::Bani)
    } else if w == mnemonic(Opcode::Borr) {
        Some(Opcode::Borr)
    } else if w == mnemonic(Opcode::Bori) {
        Some(Opcode::Bori)
    } else if w == mnemonic(Opcode::Setr) {
        Some(Opcode::Setr)
    } else if w == mnemonic(Opcode::Seti) {
        Some(Opcode::Seti)
    } else if w == mnemonic(Opcode::Gtir) {
        Some(Opcode::Gtir)
    } else if w == mnemonic(Opcode::Gtri) {
        Some(Opcode::Gtri)
    } else if w == mnemonic(Opcode::Gtrr) {
        Some(Opcode::Gtrr)
    } else if w == mnemonic(Opcode::Eqir) {
        Some(Opcode::Eqir)
    } else if w == mnemonic(Opcode::Eqri) {
        Some(Opcode::Eqri)
    } else if w == mnemonic(Opcode::Eqrr) {
        Some(Opcode::Eqrr)
    } else {
        None
    }
}

/// Whether `w` is exactly the four given bytes.
fn word4(w: &[u8], b0: u8, b1: u8, b2: u8, b3: u8) -> (r: bool)
    ensures
        r == (w@ == seq![b0, b1, b2, b3]),
{
    let r = w.len() == 4 && w[0] == b0 && w[1] == b1 && w[2] == b2 && w[3] == b3;
    proof {
        if r {
            assert(w@ =~= seq![b0, b1, b2, b3]);
        } else {
            if w@ == seq![b0, b1, b2, b3] {
                assert(w@.len() == 4);
                assert(w@[0] == b0 && w@[1] == b1 && w@[2] == b2 && w@[3] == b3);
            }
        }
    }
    r
}

/// The opcode a mnemonic names: `Some` exactly for the sixteen mnemonics,
/// each mapped to its own opcode.
pub fn opcode_from_name(w: &[u8]) -> (r: Option<Opcode>)
    ensures
        r == mnemonic_opcode(w@),
{
    if word4(w, 97, 100, 100, 114) {
        Some(Opcode::Addr)
    } else if word4(w, 97, 100, 100, 105) {
        Some(Opcode::Addi)
    } else if word4(w, 109, 117, 108, 114) {
        Some(Opcode::Mulr)
    } else if word4(w, 109, 117, 108, 105) {
        Some(Opcode::Muli)
    } else if word4(w, 98, 97, 110, 114) {
        Some(Opcode::Banr)
    } else if word4(w, 98, 97, 110, 105) {
        Some(Opcode::Bani)
    } else if word4(w, 98, 111, 114, 114) {
        Some(Opcode::Borr)
    } else if word4(w, 98, 111, 114, 105) {
        Some(Opcode::Bori)
    } else if word4(w, 115, 101, 116, 114) {
        Some(Opcode::Setr)
    } else if word4(w, 115, 101, 116, 105) {
        Some(Opcode::Seti)
    } else if word4(w, 103, 116, 105, 114) {
        Some(Opcode::Gtir)
    } else if word4(w, 103, 116, 114, 105) {
        Some(Opcode::Gtri)
    } else if word4(w, 103, 116, 114, 114) {
        Some(Opcode::Gtrr)
    } else if word4(w, 101, 113, 105, 114) {
        Some(Opcode::Eqir)
    } else if word4(w, 101, 113, 114, 105) {
        Some(Opcode::Eqri)
    } else if word4(w, 101, 113, 114, 114) {
        Some(Opcode::Eqrr)
    } else {
        None
    }
}

impl core::str::FromStr for Opcode {
    type Err = String;

    fn from_str(s: &str) -> Result<Opcode, String> {
        if !s.is_ascii() {
            return Err("invalid opcode".to_owned());
        }
        match opcode_from_name(s.as_bytes()) {
            Some(o) => Ok(o),
            None => {
                let mut message = "invalid opcode: ".to_owned();
                message.append(s);
                Err(message)
            },
        }
    }
}

/// A signed decimal literal whose value fits a 64-bit register.
pub open spec fn i64_text(s: Seq<u8>) -> bool {
    &&& text::int_text(s)
    &&& i64::MIN <= text::int_val(s) <= i64::MAX
}

/// An instruction line: exactly four blank-separated fields, the first a
/// mnemonic and the rest signed decimal operands.
pub open spec fn instr_line_ok(l: Seq<u8>) -> bool {
    let f = text::fields_of(l);
    &&& f.len() == 4
    &&& mnemonic_opcode(f[0]) is Some
    &&& i64_text(f[1])
    &&& i64_text(f[2])
    &&& i64_text(f[3])
}

/// The instruction an instruction line denotes.
pub open spec fn instr_of_line(l: Seq<u8>) -> Instruction {
    let f = text::fields_of(l);
    Instruction {
        opcode: match mnemonic_opcode(f[0]) {
            Some(o) => o,
            None => Opcode::Addr,
        },
        a: text::int_val(f[1]) as i64,
        b: text::int_val(f[2]) as i64,
        c: text::int_val(f[3]) as i64,
    }
}

/// Reads an instruction line, exactly as `instr_of_line` describes it:
/// defined for a mnemonic such as `addr` followed by three decimal
/// operands, and nothing else.
pub fn parse_instruction(line: &[u8]) -> (r: Option<Instruction>)
    ensures
        r is Some <==> instr_line_ok(line@),
        r matches Some(i) ==> i == instr_of_line(line@),
{
    let fields = text::split_fields(line);
    if fields.len() != 4 {
        return None;
    }
    let opcode = match opcode_from_name(fields[0].as_slice()) {
        Some(o) => o,
        None => {
            return None;
        },
    };
    let a = match text::parse_i64(fields[1].as_slice()) {
        Some(v) => v,
        None => {
            return None;
        },
    };
    let b = match text::parse_i64(fields[2].as_slice()) {
        Some(v) => v,
        None => {
            return None;
        },
    };
    let c = match text::parse_i64(fields[3].as_slice()) {
        Some(v) => v,
        None => {
            return None;
        },
    };
    Some(Instruction { opcode, a, b, c })
}

} // verus!
