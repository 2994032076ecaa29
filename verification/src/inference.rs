//! Recovering the meaning of numerically encoded opcodes from observed
//! behaviour.
//!
//! The evidence is a set of samples, each a register snapshot before and
//! after one instruction whose opcode is known only as a number `0..16`.
//! For one sample, several opcodes usually explain the transition; the
//! engine intersects the explanations per numeric code and then eliminates
//! opcodes already pinned to other codes until every code maps to exactly
//! one opcode, or reports that the evidence cannot be resolved.

use vstd::prelude::*;
use vstd::string::StringSliceAdditionalSpecFns;

use crate::instructions::{
    apply_spec, opcode_list, operands_in_range, Opcode, Registers,
};

verus! {

/// An instruction whose opcode is known only as a numeric code.
#[derive(Debug, Clone, Copy, PartialEq, Eq, Structural)]
pub struct UnknownOpcode {
    pub opcode: i32,
    pub a: i64,
    pub b: i64,
    pub c: i64,
}

/// A behavioural sample: registers before, one numerically coded
/// instruction, and the registers it produced.
#[derive(Debug, PartialEq, Eq)]
pub struct Sample {
    pub before: Registers,
    pub instruction: UnknownOpcode,
    pub after: Registers,
}

/// Opcode `o` explains the observed transition: the operands address real
/// registers under `o`'s interpretation, and applying `o` to the snapshot
/// before yields exactly the snapshot after.
pub open spec fn explains(o: Opcode, u: UnknownOpcode, before: Seq<i64>, after: Seq<i64>) -> bool {
    &&& operands_in_range(o, u.a, u.b, u.c, before.len())
    &&& apply_spec(o, u.a, u.b, u.c, before) == after
}

/// The opcodes among the first `k` of the canonical order that explain the
/// transition, kept in canonical order.
pub open spec fn explaining_prefix(k: int, u: UnknownOpcode, before: Seq<i64>, after: Seq<i64>) -> Seq<
    Opcode,
>
    decreases k,
{
    if k <= 0 {
        Seq::empty()
    } else {
        let rest = explaining_prefix(k - 1, u, before, after);
        if explains(opcode_list()[k - 1], u, before, after) {
            rest.push(opcode_list()[k - 1])
        } else {
            rest
        }
    }
}

/// All opcodes that explain the transition, in canonical order.
pub open spec fn behaves_like_spec(u: UnknownOpcode, before: Seq<i64>, after: Seq<i64>) -> Seq<
    Opcode,
> {
    explaining_prefix(16, u, before, after)
}

/// Membership in an explaining prefix is exactly "listed among the first
/// `k` opcodes and explains the transition".
proof fn lemma_explaining_prefix_contains(
    k: int,
    u: UnknownOpcode,
    before: Seq<i64>,
    after: Seq<i64>,
    o: Opcode,
)
    requires
        0 <= k <= 16,
    ensures
        explaining_prefix(k, u, before, after).contains(o) <==> exists|j: int|
            0 <= j < k && opcode_list()[j] == o && explains(o, u, before, after),
    decreases k,
{
    if k > 0 {
        lemma_explaining_prefix_contains(k - 1, u, before, after, o);
        let rest = explaining_prefix(k - 1, u, before, after);
        let cur = opcode_list()[k - 1];
        let whole = explaining_prefix(k, u, before, after);
        if explains(cur, u, before, after) {
            assert(whole == rest.push(cur));
            if whole.contains(o) {
                let j = choose|j: int| 0 <= j < whole.len() && whole[j] == o;
                if j < rest.len() {
                    assert(rest[j] == o);
                    assert(rest.contains(o));
                } else {
                    assert(o == cur);
                }
            }
            if exists|j: int| 0 <= j < k && opcode_list()[j] == o && explains(o, u, before, after) {
                let j = choose|j: int|
                    0 <= j < k && opcode_list()[j] == o && explains(o, u, before, after);
                if j < k - 1 {
                    assert(rest.contains(o));
                    let i = choose|i: int| 0 <= i < rest.len() && rest[i] == o;
                    assert(whole[i] == o);
                } else {
                    assert(whole[rest.len() as int] == o);
                }
                assert(whole.contains(o));
            }
        } else {
            assert(whole == rest);
            if exists|j: int| 0 <= j < k && opcode_list()[j] == o && explains(o, u, before, after) {
                let j = choose|j: int|
                    0 <= j < k && opcode_list()[j] == o && explains(o, u, before, after);
                assert(j != k - 1);
            }
        }
    }
}

/// Every opcode is listed in the canonical order.
pub proof fn lemma_opcode_list_complete(o: Opcode)
    ensures
        exists|j: int| 0 <= j < 16 && opcode_list()[j] == o,
{
    match o {
        Opcode::Addr => assert(opcode_list()[0] == o),
        Opcode::Addi => assert(opcode_list()[1] == o),
        Opcode::Mulr => assert(opcode_list()[2] == o),
        Opcode::Muli => assert(opcode_list()[3] == o),
        Opcode::Banr => assert(opcode_list()[4] == o),
        Opcode::Bani => assert(opcode_list()[5] == o),
        Opcode::Borr => assert(opcode_list()[6] == o),
        Opcode::Bori => assert(opcode_list()[7] == o),
        Opcode::Setr => assert(opcode_list()[8] == o),
        Opcode::Seti => assert(opcode_list()[9] == o),
        Opcode::Gtir => assert(opcode_list()[10] == o),
        Opcode::Gtri => assert(opcode_list()[11] == o),
        Opcode::Gtrr => assert(opcode_list()[12] == o),
        Opcode::Eqir => assert(opcode_list()[13] == o),
        Opcode::Eqri => assert(opcode_list()[14] == o),
        Opcode::Eqrr => assert(opcode_list()[15] == o),
    }
}

/// An opcode is in the full explanation list exactly when it explains the
/// transition.
pub proof fn lemma_behaves_like_contains(
    u: UnknownOpcode,
    before: Seq<i64>,
    after: Seq<i64>,
    o: Opcode,
)
    ensures
        behaves_like_spec(u, before, after).contains(o) <==> explains(o, u, before, after),
{
    lemma_explaining_prefix_contains(16, u, before, after, o);
    lemma_opcode_list_complete(o);
}

impl UnknownOpcode {
    /// Bundles a numeric code and its operands.
    pub fn new(opcode: i32, a: i64, b: i64, c: i64) -> (r: Self)
        ensures
            r == (UnknownOpcode { opcode, a, b, c }),
    {
        Self { opcode, a, b, c }
    }

    /// Every opcode that would turn `registers_before` into
    /// `registers_after` with this instruction's operands, in canonical
    /// order.  Ties are expected: one sample rarely pins its code down.
    pub fn behaves_like(&self, registers_before: &Registers, registers_after: &Registers) -> (r:
        Vec<Opcode>)
        ensures
            r@ == behaves_like_spec(*self, registers_before@, registers_after@),
    {
        let all = Opcode::iter();
        let n = registers_before.len();
        let mut out: Vec<Opcode> = Vec::new();
        for idx in 0..16usize
            invariant
                all@ == opcode_list(),
                n == registers_before@.len(),
                out@ == explaining_prefix(idx as int, *self, registers_before@, registers_after@),
        {
            let o = all[idx];
            let in_range = crate::instructions::operands_check(o, self.a, self.b, self.c, n);
            if in_range {
                let applied = o.apply(self.a, self.b, self.c, registers_before);
                if applied == *registers_after {
                    out.push(o);
                }
            }
        }
        out
    }
}

impl Sample {
    /// Bundles one observation.
    pub fn new(before: Registers, instruction: UnknownOpcode, after: Registers) -> (r: Self)
        ensures
            r.before@ == before@,
            r.instruction == instruction,
            r.after@ == after@,
    {
        Self { before, instruction, after }
    }
}

/// The sample's numeric code names one of the sixteen codes.
pub open spec fn code_in_range(s: Sample) -> bool {
    0 <= s.instruction.opcode < 16
}

/// Under mapping `m`, the opcode assigned to the sample's numeric code
/// explains the sample's transition.
pub open spec fn mapping_explains(m: Seq<Opcode>, s: Sample) -> bool {
    explains(m[s.instruction.opcode as int], s.instruction, s.before@, s.after@)
}

/// The candidate table as a mathematical value: one opcode sequence per
/// numeric code.
pub open spec fn cands_view(c: Seq<Vec<Opcode>>) -> Seq<Seq<Opcode>> {
    Seq::new(c.len(), |i: int| c[i]@)
}

/// Every candidate that the table still allows for a sample's code
/// explains that sample.  This is the soundness invariant of the whole
/// narrowing process: candidate sets only ever shrink, so it is kept by
/// both the intersection and the elimination phase.
pub open spec fn cands_sound(c: Seq<Seq<Opcode>>, samples: Seq<Sample>) -> bool {
    forall|k: int, o: Opcode|
        0 <= k < samples.len() && code_in_range(samples[k]) && c[samples[k].instruction.opcode
            as int].contains(o) ==> #[trigger] explains(
            o,
            samples[k].instruction,
            samples[k].before@,
            samples[k].after@,
        )
}

/// The opcodes already pinned down: sole members of singleton candidate
/// sets.
pub open spec fn resolved_opcodes(c: Seq<Seq<Opcode>>) -> Set<Opcode> {
    Set::new(
        |o: Opcode| exists|j: int| 0 <= j < c.len() && (#[trigger] c[j]).len() == 1 && c[j][0] == o,
    )
}

/// `s` with every member of `r` removed, keeping the order of the rest.
pub open spec fn remove_resolved(s: Seq<Opcode>, r: Set<Opcode>) -> Seq<Opcode>
    decreases s.len(),
{
    if s.len() == 0 {
        s
    } else {
        let rest = remove_resolved(s.drop_last(), r);
        if r.contains(s.last()) {
            rest
        } else {
            rest.push(s.last())
        }
    }
}

/// One elimination round: every still-ambiguous candidate set loses the
/// opcodes that other codes have already resolved; singleton sets stay as
/// they are.
pub open spec fn eliminate_round(c: Seq<Seq<Opcode>>) -> Seq<Seq<Opcode>> {
    Seq::new(
        c.len(),
        |i: int|
            if c[i].len() > 1 {
                remove_resolved(c[i], resolved_opcodes(c))
            } else {
                c[i]
            },
    )
}

/// Once every candidate set is a singleton, an extra elimination round
/// changes nothing: elimination only touches sets that still hold more
/// than one candidate, so the converged table is a fixed point.
pub proof fn lemma_elimination_idempotent(c: Seq<Seq<Opcode>>)
    requires
        forall|i: int| 0 <= i < c.len() ==> (#[trigger] c[i]).len() == 1,
    ensures
        eliminate_round(c) == c,
{
    assert(eliminate_round(c) =~= c);
}

/// Removing resolved opcodes never lengthens a candidate set, and leaves
/// it untouched exactly when it keeps its length.
proof fn lemma_remove_resolved_len(s: Seq<Opcode>, r: Set<Opcode>)
    ensures
        remove_resolved(s, r).len() <= s.len(),
        remove_resolved(s, r).len() == s.len() ==> remove_resolved(s, r) == s,
    decreases s.len(),
{
    if s.len() > 0 {
        lemma_remove_resolved_len(s.drop_last(), r);
        if !r.contains(s.last()) && remove_resolved(s, r).len() == s.len() {
            assert(remove_resolved(s.drop_last(), r) == s.drop_last());
            assert(remove_resolved(s, r) =~= s);
        }
    }
}

/// The starting candidate table: the full catalogue for each of the
/// sixteen codes.
pub open spec fn full_table() -> Seq<Seq<Opcode>> {
    Seq::new(16, |i: int| opcode_list())
}

/// Every sample names one of the sixteen codes.
pub open spec fn sample_codes_ok(samples: Seq<Sample>) -> bool {
    forall|k: int| 0 <= k < samples.len() ==> code_in_range(#[trigger] samples[k])
}

/// The candidate table after the first `k` samples: each sample
/// intersects its code's candidates with its explanation set.
pub open spec fn table_after(samples: Seq<Sample>, k: int) -> Seq<Seq<Opcode>>
    decreases k,
{
    if k <= 0 {
        full_table()
    } else {
        let prev = table_after(samples, k - 1);
        let s = samples[k - 1];
        let code = s.instruction.opcode as int;
        prev.update(
            code,
            intersect_keep(prev[code], behaves_like_spec(s.instruction, s.before@, s.after@)),
        )
    }
}

/// Some candidate set still holds more than one opcode.
pub open spec fn has_ambiguity(c: Seq<Seq<Opcode>>) -> bool {
    exists|i: int| 0 <= i < c.len() && (#[trigger] c[i]).len() > 1
}

/// Up to `fuel` elimination rounds, stopping as soon as no ambiguity is
/// left or a round changes nothing (a stall).
pub open spec fn elim_steps(c: Seq<Seq<Opcode>>, fuel: nat) -> Seq<Seq<Opcode>>
    decreases fuel,
{
    if fuel == 0 || !has_ambiguity(c) || eliminate_round(c) == c {
        c
    } else {
        elim_steps(eliminate_round(c), (fuel - 1) as nat)
    }
}

/// The candidate table resolution ends with: the per-code intersections,
/// eliminated for up to sixteen rounds.
pub open spec fn final_table(samples: Seq<Sample>) -> Seq<Seq<Opcode>> {
    elim_steps(table_after(samples, samples.len() as int), 16)
}

/// Resolution succeeds exactly when every code is in range and the final
/// table holds sixteen pairwise-distinct singletons.
pub open spec fn resolution_succeeds(samples: Seq<Sample>) -> bool {
    &&& sample_codes_ok(samples)
    &&& forall|i: int| 0 <= i < 16 ==> (#[trigger] final_table(samples)[i]).len() == 1
    &&& forall|i: int, j: int|
        0 <= i < 16 && 0 <= j < 16 && i != j ==> final_table(samples)[i][0] != final_table(
            samples,
        )[j][0]
}

/// The mapping a successful resolution reads off the final table.
pub open spec fn resolved_mapping_of(samples: Seq<Sample>) -> Seq<Opcode> {
    Seq::new(16, |i: int| final_table(samples)[i][0])
}

/// Opcode `o` explains every listed sample with the given code.
pub open spec fn explains_all(o: Opcode, samples: Seq<Sample>, code: int) -> bool {
    forall|k: int|
        0 <= k < samples.len() && (#[trigger] samples[k]).instruction.opcode == code ==> explains(
            o,
            samples[k].instruction,
            samples[k].before@,
            samples[k].after@,
        )
}

/// The members of `l`, in order, that explain every sample with the code.
pub open spec fn surviving(l: Seq<Opcode>, samples: Seq<Sample>, code: int) -> Seq<Opcode>
    decreases l.len(),
{
    if l.len() == 0 {
        l
    } else {
        let rest = surviving(l.drop_last(), samples, code);
        if explains_all(l.last(), samples, code) {
            rest.push(l.last())
        } else {
            rest
        }
    }
}

/// Survival depends only on what `explains_all` says of each opcode.
proof fn lemma_surviving_congruent(
    l: Seq<Opcode>,
    ss1: Seq<Sample>,
    c1: int,
    ss2: Seq<Sample>,
    c2: int,
)
    requires
        forall|o: Opcode| #[trigger] explains_all(o, ss1, c1) == explains_all(o, ss2, c2),
    ensures
        surviving(l, ss1, c1) == surviving(l, ss2, c2),
    decreases l.len(),
{
    if l.len() > 0 {
        lemma_surviving_congruent(l.drop_last(), ss1, c1, ss2, c2);
    }
}

/// With no samples, every opcode survives.
proof fn lemma_surviving_of_empty(l: Seq<Opcode>, samples: Seq<Sample>, code: int)
    requires
        samples.len() == 0,
    ensures
        surviving(l, samples, code) == l,
    decreases l.len(),
{
    if l.len() > 0 {
        lemma_surviving_of_empty(l.drop_last(), samples, code);
        assert(surviving(l, samples, code) =~= l);
    }
}

/// Intersecting the survivors with one more sample's explanation set is
/// the same as surviving that sample too.
proof fn lemma_intersect_surviving(l: Seq<Opcode>, ss: Seq<Sample>, c: int, s: Sample)
    requires
        s.instruction.opcode == c,
    ensures
        intersect_keep(
            surviving(l, ss, c),
            behaves_like_spec(s.instruction, s.before@, s.after@),
        ) == surviving(l, ss.push(s), c),
    decreases l.len(),
{
    if l.len() > 0 {
        lemma_intersect_surviving(l.drop_last(), ss, c, s);
        let o = l.last();
        let rest = surviving(l.drop_last(), ss, c);
        let bl = behaves_like_spec(s.instruction, s.before@, s.after@);
        lemma_behaves_like_contains(s.instruction, s.before@, s.after@, o);
        assert(explains_all(o, ss.push(s), c) == (explains_all(o, ss, c) && explains(
            o,
            s.instruction,
            s.before@,
            s.after@,
        ))) by {
            if explains_all(o, ss, c) && explains(o, s.instruction, s.before@, s.after@) {
                assert forall|k: int|
                    0 <= k < ss.push(s).len() && (#[trigger] ss.push(s)[k]).instruction.opcode
                        == c implies explains(
                    o,
                    ss.push(s)[k].instruction,
                    ss.push(s)[k].before@,
                    ss.push(s)[k].after@,
                ) by {
                    if k < ss.len() {
                        assert(ss.push(s)[k] == ss[k]);
                    } else {
                        assert(ss.push(s)[k] == s);
                    }
                }
            }
            if explains_all(o, ss.push(s), c) {
                assert forall|k: int|
                    0 <= k < ss.len() && (#[trigger] ss[k]).instruction.opcode == c implies explains(
                    o,
                    ss[k].instruction,
                    ss[k].before@,
                    ss[k].after@,
                ) by {
                    assert(ss.push(s)[k] == ss[k]);
                }
                assert(ss.push(s)[ss.len() as int] == s);
            }
        }
        if explains_all(o, ss, c) {
            assert(surviving(l, ss, c) == rest.push(o));
            assert(rest.push(o).drop_last() =~= rest);
            assert(rest.push(o).last() == o);
        }
    }
}

/// The sequential per-sample intersections compute exactly the survivor
/// list: the opcodes consistent with every sample of each code, in
/// canonical order.  The table is thus a function of which samples are
/// present, not of their order.
pub proof fn lemma_table_characterized(samples: Seq<Sample>, k: int)
    requires
        0 <= k <= samples.len(),
        forall|j: int| 0 <= j < k ==> code_in_range(#[trigger] samples[j]),
    ensures
        forall|c: int|
            0 <= c < 16 ==> table_after(samples, k)[c] == surviving(
                opcode_list(),
                samples.take(k),
                c,
            ),
    decreases k,
{
    lemma_table_after_len(samples, k);
    if k == 0 {
        assert forall|c: int| 0 <= c < 16 implies table_after(samples, 0)[c] == surviving(
            opcode_list(),
            samples.take(0),
            c,
        ) by {
            lemma_surviving_of_empty(opcode_list(), samples.take(0), c);
        }
    } else {
        lemma_table_characterized(samples, k - 1);
        lemma_table_after_len(samples, k - 1);
        let s = samples[k - 1];
        let cs = s.instruction.opcode as int;
        assert(samples.take(k).drop_last() =~= samples.take(k - 1));
        assert(samples.take(k) =~= samples.take(k - 1).push(s));
        assert forall|c: int| 0 <= c < 16 implies table_after(samples, k)[c] == surviving(
            opcode_list(),
            samples.take(k),
            c,
        ) by {
            if c == cs {
                lemma_intersect_surviving(opcode_list(), samples.take(k - 1), c, s);
            } else {
                assert(table_after(samples, k)[c] == table_after(samples, k - 1)[c]);
                assert forall|o: Opcode| #[trigger] explains_all(o, samples.take(k - 1), c)
                    == explains_all(o, samples.take(k), c) by {
                    if explains_all(o, samples.take(k - 1), c) {
                        assert forall|j: int|
                            0 <= j < samples.take(k).len() && (#[trigger] samples.take(
                                k,
                            )[j]).instruction.opcode == c implies explains(
                            o,
                            samples.take(k)[j].instruction,
                            samples.take(k)[j].before@,
                            samples.take(k)[j].after@,
                        ) by {
                            assert(j != k - 1);
                            assert(samples.take(k)[j] == samples.take(k - 1)[j]);
                        }
                    }
                    if explains_all(o, samples.take(k), c) {
                        assert forall|j: int|
                            0 <= j < samples.take(k - 1).len() && (#[trigger] samples.take(
                                k - 1,
                            )[j]).instruction.opcode == c implies explains(
                            o,
                            samples.take(k - 1)[j].instruction,
                            samples.take(k - 1)[j].before@,
                            samples.take(k - 1)[j].after@,
                        ) by {
                            assert(samples.take(k)[j] == samples.take(k - 1)[j]);
                        }
                    }
                }
                lemma_surviving_congruent(
                    opcode_list(),
                    samples.take(k - 1),
                    c,
                    samples.take(k),
                    c,
                );
            }
        }
    }
}

/// Resolution does not depend on the order the samples arrive in: two
/// sample lists with the same multiset succeed together and resolve to
/// the same mapping, because each code's candidates are the opcodes
/// consistent with every one of its samples.
pub proof fn lemma_resolution_order_independent(s1: Seq<Sample>, s2: Seq<Sample>)
    requires
        s1.to_multiset() == s2.to_multiset(),
    ensures
        resolution_succeeds(s1) == resolution_succeeds(s2),
        resolution_succeeds(s1) ==> resolved_mapping_of(s1) == resolved_mapping_of(s2),
{
    s1.to_multiset_ensures();
    s2.to_multiset_ensures();
    assert(s1.len() == s2.len());
    assert forall|x: Sample| s1.contains(x) == s2.contains(x) by {
        assert(s1.contains(x) <==> s1.to_multiset().count(x) > 0);
        assert(s2.contains(x) <==> s2.to_multiset().count(x) > 0);
    }
    assert(sample_codes_ok(s1) == sample_codes_ok(s2)) by {
        if sample_codes_ok(s1) {
            assert forall|k: int| 0 <= k < s2.len() implies code_in_range(
                #[trigger] s2[k],
            ) by {
                assert(s2.contains(s2[k]));
                let j = choose|j: int| 0 <= j < s1.len() && s1[j] == s2[k];
            }
        }
        if sample_codes_ok(s2) {
            assert forall|k: int| 0 <= k < s1.len() implies code_in_range(
                #[trigger] s1[k],
            ) by {
                assert(s1.contains(s1[k]));
                let j = choose|j: int| 0 <= j < s2.len() && s2[j] == s1[k];
            }
        }
    }
    if sample_codes_ok(s1) {
        lemma_table_characterized(s1, s1.len() as int);
        lemma_table_characterized(s2, s2.len() as int);
        assert(s1.take(s1.len() as int) =~= s1);
        assert(s2.take(s2.len() as int) =~= s2);
        assert forall|o: Opcode, c: int| #[trigger] explains_all(o, s1, c) == explains_all(
            o,
            s2,
            c,
        ) by {
            if explains_all(o, s1, c) {
                assert forall|k: int|
                    0 <= k < s2.len() && (#[trigger] s2[k]).instruction.opcode == c implies explains(
                    o,
                    s2[k].instruction,
                    s2[k].before@,
                    s2[k].after@,
                ) by {
                    assert(s2.contains(s2[k]));
                    let j = choose|j: int| 0 <= j < s1.len() && s1[j] == s2[k];
                }
            }
            if explains_all(o, s2, c) {
                assert forall|k: int|
                    0 <= k < s1.len() && (#[trigger] s1[k]).instruction.opcode == c implies explains(
                    o,
                    s1[k].instruction,
                    s1[k].before@,
                    s1[k].after@,
                ) by {
                    assert(s1.contains(s1[k]));
                    let j = choose|j: int| 0 <= j < s2.len() && s2[j] == s1[k];
                }
            }
        }
        lemma_table_after_len(s1, s1.len() as int);
        lemma_table_after_len(s2, s2.len() as int);
        assert forall|c: int| 0 <= c < 16 implies table_after(s1, s1.len() as int)[c]
            == table_after(s2, s2.len() as int)[c] by {
            lemma_surviving_congruent(opcode_list(), s1, c, s2, c);
        }
        assert(table_after(s1, s1.len() as int) =~= table_after(s2, s2.len() as int));
        assert(final_table(s1) == final_table(s2));
    }
}

/// The register-0 outcome the resolved mapping produces is likewise
/// independent of the samples' order: two sample lists with the same
/// multiset drive any program to the same result.
pub proof fn lemma_outcome_order_independent(
    s1: Seq<Sample>,
    s2: Seq<Sample>,
    program: Seq<UnknownOpcode>,
)
    requires
        s1.to_multiset() == s2.to_multiset(),
        resolution_succeeds(s1),
    ensures
        resolution_succeeds(s2),
        run_program(resolved_mapping_of(s1), program, zero_regs(4)) == run_program(
            resolved_mapping_of(s2),
            program,
            zero_regs(4),
        ),
{
    lemma_resolution_order_independent(s1, s2);
}

/// The candidate table keeps its sixteen rows through the intersections.
proof fn lemma_table_after_len(samples: Seq<Sample>, k: int)
    requires
        k <= samples.len(),
        forall|j: int| 0 <= j < k ==> code_in_range(#[trigger] samples[j]),
    ensures
        table_after(samples, k).len() == 16,
    decreases k,
{
    if k > 0 {
        lemma_table_after_len(samples, k - 1);
    }
}

/// Whether `v` lists `o`.
fn contains_opcode(v: &Vec<Opcode>, o: Opcode) -> (r: bool)
    ensures
        r == v@.contains(o),
{
    let n = v.len();
    for i in 0..n
        invariant
            n == v@.len(),
            forall|j: int| 0 <= j < i ==> v@[j] != o,
    {
        if v[i] == o {
            assert(v@[i as int] == o);
            return true;
        }
    }
    false
}

/// The members of `current` that `allowed` also lists, keeping the order
/// of `current`.
pub open spec fn intersect_keep(current: Seq<Opcode>, allowed: Seq<Opcode>) -> Seq<Opcode>
    decreases current.len(),
{
    if current.len() == 0 {
        current
    } else {
        let rest = intersect_keep(current.drop_last(), allowed);
        if allowed.contains(current.last()) {
            rest.push(current.last())
        } else {
            rest
        }
    }
}

/// The members of `current` that `allowed` also lists, exactly as
/// `intersect_keep` describes them.
fn intersect_candidates(current: &Vec<Opcode>, allowed: &Vec<Opcode>) -> (r: Vec<Opcode>)
    ensures
        r@ == intersect_keep(current@, allowed@),
        forall|j: int|
            0 <= j < r@.len() ==> current@.contains(#[trigger] r@[j]) && allowed@.contains(r@[j]),
{
    let n = current.len();
    let mut out: Vec<Opcode> = Vec::new();
    for i in 0..n
        invariant
            n == current@.len(),
            out@ == intersect_keep(current@.take(i as int), allowed@),
            forall|j: int|
                0 <= j < out@.len() ==> current@.contains(#[trigger] out@[j]) && allowed@.contains(
                    out@[j],
                ),
    {
        let o = current[i];
        proof {
            assert(current@.take(i + 1).drop_last() =~= current@.take(i as int));
            assert(current@.take(i + 1).last() == current@[i as int]);
        }
        if contains_opcode(allowed, o) {
            assert(current@[i as int] == o);
            out.push(o);
        }
    }
    proof {
        assert(current@.take(n as int) =~= current@);
    }
    out
}

/// One elimination round over the candidate table, exactly as
/// `eliminate_round` describes it.  Returns whether anything was removed.
fn elimination_pass(cands: Vec<Vec<Opcode>>) -> (r: (Vec<Vec<Opcode>>, bool))
    requires
        cands@.len() == 16,
    ensures
        r.0@.len() == 16,
        cands_view(r.0@) == eliminate_round(cands_view(cands@)),
        r.1 <==> cands_view(r.0@) != cands_view(cands@),
{
    let ghost old_view = cands_view(cands@);
    let ghost rset = resolved_opcodes(old_view);
    // Collect the sole members of the singleton sets.
    let mut resolved: Vec<Opcode> = Vec::new();
    for i in 0..16usize
        invariant
            cands@.len() == 16,
            old_view == cands_view(cands@),
            rset == resolved_opcodes(old_view),
            forall|j: int|
                0 <= j < resolved@.len() ==> rset.contains(#[trigger] resolved@[j]),
            forall|j: int|
                0 <= j < i && old_view[j].len() == 1 ==> resolved@.contains(
                    #[trigger] old_view[j][0],
                ),
    {
        if cands[i].len() == 1 {
            let o = cands[i][0];
            assert(old_view[i as int].len() == 1 && old_view[i as int][0] == o);
            let ghost pre = resolved@;
            let len0 = resolved.len();
            resolved.push(o);
            assert(resolved@[len0 as int] == o);
            proof {
                assert forall|j: int|
                    0 <= j < i + 1 && old_view[j].len() == 1 implies resolved@.contains(
                    #[trigger] old_view[j][0],
                ) by {
                    if j < i {
                        assert(pre.contains(old_view[j][0]));
                        let idx = choose|idx: int| 0 <= idx < pre.len() && pre[idx] == old_view[j][0];
                        assert(resolved@[idx] == old_view[j][0]);
                    } else {
                        assert(resolved@[len0 as int] == old_view[j][0]);
                    }
                }
            }
        }
    }
    proof {
        assert forall|o: Opcode| resolved@.contains(o) implies rset.contains(o) by {
            let j = choose|j: int| 0 <= j < resolved@.len() && resolved@[j] == o;
        }
        assert forall|o: Opcode| rset.contains(o) implies resolved@.contains(o) by {
            let j = choose|j: int|
                0 <= j < old_view.len() && (#[trigger] old_view[j]).len() == 1 && old_view[j][0]
                    == o;
        }
    }
    // Strip the resolved opcodes from every still-ambiguous set.
    let mut next: Vec<Vec<Opcode>> = Vec::new();
    let mut changed = false;
    for i in 0..16usize
        invariant
            cands@.len() == 16,
            next@.len() == i,
            forall|o: Opcode| #[trigger] resolved@.contains(o) == rset.contains(o),
            forall|j: int|
                0 <= j < i ==> next@[j]@ == eliminate_round(old_view)[j],
            !changed ==> forall|j: int| 0 <= j < i ==> next@[j]@ == old_view[j],
            changed ==> exists|j: int|
                0 <= j < next@.len() && (#[trigger] next@[j])@.len() != old_view[j].len(),
            old_view == cands_view(cands@),
            rset == resolved_opcodes(old_view),
    {
        let ghost changed_before = changed;
        let ghost next_before = next@;
        let current = &cands[i];
        if current.len() > 1 {
            let m = current.len();
            let mut kept: Vec<Opcode> = Vec::new();
            for j in 0..m
                invariant
                    m == current@.len(),
                    old_view.len() == 16,
                    i < 16,
                    current@ == old_view[i as int],
                    forall|o: Opcode| #[trigger] resolved@.contains(o) == rset.contains(o),
                    kept@ == remove_resolved(current@.take(j as int), rset),
            {
                let o = current[j];
                proof {
                    assert(current@.take(j + 1).drop_last() =~= current@.take(j as int));
                    assert(current@.take(j + 1).last() == current@[j as int]);
                }
                if !contains_opcode(&resolved, o) {
                    kept.push(o);
                }
            }
            proof {
                assert(current@.take(m as int) =~= current@);
            }
            if kept.len() != current.len() {
                changed = true;
            } else {
                proof {
                    lemma_remove_resolved_len(current@, rset);
                }
            }
            next.push(kept);
        } else {
            next.push(current.clone());
            assert(next@[i as int]@ =~= old_view[i as int]);
        }
        assert(next@[i as int]@ == eliminate_round(old_view)[i as int]);
        proof {
            if changed {
                if changed_before {
                    let j = choose|j: int|
                        0 <= j < next_before.len() && (#[trigger] next_before[j])@.len()
                            != old_view[j].len();
                    assert(next@[j] == next_before[j]);
                } else {
                    assert(next@[i as int]@.len() != old_view[i as int].len());
                }
            }
        }
    }
    proof {
        assert(cands_view(next@) =~= eliminate_round(old_view));
        if !changed {
            assert(cands_view(next@) =~= old_view);
        } else {
            let j = choose|j: int|
                0 <= j < next@.len() && (#[trigger] next@[j])@.len() != old_view[j].len();
            assert(cands_view(next@)[j].len() != old_view[j].len());
            assert(cands_view(next@) != old_view);
        }
    }
    (next, changed)
}

/// Some numeric code is assigned opcode `o` by mapping `m`.
pub open spec fn assigned(m: Seq<Opcode>, o: Opcode) -> bool {
    exists|i: int| 0 <= i < 16 && #[trigger] m[i] == o
}

/// Sixteen pairwise-distinct opcodes out of a sixteen-member catalogue
/// leave none out: an injective assignment of the numeric codes is
/// automatically surjective.
pub proof fn lemma_distinct_sixteen_covers(m: Seq<Opcode>)
    requires
        m.len() == 16,
        forall|i: int, j: int| 0 <= i < 16 && 0 <= j < 16 && i != j ==> m[i] != m[j],
    ensures
        forall|o: Opcode| #[trigger] assigned(m, o),
{
    assert(m.no_duplicates());
    m.unique_seq_to_set();
    let all = opcode_list();
    assert(all.no_duplicates());
    all.unique_seq_to_set();
    assert forall|o: Opcode| #[trigger] assigned(m, o) by {
        lemma_opcode_list_complete(o);
        assert(all.contains(o));
        if !m.contains(o) {
            let shrunk = all.to_set().remove(o);
            assert forall|x: Opcode| m.to_set().contains(x) implies shrunk.contains(x) by {
                lemma_opcode_list_complete(x);
                assert(all.contains(x));
            }
            vstd::set_lib::lemma_len_subset(m.to_set(), shrunk);
            assert(false);
        }
        let i = choose|i: int| 0 <= i < m.len() && m[i] == o;
    }
}

/// Narrows the numeric-code-to-opcode relation that `samples` witness to a
/// bijection.  Each code's candidates start as the full catalogue and are
/// intersected with every matching sample's explanation set; elimination
/// rounds then strip opcodes that other codes have pinned down, at most
/// sixteen rounds, as a round that removes nothing can never make
/// progress.  Success comes exactly when that process - `final_table` -
/// ends in sixteen pairwise-distinct singletons, and the mapping read off
/// it is a true bijection that assigns every sample's code an opcode
/// explaining that sample.  A sample whose code is outside `0..16`, a
/// stalled elimination, an empty candidate set and a tie between codes
/// are the failures, and exactly they are reported as errors.
pub fn resolve_mapping(samples: &Vec<Sample>) -> (r: Result<Vec<Opcode>, String>)
    ensures
        r is Ok <==> resolution_succeeds(samples@),
        r matches Ok(m) ==> {
            &&& m@ == resolved_mapping_of(samples@)
            &&& m@.len() == 16
            &&& forall|i: int, j: int| 0 <= i < 16 && 0 <= j < 16 && i != j ==> m@[i] != m@[j]
            &&& forall|o: Opcode| #[trigger] assigned(m@, o)
            &&& forall|k: int| 0 <= k < samples@.len() ==> code_in_range(#[trigger] samples@[k])
            &&& forall|k: int|
                0 <= k < samples@.len() ==> mapping_explains(m@, #[trigger] samples@[k])
        },
{
    let mut cands: Vec<Vec<Opcode>> = Vec::new();
    for i in 0..16usize
        invariant
            cands@.len() == i,
            forall|j: int| 0 <= j < i ==> (#[trigger] cands@[j])@ == opcode_list(),
    {
        cands.push(Opcode::iter());
    }
    proof {
        assert(cands_view(cands@) =~= full_table());
        assert(cands_view(cands@) == table_after(samples@, 0));
    }
    // Intersect each code's candidates with the explanations of its samples.
    let n = samples.len();
    for k in 0..n
        invariant
            n == samples@.len(),
            cands@.len() == 16,
            forall|j: int| 0 <= j < k ==> code_in_range(#[trigger] samples@[j]),
            cands_view(cands@) == table_after(samples@, k as int),
            cands_sound(cands_view(cands@), samples@.take(k as int)),
    {
        let s = &samples[k];
        let code = s.instruction.opcode;
        if code < 0 || code >= 16 {
            proof {
                assert(!code_in_range(samples@[k as int]));
                assert(!sample_codes_ok(samples@));
            }
            return Err("sample has an opcode code outside 0..16".to_owned());
        }
        let allowed = s.instruction.behaves_like(&s.before, &s.after);
        let ghost before_view = cands_view(cands@);
        let merged = intersect_candidates(&cands[code as usize], &allowed);
        cands.set(code as usize, merged);
        proof {
            assert(cands_view(cands@) =~= table_after(samples@, k + 1));
            let cv = cands_view(cands@);
            assert forall|j: int, o: Opcode|
                0 <= j < samples@.take(k + 1).len() && code_in_range(samples@.take(k + 1)[j])
                    && cv[samples@.take(k + 1)[j].instruction.opcode as int].contains(o) implies
                #[trigger] explains(
                o,
                samples@.take(k + 1)[j].instruction,
                samples@.take(k + 1)[j].before@,
                samples@.take(k + 1)[j].after@,
            ) by {
                let sj = samples@.take(k + 1)[j];
                let cj = sj.instruction.opcode as int;
                if cj == code {
                    assert(cv[cj] == merged@);
                    assert(merged@.contains(o));
                    let idx = choose|idx: int| 0 <= idx < merged@.len() && merged@[idx] == o;
                    assert(allowed@.contains(o));
                    lemma_behaves_like_contains(s.instruction, s.before@, s.after@, o);
                    if j < k {
                        assert(before_view[cj].contains(o));
                    }
                } else {
                    assert(cv[cj] == before_view[cj]);
                }
            }
        }
    }
    proof {
        assert(samples@.take(n as int) =~= samples@);
    }
    let ghost table0 = cands_view(cands@);
    proof {
        assert(table0 == table_after(samples@, samples@.len() as int));
    }
    // Eliminate: strip resolved opcodes until every set is a singleton.
    let mut round: usize = 0;
    while round < 16
        invariant
            round <= 16,
            cands@.len() == 16,
            table0 == table_after(samples@, samples@.len() as int),
            elim_steps(table0, 16) == elim_steps(cands_view(cands@), (16 - round) as nat),
            cands_sound(cands_view(cands@), samples@),
            forall|j: int| 0 <= j < samples@.len() ==> code_in_range(#[trigger] samples@[j]),
        ensures
            cands@.len() == 16,
            final_table(samples@) == cands_view(cands@),
            cands_sound(cands_view(cands@), samples@),
            forall|j: int| 0 <= j < samples@.len() ==> code_in_range(#[trigger] samples@[j]),
        decreases 16 - round,
    {
        let mut ambiguous = false;
        for i in 0..16usize
            invariant
                cands@.len() == 16,
                ambiguous == exists|j: int| 0 <= j < i && cands_view(cands@)[j].len() > 1,
        {
            if cands[i].len() > 1 {
                assert(cands_view(cands@)[i as int].len() > 1);
                ambiguous = true;
            }
        }
        if !ambiguous {
            proof {
                assert(!has_ambiguity(cands_view(cands@)));
                assert(elim_steps(cands_view(cands@), (16 - round) as nat) == cands_view(cands@));
            }
            break ;
        }
        assert(has_ambiguity(cands_view(cands@)));
        let ghost pre_view = cands_view(cands@);
        let (next, changed) = elimination_pass(cands);
        cands = next;
        proof {
            let cv = cands_view(cands@);
            assert forall|k: int, o: Opcode|
                0 <= k < samples@.len() && code_in_range(samples@[k])
                    && cv[samples@[k].instruction.opcode as int].contains(o) implies #[trigger]
            explains(
                o,
                samples@[k].instruction,
                samples@[k].before@,
                samples@[k].after@,
            ) by {
                let cj = samples@[k].instruction.opcode as int;
                assert(cv[cj] == eliminate_round(pre_view)[cj]);
                if pre_view[cj].len() > 1 {
                    let idx = choose|idx: int| 0 <= idx < cv[cj].len() && cv[cj][idx] == o;
                    lemma_remove_resolved_contains(pre_view[cj], resolved_opcodes(pre_view), o);
                } else {
                    assert(cv[cj] == pre_view[cj]);
                }
            }
        }
        if !changed {
            proof {
                // The round removed nothing: the process stalls here.
                assert(eliminate_round(pre_view) == pre_view);
                assert(elim_steps(pre_view, (16 - round) as nat) == pre_view);
                assert(final_table(samples@) == pre_view);
                let i = choose|i: int| 0 <= i < pre_view.len() && (#[trigger] pre_view[i]).len() > 1;
                assert(final_table(samples@)[i].len() > 1);
                assert(!resolution_succeeds(samples@));
            }
            return Err("unresolvable opcode mapping".to_owned());
        }
        proof {
            assert(eliminate_round(pre_view) != pre_view);
            assert(elim_steps(pre_view, (16 - round) as nat) == elim_steps(
                cands_view(cands@),
                (16 - (round + 1)) as nat,
            ));
        }
        round = round + 1;
    }
    // Read off the mapping and insist on a bijection.
    let ghost ft = cands_view(cands@);
    let mut mapping: Vec<Opcode> = Vec::new();
    for i in 0..16usize
        invariant
            cands@.len() == 16,
            mapping@.len() == i,
            ft == cands_view(cands@),
            ft == final_table(samples@),
            cands_sound(cands_view(cands@), samples@),
            forall|j: int| 0 <= j < samples@.len() ==> code_in_range(#[trigger] samples@[j]),
            forall|j: int| 0 <= j < i ==> (#[trigger] ft[j]).len() == 1,
            forall|j: int| 0 <= j < i ==> #[trigger] mapping@[j] == ft[j][0],
            forall|j: int|
                0 <= j < i ==> cands_view(cands@)[j].contains(#[trigger] mapping@[j]),
    {
        if cands[i].len() != 1 {
            proof {
                // A set that is empty or still ambiguous blocks success.
                assert(final_table(samples@)[i as int].len() != 1);
                assert(!resolution_succeeds(samples@));
            }
            return Err("unresolvable opcode mapping".to_owned());
        }
        let o = cands[i][0];
        assert(cands_view(cands@)[i as int][0] == o);
        mapping.push(o);
    }
    for i in 0..16usize
        invariant
            mapping@.len() == 16,
            ft == final_table(samples@),
            forall|j: int| 0 <= j < 16 ==> (#[trigger] ft[j]).len() == 1,
            forall|j: int| 0 <= j < 16 ==> #[trigger] mapping@[j] == ft[j][0],
            forall|a: int, b: int| 0 <= a < i && 0 <= b < 16 && a != b ==> mapping@[a] != mapping@[b],
        ensures
            forall|a: int, b: int|
                0 <= a < 16 && 0 <= b < 16 && a != b ==> mapping@[a] != mapping@[b],
    {
        for j in 0..16usize
            invariant
                mapping@.len() == 16,
                i < 16,
                ft == final_table(samples@),
                forall|z: int| 0 <= z < 16 ==> #[trigger] mapping@[z] == ft[z][0],
                forall|b: int| 0 <= b < j && i != b ==> mapping@[i as int] != mapping@[b],
        {
            if j != i && mapping[i] == mapping[j] {
                proof {
                    // Two codes tied to the same opcode block success.
                    assert(final_table(samples@)[i as int][0] == final_table(samples@)[j as int][
                        0]);
                    assert(!resolution_succeeds(samples@));
                }
                return Err("two opcode codes resolved to the same opcode".to_owned());
            }
        }
    }
    proof {
        lemma_distinct_sixteen_covers(mapping@);
        assert forall|k: int| 0 <= k < samples@.len() implies mapping_explains(
            mapping@,
            #[trigger] samples@[k],
        ) by {
            let cj = samples@[k].instruction.opcode as int;
            assert(cands_view(cands@)[cj].contains(mapping@[cj]));
        }
        assert forall|i: int| 0 <= i < 16 implies (#[trigger] final_table(samples@)[i]).len()
            == 1 by {
            assert(ft[i].len() == 1);
        }
        assert forall|i: int, j: int|
            0 <= i < 16 && 0 <= j < 16 && i != j implies final_table(samples@)[i][0] != final_table(
            samples@,
        )[j][0] by {
            assert(mapping@[i] == ft[i][0] && mapping@[j] == ft[j][0]);
        }
        assert(resolution_succeeds(samples@));
        assert(mapping@ =~= resolved_mapping_of(samples@));
    }
    Ok(mapping)
}

/// Membership survives `remove_resolved` exactly for opcodes outside the
/// removed set.
proof fn lemma_remove_resolved_contains(s: Seq<Opcode>, r: Set<Opcode>, o: Opcode)
    ensures
        remove_resolved(s, r).contains(o) <==> s.contains(o) && !r.contains(o),
    decreases s.len(),
{
    if s.len() > 0 {
        lemma_remove_resolved_contains(s.drop_last(), r, o);
        let rest = remove_resolved(s.drop_last(), r);
        let whole = remove_resolved(s, r);
        if whole.contains(o) {
            let j = choose|j: int| 0 <= j < whole.len() && whole[j] == o;
            if r.contains(s.last()) {
                assert(rest.contains(o));
            } else {
                if j < rest.len() {
                    assert(rest[j] == o);
                    assert(rest.contains(o));
                } else {
                    assert(o == s.last());
                }
            }
            if rest.contains(o) {
                assert(s.drop_last().contains(o));
                let x = choose|x: int| 0 <= x < s.drop_last().len() && s.drop_last()[x] == o;
                assert(s[x] == o);
            } else {
                assert(s.contains(o)) by {
                    assert(s[s.len() - 1] == o);
                }
            }
        }
        if s.contains(o) && !r.contains(o) {
            let j = choose|j: int| 0 <= j < s.len() && s[j] == o;
            if j < s.len() - 1 {
                assert(s.drop_last()[j] == o);
                assert(s.drop_last().contains(o));
                assert(rest.contains(o));
                let x = choose|x: int| 0 <= x < rest.len() && rest[x] == o;
                if !r.contains(s.last()) {
                    assert(rest.push(s.last())[x] == o);
                }
            } else {
                assert(o == s.last());
                assert(whole == rest.push(o));
                assert(whole[rest.len() as int] == o);
            }
        }
    }
}

/// A file of `n` zeroed registers.
pub open spec fn zero_regs(n: nat) -> Seq<i64> {
    Seq::new(n, |i: int| 0i64)
}

/// Under mapping `m`, every instruction of `prog` names a code in `0..16`
/// and addresses only registers of a file of `n`.
pub open spec fn program_valid(m: Seq<Opcode>, prog: Seq<UnknownOpcode>, n: nat) -> bool {
    forall|k: int|
        0 <= k < prog.len() ==> 0 <= (#[trigger] prog[k]).opcode < 16 && operands_in_range(
            m[prog[k].opcode as int],
            prog[k].a,
            prog[k].b,
            prog[k].c,
            n,
        )
}

/// The registers left after translating each instruction through `m` and
/// folding the opcodes over `regs` in program order.
pub open spec fn run_program(m: Seq<Opcode>, prog: Seq<UnknownOpcode>, regs: Seq<i64>) -> Seq<i64>
    decreases prog.len(),
{
    if prog.len() == 0 {
        regs
    } else {
        let u = prog[0];
        run_program(
            m,
            prog.drop_first(),
            apply_spec(m[u.opcode as int], u.a, u.b, u.c, regs),
        )
    }
}

/// Translates each numerically coded instruction through `mapping`, folds
/// the opcodes over a fresh zeroed file of `register_count` registers, and
/// returns the final snapshot.  Succeeds exactly when every instruction
/// names a code in `0..16` and addresses only existing registers.
pub fn execute_unknown_program(
    mapping: &Vec<Opcode>,
    program: &Vec<UnknownOpcode>,
    register_count: usize,
) -> (r: Result<Registers, String>)
    requires
        mapping@.len() == 16,
    ensures
        r is Ok <==> program_valid(mapping@, program@, register_count as nat),
        r matches Ok(out) ==> out@ == run_program(
            mapping@,
            program@,
            zero_regs(register_count as nat),
        ),
{
    let mut regs = Registers::new(register_count);
    assert(regs@ =~= zero_regs(register_count as nat));
    assert(program@.skip(0) =~= program@);
    let n = program.len();
    for k in 0..n
        invariant
            n == program@.len(),
            mapping@.len() == 16,
            regs@.len() == register_count,
            forall|j: int|
                0 <= j < k ==> 0 <= (#[trigger] program@[j]).opcode < 16 && operands_in_range(
                    mapping@[program@[j].opcode as int],
                    program@[j].a,
                    program@[j].b,
                    program@[j].c,
                    register_count as nat,
                ),
            run_program(mapping@, program@, zero_regs(register_count as nat)) == run_program(
                mapping@,
                program@.skip(k as int),
                regs@,
            ),
    {
        let u = program[k];
        if u.opcode < 0 || u.opcode >= 16 {
            assert(!(0 <= program@[k as int].opcode < 16));
            return Err("instruction has an opcode code outside 0..16".to_owned());
        }
        let o = mapping[u.opcode as usize];
        if !crate::instructions::operands_check(o, u.a, u.b, u.c, register_count) {
            return Err("instruction operand addresses no register".to_owned());
        }
        proof {
            assert(program@.skip(k as int).drop_first() =~= program@.skip(k + 1));
            assert(program@.skip(k as int)[0] == program@[k as int]);
        }
        regs = o.apply(u.a, u.b, u.c, &regs);
    }
    proof {
        assert(program@.skip(n as int).len() == 0);
    }
    Ok(regs)
}

/// How many opcodes explain the sample.
pub open spec fn sample_ambiguity(s: Sample) -> nat {
    behaves_like_spec(s.instruction, s.before@, s.after@).len()
}

/// How many of the samples are explained by three or more opcodes.
pub open spec fn count_ambiguous(samples: Seq<Sample>) -> nat
    decreases samples.len(),
{
    if samples.len() == 0 {
        0
    } else {
        count_ambiguous(samples.drop_last()) + if sample_ambiguity(samples.last()) >= 3 {
            1nat
        } else {
            0nat
        }
    }
}

/// Counts the samples that three or more opcodes explain.
pub fn part1(samples: &Vec<Sample>) -> (r: usize)
    ensures
        r == count_ambiguous(samples@),
{
    let mut count: usize = 0;
    let n = samples.len();
    for k in 0..n
        invariant
            n == samples@.len(),
            count <= k,
            count == count_ambiguous(samples@.take(k as int)),
    {
        let s = &samples[k];
        let opcodes = s.instruction.behaves_like(&s.before, &s.after);
        proof {
            assert(samples@.take(k + 1).drop_last() =~= samples@.take(k as int));
            assert(samples@.take(k + 1).last() == samples@[k as int]);
        }
        if opcodes.len() >= 3 {
            count = count + 1;
        }
    }
    proof {
        assert(samples@.take(n as int) =~= samples@);
    }
    count
}

/// `v` is what a four-register machine computes in register 0 under
/// mapping `m`, with `m` a true bijection of the sixteen codes that
/// explains every sample and validates the program.
pub open spec fn resolved_run(
    m: Seq<Opcode>,
    samples: Seq<Sample>,
    program: Seq<UnknownOpcode>,
    v: i64,
) -> bool {
    &&& m.len() == 16
    &&& (forall|i: int, j: int| 0 <= i < 16 && 0 <= j < 16 && i != j ==> m[i] != m[j])
    &&& (forall|o: Opcode| #[trigger] assigned(m, o))
    &&& (forall|k: int| 0 <= k < samples.len() ==> mapping_explains(m, #[trigger] samples[k]))
    &&& program_valid(m, program, 4)
    &&& run_program(m, program, zero_regs(4)).len() > 0
    &&& v == run_program(m, program, zero_regs(4))[0]
}

/// Resolves the code-to-opcode mapping from the samples, runs the program
/// on a fresh four-register machine under that mapping, and returns the
/// final value of register 0.
pub fn part2(samples: &Vec<Sample>, program: &Vec<UnknownOpcode>) -> (r: Result<i64, String>)
    ensures
        r is Ok <==> resolution_succeeds(samples@) && program_valid(
            resolved_mapping_of(samples@),
            program@,
            4,
        ),
        r matches Ok(v) ==> v == run_program(
            resolved_mapping_of(samples@),
            program@,
            zero_regs(4),
        )[0],
        r matches Ok(v) ==> resolved_run(resolved_mapping_of(samples@), samples@, program@, v),
{
    let mapping = match resolve_mapping(samples) {
        Ok(m) => m,
        Err(e) => {
            return Err(e);
        },
    };
    let regs = match execute_unknown_program(&mapping, program, 4) {
        Ok(r) => r,
        Err(e) => {
            return Err(e);
        },
    };
    proof {
        lemma_run_program_len(mapping@, program@, zero_regs(4));
    }
    let v = regs.get(0);
    proof {
        assert(resolved_run(mapping@, samples@, program@, v));
    }
    Ok(v)
}

/// A punctuation byte of the snapshot notation: a bracket or a comma.
pub open spec fn is_punct(b: u8) -> bool {
    b == 91 || b == 93 || b == 44
}

/// `s` without its leading punctuation.
pub open spec fn strip_leading(s: Seq<u8>) -> Seq<u8>
    decreases s.len(),
{
    if s.len() > 0 && is_punct(s[0]) {
        strip_leading(s.drop_first())
    } else {
        s
    }
}

/// `s` without its trailing punctuation.
pub open spec fn strip_trailing(s: Seq<u8>) -> Seq<u8>
    decreases s.len(),
{
    if s.len() > 0 && is_punct(s.last()) {
        strip_trailing(s.drop_last())
    } else {
        s
    }
}

/// A token with the punctuation trimmed from both ends.
pub open spec fn trim_punct(s: Seq<u8>) -> Seq<u8> {
    strip_trailing(strip_leading(s))
}

/// Strips the bracket and comma punctuation that snapshot lines carry
/// from both ends of a token, exactly as `trim_punct` describes.
fn trim_punctuation(v: &[u8]) -> (r: Vec<u8>)
    ensures
        r@ == trim_punct(v@),
{
    let n = v.len();
    let mut start: usize = 0;
    proof {
        assert(v@.skip(0) =~= v@);
    }
    while start < n && (v[start] == 91 || v[start] == 93 || v[start] == 44)
        invariant
            start <= n,
            n == v@.len(),
            strip_leading(v@) == strip_leading(v@.skip(start as int)),
        decreases n - start,
    {
        proof {
            assert(v@.skip(start as int).drop_first() =~= v@.skip(start + 1));
            assert(v@.skip(start as int)[0] == v@[start as int]);
        }
        start = start + 1;
    }
    proof {
        if start < n {
            assert(strip_leading(v@) =~= v@.skip(start as int));
        } else {
            assert(v@.skip(start as int) =~= Seq::<u8>::empty());
            assert(strip_leading(v@) =~= v@.skip(start as int));
        }
    }
    let mut end = n;
    while end > start && (v[end - 1] == 91 || v[end - 1] == 93 || v[end - 1] == 44)
        invariant
            start <= end <= n,
            n == v@.len(),
            strip_leading(v@) == v@.skip(start as int),
            strip_trailing(v@.skip(start as int)) == strip_trailing(
                v@.subrange(start as int, end as int),
            ),
        decreases end,
    {
        proof {
            assert(v@.subrange(start as int, end as int).drop_last() =~= v@.subrange(
                start as int,
                end - 1,
            ));
            assert(v@.subrange(start as int, end as int).last() == v@[end - 1]);
        }
        end = end - 1;
    }
    proof {
        if end > start {
            assert(trim_punct(v@) =~= v@.subrange(start as int, end as int));
        } else {
            assert(v@.subrange(start as int, end as int) =~= Seq::<u8>::empty());
            assert(trim_punct(v@) =~= v@.subrange(start as int, end as int));
        }
    }
    let mut out: Vec<u8> = Vec::new();
    let mut i = start;
    while i < end
        invariant
            start <= i <= end,
            end <= n,
            n == v@.len(),
            out@ == v@.subrange(start as int, i as int),
        decreases end - i,
    {
        proof {
            assert(v@.subrange(start as int, i + 1) =~= v@.subrange(start as int, i as int).push(
                v@[i as int],
            ));
        }
        out.push(v[i]);
        i = i + 1;
    }
    proof {
        assert(out@ == v@.subrange(start as int, end as int));
    }
    out
}

/// The values of the fields whose punctuation-trimmed text reads as a
/// number in the 32-bit range, in field order.
pub open spec fn nums_of_fields(f: Seq<Seq<u8>>) -> Seq<i64>
    decreases f.len(),
{
    if f.len() == 0 {
        Seq::empty()
    } else {
        let rest = nums_of_fields(f.drop_last());
        let w = trim_punct(f.last());
        if crate::text::int_text(w) && -0x8000_0000 <= crate::text::int_val(w) <= 0x7fff_ffff {
            rest.push(crate::text::int_val(w) as i64)
        } else {
            rest
        }
    }
}

/// The numeric tokens of a line: each blank-separated field is stripped
/// of punctuation and kept when it reads as a number that fits an `i32`;
/// anything else (such as the words `Before:` and `After:`) is dropped.
pub open spec fn numeric_tokens_of(l: Seq<u8>) -> Seq<i64> {
    nums_of_fields(crate::text::fields_of(l))
}

/// Appends a line's numeric tokens, exactly as `numeric_tokens_of`
/// describes them.
fn numeric_tokens(line: &[u8], out: &mut Vec<i64>)
    requires
        forall|j: int| 0 <= j < old(out)@.len() ==> -0x8000_0000 <= #[trigger] old(out)@[j]
            <= 0x7fff_ffff,
    ensures
        final(out)@ == old(out)@ + numeric_tokens_of(line@),
        forall|j: int|
            0 <= j < final(out)@.len() ==> -0x8000_0000 <= #[trigger] final(out)@[j] <= 0x7fff_ffff,
{
    let fields = crate::text::split_fields(line);
    let ghost fv = crate::text::fields_of(line@);
    let n = fields.len();
    proof {
        assert(old(out)@ + nums_of_fields(fv.take(0)) =~= old(out)@);
    }
    for f in 0..n
        invariant
            n == fields@.len(),
            fv == crate::text::fields_of(line@),
            crate::text::views_of(fields@) == fv,
            out@ == old(out)@ + nums_of_fields(fv.take(f as int)),
            forall|j: int|
                0 <= j < out@.len() ==> -0x8000_0000 <= #[trigger] out@[j] <= 0x7fff_ffff,
    {
        assert(fields@[f as int]@ == fv[f as int]);
        let token = trim_punctuation(fields[f].as_slice());
        proof {
            assert(fv.take(f + 1).drop_last() =~= fv.take(f as int));
            assert(fv.take(f + 1).last() == fv[f as int]);
        }
        match crate::text::parse_i64(token.as_slice()) {
            Some(v) => {
                if -0x8000_0000i64 <= v && v <= 0x7fff_ffffi64 {
                    out.push(v);
                }
            },
            None => {},
        }
        proof {
            assert(out@ =~= old(out)@ + nums_of_fields(fv.take(f + 1)));
        }
    }
    proof {
        assert(fv.take(n as int) =~= fv);
    }
}

/// Whether a run of four newlines starts at `i`.
pub open spec fn sep_at(s: Seq<u8>, i: int) -> bool {
    &&& 0 <= i
    &&& i + 4 <= s.len()
    &&& s[i] == 10
    &&& s[i + 1] == 10
    &&& s[i + 2] == 10
    &&& s[i + 3] == 10
}

/// The first four-newline separator at or after `i`.
pub open spec fn first_sep_from(s: Seq<u8>, i: int) -> Option<int>
    decreases s.len() - i,
{
    if i < 0 || i + 4 > s.len() {
        None
    } else if sep_at(s, i) {
        Some(i)
    } else {
        first_sep_from(s, i + 1)
    }
}

/// The sample section: everything before the first four-newline
/// separator, or the whole input without one.
pub open spec fn sample_section_of(s: Seq<u8>) -> Seq<u8> {
    match first_sep_from(s, 0) {
        Some(i) => s.take(i),
        None => s,
    }
}

/// The program section: everything after the first four-newline
/// separator; empty without one.
pub open spec fn program_section_of(s: Seq<u8>) -> Seq<u8> {
    match first_sep_from(s, 0) {
        Some(i) => s.skip(i + 4),
        None => Seq::empty(),
    }
}

/// Splits the input at the first run of four newlines into the sample
/// and program sections, and reports whether the separator was found.
fn split_sections(s: &[u8]) -> (r: (Vec<u8>, Vec<u8>, bool))
    ensures
        r.0@ == sample_section_of(s@),
        r.1@ == program_section_of(s@),
        r.2 == (first_sep_from(s@, 0) is Some),
{
    let n = s.len();
    if n >= 4 {
        let stop = n - 3;
        for i in 0..stop
            invariant
                n == s@.len(),
                stop == s@.len() - 3,
                first_sep_from(s@, 0) == first_sep_from(s@, i as int),
        {
            if s[i] == 10 && s[i + 1] == 10 && s[i + 2] == 10 && s[i + 3] == 10 {
                assert(sep_at(s@, i as int));
                let before = vstd::slice::slice_to_vec(&s[0..i]);
                let after = vstd::slice::slice_to_vec(&s[i + 4..n]);
                proof {
                    assert(before@ =~= s@.take(i as int));
                    assert(after@ =~= s@.skip(i + 4));
                }
                return (before, after, true);
            }
            assert(!sep_at(s@, i as int));
        }
    }
    assert(first_sep_from(s@, 0) is None);
    let whole = vstd::slice::slice_to_vec(s);
    (whole, Vec::new(), false)
}

/// The views of one decoded sample: four registers before, the coded
/// instruction, and four registers after.
pub open spec fn sample_of_nums(nums: Seq<i64>) -> (Seq<i64>, UnknownOpcode, Seq<i64>) {
    (
        seq![nums[0], nums[1], nums[2], nums[3]],
        UnknownOpcode { opcode: nums[4] as i32, a: nums[5], b: nums[6], c: nums[7] },
        seq![nums[8], nums[9], nums[10], nums[11]],
    )
}

/// The numeric tokens pooled over lines `base..end`.
pub open spec fn chunk_nums(ls: Seq<Seq<u8>>, base: int, end: int) -> Seq<i64>
    decreases end - base,
{
    if base >= end {
        Seq::empty()
    } else {
        chunk_nums(ls, base, end - 1) + numeric_tokens_of(ls[end - 1])
    }
}

/// The samples the lines denote from `base` on: blocks of up to four
/// lines are pooled, and a block with exactly twelve numeric tokens
/// becomes one sample; any other block is dropped.
pub open spec fn samples_from(ls: Seq<Seq<u8>>, base: int) -> Seq<
    (Seq<i64>, UnknownOpcode, Seq<i64>),
>
    decreases ls.len() - base,
{
    if base < 0 || base >= ls.len() {
        Seq::empty()
    } else {
        let end = if ls.len() - base > 4 {
            base + 4
        } else {
            ls.len() as int
        };
        let nums = chunk_nums(ls, base, end);
        let rest = samples_from(ls, end);
        if nums.len() == 12 {
            seq![sample_of_nums(nums)] + rest
        } else {
            rest
        }
    }
}

/// The samples a whole input denotes: its sample section, line by line in
/// blocks of four.
pub open spec fn samples_of(s: Seq<u8>) -> Seq<(Seq<i64>, UnknownOpcode, Seq<i64>)> {
    samples_from(crate::text::lines_of(sample_section_of(s)), 0)
}

/// The views of a decoded sample list.
pub open spec fn sample_views(v: Seq<Sample>) -> Seq<(Seq<i64>, UnknownOpcode, Seq<i64>)> {
    Seq::new(v.len(), |k: int| (v[k].before@, v[k].instruction, v[k].after@))
}

/// Reads the sample section of a puzzle input, exactly as `samples_of`
/// describes it.  An input that is not ASCII yields no samples.
pub fn parse_samples(input: &str) -> (r: Vec<Sample>)
    ensures
        vstd::string::is_ascii(input) ==> sample_views(r@) == samples_of(input.spec_bytes()),
        !vstd::string::is_ascii(input) ==> r@.len() == 0,
{
    if !input.is_ascii() {
        return Vec::new();
    }
    let (section, _, _) = split_sections(input.as_bytes());
    let lines = crate::text::split_lines(section.as_slice());
    let ghost ls = crate::text::lines_of(sample_section_of(input.spec_bytes()));
    let n = lines.len();
    let mut out: Vec<Sample> = Vec::new();
    let mut base: usize = 0;
    while base < n
        invariant
            n == lines@.len(),
            ls == crate::text::lines_of(sample_section_of(input.spec_bytes())),
            crate::text::views_of(lines@) == ls,
            base <= n,
            sample_views(out@) + samples_from(ls, base as int) == samples_from(ls, 0),
        decreases n - base,
    {
        let end = if n - base > 4 {
            base + 4
        } else {
            n
        };
        let mut nums: Vec<i64> = Vec::new();
        let mut li = base;
        proof {
            assert(nums@ =~= chunk_nums(ls, base as int, base as int));
        }
        while li < end
            invariant
                base <= li <= end,
                base < end <= n,
                n == lines@.len(),
                ls == crate::text::lines_of(sample_section_of(input.spec_bytes())),
                crate::text::views_of(lines@) == ls,
                nums@ == chunk_nums(ls, base as int, li as int),
                forall|j: int|
                    0 <= j < nums@.len() ==> -0x8000_0000 <= #[trigger] nums@[j] <= 0x7fff_ffff,
            decreases end - li,
        {
            assert(lines@[li as int]@ == ls[li as int]);
            numeric_tokens(lines[li].as_slice(), &mut nums);
            li = li + 1;
        }
        let ghost before_views = sample_views(out@);
        if nums.len() == 12 {
            let before = Registers::from_slice(&[nums[0], nums[1], nums[2], nums[3]]);
            let instruction = UnknownOpcode::new(nums[4] as i32, nums[5], nums[6], nums[7]);
            let after = Registers::from_slice(&[nums[8], nums[9], nums[10], nums[11]]);
            out.push(Sample::new(before, instruction, after));
            proof {
                assert(out@[out@.len() - 1].before@ =~= seq![
                    nums@[0],
                    nums@[1],
                    nums@[2],
                    nums@[3],
                ]);
                assert(out@[out@.len() - 1].after@ =~= seq![
                    nums@[8],
                    nums@[9],
                    nums@[10],
                    nums@[11],
                ]);
                assert(sample_views(out@) =~= before_views.push(sample_of_nums(nums@)));
            }
        }
        proof {
            assert(samples_from(ls, base as int) == (if chunk_nums(
                ls,
                base as int,
                end as int,
            ).len() == 12 {
                seq![sample_of_nums(chunk_nums(ls, base as int, end as int))] + samples_from(
                    ls,
                    end as int,
                )
            } else {
                samples_from(ls, end as int)
            }));
            assert(sample_views(out@) + samples_from(ls, end as int) =~= samples_from(ls, 0));
        }
        base = end;
    }
    proof {
        assert(samples_from(ls, n as int) =~= Seq::<(Seq<i64>, UnknownOpcode, Seq<i64>)>::empty());
        assert(sample_views(out@) =~= samples_from(ls, 0));
    }
    out
}

/// Every program line carries at least four numeric tokens.
pub open spec fn program_lines_ok(ls: Seq<Seq<u8>>) -> bool {
    forall|k: int| 0 <= k < ls.len() ==> numeric_tokens_of(#[trigger] ls[k]).len() >= 4
}

/// The coded instructions a whole input denotes: one per program-section
/// line, from its first four numeric tokens.
pub open spec fn program_of(s: Seq<u8>) -> Seq<UnknownOpcode> {
    let ls = crate::text::lines_of(program_section_of(s));
    Seq::new(
        ls.len(),
        |k: int|
            {
                let nums = numeric_tokens_of(ls[k]);
                UnknownOpcode { opcode: nums[0] as i32, a: nums[1], b: nums[2], c: nums[3] }
            },
    )
}

/// A whole input carries a program: a four-newline separator, then lines
/// of at least four numeric tokens each.
pub open spec fn program_text_ok(s: Seq<u8>) -> bool {
    &&& first_sep_from(s, 0) is Some
    &&& program_lines_ok(crate::text::lines_of(program_section_of(s)))
}

/// Reads the program section of a puzzle input, exactly as `program_of`
/// describes it: each line yields a coded instruction from its first four
/// numeric tokens.  A missing separator or a line with fewer than four
/// numeric tokens is a construction failure.
pub fn parse_program(input: &str) -> (r: Result<Vec<UnknownOpcode>, String>)
    ensures
        r is Ok <==> vstd::string::is_ascii(input) && program_text_ok(input.spec_bytes()),
        r matches Ok(v) ==> v@ == program_of(input.spec_bytes()),
{
    if !input.is_ascii() {
        return Err("program text is not ascii".to_owned());
    }
    let (_, section, found) = split_sections(input.as_bytes());
    if !found {
        return Err("missing program section".to_owned());
    }
    let lines = crate::text::split_lines(section.as_slice());
    let ghost ls = crate::text::lines_of(program_section_of(input.spec_bytes()));
    let n = lines.len();
    let mut out: Vec<UnknownOpcode> = Vec::new();
    for li in 0..n
        invariant
            n == lines@.len(),
            ls == crate::text::lines_of(program_section_of(input.spec_bytes())),
            crate::text::views_of(lines@) == ls,
            out@.len() == li,
            forall|k: int| 0 <= k < li ==> numeric_tokens_of(#[trigger] ls[k]).len() >= 4,
            forall|k: int| 0 <= k < li ==> #[trigger] out@[k] == program_of(
                input.spec_bytes(),
            )[k],
    {
        assert(lines@[li as int]@ == ls[li as int]);
        let mut nums: Vec<i64> = Vec::new();
        numeric_tokens(lines[li].as_slice(), &mut nums);
        if nums.len() < 4 {
            assert(numeric_tokens_of(ls[li as int]).len() < 4);
            return Err("invalid instruction".to_owned());
        }
        out.push(UnknownOpcode::new(nums[0] as i32, nums[1], nums[2], nums[3]));
    }
    proof {
        assert(out@ =~= program_of(input.spec_bytes()));
    }
    Ok(out)
}

/// Folding a valid program over a register file never changes its width./// Folding a valid program over a register file never changes its width.
proof fn lemma_run_program_len(m: Seq<Opcode>, prog: Seq<UnknownOpcode>, regs: Seq<i64>)
    requires
        program_valid(m, prog, regs.len()),
    ensures
        run_program(m, prog, regs).len() == regs.len(),
    decreases prog.len(),
{
    if prog.len() > 0 {
        let u = prog[0];
        let applied = apply_spec(m[u.opcode as int], u.a, u.b, u.c, regs);
        assert(0 <= u.c < regs.len());
        assert(applied.len() == regs.len());
        assert forall|k: int|
            0 <= k < prog.drop_first().len() implies 0 <= (#[trigger] prog.drop_first()[k]).opcode
            < 16 && operands_in_range(
            m[prog.drop_first()[k].opcode as int],
            prog.drop_first()[k].a,
            prog.drop_first()[k].b,
            prog.drop_first()[k].c,
            regs.len(),
        ) by {
            assert(prog.drop_first()[k] == prog[k + 1]);
        }
        lemma_run_program_len(m, prog.drop_first(), applied);
    }
}

} // verus!
