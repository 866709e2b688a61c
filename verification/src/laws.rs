use vstd::prelude::*;

use crate::cpu::{sem_step, CpuView};
use crate::decode::{lemma_decode_bounds, op_family, op_kk, op_x};
use crate::error::Error;

verus! {

/// Law: after a 6xkk load-immediate, the target register reads back
/// exactly the immediate, for every register index and every immediate.
pub proof fn lemma_load_immediate(pre: CpuView, post: CpuView, ins: u16, r: Result<(), Error>)
    requires
        pre.v.len() == 16,
        op_family(ins) == 6,
        sem_step(pre, post, ins, r),
    ensures
        post.v[op_x(ins) as int] == op_kk(ins),
{
    lemma_decode_bounds(ins);
}

/// Law: storing V[0]..V[x] with Fx55, pointing I back at where the store
/// began, and loading with Fx65 reproduces the register values from
/// before the store, and I advances by x + 1 across each of the two
/// instructions.
pub proof fn lemma_store_load_round_trip(
    s0: CpuView,
    s1: CpuView,
    s2: CpuView,
    s3: CpuView,
    store_ins: u16,
    load_ins: u16,
)
    requires
        s0.v.len() == 16,
        s0.mem.len() == 4096,
        op_family(store_ins) == 0xF,
        op_kk(store_ins) == 0x55,
        op_family(load_ins) == 0xF,
        op_kk(load_ins) == 0x65,
        op_x(load_ins) == op_x(store_ins),
        sem_step(s0, s1, store_ins, Ok(())),
        s2 == (CpuView { i: s0.i, ..s1 }),
        sem_step(s2, s3, load_ins, Ok(())),
    ensures
        forall|j: int| 0 <= j <= op_x(store_ins) ==> s3.v[j] == s0.v[j],
        s1.i == s0.i + op_x(store_ins) + 1,
        s3.i == s2.i + op_x(load_ins) + 1,
{
    lemma_decode_bounds(store_ins);
    lemma_decode_bounds(load_ins);
}

/// Law: executing an instruction never counts the delay timer down; only
/// the explicit Fx15 write touches it.  However fast the instruction
/// cadence runs, the timer moves only when `tick_timers` is called, which
/// subtracts exactly one.
pub proof fn lemma_step_preserves_delay_timer(
    pre: CpuView,
    post: CpuView,
    ins: u16,
    r: Result<(), Error>,
)
    requires
        sem_step(pre, post, ins, r),
        !(op_family(ins) == 0xF && op_kk(ins) == 0x15),
    ensures
        post.dt == pre.dt,
{
    lemma_decode_bounds(ins);
}

/// An instruction trace step: the machine can go from `pre` to `post` by
/// executing `ins`, with whatever result.
pub open spec fn steps_to(pre: CpuView, post: CpuView, ins: u16) -> bool {
    exists|r: Result<(), Error>| #[trigger] sem_step(pre, post, ins, r)
}

/// Whether an instruction word is the Fx15 delay-timer write.
pub open spec fn writes_delay_timer(ins: u16) -> bool {
    op_family(ins) == 0xF && op_kk(ins) == 0x15
}

/// Law: across any number of executed instructions, none of which writes
/// the delay timer, the delay timer does not move at all.  Combined with
/// the `tick_timers` contract, the delay timer counts down at most once
/// per elapsed timer period, however many instructions ran meanwhile.
pub proof fn lemma_delay_timer_instruction_independent(states: Seq<CpuView>, inss: Seq<u16>)
    requires
        states.len() == inss.len() + 1,
        forall|k: int| 0 <= k < inss.len() ==> steps_to(states[k], states[k + 1], inss[k]),
        forall|k: int| 0 <= k < inss.len() ==> !writes_delay_timer(inss[k]),
    ensures
        states[states.len() - 1].dt == states[0].dt,
    decreases inss.len(),
{
    if inss.len() > 0 {
        let m = inss.len() - 1;
        lemma_delay_timer_instruction_independent(states.take(states.len() - 1), inss.take(m));
        assert(steps_to(states[m], states[m + 1], inss[m]));
        let r = choose|r: Result<(), Error>| #[trigger] sem_step(states[m], states[m + 1], inss[m], r);
        lemma_step_preserves_delay_timer(states[m], states[m + 1], inss[m], r);
    }
}

} // verus!
