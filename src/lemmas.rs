use vstd::prelude::*;

use crate::engine::{not_integer_message, ErrorPolicy, OpHandler, SvmView, REGISTER_COUNT};
use crate::register::RegisterModel;

verus! {

/// Storing an integer in a register and reading it back as an integer gives
/// the stored value, and the read reports no error.
pub proof fn lemma_int_round_trip<H>(s: SvmView<H>, i: int, v: u32)
    requires
        s.wf(),
        0 <= i < REGISTER_COUNT,
    ensures
        s.with_register(i, RegisterModel::Integer(v)).int_value(i) == v,
        s.with_register(i, RegisterModel::Integer(v)).after_int_read(i) == s.with_register(
            i,
            RegisterModel::Integer(v),
        ),
{
}

/// Storing a string in a register and reading it back as a string gives the
/// stored text, and the read reports no error.
pub proof fn lemma_text_round_trip<H>(s: SvmView<H>, i: int, v: Seq<char>)
    requires
        s.wf(),
        0 <= i < REGISTER_COUNT,
    ensures
        s.with_register(i, RegisterModel::Text(v)).text_value(i) == v,
        s.with_register(i, RegisterModel::Text(v)).after_text_read(i) == s.with_register(
            i,
            RegisterModel::Text(v),
        ),
{
}

/// Overwriting a register keeps nothing of what it held: storing `first` and
/// then `second` leaves the same state as storing `second` alone.
pub proof fn lemma_overwrite_forgets<H>(
    s: SvmView<H>,
    i: int,
    first: RegisterModel,
    second: RegisterModel,
)
    requires
        s.wf(),
        0 <= i < REGISTER_COUNT,
    ensures
        s.with_register(i, first).with_register(i, second) == s.with_register(i, second),
{
    assert(s.with_register(i, first).with_register(i, second).registers =~= s.with_register(
        i,
        second,
    ).registers);
}

/// Reading an integer from a register that holds a string invokes the error
/// hook exactly once: one message is recorded, the registers are untouched,
/// and under the default policy `ip` stays where it was.
pub proof fn lemma_int_read_of_text_reports_once<H>(s: SvmView<H>, i: int)
    requires
        s.wf(),
        0 <= i < REGISTER_COUNT,
        s.registers[i] is Text,
    ensures
        s.int_value(i) == 0,
        s.after_int_read(i).errors == s.errors.push(not_integer_message()),
        s.after_int_read(i).errors.len() == s.errors.len() + 1,
        s.after_int_read(i).registers == s.registers,
        s.after_int_read(i).code == s.code,
        s.policy == ErrorPolicy::Continue ==> s.after_int_read(i).ip == s.ip,
{
}

/// A freshly built engine is halted exactly when its code is empty.
pub proof fn lemma_fresh_engine_halted<H>(code: Seq<u8>, memsize: nat)
    ensures
        SvmView::<H>::initial(code, memsize).halted() <==> code.len() == 0,
{
}

/// A run's outcome is determined by the handlers' effects: from one state,
/// two step sequences that both end halted end in the same state after the
/// same number of steps.
pub proof fn lemma_run_outcome_unique<H: OpHandler>(
    s: SvmView<H>,
    t1: SvmView<H>,
    n1: nat,
    t2: SvmView<H>,
    n2: nat,
)
    requires
        s.reaches(t1, n1),
        t1.halted(),
        s.reaches(t2, n2),
        t2.halted(),
    ensures
        t1 == t2,
        n1 == n2,
    decreases n1,
{
    if n1 > 0 && n2 > 0 {
        lemma_run_outcome_unique(s.step(), t1, (n1 - 1) as nat, t2, (n2 - 1) as nat);
    }
}

} // verus!
