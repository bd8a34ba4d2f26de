use vstd::prelude::*;

use crate::register::{Register, RegisterModel};

verus! {

/// Number of registers in the bank; fixed for the lifetime of an engine.
pub const REGISTER_COUNT: usize = 16;

/// Number of dispatch slots: one for each possible opcode byte.
pub const OPCODE_COUNT: usize = 256;

/// What the error hook does after recording a message.
#[derive(Clone, Copy, PartialEq, Eq, Structural, Debug)]
pub enum ErrorPolicy {
    /// Record the message and let execution go on.
    Continue,
    /// Record the message and stop execution by moving `ip` to the end of the code.
    Halt,
}

/// The message the error hook gets when an integer read finds a string.
pub open spec fn not_integer_message() -> Seq<char> {
    "The register doesn't contain an integer"@
}

/// The message the error hook gets when a string read finds an integer.
pub open spec fn not_text_message() -> Seq<char> {
    "The register doesn't contain a string"@
}

/// The abstract state of an engine.
pub struct SvmView<H> {
    pub code: Seq<u8>,
    pub ip: usize,
    pub registers: Seq<RegisterModel>,
    pub memory: Seq<u8>,
    pub opcodes: Seq<Option<H>>,
    pub errors: Seq<Seq<char>>,
    pub policy: ErrorPolicy,
}

impl<H> SvmView<H> {
    /// The state of a freshly built engine.
    pub open spec fn initial(code: Seq<u8>, memsize: nat) -> Self {
        SvmView {
            code,
            ip: 0,
            registers: Seq::new(REGISTER_COUNT as nat, |i: int| RegisterModel::Integer(0)),
            memory: Seq::new(memsize, |i: int| 0u8),
            opcodes: Seq::new(OPCODE_COUNT as nat, |i: int| None),
            errors: Seq::empty(),
            policy: ErrorPolicy::Continue,
        }
    }

    /// The register bank and the dispatch table have their fixed sizes.
    pub open spec fn wf(self) -> bool {
        &&& self.registers.len() == REGISTER_COUNT
        &&& self.opcodes.len() == OPCODE_COUNT
        &&& self.code.len() <= usize::MAX
    }

    /// Execution has stopped: `ip` is at or past the end of the code.
    pub open spec fn halted(self) -> bool {
        self.ip >= self.code.len()
    }

    /// How many code bytes lie at or after `ip`.
    pub open spec fn remaining(self) -> nat {
        if self.ip < self.code.len() {
            (self.code.len() - self.ip) as nat
        } else {
            0
        }
    }

    /// `ip` moved to the end of the code, unless it is already at or past it.
    pub open spec fn halt_ip(self) -> usize {
        if self.ip < self.code.len() {
            self.code.len() as usize
        } else {
            self.ip
        }
    }

    /// No opcode has a handler bound to it.
    pub open spec fn all_unbound(self) -> bool {
        forall|k: int| 0 <= k < self.opcodes.len() ==> #[trigger] self.opcodes[k] is None
    }

    pub open spec fn with_ip(self, ip: usize) -> Self {
        SvmView { ip, ..self }
    }

    pub open spec fn with_register(self, i: int, r: RegisterModel) -> Self {
        SvmView { registers: self.registers.update(i, r), ..self }
    }

    pub open spec fn with_memory_byte(self, addr: int, b: u8) -> Self {
        SvmView { memory: self.memory.update(addr, b), ..self }
    }

    pub open spec fn with_handler(self, op: u8, h: H) -> Self {
        SvmView { opcodes: self.opcodes.update(op as int, Some(h)), ..self }
    }

    pub open spec fn with_policy(self, policy: ErrorPolicy) -> Self {
        SvmView { policy, ..self }
    }

    /// The error hook: the message is recorded, and under `Halt` execution stops.
    pub open spec fn report(self, msg: Seq<char>) -> Self {
        SvmView {
            errors: self.errors.push(msg),
            ip: if self.policy == ErrorPolicy::Halt {
                self.halt_ip()
            } else {
                self.ip
            },
            ..self
        }
    }

    /// What an integer read of register `i` returns: its value, or 0 on a tag mismatch.
    pub open spec fn int_value(self, i: int) -> u32 {
        match self.registers[i] {
            RegisterModel::Integer(v) => v,
            RegisterModel::Text(_) => 0,
        }
    }

    /// The state after an integer read of register `i`.
    pub open spec fn after_int_read(self, i: int) -> Self {
        match self.registers[i] {
            RegisterModel::Integer(_) => self,
            RegisterModel::Text(_) => self.report(not_integer_message()),
        }
    }

    /// What a string read of register `i` returns: its text, or "" on a tag mismatch.
    pub open spec fn text_value(self, i: int) -> Seq<char> {
        match self.registers[i] {
            RegisterModel::Text(s) => s,
            RegisterModel::Integer(_) => Seq::empty(),
        }
    }

    /// The state after a string read of register `i`.
    pub open spec fn after_text_read(self, i: int) -> Self {
        match self.registers[i] {
            RegisterModel::Text(_) => self,
            RegisterModel::Integer(_) => self.report(not_text_message()),
        }
    }
}

/// An execution engine: code, instruction pointer, register bank, scratch
/// memory and opcode dispatch table. `H` is the type of the host's handlers.
pub struct Svm<H> {
    code: Vec<u8>,
    ip: usize,
    registers: Vec<Register>,
    memory: Vec<u8>,
    opcodes: Vec<Option<H>>,
    errors: Vec<String>,
    policy: ErrorPolicy,
}

impl<H> View for Svm<H> {
    type V = SvmView<H>;

    closed spec fn view(&self) -> SvmView<H> {
        SvmView {
            code: self.code@,
            ip: self.ip,
            registers: self.registers@.map_values(|r: Register| r@),
            memory: self.memory@,
            opcodes: self.opcodes@,
            errors: self.errors@.map_values(|s: String| s@),
            policy: self.policy,
        }
    }
}

impl<H> Svm<H> {
    /// Well-formedness of the engine, stated over its view.
    pub open spec fn wf(&self) -> bool {
        self@.wf()
    }

    /// Builds an engine over a copy of `code` with `memsize` bytes of zeroed
    /// scratch memory, every register holding integer 0 and no handler bound.
    /// Empty code and a zero memory size are accepted: such an engine halts
    /// as soon as it runs, and has no scratch memory.
    pub fn new(code: &[u8], memsize: u32) -> (r: Svm<H>)
        ensures
            r@ == SvmView::<H>::initial(code@, memsize as nat),
            r.wf(),
    {
        let code_vec = vstd::slice::slice_to_vec(code);
        let code_len = code_vec.len();
        let mut registers: Vec<Register> = Vec::new();
        while registers.len() < REGISTER_COUNT
            invariant
                registers.len() <= REGISTER_COUNT,
                forall|k: int| 0 <= k < registers.len() ==> #[trigger] registers@[k]@ == RegisterModel::Integer(0),
            decreases REGISTER_COUNT - registers.len(),
        {
            registers.push(Register::Integer(0));
        }
        let mut memory: Vec<u8> = Vec::new();
        while memory.len() < memsize as usize
            invariant
                memory.len() <= memsize,
                forall|k: int| 0 <= k < memory.len() ==> #[trigger] memory@[k] == 0u8,
            decreases memsize - memory.len(),
        {
            memory.push(0u8);
        }
        let mut opcodes: Vec<Option<H>> = Vec::new();
        while opcodes.len() < OPCODE_COUNT
            invariant
                opcodes.len() <= OPCODE_COUNT,
                forall|k: int| 0 <= k < opcodes.len() ==> #[trigger] opcodes@[k] is None,
            decreases OPCODE_COUNT - opcodes.len(),
        {
            opcodes.push(None);
        }
        let r = Svm {
            code: code_vec,
            ip: 0,
            registers,
            memory,
            opcodes,
            errors: Vec::new(),
            policy: ErrorPolicy::Continue,
        };
        let ghost init = SvmView::<H>::initial(code@, memsize as nat);
        assert(r@.code.len() == code_len);
        assert(r@.registers =~= init.registers);
        assert(r@.memory =~= init.memory);
        assert(r@.opcodes =~= init.opcodes);
        assert(r@.errors =~= init.errors);
        r
    }

    /// Releases the engine: its memory region and any string registers are freed.
    pub fn free(self) {
    }

    /// The instruction pointer.
    pub fn ip(&self) -> (r: usize)
        ensures
            r == self@.ip,
    {
        self.ip
    }

    /// Moves the instruction pointer to `ip`; a value at or past the end of the
    /// code halts execution.
    pub fn set_ip(&mut self, ip: usize)
        ensures
            final(self)@ == old(self)@.with_ip(ip),
    {
        self.ip = ip;
    }

    /// Advances the instruction pointer by an instruction's width.
    pub fn advance(&mut self, width: usize)
        requires
            old(self)@.ip + width <= usize::MAX,
        ensures
            final(self)@ == old(self)@.with_ip((old(self)@.ip + width) as usize),
    {
        self.ip = self.ip + width;
    }

    /// Length of the code buffer.
    pub fn code_len(&self) -> (r: usize)
        ensures
            r == self@.code.len(),
    {
        self.code.len()
    }

    /// The code byte at offset `at`.
    pub fn code_byte(&self, at: usize) -> (r: u8)
        requires
            at < self@.code.len(),
        ensures
            r == self@.code[at as int],
    {
        self.code[at]
    }

    /// Size of the scratch memory region in bytes.
    pub fn memory_size(&self) -> (r: usize)
        ensures
            r == self@.memory.len(),
    {
        self.memory.len()
    }

    /// The memory byte at `addr`.
    pub fn load_byte(&self, addr: usize) -> (r: u8)
        requires
            addr < self@.memory.len(),
        ensures
            r == self@.memory[addr as int],
    {
        self.memory[addr]
    }

    /// Writes `b` at memory address `addr`.
    pub fn store_byte(&mut self, addr: usize, b: u8)
        requires
            addr < old(self)@.memory.len(),
        ensures
            final(self)@ == old(self)@.with_memory_byte(addr as int, b),
    {
        self.memory[addr] = b;
        proof {
            assert(self@.memory =~= old(self)@.memory.update(addr as int, b));
        }
    }

    /// The error hook's policy.
    pub fn error_policy(&self) -> (r: ErrorPolicy)
        ensures
            r == self@.policy,
    {
        self.policy
    }

    /// Overrides the error hook's policy.
    pub fn set_error_policy(&mut self, policy: ErrorPolicy)
        ensures
            final(self)@ == old(self)@.with_policy(policy),
    {
        self.policy = policy;
    }

    /// Number of messages the error hook has recorded.
    pub fn error_count(&self) -> (r: usize)
        ensures
            r == self@.errors.len(),
    {
        self.errors.len()
    }

    /// The `k`-th message the error hook recorded.
    pub fn error_message(&self, k: usize) -> (r: &str)
        requires
            k < self@.errors.len(),
        ensures
            r@ == self@.errors[k as int],
    {
        self.errors[k].as_str()
    }

    /// The error hook, for recoverable faults such as a register tag mismatch.
    /// The message is recorded for the host; under `ErrorPolicy::Halt` the
    /// instruction pointer is also moved to the end of the code.
    pub fn default_error_handler(&mut self, msg: &str)
        ensures
            final(self)@ == old(self)@.report(msg@),
    {
        self.errors.push(msg.to_owned());
        if self.policy == ErrorPolicy::Halt && self.ip < self.code.len() {
            self.ip = self.code.len();
        }
        proof {
            assert(self@.errors =~= old(self)@.errors.push(msg@));
        }
    }

    /// Reads integer register `reg`. If it holds a string, the error hook is
    /// invoked once and 0 is returned.
    pub fn get_int_reg(&mut self, reg: usize) -> (r: u32)
        requires
            reg < REGISTER_COUNT,
            old(self).wf(),
        ensures
            r == old(self)@.int_value(reg as int),
            final(self)@ == old(self)@.after_int_read(reg as int),
    {
        match &self.registers[reg] {
            Register::Integer(v) => {
                return *v;
            },
            Register::Text(_) => {},
        }
        self.default_error_handler("The register doesn't contain an integer");
        0
    }

    /// Reads string register `reg`. If it holds an integer, the error hook is
    /// invoked once and "" is returned.
    pub fn get_string_reg(&mut self, reg: usize) -> (r: &str)
        requires
            reg < REGISTER_COUNT,
            old(self).wf(),
        ensures
            r@ == old(self)@.text_value(reg as int),
            final(self)@ == old(self)@.after_text_read(reg as int),
    {
        if self.registers[reg].is_integer() {
            self.default_error_handler("The register doesn't contain a string");
            proof {
                reveal_strlit("");
            }
            return "";
        }
        match &self.registers[reg] {
            Register::Text(s) => s.as_str(),
            Register::Integer(_) => "",
        }
    }

    /// Stores integer `value` in register `reg`, replacing what it held.
    pub fn set_int_reg(&mut self, reg: usize, value: u32)
        requires
            reg < REGISTER_COUNT,
            old(self).wf(),
        ensures
            final(self)@ == old(self)@.with_register(reg as int, RegisterModel::Integer(value)),
    {
        self.registers[reg] = Register::Integer(value);
        proof {
            assert(self@.registers =~= old(self)@.registers.update(
                reg as int,
                RegisterModel::Integer(value),
            ));
        }
    }

    /// Stores a copy of `value` in register `reg`; the string it held before,
    /// if any, is freed.
    pub fn set_string_reg(&mut self, reg: usize, value: &str)
        requires
            reg < REGISTER_COUNT,
            old(self).wf(),
        ensures
            final(self)@ == old(self)@.with_register(reg as int, RegisterModel::Text(value@)),
    {
        self.registers[reg] = Register::Text(value.to_owned());
        proof {
            assert(self@.registers =~= old(self)@.registers.update(
                reg as int,
                RegisterModel::Text(value@),
            ));
        }
    }
    /// Binds `handler` to opcode byte `op`, replacing any earlier binding.
    pub fn install_opcode(&mut self, op: u8, handler: H)
        requires
            old(self).wf(),
        ensures
            final(self)@ == old(self)@.with_handler(op, handler),
    {
        self.opcodes[op as usize] = Some(handler);
    }
}

impl<H: Copy> Svm<H> {
    /// The handler bound to opcode byte `op`, if any.
    pub fn lookup(&self, op: u8) -> (r: Option<H>)
        requires
            self.wf(),
        ensures
            r == self@.opcodes[op as int],
    {
        self.opcodes[op as usize]
    }
}

/// A host-supplied instruction. A handler gets the whole engine, performs its
/// effect, and is responsible for moving `ip` past its own instruction: the
/// run loop never advances `ip` itself. A handler that does not move `ip`
/// forward breaks this contract and would keep the loop from ending.
pub trait OpHandler: Sized {
    /// The state a handler leaves behind when invoked on state `s`. A handler
    /// that does not define it is described only by some well-formed state
    /// with the same code and a later `ip`.
    open spec fn effect(&self, s: SvmView<Self>) -> SvmView<Self> {
        choose|t: SvmView<Self>| t.wf() && t.code == s.code && t.ip > s.ip
    }

    fn execute(&self, vm: &mut Svm<Self>)
        requires
            old(vm).wf(),
            old(vm)@.ip < old(vm)@.code.len(),
        ensures
            final(vm)@ == self.effect(old(vm)@),
            final(vm).wf(),
            final(vm)@.code == old(vm)@.code,
            final(vm)@.ip > old(vm)@.ip,
    ;
}

/// The built-in no-op instruction, one byte wide. An unbound slot behaves the same.
#[derive(Clone, Copy)]
pub struct NoOp;

impl OpHandler for NoOp {
    open spec fn effect(&self, s: SvmView<Self>) -> SvmView<Self> {
        s.with_ip((s.ip + 1) as usize)
    }

    fn execute(&self, vm: &mut Svm<Self>) {
        vm.advance(1);
    }
}

impl<H: OpHandler> SvmView<H> {
    /// One fetch-dispatch step: the handler bound to the opcode at `ip` acts
    /// on the state; an unbound opcode advances `ip` by one.
    pub open spec fn step(self) -> Self {
        match self.opcodes[self.code[self.ip as int] as int] {
            Some(h) => h.effect(self),
            None => self.with_ip((self.ip + 1) as usize),
        }
    }

    /// `t` is reached from this state by `n` steps, each taken while not halted.
    pub open spec fn reaches(self, t: Self, n: nat) -> bool
        decreases n,
    {
        if n == 0 {
            self == t
        } else {
            !self.halted() && self.step().reaches(t, (n - 1) as nat)
        }
    }
}

/// Taking one more step from a running state extends a run by one.
pub proof fn lemma_reaches_extend<H: OpHandler>(s: SvmView<H>, t: SvmView<H>, n: nat)
    requires
        s.reaches(t, n),
        !t.halted(),
    ensures
        s.reaches(t.step(), n + 1),
    decreases n,
{
    if n == 0 {
        assert(s.step().reaches(t.step(), 0));
    } else {
        lemma_reaches_extend(s.step(), t, (n - 1) as nat);
        assert(s.step().reaches(t.step(), n));
    }
}

impl<H: OpHandler + Copy> Svm<H> {
    /// The fetch-dispatch loop. While `ip` is inside the code, the byte at
    /// `ip` selects a handler, which is invoked on the engine; an unbound
    /// opcode advances `ip` by one. Returns once `ip` reaches or passes the end
    /// of the code. A later call resumes from the current `ip`, so on a halted
    /// engine it does nothing.
    pub fn run(&mut self)
        requires
            old(self).wf(),
        ensures
            final(self).wf(),
            final(self)@.code == old(self)@.code,
            final(self)@.halted(),
            old(self)@.halted() ==> final(self)@ == old(self)@,
            old(self)@.all_unbound() ==> final(self)@ == old(self)@.with_ip(old(self)@.halt_ip()),
            exists|n: nat| #[trigger] old(self)@.reaches(final(self)@, n),
    {
        let ghost start = self@;
        let ghost mut steps: nat = 0;
        while self.ip < self.code.len()
            invariant
                self.wf(),
                self@.code == start.code,
                start.halted() ==> self@ == start,
                start.reaches(self@, steps),
                start.all_unbound() ==> {
                    &&& self@ == start.with_ip(self@.ip)
                    &&& start.ip <= self@.ip
                    &&& start.ip < start.code.len() ==> self@.ip <= start.code.len()
                },
            decreases self@.remaining(),
        {
            let ghost before = self@;
            let op = self.code[self.ip];
            match self.opcodes[op as usize] {
                Some(h) => {
                    h.execute(self);
                },
                None => {
                    self.ip = self.ip + 1;
                },
            }
            proof {
                assert(self@ == before.step());
                lemma_reaches_extend(start, before, steps);
                steps = steps + 1;
            }
        }
    }
}

} // verus!
