//! An abstract machine giving meaning to the instruction vocabulary: six
//! registers, an evaluation stack, a slot-addressed variable memory, and the
//! byte stream the output instruction writes through the print builtin. The
//! step relation is partial: popping an empty stack, reading an unwritten
//! slot, overflowing 64-bit arithmetic, dividing by zero, or reaching an
//! instruction outside the straight-line fragment (compare, jump, loop) has
//! no successor state. The executable interpreter implements exactly this
//! relation.

use crate::asm_ops::{AsmOp, AsmOperand, Register};
use crate::printer::{bits64, format_output, print_bytes, to_bits};
use crate::semantics::{add_values, mul_values, sub_values};
use vstd::prelude::*;

verus! {

broadcast use vstd::std_specs::vec::group_vec_axioms;

/// The machine's state: register file, evaluation stack (last element on
/// top), variable memory keyed by slot offset, and everything printed so far.
pub ghost struct MachineState {
    pub rax: i64,
    pub rbx: i64,
    pub rcx: i64,
    pub rdx: i64,
    pub r8: i64,
    pub r15: i64,
    pub stack: Seq<i64>,
    pub mem: Map<u16, i64>,
    pub out: Seq<u8>,
}

/// The machine every program starts in: zeroed registers, empty stack, no
/// slot written, nothing printed.
pub open spec fn init_state() -> MachineState {
    MachineState {
        rax: 0,
        rbx: 0,
        rcx: 0,
        rdx: 0,
        r8: 0,
        r15: 0,
        stack: Seq::<i64>::empty(),
        mem: Map::<u16, i64>::empty(),
        out: Seq::<u8>::empty(),
    }
}

/// The value a register holds.
pub open spec fn reg_read(m: MachineState, r: Register) -> i64 {
    match r {
        Register::RAX => m.rax,
        Register::RBX => m.rbx,
        Register::RCX => m.rcx,
        Register::RDX => m.rdx,
        Register::R8 => m.r8,
        Register::R15 => m.r15,
    }
}

/// The state after storing `v` into a register.
pub open spec fn reg_write(m: MachineState, r: Register, v: i64) -> MachineState {
    match r {
        Register::RAX => MachineState { rax: v, ..m },
        Register::RBX => MachineState { rbx: v, ..m },
        Register::RCX => MachineState { rcx: v, ..m },
        Register::RDX => MachineState { rdx: v, ..m },
        Register::R8 => MachineState { r8: v, ..m },
        Register::R15 => MachineState { r15: v, ..m },
    }
}

/// The value an operand reads as: a register's contents, an immediate, or a
/// written memory slot. An unwritten slot or a register-indirect reference
/// has no value.
pub open spec fn operand_read(m: MachineState, o: AsmOperand) -> Option<i64> {
    match o {
        AsmOperand::RegisterOperand(r) => Some(reg_read(m, r)),
        AsmOperand::Value(n) => Some(n as i64),
        AsmOperand::Memory(a) => if m.mem.contains_key(a) {
            Some(m.mem[a])
        } else {
            None
        },
        AsmOperand::MemoryRegister(_) => None,
    }
}

/// The state after storing `v` into a destination operand; an immediate or a
/// register-indirect destination takes no store.
pub open spec fn dest_write(m: MachineState, o: AsmOperand, v: i64) -> Option<MachineState> {
    match o {
        AsmOperand::RegisterOperand(r) => Some(reg_write(m, r, v)),
        AsmOperand::Memory(a) => Some(MachineState { mem: m.mem.insert(a, v), ..m }),
        AsmOperand::Value(_) => None,
        AsmOperand::MemoryRegister(_) => None,
    }
}

/// One step of the machine, if the instruction has a successor state here.
pub open spec fn step(m: MachineState, op: AsmOp) -> Option<MachineState> {
    match op {
        AsmOp::Push(o) => match operand_read(m, o) {
            Some(v) => Some(MachineState { stack: m.stack.push(v), ..m }),
            None => None,
        },
        AsmOp::Pop(o) => if m.stack.len() == 0 {
            None
        } else {
            dest_write(
                MachineState { stack: m.stack.drop_last(), ..m },
                o,
                m.stack.last(),
            )
        },
        AsmOp::Add(d, s) => match (operand_read(m, d), operand_read(m, s)) {
            (Some(a), Some(b)) => match add_values(a, b) {
                Some(v) => dest_write(m, d, v),
                None => None,
            },
            _ => None,
        },
        AsmOp::Sub(r, s) => match operand_read(m, s) {
            Some(b) => match sub_values(reg_read(m, r), b) {
                Some(v) => Some(reg_write(m, r, v)),
                None => None,
            },
            None => None,
        },
        AsmOp::Mul(r, s) => match operand_read(m, s) {
            Some(b) => match mul_values(reg_read(m, r), b) {
                Some(v) => Some(reg_write(m, r, v)),
                None => None,
            },
            None => None,
        },
        AsmOp::Div(r, s) => match operand_read(m, s) {
            Some(b) => match reg_read(m, r).checked_div(b) {
                Some(v) => Some(reg_write(m, r, v)),
                None => None,
            },
            None => None,
        },
        AsmOp::Mod(r, s) => match operand_read(m, s) {
            Some(b) => match reg_read(m, r).checked_rem(b) {
                Some(v) => Some(reg_write(m, r, v)),
                None => None,
            },
            None => None,
        },
        AsmOp::Mov(d, s) => match operand_read(m, s) {
            Some(v) => dest_write(m, d, v),
            None => None,
        },
        AsmOp::Out => Some(MachineState { out: m.out + print_bytes(bits64(m.rax)), ..m }),
        AsmOp::Nop => Some(m),
        AsmOp::Label(_) => Some(m),
        _ => None,
    }
}

/// Running a straight-line instruction sequence from `m`, stopping dead at
/// the first instruction without a successor.
pub open spec fn run(m: MachineState, ops: Seq<AsmOp>) -> Option<MachineState>
    decreases ops.len(),
{
    if ops.len() == 0 {
        Some(m)
    } else {
        match step(m, ops[0]) {
            Some(m1) => run(m1, ops.drop_first()),
            None => None,
        }
    }
}

/// Running a concatenation is running the pieces in order.
pub proof fn lemma_run_append(m: MachineState, a: Seq<AsmOp>, b: Seq<AsmOp>)
    ensures
        run(m, a + b) == match run(m, a) {
            Some(m1) => run(m1, b),
            None => None,
        },
    decreases a.len(),
{
    if a.len() == 0 {
        assert(a + b =~= b);
    } else {
        assert((a + b).drop_first() =~= a.drop_first() + b);
        match step(m, a[0]) {
            Some(m1) => {
                lemma_run_append(m1, a.drop_first(), b);
            },
            None => {},
        }
    }
}

/// The variable memory, kept as parallel slot/value lists with distinct
/// slots; the view folds them into a map.
pub open spec fn mem_map(addrs: Seq<u16>, vals: Seq<i64>) -> Map<u16, i64>
    decreases addrs.len(),
{
    if addrs.len() == 0 {
        Map::<u16, i64>::empty()
    } else {
        mem_map(addrs.drop_last(), vals.drop_last()).insert(addrs.last(), vals.last())
    }
}

/// In a distinct-slot memory, each stored pair is what the map says, and a
/// slot in no pair is not in the map.
proof fn lemma_mem_map_lookup(addrs: Seq<u16>, vals: Seq<i64>, a: u16)
    requires
        addrs.len() == vals.len(),
        forall|p: int, q: int| 0 <= p < q < addrs.len() ==> addrs[p] != addrs[q],
    ensures
        (forall|i: int| 0 <= i < addrs.len() ==> addrs[i] != a) ==> !mem_map(
            addrs,
            vals,
        ).contains_key(a),
        forall|i: int|
            0 <= i < addrs.len() && addrs[i] == a ==> mem_map(addrs, vals).contains_key(a)
                && mem_map(addrs, vals)[a] == vals[i],
    decreases addrs.len(),
{
    if addrs.len() > 0 {
        assert(forall|i: int|
            0 <= i < addrs.len() - 1 ==> addrs.drop_last()[i] == #[trigger] addrs[i]);
        assert(forall|i: int|
            0 <= i < vals.len() - 1 ==> vals.drop_last()[i] == #[trigger] vals[i]);
        lemma_mem_map_lookup(addrs.drop_last(), vals.drop_last(), a);
        assert forall|i: int|
            0 <= i < addrs.len() && addrs[i] == a implies mem_map(addrs, vals).contains_key(a)
            && mem_map(addrs, vals)[a] == vals[i] by {
            if i < addrs.len() - 1 {
                assert(addrs.drop_last()[i] == a);
                assert(addrs.last() != a);
            }
        };
    }
}

/// Overwriting one slot's value updates exactly that key of the map.
proof fn lemma_mem_map_update(addrs: Seq<u16>, vals: Seq<i64>, i: int, v: i64)
    requires
        addrs.len() == vals.len(),
        0 <= i < addrs.len(),
        forall|p: int, q: int| 0 <= p < q < addrs.len() ==> addrs[p] != addrs[q],
    ensures
        mem_map(addrs, vals.update(i, v)) == mem_map(addrs, vals).insert(addrs[i], v),
    decreases addrs.len(),
{
    if i == addrs.len() - 1 {
        assert(vals.update(i, v).drop_last() =~= vals.drop_last());
        assert(mem_map(addrs, vals.update(i, v)) =~= mem_map(addrs, vals).insert(addrs[i], v));
    } else {
        assert(vals.update(i, v).drop_last() =~= vals.drop_last().update(i, v));
        assert(addrs.drop_last()[i] == addrs[i]);
        lemma_mem_map_update(addrs.drop_last(), vals.drop_last(), i, v);
        assert(mem_map(addrs, vals.update(i, v)) =~= mem_map(addrs, vals).insert(addrs[i], v));
    }
}

/// The executable machine. Its view is the abstract state above.
pub struct Machine {
    rax: i64,
    rbx: i64,
    rcx: i64,
    rdx: i64,
    r8: i64,
    r15: i64,
    stack: Vec<i64>,
    mem_addrs: Vec<u16>,
    mem_vals: Vec<i64>,
    out: Vec<u8>,
}

impl View for Machine {
    type V = MachineState;

    closed spec fn view(&self) -> MachineState {
        MachineState {
            rax: self.rax,
            rbx: self.rbx,
            rcx: self.rcx,
            rdx: self.rdx,
            r8: self.r8,
            r15: self.r15,
            stack: self.stack@,
            mem: mem_map(self.mem_addrs@, self.mem_vals@),
            out: self.out@,
        }
    }
}

impl Machine {
    /// The memory lists stay aligned and slot offsets stay distinct.
    pub closed spec fn wf(&self) -> bool {
        &&& self.mem_addrs@.len() == self.mem_vals@.len()
        &&& forall|p: int, q: int|
            0 <= p < q < self.mem_addrs@.len() ==> self.mem_addrs@[p] != self.mem_addrs@[q]
    }

    /// A machine in the initial state.
    pub fn new() -> (r: Machine)
        ensures
            r.wf(),
            r@ == init_state(),
    {
        let r = Machine {
            rax: 0,
            rbx: 0,
            rcx: 0,
            rdx: 0,
            r8: 0,
            r15: 0,
            stack: Vec::new(),
            mem_addrs: Vec::new(),
            mem_vals: Vec::new(),
            out: Vec::new(),
        };
        proof {
            assert(r@.stack =~= init_state().stack);
            assert(r@.mem =~= init_state().mem);
            assert(r@.out =~= init_state().out);
        }
        r
    }

    /// The accumulator, where a finished program leaves its returned scalar.
    pub fn rax(&self) -> (r: i64)
        ensures
            r == self@.rax,
    {
        self.rax
    }

    /// Everything the machine has printed.
    pub fn output(&self) -> (r: &Vec<u8>)
        ensures
            r@ == self@.out,
    {
        &self.out
    }

    fn get_reg(&self, r: Register) -> (v: i64)
        ensures
            v == reg_read(self@, r),
    {
        match r {
            Register::RAX => self.rax,
            Register::RBX => self.rbx,
            Register::RCX => self.rcx,
            Register::RDX => self.rdx,
            Register::R8 => self.r8,
            Register::R15 => self.r15,
        }
    }

    fn set_reg(&mut self, r: Register, v: i64)
        requires
            old(self).wf(),
        ensures
            final(self).wf(),
            final(self)@ == reg_write(old(self)@, r, v),
    {
        match r {
            Register::RAX => {
                self.rax = v;
            },
            Register::RBX => {
                self.rbx = v;
            },
            Register::RCX => {
                self.rcx = v;
            },
            Register::RDX => {
                self.rdx = v;
            },
            Register::R8 => {
                self.r8 = v;
            },
            Register::R15 => {
                self.r15 = v;
            },
        }
    }

    fn mem_find(&self, a: u16) -> (r: Option<usize>)
        requires
            self.wf(),
        ensures
            match r {
                Some(i) => i < self.mem_addrs@.len() && self.mem_addrs@[i as int] == a,
                None => forall|j: int| 0 <= j < self.mem_addrs@.len() ==> self.mem_addrs@[j] != a,
            },
    {
        let mut i: usize = 0;
        while i < self.mem_addrs.len()
            invariant
                i <= self.mem_addrs@.len(),
                forall|j: int| 0 <= j < i ==> self.mem_addrs@[j] != a,
            decreases self.mem_addrs@.len() - i,
        {
            if self.mem_addrs[i] == a {
                return Some(i);
            }
            i = i + 1;
        }
        None
    }

    fn mem_lookup(&self, a: u16) -> (r: Option<i64>)
        requires
            self.wf(),
        ensures
            r == (if self@.mem.contains_key(a) {
                Some(self@.mem[a])
            } else {
                None::<i64>
            }),
    {
        proof {
            lemma_mem_map_lookup(self.mem_addrs@, self.mem_vals@, a);
        }
        match self.mem_find(a) {
            Some(i) => Some(self.mem_vals[i]),
            None => None,
        }
    }

    fn mem_store(&mut self, a: u16, v: i64)
        requires
            old(self).wf(),
        ensures
            final(self).wf(),
            final(self)@ == (MachineState { mem: old(self)@.mem.insert(a, v), ..old(self)@ }),
    {
        match self.mem_find(a) {
            Some(i) => {
                self.mem_vals.set(i, v);
                proof {
                    lemma_mem_map_update(old(self).mem_addrs@, old(self).mem_vals@, i as int, v);
                }
            },
            None => {
                self.mem_addrs.push(a);
                self.mem_vals.push(v);
                proof {
                    assert(self.mem_addrs@.drop_last() =~= old(self).mem_addrs@);
                    assert(self.mem_vals@.drop_last() =~= old(self).mem_vals@);
                    lemma_mem_map_lookup(old(self).mem_addrs@, old(self).mem_vals@, a);
                }
            },
        }
    }

    fn read_operand(&self, o: &AsmOperand) -> (r: Option<i64>)
        requires
            self.wf(),
        ensures
            r == operand_read(self@, *o),
    {
        match o {
            AsmOperand::RegisterOperand(r) => Some(self.get_reg(*r)),
            AsmOperand::Value(n) => Some(*n as i64),
            AsmOperand::Memory(a) => self.mem_lookup(*a),
            AsmOperand::MemoryRegister(_) => None,
        }
    }

    /// Performs one instruction; `false`, leaving the machine as it was,
    /// when the instruction has no successor state.
    #[verifier::loop_isolation(false)]
    #[verifier::rlimit(60)]
    pub fn step_op(&mut self, op: &AsmOp) -> (ok: bool)
        requires
            old(self).wf(),
        ensures
            final(self).wf(),
            match step(old(self)@, *op) {
                Some(s) => ok && final(self)@ == s,
                None => !ok && final(self)@ == old(self)@,
            },
    {
        match op {
            AsmOp::Push(o) => {
                match self.read_operand(o) {
                    Some(v) => {
                        self.stack.push(v);
                        true
                    },
                    None => false,
                }
            },
            AsmOp::Pop(o) => {
                match o {
                    AsmOperand::RegisterOperand(r) => {
                        match self.stack.pop() {
                            Some(v) => {
                                self.set_reg(*r, v);
                                true
                            },
                            None => false,
                        }
                    },
                    AsmOperand::Memory(a) => {
                        match self.stack.pop() {
                            Some(v) => {
                                self.mem_store(*a, v);
                                true
                            },
                            None => false,
                        }
                    },
                    _ => false,
                }
            },
            AsmOp::Add(d, s) => {
                match (self.read_operand(d), self.read_operand(s)) {
                    (Some(a), Some(b)) => match a.checked_add(b) {
                        Some(v) => match d {
                            AsmOperand::RegisterOperand(r) => {
                                self.set_reg(*r, v);
                                true
                            },
                            AsmOperand::Memory(addr) => {
                                self.mem_store(*addr, v);
                                true
                            },
                            _ => false,
                        },
                        None => false,
                    },
                    _ => false,
                }
            },
            AsmOp::Sub(r, s) => {
                match self.read_operand(s) {
                    Some(b) => match self.get_reg(*r).checked_sub(b) {
                        Some(v) => {
                            self.set_reg(*r, v);
                            true
                        },
                        None => false,
                    },
                    None => false,
                }
            },
            AsmOp::Mul(r, s) => {
                match self.read_operand(s) {
                    Some(b) => match self.get_reg(*r).checked_mul(b) {
                        Some(v) => {
                            self.set_reg(*r, v);
                            true
                        },
                        None => false,
                    },
                    None => false,
                }
            },
            AsmOp::Div(r, s) => {
                match self.read_operand(s) {
                    Some(b) => match self.get_reg(*r).checked_div(b) {
                        Some(v) => {
                            self.set_reg(*r, v);
                            true
                        },
                        None => false,
                    },
                    None => false,
                }
            },
            AsmOp::Mod(r, s) => {
                match self.read_operand(s) {
                    Some(b) => match self.get_reg(*r).checked_rem(b) {
                        Some(v) => {
                            self.set_reg(*r, v);
                            true
                        },
                        None => false,
                    },
                    None => false,
                }
            },
            AsmOp::Mov(d, s) => {
                match self.read_operand(s) {
                    Some(v) => match d {
                        AsmOperand::RegisterOperand(r) => {
                            self.set_reg(*r, v);
                            true
                        },
                        AsmOperand::Memory(addr) => {
                            self.mem_store(*addr, v);
                            true
                        },
                        _ => false,
                    },
                    None => false,
                }
            },
            AsmOp::Out => {
                let bits = to_bits(self.rax);
                let mut line = format_output(bits);
                self.out.append(&mut line);
                true
            },
            AsmOp::Nop => true,
            AsmOp::Label(_) => true,
            _ => false,
        }
    }

    /// Runs a whole instruction sequence; `true` exactly when the abstract
    /// run has a final state, which the machine then is in.
    #[verifier::loop_isolation(false)]
    pub fn run_ops(&mut self, ops: &Vec<AsmOp>) -> (ok: bool)
        requires
            old(self).wf(),
        ensures
            final(self).wf(),
            ok == (run(old(self)@, ops@) is Some),
            run(old(self)@, ops@) matches Some(s) ==> final(self)@ == s,
    {
        let mut i: usize = 0;
        proof {
            assert(ops@.skip(0) =~= ops@);
        }
        while i < ops.len()
            invariant
                self.wf(),
                i <= ops@.len(),
                run(old(self)@, ops@) == run(self@, ops@.skip(i as int)),
            decreases ops@.len() - i,
        {
            let ok = self.step_op(&ops[i]);
            proof {
                assert(ops@.skip(i as int)[0] == ops@[i as int]);
                assert(ops@.skip(i as int).drop_first() =~= ops@.skip(i + 1));
            }
            if !ok {
                return false;
            }
            i = i + 1;
        }
        proof {
            assert(ops@.skip(ops@.len() as int) =~= Seq::<AsmOp>::empty());
        }
        true
    }
}

} // verus!
