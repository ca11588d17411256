//! The code generator: lowers syntax-tree nodes into instruction sequences
//! using an explicit evaluation-stack discipline, and the symbol table that
//! hands every variable a stable 8-byte-stride slot in the reserved variable
//! region, assigned on first write and never reused.

use crate::asm_ops::{AsmOp, AsmOperand, Register};
use crate::grammar::{AddOp, AddTerm, Expr, MultOp, MultTerm, Statement};
use crate::jit::{VARIABLE_MEMORY_SIZE, VARIABLE_OFFSET};
use crate::CompileError;
use vstd::prelude::*;

verus! {

broadcast use vstd::std_specs::vec::group_vec_axioms;

/// How many variable slots the reserved variable region holds.
pub const MAX_VARIABLES: usize = VARIABLE_MEMORY_SIZE / 8;

/// The position of `name` in a first-use-ordered name list, if present.
pub open spec fn index_of_name(names: Seq<Seq<char>>, name: Seq<char>) -> Option<int>
    decreases names.len(),
{
    if names.len() == 0 {
        None
    } else if names[0] == name {
        Some(0int)
    } else {
        match index_of_name(names.drop_first(), name) {
            Some(k) => Some(k + 1),
            None => None,
        }
    }
}

/// The variable slot that position `k` in the name list stands for.
pub open spec fn slot_addr(k: int) -> u16 {
    (VARIABLE_OFFSET + 8 * k) as u16
}

/// The memory offset bound to `name`, if it has been assigned one.
pub open spec fn lookup_addr(names: Seq<Seq<char>>, name: Seq<char>) -> Option<u16> {
    match index_of_name(names, name) {
        Some(k) => Some(slot_addr(k)),
        None => None,
    }
}

/// Reading a name: the existing offset, or nothing — a read never creates a
/// slot. Writing a name: the existing offset, or the next free slot appended
/// to the list, or nothing once the region is exhausted.
pub open spec fn write_name(names: Seq<Seq<char>>, name: Seq<char>) -> Option<
    (u16, Seq<Seq<char>>),
> {
    match index_of_name(names, name) {
        Some(k) => Some((slot_addr(k), names)),
        None => if names.len() < MAX_VARIABLES {
            Some((slot_addr(names.len() as int), names.push(name)))
        } else {
            None
        },
    }
}

/// A well-formed symbol table: no name twice, and no more names than the
/// variable region has slots.
pub open spec fn wf_names(names: Seq<Seq<char>>) -> bool {
    &&& names.len() <= MAX_VARIABLES
    &&& forall|i: int, j: int| 0 <= i < j < names.len() ==> names[i] != names[j]
}

/// A found name sits where the search says, and a missed name is nowhere.
pub proof fn lemma_index_of_name(names: Seq<Seq<char>>, name: Seq<char>)
    ensures
        match index_of_name(names, name) {
            Some(k) => 0 <= k < names.len() && names[k] == name,
            None => forall|i: int| 0 <= i < names.len() ==> names[i] != name,
        },
    decreases names.len(),
{
    if names.len() > 0 && names[0] != name {
        lemma_index_of_name(names.drop_first(), name);
        assert(forall|i: int|
            1 <= i < names.len() ==> #[trigger] names[i] == names.drop_first()[i - 1]);
    }
}

/// The search finds exactly the first match.
pub proof fn lemma_index_of_name_first(names: Seq<Seq<char>>, name: Seq<char>, k: int)
    requires
        0 <= k < names.len(),
        names[k] == name,
        forall|j: int| 0 <= j < k ==> names[j] != name,
    ensures
        index_of_name(names, name) == Some(k),
    decreases names.len(),
{
    if k > 0 {
        lemma_index_of_name_first(names.drop_first(), name, k - 1);
    }
}

/// The symbol table: variable names in first-write order; the name at
/// position `k` owns the slot at `VARIABLE_OFFSET + 8 * k`.
pub struct VarStore {
    names: Vec<String>,
}

impl View for VarStore {
    type V = Seq<Seq<char>>;

    closed spec fn view(&self) -> Seq<Seq<char>> {
        self.names@.map_values(|s: String| s@)
    }
}

impl VarStore {
    /// The standing invariant of the table.
    pub open spec fn wf(&self) -> bool {
        wf_names(self@)
    }

    /// An empty table.
    pub fn new() -> (r: VarStore)
        ensures
            r@ == Seq::<Seq<char>>::empty(),
            r.wf(),
    {
        let r = VarStore { names: Vec::new() };
        proof {
            assert(r@ =~= Seq::<Seq<char>>::empty());
        }
        r
    }

    /// Finds the index of `name`, if present, by first match.
    fn find(&self, name: &String) -> (r: Option<usize>)
        ensures
            match r {
                Some(k) => index_of_name(self@, name@) == Some(k as int),
                None => index_of_name(self@, name@) is None,
            },
    {
        let mut i: usize = 0;
        while i < self.names.len()
            invariant
                i <= self.names@.len(),
                self@.len() == self.names@.len(),
                forall|j: int| 0 <= j < i ==> self@[j] != name@,
            decreases self.names@.len() - i,
        {
            if self.names[i] == *name {
                proof {
                    assert(self@[i as int] == name@);
                    lemma_index_of_name_first(self@, name@, i as int);
                }
                return Some(i);
            }
            i = i + 1;
        }
        proof {
            lemma_index_of_name(self@, name@);
        }
        None
    }

    /// The offset of an already-assigned variable; fails, naming the
    /// variable, if it was never assigned — a read never creates a slot.
    pub fn get_var_address_r(&self, name: &String) -> (r: Result<u16, CompileError>)
        requires
            self.wf(),
        ensures
            match r {
                Ok(a) => lookup_addr(self@, name@) == Some(a),
                Err(e) => {
                    &&& lookup_addr(self@, name@) is None
                    &&& e matches CompileError::UndefinedVariable(n) && n@ == name@
                },
            },
    {
        match self.find(name) {
            Some(k) => {
                proof {
                    lemma_index_of_name(self@, name@);
                }
                Ok(VARIABLE_OFFSET as u16 + 8 * (k as u16))
            },
            None => Err(CompileError::UndefinedVariable(name.clone())),
        }
    }

    /// The offset to store `name` at: the existing one, or a fresh slot at
    /// the next 8-byte stride, recorded for good; fails once the variable
    /// region is exhausted.
    pub fn get_var_address_l(&mut self, name: &String) -> (r: Result<u16, CompileError>)
        requires
            old(self).wf(),
        ensures
            final(self).wf(),
            match r {
                Ok(a) => write_name(old(self)@, name@) == Some((a, final(self)@)),
                Err(e) => {
                    &&& write_name(old(self)@, name@) is None
                    &&& final(self)@ == old(self)@
                    &&& e == CompileError::VariableSpace
                },
            },
    {
        match self.find(name) {
            Some(k) => {
                proof {
                    lemma_index_of_name(self@, name@);
                }
                Ok(VARIABLE_OFFSET as u16 + 8 * (k as u16))
            },
            None => {
                if self.names.len() < MAX_VARIABLES {
                    let k = self.names.len();
                    self.names.push(name.clone());
                    proof {
                        lemma_index_of_name(old(self)@, name@);
                        assert(self@ =~= old(self)@.push(name@));
                    }
                    Ok(VARIABLE_OFFSET as u16 + 8 * (k as u16))
                } else {
                    Err(CompileError::VariableSpace)
                }
            },
        }
    }
}

/// The instructions a whole expression compiles to: its term-list code
/// followed by a push of the accumulator, or a single push for a leaf.
pub open spec fn expr_ops(e: Expr, names: Seq<Seq<char>>) -> Option<Seq<AsmOp>>
    decreases e,
{
    match e {
        Expr::Num(n) => Some(seq![AsmOp::Push(AsmOperand::Value(n))]),
        Expr::Variable(name) => match lookup_addr(names, name@) {
            Some(a) => Some(seq![AsmOp::Push(AsmOperand::Memory(a))]),
            None => None,
        },
        Expr::AddSub(terms) => match add_terms_ops(terms@, names) {
            Some(ops) => Some(ops.push(AsmOp::Push(AsmOperand::RegisterOperand(Register::RAX)))),
            None => None,
        },
        Expr::MultDiv(terms) => match mult_terms_ops(terms@, names) {
            Some(ops) => Some(ops.push(AsmOp::Push(AsmOperand::RegisterOperand(Register::RAX)))),
            None => None,
        },
    }
}

/// The instructions one additive term compiles to. A `Start` term evaluates
/// its expression and pops straight into the accumulator; a later term saves
/// the accumulator, evaluates, pops both operands back (right operand into
/// `RBX`, running value into `RAX`) and applies the operator.
pub open spec fn add_term_ops(t: AddTerm, names: Seq<Seq<char>>) -> Option<Seq<AsmOp>>
    decreases t,
{
    match expr_ops(t.1, names) {
        Some(inner) => match t.0 {
            AddOp::Start => Some(inner.push(AsmOp::Pop(AsmOperand::RegisterOperand(Register::RAX)))),
            AddOp::Add => Some(
                seq![AsmOp::Push(AsmOperand::RegisterOperand(Register::RAX))] + inner + seq![
                    AsmOp::Pop(AsmOperand::RegisterOperand(Register::RBX)),
                    AsmOp::Pop(AsmOperand::RegisterOperand(Register::RAX)),
                    AsmOp::Add(
                        AsmOperand::RegisterOperand(Register::RAX),
                        AsmOperand::RegisterOperand(Register::RBX),
                    ),
                ],
            ),
            AddOp::Subtract => Some(
                seq![AsmOp::Push(AsmOperand::RegisterOperand(Register::RAX))] + inner + seq![
                    AsmOp::Pop(AsmOperand::RegisterOperand(Register::RBX)),
                    AsmOp::Pop(AsmOperand::RegisterOperand(Register::RAX)),
                    AsmOp::Sub(Register::RAX, AsmOperand::RegisterOperand(Register::RBX)),
                ],
            ),
        },
        None => None,
    }
}

/// The instructions one multiplicative term compiles to, shaped as the
/// additive case.
pub open spec fn mult_term_ops(t: MultTerm, names: Seq<Seq<char>>) -> Option<Seq<AsmOp>>
    decreases t,
{
    match expr_ops(t.1, names) {
        Some(inner) => match t.0 {
            MultOp::Start => Some(
                inner.push(AsmOp::Pop(AsmOperand::RegisterOperand(Register::RAX))),
            ),
            MultOp::Multiply => Some(
                seq![AsmOp::Push(AsmOperand::RegisterOperand(Register::RAX))] + inner + seq![
                    AsmOp::Pop(AsmOperand::RegisterOperand(Register::RBX)),
                    AsmOp::Pop(AsmOperand::RegisterOperand(Register::RAX)),
                    AsmOp::Mul(Register::RAX, AsmOperand::RegisterOperand(Register::RBX)),
                ],
            ),
            MultOp::Divide => Some(
                seq![AsmOp::Push(AsmOperand::RegisterOperand(Register::RAX))] + inner + seq![
                    AsmOp::Pop(AsmOperand::RegisterOperand(Register::RBX)),
                    AsmOp::Pop(AsmOperand::RegisterOperand(Register::RAX)),
                    AsmOp::Div(Register::RAX, AsmOperand::RegisterOperand(Register::RBX)),
                ],
            ),
            MultOp::Modulo => Some(
                seq![AsmOp::Push(AsmOperand::RegisterOperand(Register::RAX))] + inner + seq![
                    AsmOp::Pop(AsmOperand::RegisterOperand(Register::RBX)),
                    AsmOp::Pop(AsmOperand::RegisterOperand(Register::RAX)),
                    AsmOp::Mod(Register::RAX, AsmOperand::RegisterOperand(Register::RBX)),
                ],
            ),
        },
        None => None,
    }
}

/// The concatenated instructions of an additive term list, in order.
pub open spec fn add_terms_ops(terms: Seq<AddTerm>, names: Seq<Seq<char>>) -> Option<Seq<AsmOp>>
    decreases terms,
{
    if terms.len() == 0 {
        Some(Seq::<AsmOp>::empty())
    } else {
        match (add_terms_ops(terms.drop_last(), names), add_term_ops(terms.last(), names)) {
            (Some(a), Some(b)) => Some(a + b),
            _ => None,
        }
    }
}

/// The concatenated instructions of a multiplicative term list, in order.
pub open spec fn mult_terms_ops(terms: Seq<MultTerm>, names: Seq<Seq<char>>) -> Option<Seq<AsmOp>>
    decreases terms,
{
    if terms.len() == 0 {
        Some(Seq::<AsmOp>::empty())
    } else {
        match (mult_terms_ops(terms.drop_last(), names), mult_term_ops(terms.last(), names)) {
            (Some(a), Some(b)) => Some(a + b),
            _ => None,
        }
    }
}

/// A term list whose prefix already fails compiles to nothing as a whole.
proof fn lemma_add_terms_prefix_none(terms: Seq<AddTerm>, names: Seq<Seq<char>>, k: int)
    requires
        0 <= k <= terms.len(),
        add_terms_ops(terms.subrange(0, k), names) is None,
    ensures
        add_terms_ops(terms, names) is None,
    decreases terms.len() - k,
{
    if k == terms.len() {
        assert(terms.subrange(0, k) =~= terms);
    } else {
        assert(terms.subrange(0, k + 1).drop_last() =~= terms.subrange(0, k));
        lemma_add_terms_prefix_none(terms, names, k + 1);
    }
}

/// The multiplicative twin of the prefix-failure fact.
proof fn lemma_mult_terms_prefix_none(terms: Seq<MultTerm>, names: Seq<Seq<char>>, k: int)
    requires
        0 <= k <= terms.len(),
        mult_terms_ops(terms.subrange(0, k), names) is None,
    ensures
        mult_terms_ops(terms, names) is None,
    decreases terms.len() - k,
{
    if k == terms.len() {
        assert(terms.subrange(0, k) =~= terms);
    } else {
        assert(terms.subrange(0, k + 1).drop_last() =~= terms.subrange(0, k));
        lemma_mult_terms_prefix_none(terms, names, k + 1);
    }
}

/// A compilation error is an undefined variable read, and the name it carries
/// really has no slot.
pub open spec fn undef_err(e: CompileError, names: Seq<Seq<char>>) -> bool {
    e matches CompileError::UndefinedVariable(n) && lookup_addr(names, n@) is None
}

impl Expr {
    /// Compiles the expression against the symbol table: on success exactly
    /// the instructions of `expr_ops`, which leave the expression's value on
    /// the evaluation stack; on failure an undefined-variable error naming a
    /// variable without a slot.
    #[verifier::loop_isolation(false)]
    pub fn get_ops(&self, var_store: &VarStore) -> (r: Result<Vec<AsmOp>, CompileError>)
        requires
            var_store.wf(),
        ensures
            match r {
                Ok(ops) => expr_ops(*self, var_store@) == Some(ops@),
                Err(e) => expr_ops(*self, var_store@) is None && undef_err(e, var_store@),
            },
        decreases self,
    {
        match self {
            Expr::Num(n) => {
                let mut ops: Vec<AsmOp> = Vec::new();
                ops.push(AsmOp::Push(AsmOperand::Value(*n)));
                proof {
                    assert(ops@ =~= seq![AsmOp::Push(AsmOperand::Value(*n))]);
                }
                Ok(ops)
            },
            Expr::Variable(name) => {
                match var_store.get_var_address_r(name) {
                    Ok(a) => {
                        let mut ops: Vec<AsmOp> = Vec::new();
                        ops.push(AsmOp::Push(AsmOperand::Memory(a)));
                        proof {
                            assert(ops@ =~= seq![AsmOp::Push(AsmOperand::Memory(a))]);
                        }
                        Ok(ops)
                    },
                    Err(e) => Err(e),
                }
            },
            Expr::AddSub(terms) => {
                let mut ops: Vec<AsmOp> = Vec::new();
                let mut i: usize = 0;
                while i < terms.len()
                    invariant
                        var_store.wf(),
                        i <= terms@.len(),
                        add_terms_ops(terms@.subrange(0, i as int), var_store@) == Some(ops@),
                    decreases terms@.len() - i,
                {
                    proof {
                        assert(decreases_to!(*terms => terms@));
                        assert(decreases_to!(terms@ => terms@[i as int]));
                    }
                    match terms[i].get_ops(var_store) {
                        Ok(mut t_ops) => {
                            ops.append(&mut t_ops);
                            proof {
                                assert(terms@.subrange(0, i + 1).drop_last() =~= terms@.subrange(
                                    0,
                                    i as int,
                                ));
                                assert(terms@.subrange(0, i + 1).last() == terms@[i as int]);
                            }
                        },
                        Err(e) => {
                            proof {
                                assert(terms@.subrange(0, i + 1).drop_last() =~= terms@.subrange(
                                    0,
                                    i as int,
                                ));
                                assert(terms@.subrange(0, i + 1).last() == terms@[i as int]);
                                lemma_add_terms_prefix_none(terms@, var_store@, i + 1);
                                assert(expr_ops(*self, var_store@) is None);
                            }
                            return Err(e);
                        },
                    }
                    i = i + 1;
                }
                proof {
                    assert(terms@.subrange(0, terms@.len() as int) =~= terms@);
                }
                ops.push(AsmOp::Push(AsmOperand::RegisterOperand(Register::RAX)));
                Ok(ops)
            },
            Expr::MultDiv(terms) => {
                let mut ops: Vec<AsmOp> = Vec::new();
                let mut i: usize = 0;
                while i < terms.len()
                    invariant
                        var_store.wf(),
                        i <= terms@.len(),
                        mult_terms_ops(terms@.subrange(0, i as int), var_store@) == Some(ops@),
                    decreases terms@.len() - i,
                {
                    proof {
                        assert(decreases_to!(*terms => terms@));
                        assert(decreases_to!(terms@ => terms@[i as int]));
                    }
                    match terms[i].get_ops(var_store) {
                        Ok(mut t_ops) => {
                            ops.append(&mut t_ops);
                            proof {
                                assert(terms@.subrange(0, i + 1).drop_last() =~= terms@.subrange(
                                    0,
                                    i as int,
                                ));
                                assert(terms@.subrange(0, i + 1).last() == terms@[i as int]);
                            }
                        },
                        Err(e) => {
                            proof {
                                assert(terms@.subrange(0, i + 1).drop_last() =~= terms@.subrange(
                                    0,
                                    i as int,
                                ));
                                assert(terms@.subrange(0, i + 1).last() == terms@[i as int]);
                                lemma_mult_terms_prefix_none(terms@, var_store@, i + 1);
                                assert(expr_ops(*self, var_store@) is None);
                            }
                            return Err(e);
                        },
                    }
                    i = i + 1;
                }
                proof {
                    assert(terms@.subrange(0, terms@.len() as int) =~= terms@);
                }
                ops.push(AsmOp::Push(AsmOperand::RegisterOperand(Register::RAX)));
                Ok(ops)
            },
        }
    }
}

impl AddTerm {
    /// Compiles one additive term; see `add_term_ops` for the exact shape.
    pub fn get_ops(&self, var_store: &VarStore) -> (r: Result<Vec<AsmOp>, CompileError>)
        requires
            var_store.wf(),
        ensures
            match r {
                Ok(ops) => add_term_ops(*self, var_store@) == Some(ops@),
                Err(e) => add_term_ops(*self, var_store@) is None && undef_err(e, var_store@),
            },
        decreases self,
    {
        let AddTerm(op, expr) = self;
        let mut ops: Vec<AsmOp> = Vec::new();
        match op {
            AddOp::Start => {
                let mut inner = match expr.get_ops(var_store) {
                    Ok(v) => v,
                    Err(e) => {
                        return Err(e);
                    },
                };
                ops.append(&mut inner);
                ops.push(AsmOp::Pop(AsmOperand::RegisterOperand(Register::RAX)));
                proof {
                    assert(ops@ =~= expr_ops(self.1, var_store@).unwrap().push(
                        AsmOp::Pop(AsmOperand::RegisterOperand(Register::RAX)),
                    ));
                }
                Ok(ops)
            },
            _ => {
                ops.push(AsmOp::Push(AsmOperand::RegisterOperand(Register::RAX)));
                let mut inner = match expr.get_ops(var_store) {
                    Ok(v) => v,
                    Err(e) => {
                        return Err(e);
                    },
                };
                ops.append(&mut inner);
                ops.push(AsmOp::Pop(AsmOperand::RegisterOperand(Register::RBX)));
                ops.push(AsmOp::Pop(AsmOperand::RegisterOperand(Register::RAX)));
                match op {
                    AddOp::Add => {
                        ops.push(
                            AsmOp::Add(
                                AsmOperand::RegisterOperand(Register::RAX),
                                AsmOperand::RegisterOperand(Register::RBX),
                            ),
                        );
                    },
                    _ => {
                        ops.push(
                            AsmOp::Sub(Register::RAX, AsmOperand::RegisterOperand(Register::RBX)),
                        );
                    },
                }
                proof {
                    assert(ops@ =~= add_term_ops(*self, var_store@).unwrap());
                }
                Ok(ops)
            },
        }
    }
}

impl MultTerm {
    /// Compiles one multiplicative term; see `mult_term_ops` for the shape.
    pub fn get_ops(&self, var_store: &VarStore) -> (r: Result<Vec<AsmOp>, CompileError>)
        requires
            var_store.wf(),
        ensures
            match r {
                Ok(ops) => mult_term_ops(*self, var_store@) == Some(ops@),
                Err(e) => mult_term_ops(*self, var_store@) is None && undef_err(e, var_store@),
            },
        decreases self,
    {
        let MultTerm(op, expr) = self;
        let mut ops: Vec<AsmOp> = Vec::new();
        match op {
            MultOp::Start => {
                let mut inner = match expr.get_ops(var_store) {
                    Ok(v) => v,
                    Err(e) => {
                        return Err(e);
                    },
                };
                ops.append(&mut inner);
                ops.push(AsmOp::Pop(AsmOperand::RegisterOperand(Register::RAX)));
                proof {
                    assert(ops@ =~= expr_ops(self.1, var_store@).unwrap().push(
                        AsmOp::Pop(AsmOperand::RegisterOperand(Register::RAX)),
                    ));
                }
                Ok(ops)
            },
            _ => {
                ops.push(AsmOp::Push(AsmOperand::RegisterOperand(Register::RAX)));
                let mut inner = match expr.get_ops(var_store) {
                    Ok(v) => v,
                    Err(e) => {
                        return Err(e);
                    },
                };
                ops.append(&mut inner);
                ops.push(AsmOp::Pop(AsmOperand::RegisterOperand(Register::RBX)));
                ops.push(AsmOp::Pop(AsmOperand::RegisterOperand(Register::RAX)));
                match op {
                    MultOp::Multiply => {
                        ops.push(
                            AsmOp::Mul(Register::RAX, AsmOperand::RegisterOperand(Register::RBX)),
                        );
                    },
                    MultOp::Divide => {
                        ops.push(
                            AsmOp::Div(Register::RAX, AsmOperand::RegisterOperand(Register::RBX)),
                        );
                    },
                    _ => {
                        ops.push(
                            AsmOp::Mod(Register::RAX, AsmOperand::RegisterOperand(Register::RBX)),
                        );
                    },
                }
                proof {
                    assert(ops@ =~= mult_term_ops(*self, var_store@).unwrap());
                }
                Ok(ops)
            },
        }
    }
}

/// The instructions one statement compiles to, with the symbol table it
/// leaves behind. Assignment evaluates the right-hand side against the old
/// table, then pops into the (possibly fresh) slot; output pops into the
/// accumulator and emits the output instruction.
pub open spec fn stmt_ops(s: Statement, names: Seq<Seq<char>>) -> Option<
    (Seq<AsmOp>, Seq<Seq<char>>),
> {
    match s {
        Statement::Assign(name, e) => match expr_ops(e, names) {
            Some(ops) => match write_name(names, name@) {
                Some((addr, names2)) => Some(
                    (ops.push(AsmOp::Pop(AsmOperand::Memory(addr))), names2),
                ),
                None => None,
            },
            None => None,
        },
        Statement::Output(e) => match expr_ops(e, names) {
            Some(ops) => Some(
                (
                    ops.push(AsmOp::Pop(AsmOperand::RegisterOperand(Register::RAX))).push(
                        AsmOp::Out,
                    ),
                    names,
                ),
            ),
            None => None,
        },
    }
}

impl Statement {
    /// Compiles one statement, updating the symbol table on a first write.
    pub fn get_ops(&self, var_store: &mut VarStore) -> (r: Result<Vec<AsmOp>, CompileError>)
        requires
            old(var_store).wf(),
        ensures
            final(var_store).wf(),
            match r {
                Ok(ops) => stmt_ops(*self, old(var_store)@) == Some((ops@, final(var_store)@)),
                Err(e) => {
                    &&& stmt_ops(*self, old(var_store)@) is None
                    &&& final(var_store)@ == old(var_store)@
                    &&& (undef_err(e, old(var_store)@) || e == CompileError::VariableSpace)
                },
            },
    {
        match self {
            Statement::Assign(name, expr) => {
                let mut ops = match expr.get_ops(var_store) {
                    Ok(v) => v,
                    Err(e) => {
                        return Err(e);
                    },
                };
                match var_store.get_var_address_l(name) {
                    Ok(addr) => {
                        ops.push(AsmOp::Pop(AsmOperand::Memory(addr)));
                        Ok(ops)
                    },
                    Err(e) => Err(e),
                }
            },
            Statement::Output(expr) => {
                let mut ops = match expr.get_ops(var_store) {
                    Ok(v) => v,
                    Err(e) => {
                        return Err(e);
                    },
                };
                ops.push(AsmOp::Pop(AsmOperand::RegisterOperand(Register::RAX)));
                ops.push(AsmOp::Out);
                Ok(ops)
            },
        }
    }
}

/// The instructions a statement list compiles to, threading the symbol table
/// left to right, starting from an empty table for a whole program.
pub open spec fn block_ops(stmts: Seq<Statement>, names: Seq<Seq<char>>) -> Option<
    (Seq<AsmOp>, Seq<Seq<char>>),
>
    decreases stmts.len(),
{
    if stmts.len() == 0 {
        Some((Seq::<AsmOp>::empty(), names))
    } else {
        match block_ops(stmts.drop_last(), names) {
            Some((ops1, names1)) => match stmt_ops(stmts.last(), names1) {
                Some((ops2, names2)) => Some((ops1 + ops2, names2)),
                None => None,
            },
            None => None,
        }
    }
}

/// A statement list whose prefix already fails compiles to nothing.
proof fn lemma_block_prefix_none(stmts: Seq<Statement>, names: Seq<Seq<char>>, k: int)
    requires
        0 <= k <= stmts.len(),
        block_ops(stmts.subrange(0, k), names) is None,
    ensures
        block_ops(stmts, names) is None,
    decreases stmts.len() - k,
{
    if k == stmts.len() {
        assert(stmts.subrange(0, k) =~= stmts);
    } else {
        assert(stmts.subrange(0, k + 1).drop_last() =~= stmts.subrange(0, k));
        lemma_block_prefix_none(stmts, names, k + 1);
    }
}

/// Translates a whole program into one instruction sequence, with a fresh
/// symbol table: exactly the instructions of `block_ops` on success; on
/// failure an undefined-variable read or an exhausted variable region, and
/// nothing is generated.
pub fn translate(block: &Vec<Statement>) -> (r: Result<Vec<AsmOp>, CompileError>)
    ensures
        match r {
            Ok(ops) => block_ops(block@, Seq::<Seq<char>>::empty()) matches Some((o, _))
                && o == ops@,
            Err(e) => {
                &&& block_ops(block@, Seq::<Seq<char>>::empty()) is None
                &&& (e matches CompileError::UndefinedVariable(_) || e
                    == CompileError::VariableSpace)
            },
        },
{
    let mut var_store = VarStore::new();
    let mut ops: Vec<AsmOp> = Vec::new();
    let mut i: usize = 0;
    while i < block.len()
        invariant
            i <= block@.len(),
            var_store.wf(),
            block_ops(block@.subrange(0, i as int), Seq::<Seq<char>>::empty()) == Some(
                (ops@, var_store@),
            ),
        decreases block@.len() - i,
    {
        match block[i].get_ops(&mut var_store) {
            Ok(mut s_ops) => {
                ops.append(&mut s_ops);
                proof {
                    assert(block@.subrange(0, i + 1).drop_last() =~= block@.subrange(0, i as int));
                    assert(block@.subrange(0, i + 1).last() == block@[i as int]);
                }
            },
            Err(e) => {
                proof {
                    assert(block@.subrange(0, i + 1).drop_last() =~= block@.subrange(0, i as int));
                    assert(block@.subrange(0, i + 1).last() == block@[i as int]);
                    lemma_block_prefix_none(block@, Seq::<Seq<char>>::empty(), i + 1);
                }
                return Err(e);
            },
        }
        i = i + 1;
    }
    proof {
        assert(block@.subrange(0, block@.len() as int) =~= block@);
    }
    Ok(ops)
}

} // verus!
