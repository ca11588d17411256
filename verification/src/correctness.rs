//! The code generator is faithful to the language semantics: running the
//! instructions that `translate` produces, on the abstract machine, from the
//! initial state, prints exactly what `block_effect` says and leaves the
//! memory agreeing with the final environment. In particular a variable
//! assigned before it is read prints exactly the value last assigned to it.

use crate::asm_ops::{AsmOp, AsmOperand, Register};
use crate::grammar::{AddOp, AddTerm, Expr, MultOp, MultTerm, Statement};
use crate::ir::{
    add_term_ops, add_terms_ops, block_ops, expr_ops, index_of_name, lookup_addr, mult_term_ops,
    mult_terms_ops, slot_addr, stmt_ops, wf_names, write_name, MAX_VARIABLES,
};
use crate::machine::{init_state, run, step, MachineState};
use crate::printer::{bits64, byte_of, dec_u64, lemma_print_decimal, print_bytes, CR, LF, SENTINEL_BYTE};
use crate::semantics::{
    block_effect, eval_add_terms, eval_expr, eval_mult_terms, stmt_effect,
};
use vstd::prelude::*;

verus! {

/// The variable environment a symbol table and a machine memory together
/// denote: a name is bound exactly when it has a slot that has been written,
/// and its value is that slot's contents.
pub open spec fn env_of(names: Seq<Seq<char>>, mem: Map<u16, i64>) -> Map<Seq<char>, i64> {
    Map::new(
        |n: Seq<char>|
            match lookup_addr(names, n) {
                Some(a) => mem.contains_key(a),
                None => false,
            },
        |n: Seq<char>|
            match lookup_addr(names, n) {
                Some(a) => mem[a],
                None => 0i64,
            },
    )
}

/// Appending a fresh name leaves every earlier binding where it was and puts
/// the new name at the end.
proof fn lemma_index_of_push(names: Seq<Seq<char>>, x: Seq<char>, n: Seq<char>)
    ensures
        index_of_name(names.push(x), n) == (match index_of_name(names, n) {
            Some(k) => Some(k),
            None => if n == x {
                Some(names.len() as int)
            } else {
                None
            },
        }),
    decreases names.len(),
{
    if names.len() == 0 {
        assert(names.push(x)[0] == x);
        assert(names.push(x).drop_first() =~= Seq::<Seq<char>>::empty());
    } else {
        assert(names.push(x).drop_first() =~= names.drop_first().push(x));
        assert(names.push(x)[0] == names[0]);
        lemma_index_of_push(names.drop_first(), x, n);
    }
}

/// Running a single instruction is stepping it.
proof fn lemma_run_one(m: MachineState, op: AsmOp)
    ensures
        run(m, seq![op]) == step(m, op),
{
    let s = seq![op];
    assert(s[0] == op);
    assert(s.drop_first() =~= Seq::<AsmOp>::empty());
    match step(m, op) {
        Some(m1) => {
            assert(run(m1, s.drop_first()) == Some(m1));
            assert(run(m, s) == Some(m1));
        },
        None => {
            assert(run(m, s) is None);
        },
    }
}

/// Compiled expressions are faithful: from any machine whose memory denotes
/// `env`, the expression's instructions run to completion and push exactly
/// the expression's value, touching neither memory nor output nor the rest
/// of the stack.
pub proof fn lemma_expr_correct(
    e: Expr,
    names: Seq<Seq<char>>,
    m: MachineState,
    env: Map<Seq<char>, i64>,
    ops: Seq<AsmOp>,
    v: i64,
) -> (m2: MachineState)
    requires
        wf_names(names),
        env == env_of(names, m.mem),
        expr_ops(e, names) == Some(ops),
        eval_expr(e, env) == Some(v),
    ensures
        run(m, ops) == Some(m2),
        m2.stack == m.stack.push(v),
        m2.mem == m.mem,
        m2.out == m.out,
    decreases e,
{
    match e {
        Expr::Num(n) => {
            let m2 = MachineState { stack: m.stack.push(v), ..m };
            lemma_run_one(m, AsmOp::Push(AsmOperand::Value(n)));
            m2
        },
        Expr::Variable(name) => {
            let a = lookup_addr(names, name@).unwrap();
            lemma_run_one(m, AsmOp::Push(AsmOperand::Memory(a)));
            let m2 = MachineState { stack: m.stack.push(v), ..m };
            m2
        },
        Expr::AddSub(terms) => {
            let tops = add_terms_ops(terms@, names).unwrap();
            let m1 = lemma_add_terms_correct(terms@, names, m, env, tops, v);
            assert(ops =~= tops + seq![AsmOp::Push(AsmOperand::RegisterOperand(Register::RAX))]);
            crate::machine::lemma_run_append(
                m,
                tops,
                seq![AsmOp::Push(AsmOperand::RegisterOperand(Register::RAX))],
            );
            lemma_run_one(m1, AsmOp::Push(AsmOperand::RegisterOperand(Register::RAX)));
            let m2 = MachineState { stack: m1.stack.push(v), ..m1 };
            m2
        },
        Expr::MultDiv(terms) => {
            let tops = mult_terms_ops(terms@, names).unwrap();
            let m1 = lemma_mult_terms_correct(terms@, names, m, env, tops, v);
            assert(ops =~= tops + seq![AsmOp::Push(AsmOperand::RegisterOperand(Register::RAX))]);
            crate::machine::lemma_run_append(
                m,
                tops,
                seq![AsmOp::Push(AsmOperand::RegisterOperand(Register::RAX))],
            );
            lemma_run_one(m1, AsmOp::Push(AsmOperand::RegisterOperand(Register::RAX)));
            let m2 = MachineState { stack: m1.stack.push(v), ..m1 };
            m2
        },
    }
}

/// Compiled additive term lists leave their fold value in the accumulator
/// and restore the stack.
#[verifier::rlimit(100)]
pub proof fn lemma_add_terms_correct(
    terms: Seq<AddTerm>,
    names: Seq<Seq<char>>,
    m: MachineState,
    env: Map<Seq<char>, i64>,
    ops: Seq<AsmOp>,
    v: i64,
) -> (m2: MachineState)
    requires
        wf_names(names),
        env == env_of(names, m.mem),
        add_terms_ops(terms, names) == Some(ops),
        eval_add_terms(terms, env) == Some(v),
    ensures
        run(m, ops) == Some(m2),
        m2.rax == v,
        m2.stack == m.stack,
        m2.mem == m.mem,
        m2.out == m.out,
    decreases terms,
{
    let t = terms.last();
    let inner = expr_ops(t.1, names).unwrap();
    let pop_rax = AsmOp::Pop(AsmOperand::RegisterOperand(Register::RAX));
    if terms.len() == 1 {
        assert(terms[0] == t);
        let tops = add_term_ops(t, names).unwrap();
        assert(terms.drop_last() =~= Seq::<AddTerm>::empty());
        assert(ops =~= tops);
        assert(t.0 == AddOp::Start);
        assert(tops =~= inner + seq![pop_rax]);
        let m1 = lemma_expr_correct(t.1, names, m, env, inner, v);
        crate::machine::lemma_run_append(m, inner, seq![pop_rax]);
        lemma_run_one(m1, pop_rax);
        let m2 = MachineState { rax: v, stack: m.stack, ..m1 };
        assert(m1.stack.drop_last() =~= m.stack);
        m2
    } else {
        let pre_ops = add_terms_ops(terms.drop_last(), names).unwrap();
        let a = eval_add_terms(terms.drop_last(), env).unwrap();
        let b = eval_expr(t.1, env).unwrap();
        let tops = add_term_ops(t, names).unwrap();
        assert(ops =~= pre_ops + tops);
        let push_rax = AsmOp::Push(AsmOperand::RegisterOperand(Register::RAX));
        let pop_rbx = AsmOp::Pop(AsmOperand::RegisterOperand(Register::RBX));
        let arith = if t.0 == AddOp::Add {
            AsmOp::Add(
                AsmOperand::RegisterOperand(Register::RAX),
                AsmOperand::RegisterOperand(Register::RBX),
            )
        } else {
            AsmOp::Sub(Register::RAX, AsmOperand::RegisterOperand(Register::RBX))
        };
        let tail3 = seq![pop_rbx] + (seq![pop_rax] + seq![arith]);
        assert(tops =~= seq![push_rax] + (inner + tail3));
        let m1 = lemma_add_terms_correct(terms.drop_last(), names, m, env, pre_ops, a);
        let ma = MachineState { stack: m1.stack.push(a), ..m1 };
        lemma_run_one(m1, push_rax);
        let mb = lemma_expr_correct(t.1, names, ma, env, inner, b);
        let mc = MachineState { rbx: b, stack: mb.stack.drop_last(), ..mb };
        lemma_run_one(mb, pop_rbx);
        assert(mb.stack.drop_last() =~= ma.stack);
        let md = MachineState { rax: a, stack: m.stack, ..mc };
        lemma_run_one(mc, pop_rax);
        assert(ma.stack.drop_last() =~= m.stack);
        let m2 = MachineState { rax: v, ..md };
        lemma_run_one(md, arith);
        crate::machine::lemma_run_append(mc, seq![pop_rax], seq![arith]);
        assert(run(mc, seq![pop_rax] + seq![arith]) == Some(m2));
        crate::machine::lemma_run_append(mb, seq![pop_rbx], seq![pop_rax] + seq![arith]);
        assert(run(mb, tail3) == Some(m2));
        crate::machine::lemma_run_append(ma, inner, tail3);
        assert(run(ma, inner + tail3) == Some(m2));
        crate::machine::lemma_run_append(m1, seq![push_rax], inner + tail3);
        assert(run(m1, tops) == Some(m2));
        crate::machine::lemma_run_append(m, pre_ops, tops);
        assert(run(m, ops) == Some(m2));
        m2
    }
}

/// Compiled multiplicative term lists behave as the additive ones.
#[verifier::rlimit(100)]
pub proof fn lemma_mult_terms_correct(
    terms: Seq<MultTerm>,
    names: Seq<Seq<char>>,
    m: MachineState,
    env: Map<Seq<char>, i64>,
    ops: Seq<AsmOp>,
    v: i64,
) -> (m2: MachineState)
    requires
        wf_names(names),
        env == env_of(names, m.mem),
        mult_terms_ops(terms, names) == Some(ops),
        eval_mult_terms(terms, env) == Some(v),
    ensures
        run(m, ops) == Some(m2),
        m2.rax == v,
        m2.stack == m.stack,
        m2.mem == m.mem,
        m2.out == m.out,
    decreases terms,
{
    let t = terms.last();
    let inner = expr_ops(t.1, names).unwrap();
    let pop_rax = AsmOp::Pop(AsmOperand::RegisterOperand(Register::RAX));
    if terms.len() == 1 {
        assert(terms[0] == t);
        let tops = mult_term_ops(t, names).unwrap();
        assert(terms.drop_last() =~= Seq::<MultTerm>::empty());
        assert(ops =~= tops);
        assert(t.0 == MultOp::Start);
        assert(tops =~= inner + seq![pop_rax]);
        let m1 = lemma_expr_correct(t.1, names, m, env, inner, v);
        crate::machine::lemma_run_append(m, inner, seq![pop_rax]);
        lemma_run_one(m1, pop_rax);
        let m2 = MachineState { rax: v, stack: m.stack, ..m1 };
        assert(m1.stack.drop_last() =~= m.stack);
        m2
    } else {
        let pre_ops = mult_terms_ops(terms.drop_last(), names).unwrap();
        let a = eval_mult_terms(terms.drop_last(), env).unwrap();
        let b = eval_expr(t.1, env).unwrap();
        let tops = mult_term_ops(t, names).unwrap();
        assert(ops =~= pre_ops + tops);
        let push_rax = AsmOp::Push(AsmOperand::RegisterOperand(Register::RAX));
        let pop_rbx = AsmOp::Pop(AsmOperand::RegisterOperand(Register::RBX));
        let arith = if t.0 == MultOp::Multiply {
            AsmOp::Mul(Register::RAX, AsmOperand::RegisterOperand(Register::RBX))
        } else if t.0 == MultOp::Divide {
            AsmOp::Div(Register::RAX, AsmOperand::RegisterOperand(Register::RBX))
        } else {
            AsmOp::Mod(Register::RAX, AsmOperand::RegisterOperand(Register::RBX))
        };
        let tail3 = seq![pop_rbx] + (seq![pop_rax] + seq![arith]);
        assert(tops =~= seq![push_rax] + (inner + tail3));
        let m1 = lemma_mult_terms_correct(terms.drop_last(), names, m, env, pre_ops, a);
        let ma = MachineState { stack: m1.stack.push(a), ..m1 };
        lemma_run_one(m1, push_rax);
        let mb = lemma_expr_correct(t.1, names, ma, env, inner, b);
        let mc = MachineState { rbx: b, stack: mb.stack.drop_last(), ..mb };
        lemma_run_one(mb, pop_rbx);
        assert(mb.stack.drop_last() =~= ma.stack);
        let md = MachineState { rax: a, stack: m.stack, ..mc };
        lemma_run_one(mc, pop_rax);
        assert(ma.stack.drop_last() =~= m.stack);
        let m2 = MachineState { rax: v, ..md };
        lemma_run_one(md, arith);
        crate::machine::lemma_run_append(mc, seq![pop_rax], seq![arith]);
        assert(run(mc, seq![pop_rax] + seq![arith]) == Some(m2));
        crate::machine::lemma_run_append(mb, seq![pop_rbx], seq![pop_rax] + seq![arith]);
        assert(run(mb, tail3) == Some(m2));
        crate::machine::lemma_run_append(ma, inner, tail3);
        assert(run(ma, inner + tail3) == Some(m2));
        crate::machine::lemma_run_append(m1, seq![push_rax], inner + tail3);
        assert(run(m1, tops) == Some(m2));
        crate::machine::lemma_run_append(m, pre_ops, tops);
        assert(run(m, ops) == Some(m2));
        m2
    }
}

/// Two distinct bound names never share a slot.
proof fn lemma_lookup_injective(names: Seq<Seq<char>>, n1: Seq<char>, n2: Seq<char>)
    requires
        wf_names(names),
        n1 != n2,
        lookup_addr(names, n1) is Some,
        lookup_addr(names, n2) is Some,
    ensures
        lookup_addr(names, n1) != lookup_addr(names, n2),
{
    crate::ir::lemma_index_of_name(names, n1);
    crate::ir::lemma_index_of_name(names, n2);
    let k1 = index_of_name(names, n1).unwrap();
    let k2 = index_of_name(names, n2).unwrap();
    assert(k1 != k2);
    assert(crate::jit::VARIABLE_OFFSET + 8 * k1 < 65536);
    assert(crate::jit::VARIABLE_OFFSET + 8 * k2 < 65536);
}

/// Compiled statements are faithful: running one statement's instructions
/// performs its effect — the new memory denotes the new environment, and
/// exactly the statement's output is appended. An output statement also
/// leaves the printed value in the accumulator.
pub proof fn lemma_stmt_correct(
    s: Statement,
    names: Seq<Seq<char>>,
    m: MachineState,
    env: Map<Seq<char>, i64>,
    ops: Seq<AsmOp>,
    names2: Seq<Seq<char>>,
    env2: Map<Seq<char>, i64>,
    outd: Seq<u8>,
) -> (m2: MachineState)
    requires
        wf_names(names),
        env == env_of(names, m.mem),
        stmt_ops(s, names) == Some((ops, names2)),
        stmt_effect(s, env) == Some((env2, outd)),
    ensures
        run(m, ops) == Some(m2),
        wf_names(names2),
        env2 == env_of(names2, m2.mem),
        m2.stack == m.stack,
        m2.out == m.out + outd,
        s matches Statement::Output(e) ==> eval_expr(e, env) == Some(m2.rax),
    decreases s,
{
    match s {
        Statement::Assign(name, e) => {
            let eops = expr_ops(e, names).unwrap();
            let v = eval_expr(e, env).unwrap();
            let (addr, names2b) = write_name(names, name@).unwrap();
            let m1 = lemma_expr_correct(e, names, m, env, eops, v);
            let pop_mem = AsmOp::Pop(AsmOperand::Memory(addr));
            assert(ops =~= eops + seq![pop_mem]);
            crate::machine::lemma_run_append(m, eops, seq![pop_mem]);
            lemma_run_one(m1, pop_mem);
            let m2 = MachineState {
                stack: m.stack,
                mem: m.mem.insert(addr, v),
                ..m1
            };
            assert(m1.stack.drop_last() =~= m.stack);
            assert(m2.out =~= m.out + outd);
            crate::ir::lemma_index_of_name(names, name@);
            match index_of_name(names, name@) {
                Some(k) => {
                    assert(names2 == names);
                    assert forall|n: Seq<char>|
                        #[trigger] env2.contains_key(n) == env_of(names2, m2.mem).contains_key(n)
                            && (env2.contains_key(n) ==> env2[n] == env_of(names2, m2.mem)[n]) by {
                        if n != name@ {
                            if lookup_addr(names, n) is Some {
                                lemma_lookup_injective(names, n, name@);
                            }
                        }
                    };
                    assert(env2 =~= env_of(names2, m2.mem));
                },
                None => {
                    assert(names2 == names.push(name@));
                    assert(names.len() < MAX_VARIABLES);
                    assert(addr == slot_addr(names.len() as int));
                    assert forall|i: int| 0 <= i < names.len() implies names[i]
                        != name@ by {}
                    assert(wf_names(names2)) by {
                        assert(forall|i: int|
                            0 <= i < names.len() ==> #[trigger] names2[i] == names[i]);
                        assert(names2[names.len() as int] == name@);
                    };
                    assert forall|n: Seq<char>|
                        #[trigger] env2.contains_key(n) == env_of(names2, m2.mem).contains_key(n)
                            && (env2.contains_key(n) ==> env2[n] == env_of(names2, m2.mem)[n]) by {
                        lemma_index_of_push(names, name@, n);
                        if n != name@ {
                            if lookup_addr(names, n) is Some {
                                crate::ir::lemma_index_of_name(names, n);
                                let k2 = index_of_name(names, n).unwrap();
                                assert(k2 < names.len());
                                assert(slot_addr(k2) != addr);
                            }
                        }
                    };
                    assert(env2 =~= env_of(names2, m2.mem));
                },
            }
            m2
        },
        Statement::Output(e) => {
            let eops = expr_ops(e, names).unwrap();
            let v = eval_expr(e, env).unwrap();
            let m1 = lemma_expr_correct(e, names, m, env, eops, v);
            let pop_rax = AsmOp::Pop(AsmOperand::RegisterOperand(Register::RAX));
            assert(ops =~= eops + (seq![pop_rax] + seq![AsmOp::Out]));
            let ma = MachineState { rax: v, stack: m.stack, ..m1 };
            lemma_run_one(m1, pop_rax);
            assert(m1.stack.drop_last() =~= m.stack);
            let m2 = MachineState { out: ma.out + print_bytes(bits64(v)), ..ma };
            lemma_run_one(ma, AsmOp::Out);
            crate::machine::lemma_run_append(m1, seq![pop_rax], seq![AsmOp::Out]);
            crate::machine::lemma_run_append(m, eops, seq![pop_rax] + seq![AsmOp::Out]);
            assert(env2 =~= env_of(names2, m2.mem));
            m2
        },
    }
}

/// Law: the code generator is faithful to the language semantics. For any
/// program whose compilation and whose evaluation both succeed, running the
/// compiled instructions from any machine whose memory denotes the starting
/// environment prints exactly the program's output, leaves the evaluation
/// stack as it was, and ends with the memory denoting the final environment.
pub proof fn lemma_block_correct(
    stmts: Seq<Statement>,
    names: Seq<Seq<char>>,
    m: MachineState,
    env: Map<Seq<char>, i64>,
    ops: Seq<AsmOp>,
    names2: Seq<Seq<char>>,
    env2: Map<Seq<char>, i64>,
    outd: Seq<u8>,
) -> (m2: MachineState)
    requires
        wf_names(names),
        env == env_of(names, m.mem),
        block_ops(stmts, names) == Some((ops, names2)),
        block_effect(stmts, env) == Some((env2, outd)),
    ensures
        run(m, ops) == Some(m2),
        wf_names(names2),
        env2 == env_of(names2, m2.mem),
        m2.stack == m.stack,
        m2.out == m.out + outd,
    decreases stmts.len(),
{
    if stmts.len() == 0 {
        assert(ops =~= Seq::<AsmOp>::empty());
        assert(m.out + outd =~= m.out);
        m
    } else {
        let (ops1, names1) = block_ops(stmts.drop_last(), names).unwrap();
        let (env1, out1) = block_effect(stmts.drop_last(), env).unwrap();
        let (ops2, names2b) = stmt_ops(stmts.last(), names1).unwrap();
        let (env2b, out2) = stmt_effect(stmts.last(), env1).unwrap();
        let m1 = lemma_block_correct(stmts.drop_last(), names, m, env, ops1, names1, env1, out1);
        let m2 = lemma_stmt_correct(stmts.last(), names1, m1, env1, ops2, names2b, env2b, out2);
        crate::machine::lemma_run_append(m, ops1, ops2);
        assert(ops =~= ops1 + ops2);
        assert(m2.out =~= m.out + outd);
        m2
    }
}

/// Law: the whole pipeline is faithful from the initial machine. A program
/// that compiles from an empty symbol table and evaluates from an empty
/// environment runs to completion and prints exactly what the semantics says.
pub proof fn lemma_translate_faithful(
    stmts: Seq<Statement>,
    ops: Seq<AsmOp>,
    names2: Seq<Seq<char>>,
    env2: Map<Seq<char>, i64>,
    outd: Seq<u8>,
) -> (m2: MachineState)
    requires
        block_ops(stmts, Seq::<Seq<char>>::empty()) == Some((ops, names2)),
        block_effect(stmts, Map::<Seq<char>, i64>::empty()) == Some((env2, outd)),
    ensures
        run(init_state(), ops) == Some(m2),
        m2.out == outd,
        env2 == env_of(names2, m2.mem),
    decreases stmts.len(),
{
    assert(Map::<Seq<char>, i64>::empty() =~= env_of(
        Seq::<Seq<char>>::empty(),
        init_state().mem,
    ));
    let m2 = lemma_block_correct(
        stmts,
        Seq::<Seq<char>>::empty(),
        init_state(),
        Map::<Seq<char>, i64>::empty(),
        ops,
        names2,
        env2,
        outd,
    );
    assert(m2.out =~= outd);
    m2
}

/// Law: reading a variable that was never assigned always fails with the
/// undefined-variable condition at compile time — nothing is generated, so no
/// run of generated code can hand back a zero or a stale slot for it.
pub proof fn lemma_unassigned_read_rejected(name: String, names: Seq<Seq<char>>)
    requires
        lookup_addr(names, name@) is None,
    ensures
        expr_ops(Expr::Variable(name), names) is None,
        stmt_ops(Statement::Output(Expr::Variable(name)), names) is None,
        block_ops(seq![Statement::Output(Expr::Variable(name))], names) is None,
{
    let prog = seq![Statement::Output(Expr::Variable(name))];
    assert(prog.drop_last() =~= Seq::<Statement>::empty());
    assert(prog.last() == Statement::Output(Expr::Variable(name)));
    assert(block_ops(Seq::<Statement>::empty(), names) == Some((Seq::<AsmOp>::empty(), names)));
}

/// Law: outputting a literal prints exactly the literal's decimal ASCII
/// digits followed by CRLF, with no leading zero (a lone `0` for zero), and
/// leaves the literal in the accumulator. Stated for the non-negative
/// literals whose staged bit pattern carries no sentinel byte: the print
/// builtin strips that byte pattern as loader padding, so a value containing
/// it prints with the byte cleared.
pub proof fn lemma_output_literal_decimal(
    n: i32,
    ops: Seq<AsmOp>,
    names2: Seq<Seq<char>>,
) -> (m2: MachineState)
    requires
        0 <= n,
        forall|i: u64| i < 8 ==> #[trigger] byte_of(n as u64, i) != SENTINEL_BYTE,
        block_ops(seq![Statement::Output(Expr::Num(n))], Seq::<Seq<char>>::empty()) == Some(
            (ops, names2),
        ),
    ensures
        run(init_state(), ops) == Some(m2),
        m2.out == dec_u64(n as u64) + seq![CR, LF],
        n > 0 ==> m2.out[0] != 48,
        n == 0 ==> m2.out =~= seq![48u8, CR, LF],
        m2.rax == n as i64,
{
    let prog = seq![Statement::Output(Expr::Num(n))];
    let empty_env = Map::<Seq<char>, i64>::empty();
    let no_names = Seq::<Seq<char>>::empty();
    assert(prog.drop_last() =~= Seq::<Statement>::empty());
    assert(prog.last() == Statement::Output(Expr::Num(n)));
    assert(eval_expr(Expr::Num(n), empty_env) == Some(n as i64));
    assert(bits64(n as i64) == n as u64);
    lemma_print_decimal(n as u64);
    assert(stmt_effect(prog.last(), empty_env) == Some(
        (empty_env, print_bytes(bits64(n as i64))),
    ));
    assert(empty_env =~= env_of(no_names, init_state().mem));
    let (ops1, names1) = block_ops(prog.drop_last(), no_names).unwrap();
    assert(ops1 =~= Seq::<AsmOp>::empty());
    assert(names1 == no_names);
    let (ops2, names2b) = stmt_ops(prog.last(), no_names).unwrap();
    assert(ops =~= ops1 + ops2);
    assert(ops =~= ops2);
    let m2 = lemma_stmt_correct(
        prog.last(),
        no_names,
        init_state(),
        empty_env,
        ops2,
        names2b,
        empty_env,
        print_bytes(bits64(n as i64)),
    );
    assert(m2.out =~= dec_u64(n as u64) + seq![CR, LF]);
    if n > 0 {
        assert(m2.out[0] == dec_u64(n as u64)[0]);
    }
    m2
}

/// Law: a variable assigned before it is read reproduces the assigned value
/// exactly. For any name and any expression evaluating to `v`, the program
/// that assigns the expression to the name and then outputs the name compiles
/// to instructions that, once run, print exactly the print builtin's line for
/// `v` and leave `v` in the accumulator.
pub proof fn lemma_output_reproduces_assignment(
    name: String,
    e: Expr,
    v: i64,
    ops: Seq<AsmOp>,
    names2: Seq<Seq<char>>,
) -> (m2: MachineState)
    requires
        eval_expr(e, Map::<Seq<char>, i64>::empty()) == Some(v),
        block_ops(
            seq![
                Statement::Assign(name, e),
                Statement::Output(Expr::Variable(name)),
            ],
            Seq::<Seq<char>>::empty(),
        ) == Some((ops, names2)),
    ensures
        run(init_state(), ops) == Some(m2),
        m2.out == print_bytes(bits64(v)),
        m2.rax == v,
{
    let prog = seq![Statement::Assign(name, e), Statement::Output(Expr::Variable(name))];
    let empty_env = Map::<Seq<char>, i64>::empty();
    let env1 = empty_env.insert(name@, v);
    assert(prog.drop_last() =~= seq![Statement::Assign(name, e)]);
    assert(prog.drop_last().drop_last() =~= Seq::<Statement>::empty());
    assert(prog.last() == Statement::Output(Expr::Variable(name)));
    assert(prog.drop_last().last() == Statement::Assign(name, e));
    assert(env1.contains_key(name@));
    assert(eval_expr(Expr::Variable(name), env1) == Some(v));
    assert(block_effect(Seq::<Statement>::empty(), empty_env) == Some(
        (empty_env, Seq::<u8>::empty()),
    ));
    assert(stmt_effect(Statement::Assign(name, e), empty_env) == Some(
        (env1, Seq::<u8>::empty()),
    ));
    assert(stmt_effect(Statement::Output(Expr::Variable(name)), env1) == Some(
        (env1, print_bytes(bits64(v))),
    ));
    assert(block_effect(prog.drop_last(), empty_env) == Some(
        (env1, Seq::<u8>::empty() + Seq::<u8>::empty()),
    ));
    assert(block_effect(prog, empty_env) matches Some((envf, outf)) && envf == env1 && outf
        =~= print_bytes(bits64(v)));
    assert(Map::<Seq<char>, i64>::empty() =~= env_of(
        Seq::<Seq<char>>::empty(),
        init_state().mem,
    ));
    let (ops1, names1) = block_ops(prog.drop_last(), Seq::<Seq<char>>::empty()).unwrap();
    let (ops2, names2b) = stmt_ops(prog.last(), names1).unwrap();
    let m1 = lemma_block_correct(
        prog.drop_last(),
        Seq::<Seq<char>>::empty(),
        init_state(),
        empty_env,
        ops1,
        names1,
        env1,
        Seq::<u8>::empty() + Seq::<u8>::empty(),
    );
    let m2 = lemma_stmt_correct(
        prog.last(),
        names1,
        m1,
        env1,
        ops2,
        names2b,
        env1,
        print_bytes(bits64(v)),
    );
    crate::machine::lemma_run_append(init_state(), ops1, ops2);
    assert(ops =~= ops1 + ops2);
    assert(m2.out =~= print_bytes(bits64(v)));
    m2
}

} // verus!
