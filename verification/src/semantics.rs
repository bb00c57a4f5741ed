//! Small-step semantics of the instruction set.
//!
//! [`step1`] gives the meaning of a single non-`Return` instruction as a
//! transformation of the operand stack.  [`run_from`] is the meaning of a
//! whole chunk executed from an instruction pointer, which the virtual
//! machine is proved to implement.  [`frag_run`] is the meaning of a
//! `Return`-free fragment, used to state what the compiler emits for each
//! sub-expression; the lemmas below let fragment runs be composed and
//! related to whole-chunk runs.
use crate::chunk::Opcode;
use crate::error::FaultKind;
use crate::expr::{bin_eval, eval, BinOp, Expr, UnOp};
use crate::value::{val_add, val_div, val_eq, val_gt, val_lt, val_mul, val_neg, val_not, val_sub,
    ValueView};
use vstd::prelude::*;

verus! {

/// The meaning of a binary instruction on its two operands (`l` below `r`
/// on the stack).
pub open spec fn bin_semantics(op: Opcode, l: ValueView, r: ValueView) -> Result<
    ValueView,
    FaultKind,
> {
    match op {
        Opcode::Equal => Ok(ValueView::Bool(val_eq(l, r))),
        Opcode::Greater => match val_gt(l, r) {
            Ok(b) => Ok(ValueView::Bool(b)),
            Err(k) => Err(k),
        },
        Opcode::Less => match val_lt(l, r) {
            Ok(b) => Ok(ValueView::Bool(b)),
            Err(k) => Err(k),
        },
        Opcode::Add => val_add(l, r),
        Opcode::Subtract => val_sub(l, r),
        Opcode::Multiply => val_mul(l, r),
        Opcode::Divide => val_div(l, r),
        _ => Err(FaultKind::MissingReturn),
    }
}

/// The meaning of a unary instruction on its operand.
pub open spec fn un_semantics(op: Opcode, a: ValueView) -> Result<ValueView, FaultKind> {
    match op {
        Opcode::Negate => val_neg(a),
        Opcode::Not => val_not(a),
        _ => Err(FaultKind::MissingReturn),
    }
}

/// Whether an opcode is one of the seven binary stack operators.
pub open spec fn is_binary(op: Opcode) -> bool {
    match op {
        Opcode::Equal | Opcode::Greater | Opcode::Less | Opcode::Add | Opcode::Subtract
            | Opcode::Multiply | Opcode::Divide => true,
        _ => false,
    }
}

/// One step of the machine on a non-`Return` instruction: the new operand
/// stack, or the fault it raises.  A `Return` inside a fragment counts as a
/// missing-return fault (fragments never contain one).
pub open spec fn step1(op: Opcode, consts: Seq<ValueView>, stack: Seq<ValueView>) -> Result<
    Seq<ValueView>,
    FaultKind,
> {
    match op {
        Opcode::Constant(c) => if (c as int) < consts.len() {
            Ok(stack.push(consts[c as int]))
        } else {
            Err(FaultKind::BadConstant)
        },
        Opcode::Nil => Ok(stack.push(ValueView::Nil)),
        Opcode::True => Ok(stack.push(ValueView::Bool(true))),
        Opcode::False => Ok(stack.push(ValueView::Bool(false))),
        Opcode::Negate | Opcode::Not => if stack.len() < 1 {
            Err(FaultKind::StackUnderflow)
        } else {
            match un_semantics(op, stack.last()) {
                Ok(v) => Ok(stack.drop_last().push(v)),
                Err(k) => Err(k),
            }
        },
        Opcode::Return => Err(FaultKind::MissingReturn),
        _ => if stack.len() < 2 {
            Err(FaultKind::StackUnderflow)
        } else {
            match bin_semantics(op, stack[stack.len() - 2], stack.last()) {
                Ok(v) => Ok(stack.take(stack.len() - 2).push(v)),
                Err(k) => Err(k),
            }
        },
    }
}

/// Executes a chunk's code from instruction pointer `ip` to its `Return`:
/// the returned value (`None` when the stack is empty at the return), or
/// the fault together with the index of the faulting instruction.
pub open spec fn run_from(
    code: Seq<Opcode>,
    consts: Seq<ValueView>,
    ip: int,
    stack: Seq<ValueView>,
) -> Result<Option<ValueView>, (FaultKind, int)>
    decreases code.len() - ip,
{
    if ip < 0 || ip >= code.len() {
        Err((FaultKind::MissingReturn, ip))
    } else if code[ip] is Return {
        Ok(
            if stack.len() == 0 {
                None
            } else {
                Some(stack.last())
            },
        )
    } else {
        match step1(code[ip], consts, stack) {
            Ok(st) => run_from(code, consts, ip + 1, st),
            Err(k) => Err((k, ip)),
        }
    }
}

/// Executes a `Return`-free code fragment to its end: the final operand
/// stack, or the fault and the in-fragment index of the faulting
/// instruction.
pub open spec fn frag_run(
    code: Seq<Opcode>,
    consts: Seq<ValueView>,
    stack: Seq<ValueView>,
) -> Result<Seq<ValueView>, (FaultKind, int)>
    decreases code.len(),
{
    if code.len() == 0 {
        Ok(stack)
    } else {
        match step1(code[0], consts, stack) {
            Ok(st) => match frag_run(code.drop_first(), consts, st) {
                Ok(s2) => Ok(s2),
                Err((k, i)) => Err((k, i + 1)),
            },
            Err(k) => Err((k, 0)),
        }
    }
}

/// Whether a fragment is free of `Return` instructions.
pub open spec fn no_return(code: Seq<Opcode>) -> bool {
    forall|i: int| 0 <= i < code.len() ==> !((#[trigger] code[i]) is Return)
}

/// Whether every constant index a fragment mentions lies below `n`.
pub open spec fn consts_below(code: Seq<Opcode>, n: int) -> bool {
    forall|i: int|
        0 <= i < code.len() ==> ((#[trigger] code[i]) matches Opcode::Constant(c) ==> (
        c as int) < n)
}

/// Running from `ip >= 1` is running the tail fragment shifted by one.
pub proof fn lemma_run_shift(
    code: Seq<Opcode>,
    consts: Seq<ValueView>,
    ip: int,
    stack: Seq<ValueView>,
)
    requires
        1 <= ip,
        1 <= code.len(),
    ensures
        run_from(code, consts, ip, stack) == match run_from(
            code.drop_first(),
            consts,
            ip - 1,
            stack,
        ) {
            Ok(v) => Ok(v),
            Err((k, i)) => Err((k, i + 1)),
        },
    decreases code.len() - ip,
{
    let tail = code.drop_first();
    if ip >= code.len() {
        assert(ip - 1 >= tail.len());
    } else {
        assert(tail[ip - 1] == code[ip]);
        if code[ip] is Return {
        } else {
            match step1(code[ip], consts, stack) {
                Ok(st) => {
                    lemma_run_shift(code, consts, ip + 1, st);
                },
                Err(k) => {},
            }
        }
    }
}

/// A `Return`-free fragment followed by `Return` runs to the fragment's
/// final stack and returns its top (or nothing when it is empty).
pub proof fn lemma_run_of_frag(frag: Seq<Opcode>, consts: Seq<ValueView>, stack: Seq<ValueView>)
    requires
        no_return(frag),
    ensures
        run_from(frag.push(Opcode::Return), consts, 0, stack) == match frag_run(
            frag,
            consts,
            stack,
        ) {
            Ok(st) => Ok(
                if st.len() == 0 {
                    None
                } else {
                    Some(st.last())
                },
            ),
            Err(e) => Err(e),
        },
    decreases frag.len(),
{
    let code = frag.push(Opcode::Return);
    if frag.len() == 0 {
        assert(code[0] is Return);
    } else {
        assert(code[0] == frag[0]);
        assert(!(code[0] is Return));
        match step1(frag[0], consts, stack) {
            Ok(st) => {
                assert(code.drop_first() =~= frag.drop_first().push(Opcode::Return));
                lemma_run_of_frag(frag.drop_first(), consts, st);
                lemma_run_shift(code, consts, 1, st);
            },
            Err(k) => {},
        }
    }
}

/// Fragment runs compose: running `a + b` is running `a`, then running `b`
/// from `a`'s final stack (fault indices in `b` shift by `a`'s length).
pub proof fn lemma_frag_append(
    a: Seq<Opcode>,
    b: Seq<Opcode>,
    consts: Seq<ValueView>,
    stack: Seq<ValueView>,
)
    ensures
        frag_run(a + b, consts, stack) == match frag_run(a, consts, stack) {
            Ok(st) => match frag_run(b, consts, st) {
                Ok(s2) => Ok(s2),
                Err((k, i)) => Err((k, i + a.len())),
            },
            Err(e) => Err(e),
        },
    decreases a.len(),
{
    if a.len() == 0 {
        assert(a + b =~= b);
    } else {
        let ab = a + b;
        assert(ab[0] == a[0]);
        match step1(a[0], consts, stack) {
            Ok(st) => {
                assert(ab.drop_first() =~= a.drop_first() + b);
                lemma_frag_append(a.drop_first(), b, consts, st);
            },
            Err(k) => {},
        }
    }
}

/// A fragment's run is unchanged when the constant pool is extended, as
/// long as the fragment only mentions indices it already had.
pub proof fn lemma_frag_consts_extend(
    code: Seq<Opcode>,
    c1: Seq<ValueView>,
    c2: Seq<ValueView>,
    stack: Seq<ValueView>,
)
    requires
        c1.len() <= c2.len(),
        forall|i: int| 0 <= i < c1.len() ==> c1[i] == c2[i],
        consts_below(code, c1.len() as int),
    ensures
        frag_run(code, c2, stack) == frag_run(code, c1, stack),
    decreases code.len(),
{
    if code.len() == 0 {
    } else {
        assert(step1(code[0], c2, stack) == step1(code[0], c1, stack));
        match step1(code[0], c1, stack) {
            Ok(st) => {
                assert(consts_below(code.drop_first(), c1.len() as int));
                lemma_frag_consts_extend(code.drop_first(), c1, c2, st);
            },
            Err(k) => {},
        }
    }
}


/// The code-generation contract: running `code` from any operand stack
/// pushes exactly the value of `e`, or raises exactly the fault `e`'s
/// evaluation raises (at some instruction of the fragment).
pub open spec fn computes(code: Seq<Opcode>, consts: Seq<ValueView>, e: Expr) -> bool {
    forall|st: Seq<ValueView>|
        match eval(e) {
            Ok(v) => #[trigger] frag_run(code, consts, st) == Ok::<Seq<ValueView>, (FaultKind, int)>(
                st.push(v),
            ),
            Err(k) => exists|ix: int|
                0 <= ix < code.len() && frag_run(code, consts, st) == Err::<
                    Seq<ValueView>,
                    (FaultKind, int),
                >((k, ix)),
        }
}

/// `computes` carries over to an extended constant pool.
pub proof fn lemma_computes_extend(
    code: Seq<Opcode>,
    c1: Seq<ValueView>,
    c2: Seq<ValueView>,
    e: Expr,
)
    requires
        computes(code, c1, e),
        c1.len() <= c2.len(),
        forall|i: int| 0 <= i < c1.len() ==> c1[i] == c2[i],
        consts_below(code, c1.len() as int),
    ensures
        computes(code, c2, e),
{
    assert forall|st: Seq<ValueView>| #[trigger]
        frag_run(code, c2, st) == frag_run(code, c1, st) by {
        lemma_frag_consts_extend(code, c1, c2, st);
    }
}

/// A one-instruction fragment that pushes a fixed value computes any
/// expression evaluating to that value.
pub proof fn lemma_computes_single(op: Opcode, consts: Seq<ValueView>, e: Expr, v: ValueView)
    requires
        eval(e) == Ok::<ValueView, FaultKind>(v),
        forall|st: Seq<ValueView>| #[trigger] step1(op, consts, st) == Ok::<
            Seq<ValueView>,
            FaultKind,
        >(st.push(v)),
    ensures
        computes(seq![op], consts, e),
{
    assert forall|st: Seq<ValueView>| #[trigger]
        frag_run(seq![op], consts, st) == Ok::<Seq<ValueView>, (FaultKind, int)>(st.push(v)) by {
        let code = seq![op];
        assert(code.drop_first() =~= Seq::<Opcode>::empty());
        assert(frag_run(code.drop_first(), consts, st.push(v)) == Ok::<
            Seq<ValueView>,
            (FaultKind, int),
        >(st.push(v)));
    }
}

/// The opcode a unary operator compiles to.
pub open spec fn un_opcode(op: UnOp) -> Opcode {
    match op {
        UnOp::Neg => Opcode::Negate,
        UnOp::Not => Opcode::Not,
    }
}

/// The opcodes a binary operator compiles to (complemented comparisons
/// synthesize a `Not` after the primitive comparison).
pub open spec fn bin_opcodes(op: BinOp) -> Seq<Opcode> {
    match op {
        BinOp::Add => seq![Opcode::Add],
        BinOp::Sub => seq![Opcode::Subtract],
        BinOp::Mul => seq![Opcode::Multiply],
        BinOp::Div => seq![Opcode::Divide],
        BinOp::Eq => seq![Opcode::Equal],
        BinOp::Ne => seq![Opcode::Equal, Opcode::Not],
        BinOp::Lt => seq![Opcode::Less],
        BinOp::Gt => seq![Opcode::Greater],
        BinOp::Le => seq![Opcode::Greater, Opcode::Not],
        BinOp::Ge => seq![Opcode::Less, Opcode::Not],
    }
}

/// Appending the unary opcode to code for the operand yields code for the
/// unary expression.
pub proof fn lemma_computes_unary(f: Seq<Opcode>, consts: Seq<ValueView>, e: Expr, op: UnOp)
    requires
        computes(f, consts, e),
    ensures
        computes(f.push(un_opcode(op)), consts, Expr::Unary(op, Box::new(e))),
{
    let o = un_opcode(op);
    let whole = f.push(o);
    let ue = Expr::Unary(op, Box::new(e));
    assert forall|st: Seq<ValueView>|
        match eval(ue) {
            Ok(v) => #[trigger] frag_run(whole, consts, st) == Ok::<
                Seq<ValueView>,
                (FaultKind, int),
            >(st.push(v)),
            Err(k) => exists|ix: int|
                0 <= ix < whole.len() && frag_run(whole, consts, st) == Err::<
                    Seq<ValueView>,
                    (FaultKind, int),
                >((k, ix)),
        } by {
        assert(whole =~= f + seq![o]);
        lemma_frag_append(f, seq![o], consts, st);
        match eval(e) {
            Ok(v) => {
                let st1 = st.push(v);
                assert(frag_run(f, consts, st) == Ok::<Seq<ValueView>, (FaultKind, int)>(st1));
                assert(seq![o].drop_first() =~= Seq::<Opcode>::empty());
                assert(st1.len() >= 1 && st1.last() == v);
                match un_semantics(o, v) {
                    Ok(v2) => {
                        assert(st1.drop_last().push(v2) =~= st.push(v2));
                        assert(step1(o, consts, st1) == Ok::<Seq<ValueView>, FaultKind>(
                            st.push(v2),
                        ));
                        assert(frag_run(Seq::<Opcode>::empty(), consts, st.push(v2)) == Ok::<
                            Seq<ValueView>,
                            (FaultKind, int),
                        >(st.push(v2)));
                        assert(frag_run(seq![o], consts, st1) == Ok::<
                            Seq<ValueView>,
                            (FaultKind, int),
                        >(st.push(v2)));
                        assert(frag_run(whole, consts, st) == Ok::<
                            Seq<ValueView>,
                            (FaultKind, int),
                        >(st.push(v2)));
                        assert(eval(ue) == Ok::<ValueView, FaultKind>(v2));
                    },
                    Err(k) => {
                        assert(step1(o, consts, st1) == Err::<Seq<ValueView>, FaultKind>(k));
                        assert(frag_run(seq![o], consts, st1) == Err::<
                            Seq<ValueView>,
                            (FaultKind, int),
                        >((k, 0)));
                        assert(eval(ue) == Err::<ValueView, FaultKind>(k));
                        assert(frag_run(whole, consts, st) == Err::<
                            Seq<ValueView>,
                            (FaultKind, int),
                        >((k, f.len() as int)));
                    },
                }
            },
            Err(k) => {
                let ix = choose|ix: int|
                    0 <= ix < f.len() && frag_run(f, consts, st) == Err::<
                        Seq<ValueView>,
                        (FaultKind, int),
                    >((k, ix));
                assert(frag_run(whole, consts, st) == Err::<Seq<ValueView>, (FaultKind, int)>(
                    (k, ix),
                ));
            },
        }
    }
}

/// Code for the left operand, code for the right operand, then the
/// operator's opcodes, is code for the binary expression.
pub proof fn lemma_computes_binary(
    f1: Seq<Opcode>,
    f2: Seq<Opcode>,
    consts: Seq<ValueView>,
    e1: Expr,
    e2: Expr,
    op: BinOp,
)
    requires
        computes(f1, consts, e1),
        computes(f2, consts, e2),
    ensures
        computes(f1 + f2 + bin_opcodes(op), consts, Expr::Binary(op, Box::new(e1), Box::new(e2))),
{
    let ops = bin_opcodes(op);
    let whole = f1 + f2 + ops;
    let be = Expr::Binary(op, Box::new(e1), Box::new(e2));
    assert forall|st: Seq<ValueView>|
        match eval(be) {
            Ok(v) => #[trigger] frag_run(whole, consts, st) == Ok::<
                Seq<ValueView>,
                (FaultKind, int),
            >(st.push(v)),
            Err(k) => exists|ix: int|
                0 <= ix < whole.len() && frag_run(whole, consts, st) == Err::<
                    Seq<ValueView>,
                    (FaultKind, int),
                >((k, ix)),
        } by {
        assert(whole =~= f1 + (f2 + ops));
        lemma_frag_append(f1, f2 + ops, consts, st);
        match eval(e1) {
            Ok(v1) => {
                let st1 = st.push(v1);
                lemma_frag_append(f2, ops, consts, st1);
                match eval(e2) {
                    Ok(v2) => {
                        let st2 = st1.push(v2);
                        lemma_bin_opcodes_run(op, consts, st, v1, v2);
                        match bin_eval(op, v1, v2) {
                            Ok(v) => {
                                assert(eval(be) == Ok::<ValueView, FaultKind>(v));
                            },
                            Err(k) => {
                                assert(eval(be) == Err::<ValueView, FaultKind>(k));
                                let jx = choose|jx: int|
                                    0 <= jx < ops.len() && frag_run(ops, consts, st2) == Err::<
                                        Seq<ValueView>,
                                        (FaultKind, int),
                                    >((k, jx));
                                assert(frag_run(whole, consts, st) == Err::<
                                    Seq<ValueView>,
                                    (FaultKind, int),
                                >((k, jx + f1.len() + f2.len())));
                            },
                        }
                    },
                    Err(k) => {
                        assert(eval(be) == Err::<ValueView, FaultKind>(k));
                        let jx = choose|jx: int|
                            0 <= jx < f2.len() && frag_run(f2, consts, st1) == Err::<
                                Seq<ValueView>,
                                (FaultKind, int),
                            >((k, jx));
                        assert(frag_run(whole, consts, st) == Err::<
                            Seq<ValueView>,
                            (FaultKind, int),
                        >((k, jx + f1.len())));
                    },
                }
            },
            Err(k) => {
                let ix = choose|ix: int|
                    0 <= ix < f1.len() && frag_run(f1, consts, st) == Err::<
                        Seq<ValueView>,
                        (FaultKind, int),
                    >((k, ix));
                assert(frag_run(whole, consts, st) == Err::<Seq<ValueView>, (FaultKind, int)>(
                    (k, ix),
                ));
            },
        }
    }
}

/// Running a binary operator's opcodes on a stack ending in its two
/// operands computes `bin_eval`.
proof fn lemma_bin_opcodes_run(
    op: BinOp,
    consts: Seq<ValueView>,
    st: Seq<ValueView>,
    v1: ValueView,
    v2: ValueView,
)
    ensures
        ({
            let st2 = st.push(v1).push(v2);
            match bin_eval(op, v1, v2) {
                Ok(v) => frag_run(bin_opcodes(op), consts, st2) == Ok::<
                    Seq<ValueView>,
                    (FaultKind, int),
                >(st.push(v)),
                Err(k) => exists|jx: int|
                    0 <= jx < bin_opcodes(op).len() && frag_run(bin_opcodes(op), consts, st2)
                        == Err::<Seq<ValueView>, (FaultKind, int)>((k, jx)),
            }
        }),
{
    let st2 = st.push(v1).push(v2);
    assert(st2.len() >= 2);
    assert(st2.last() == v2);
    assert(st2[st2.len() - 2] == v1);
    assert(st2.take(st2.len() - 2) =~= st);
    let prim: Opcode = match op {
        BinOp::Add => Opcode::Add,
        BinOp::Sub => Opcode::Subtract,
        BinOp::Mul => Opcode::Multiply,
        BinOp::Div => Opcode::Divide,
        BinOp::Eq => Opcode::Equal,
        BinOp::Ne => Opcode::Equal,
        BinOp::Lt => Opcode::Less,
        BinOp::Gt => Opcode::Greater,
        BinOp::Le => Opcode::Greater,
        BinOp::Ge => Opcode::Less,
    };
    let ops = bin_opcodes(op);
    assert(ops[0] == prim);
    assert(is_binary(prim));
    match bin_semantics(prim, v1, v2) {
        Ok(b) => {
            assert(step1(prim, consts, st2) == Ok::<Seq<ValueView>, FaultKind>(st.push(b)));
            let stp = st.push(b);
            if ops.len() == 1 {
                assert(ops.drop_first() =~= Seq::<Opcode>::empty());
                assert(frag_run(ops.drop_first(), consts, stp) == Ok::<
                    Seq<ValueView>,
                    (FaultKind, int),
                >(stp));
                assert(frag_run(ops, consts, st2) == Ok::<Seq<ValueView>, (FaultKind, int)>(stp));
                assert(bin_eval(op, v1, v2) == Ok::<ValueView, FaultKind>(b));
            } else {
                // the complemented comparisons: primitive then Not, on a boolean
                assert(ops.drop_first() =~= seq![Opcode::Not]);
                assert(stp.len() >= 1 && stp.last() == b);
                assert(b is Bool);
                let bb = b->Bool_0;
                let nb = ValueView::Bool(!bb);
                assert(un_semantics(Opcode::Not, b) == Ok::<ValueView, FaultKind>(nb));
                assert(step1(Opcode::Not, consts, stp) == Ok::<Seq<ValueView>, FaultKind>(
                    stp.drop_last().push(nb),
                ));
                assert(stp.drop_last().push(nb) =~= st.push(nb));
                assert(seq![Opcode::Not].drop_first() =~= Seq::<Opcode>::empty());
                assert(frag_run(Seq::<Opcode>::empty(), consts, st.push(nb)) == Ok::<
                    Seq<ValueView>,
                    (FaultKind, int),
                >(st.push(nb)));
                assert(frag_run(seq![Opcode::Not], consts, stp) == Ok::<
                    Seq<ValueView>,
                    (FaultKind, int),
                >(st.push(nb)));
                assert(frag_run(ops, consts, st2) == Ok::<Seq<ValueView>, (FaultKind, int)>(
                    st.push(nb),
                ));
                assert(bin_eval(op, v1, v2) == Ok::<ValueView, FaultKind>(nb));
            }
        },
        Err(k) => {
            assert(step1(prim, consts, st2) == Err::<Seq<ValueView>, FaultKind>(k));
            assert(frag_run(ops, consts, st2) == Err::<Seq<ValueView>, (FaultKind, int)>((k, 0)));
            assert(bin_eval(op, v1, v2) == Err::<ValueView, FaultKind>(k));
        },
    }
}

} // verus!
