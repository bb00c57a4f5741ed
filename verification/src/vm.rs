//! The stack-machine virtual machine.
//!
//! [`Vm::run`] decodes and executes a chunk's instructions from offset 0
//! until a `Return` or a fault, and is proved to return exactly what the
//! specification interpreter [`run_from`] says: the value left on top of
//! the stack at the `Return` (or `None` for an empty stack), or a fault
//! carrying the message of the fault kind and the source line of the
//! faulting instruction.  On a fault the operand stack is reset.
use crate::chunk::{Chunk, Opcode};
use crate::compiler::{parse_src, sp_prec, sp_prefix, Parser};
use crate::error::{fault_message, fault_text, FaultKind, Runtime, RxError};
use crate::expr::{eval, n_consts};
use crate::scanner::scan_from;
use crate::semantics::{frag_run, lemma_run_of_frag, run_from, step1};
use crate::value::{Value, ValueView};
use vstd::prelude::*;

verus! {

/// The model of an operand stack.
pub open spec fn sv(s: Seq<Value>) -> Seq<ValueView> {
    s.map_values(|v: Value| v@)
}

/// The model of a returned value.
pub open spec fn opt_view(o: Option<Value>) -> Option<ValueView> {
    match o {
        Some(v) => Some(v@),
        None => None,
    }
}

/// The line reported for a fault at instruction index `i` (0 when the line
/// table does not cover it).
pub open spec fn line_of(lines: Seq<usize>, i: int) -> usize {
    if 0 <= i < lines.len() {
        lines[i]
    } else {
        0
    }
}

/// A virtual machine: an operand stack and an instruction pointer.  The
/// stack is transient per run and reset on a fault.
pub struct Vm {
    pub stack: Vec<Value>,
    pub ip: usize,
}

impl Vm {
    /// A machine with an empty operand stack.
    pub fn new() -> (vm: Vm)
        ensures
            vm.stack@.len() == 0,
    {
        Vm { stack: Vec::new(), ip: 0 }
    }

    /// Resets the stack and builds the fault report for instruction `ip`.
    fn fault(&mut self, chunk: &Chunk, ip: usize, k: FaultKind) -> (rt: Runtime)
        ensures
            rt.msg@ == fault_text(k),
            rt.line == line_of(chunk.lines@, ip as int),
            final(self).stack@.len() == 0,
    {
        self.stack.clear();
        let line: usize = if ip < chunk.lines.len() {
            chunk.lines[ip]
        } else {
            0
        };
        Runtime { msg: fault_message(k).to_owned(), line }
    }

    /// Executes `chunk` from offset 0 on a fresh operand stack.
    ///
    /// Returns the popped value at `Return` (`None` when the stack is empty
    /// there), or the fault the run raises, exactly as [`run_from`]
    /// prescribes; on a fault the operand stack has been reset.
    pub fn run(&mut self, chunk: &Chunk) -> (r: Result<Option<Value>, Runtime>)
        ensures
            ({
                let out = run_from(chunk.code@, chunk.consts(), 0, Seq::empty());
                match r {
                    Ok(vo) => out == Ok::<Option<ValueView>, (FaultKind, int)>(opt_view(vo)),
                    Err(rt) => {
                        &&& out matches Err((k, i)) && rt.msg@ == fault_text(k) && rt.line
                            == line_of(chunk.lines@, i)
                        &&& final(self).stack@.len() == 0
                    },
                }
            }),
    {
        self.ip = 0;
        self.stack.clear();
        let ghost code = chunk.code@;
        let ghost cs = chunk.consts();
        proof {
            assert(sv(self.stack@) =~= Seq::<ValueView>::empty());
        }
        loop
            invariant
                code == chunk.code@,
                cs == chunk.consts(),
                run_from(code, cs, 0, Seq::empty()) == run_from(
                    code,
                    cs,
                    self.ip as int,
                    sv(self.stack@),
                ),
            decreases code.len() - self.ip,
        {
            let ip = self.ip;
            let ghost pre = self.stack@;
            let ghost ipg = ip as int;
            if ip >= chunk.code.len() {
                return Err(self.fault(chunk, ip, FaultKind::MissingReturn));
            }
            let op = chunk.code[ip];
            match op {
                Opcode::Return => {
                    let v = self.stack.pop();
                    proof {
                        if sv(pre).len() == 0 {
                            assert(opt_view(v) == None::<ValueView>);
                        } else {
                            assert(opt_view(v) == Some(sv(pre).last()));
                        }
                    }
                    return Ok(v);
                },
                Opcode::Constant(c) => {
                    if (c as usize) < chunk.constants.len() {
                        let val = chunk.read_constant(c);
                        self.stack.push(val);
                        self.ip = ip + 1;
                        proof {
                            assert(sv(self.stack@) =~= sv(pre).push(cs[c as int]));
                        }
                    } else {
                        return Err(self.fault(chunk, ip, FaultKind::BadConstant));
                    }
                },
                Opcode::Nil => {
                    self.stack.push(Value::Nil);
                    self.ip = ip + 1;
                    proof {
                        assert(sv(self.stack@) =~= sv(pre).push(ValueView::Nil));
                    }
                },
                Opcode::True => {
                    self.stack.push(Value::Bool(true));
                    self.ip = ip + 1;
                    proof {
                        assert(sv(self.stack@) =~= sv(pre).push(ValueView::Bool(true)));
                    }
                },
                Opcode::False => {
                    self.stack.push(Value::Bool(false));
                    self.ip = ip + 1;
                    proof {
                        assert(sv(self.stack@) =~= sv(pre).push(ValueView::Bool(false)));
                    }
                },
                Opcode::Negate | Opcode::Not => {
                    let a = match self.stack.pop() {
                        Some(v) => v,
                        None => {
                            return Err(self.fault(chunk, ip, FaultKind::StackUnderflow));
                        },
                    };
                    let res = if matches!(op, Opcode::Negate) {
                        a.neg()
                    } else {
                        a.not()
                    };
                    match res {
                        Ok(v) => {
                            self.stack.push(v);
                            self.ip = ip + 1;
                            proof {
                                assert(sv(self.stack@) =~= sv(pre).drop_last().push(v@));
                            }
                        },
                        Err(k) => {
                            return Err(self.fault(chunk, ip, k));
                        },
                    }
                },
                _ => {
                    let r = match self.stack.pop() {
                        Some(v) => v,
                        None => {
                            return Err(self.fault(chunk, ip, FaultKind::StackUnderflow));
                        },
                    };
                    let l = match self.stack.pop() {
                        Some(v) => v,
                        None => {
                            return Err(self.fault(chunk, ip, FaultKind::StackUnderflow));
                        },
                    };
                    let res: Result<Value, FaultKind> = match op {
                        Opcode::Equal => Ok(Value::Bool(l.equals(&r))),
                        Opcode::Greater => match r.lt(&l) {
                            Ok(b) => Ok(Value::Bool(b)),
                            Err(k) => Err(k),
                        },
                        Opcode::Less => match l.lt(&r) {
                            Ok(b) => Ok(Value::Bool(b)),
                            Err(k) => Err(k),
                        },
                        Opcode::Add => l.add(r),
                        Opcode::Subtract => l.sub(r),
                        Opcode::Multiply => l.mul(r),
                        _ => l.div(r),
                    };
                    match res {
                        Ok(v) => {
                            self.stack.push(v);
                            self.ip = ip + 1;
                            proof {
                                assert(sv(self.stack@) =~= sv(pre).take(
                                    sv(pre).len() - 2,
                                ).push(v@));
                            }
                        },
                        Err(k) => {
                            return Err(self.fault(chunk, ip, k));
                        },
                    }
                },
            }
        }
    }
}


impl Vm {
    /// The whole pipeline: compiles `source` into a fresh chunk and, when
    /// compilation succeeds, executes it.
    ///
    /// The contract is the language's end-to-end meaning: when the source
    /// parses as one expression whose literals fit the constant pool,
    /// the result is exactly the expression's reference evaluation -- its
    /// value, or a runtime fault with that fault's message.  Otherwise a
    /// compile-time error is returned and nothing is executed.
    pub fn interpret(&mut self, source: &str) -> (r: Result<Option<Value>, RxError>)
        ensures
            ({
                match parse_src(source@) {
                    Some(e) => if n_consts(e) <= 256 {
                        match eval(e) {
                            Ok(v) => r matches Ok(vo) && vo matches Some(val) && val@ == v,
                            Err(k) => r matches Err(rx) && rx matches RxError::Runtime(rt)
                                && rt.msg@ == fault_text(k),
                        }
                    } else {
                        r matches Err(rx) && rx matches RxError::Compile(_)
                    },
                    None => r matches Err(rx) && rx matches RxError::Compile(_),
                }
            }),
    {
        let mut chunk = Chunk::new();
        let parser = Parser::new(source);
        let ghost phad = parser.had_error;
        let ghost src = source@;
        match parser.compile(&mut chunk) {
            Err(c) => {
                proof {
                    if phad {
                        assert(sp_prefix(src, 0) is None);
                        assert(sp_prec(src, 0, 1) is None);
                        assert(parse_src(src) is None);
                    } else {
                        match sp_prec(src, 0, 1) {
                            Option::Some(out) => {
                                if scan_from(src, out.j).kind is Eof {
                                    assert(parse_src(src) == Some(out.e));
                                    assert(n_consts(out.e) > 256);
                                } else {
                                    assert(parse_src(src) is None);
                                }
                            },
                            Option::None => {
                                assert(parse_src(src) is None);
                            },
                        }
                    }
                }
                Err(RxError::Compile(c))
            },
            Ok(()) => {
                proof {
                    match sp_prec(src, 0, 1) {
                        Option::Some(out) => {
                            assert(scan_from(src, out.j).kind is Eof);
                            assert(n_consts(out.e) <= 256);
                            assert(parse_src(src) == Some(out.e));
                            let f = chunk.code@.drop_last();
                            assert(chunk.code@ == f.push(Opcode::Return));
                            lemma_run_of_frag(f, chunk.consts(), Seq::empty());
                            match eval(out.e) {
                                Ok(v) => {
                                    assert(frag_run(f, chunk.consts(), Seq::<ValueView>::empty())
                                        == Ok::<Seq<ValueView>, (FaultKind, int)>(
                                        Seq::<ValueView>::empty().push(v),
                                    ));
                                    assert(Seq::<ValueView>::empty().push(v).len() == 1);
                                    assert(Seq::<ValueView>::empty().push(v).last() == v);
                                    assert(run_from(chunk.code@, chunk.consts(), 0, Seq::empty())
                                        == Ok::<Option<ValueView>, (FaultKind, int)>(Some(v)));
                                },
                                Err(k) => {
                                    let ix = choose|ix: int|
                                        0 <= ix < f.len() && frag_run(
                                            f,
                                            chunk.consts(),
                                            Seq::<ValueView>::empty(),
                                        ) == Err::<Seq<ValueView>, (FaultKind, int)>((k, ix));
                                    assert(run_from(chunk.code@, chunk.consts(), 0, Seq::empty())
                                        == Err::<Option<ValueView>, (FaultKind, int)>((k, ix)));
                                },
                            }
                        },
                        Option::None => {
                            assert(false);
                        },
                    }
                }
                match self.run(&chunk) {
                    Ok(v) => Ok(v),
                    Err(rt) => Err(RxError::Runtime(rt)),
                }
            },
        }
    }
}

} // verus!
