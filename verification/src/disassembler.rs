//! The disassembler: a human-readable rendering of a chunk and,
//! optionally, of a live operand-stack snapshot.
//!
//! It is a read-only observer: every function here takes the chunk (and
//! stack) through shared references and returns only text, so tracing can
//! never alter what a later run of the virtual machine computes.
use crate::chunk::{Chunk, Opcode};
use crate::strings::{dec_text, u64_text};
use crate::value::{value_text, Value, ValueView};
use vstd::prelude::*;
use vstd::string::StringExecFns;

verus! {

/// The mnemonic of an instruction.
pub open spec fn mnemonic(op: Opcode) -> Seq<char> {
    match op {
        Opcode::Constant(_) => "OP_Constant"@,
        Opcode::Nil => "OP_Nil"@,
        Opcode::True => "OP_True"@,
        Opcode::False => "OP_False"@,
        Opcode::Equal => "OP_Equal"@,
        Opcode::Greater => "OP_Greater"@,
        Opcode::Less => "OP_Less"@,
        Opcode::Add => "OP_Add"@,
        Opcode::Subtract => "OP_Subtract"@,
        Opcode::Multiply => "OP_Multiply"@,
        Opcode::Divide => "OP_Divide"@,
        Opcode::Negate => "OP_Negate"@,
        Opcode::Not => "OP_Not"@,
        Opcode::Return => "OP_Return"@,
    }
}

/// The rendering of the instruction at `offset`: its offset, its source
/// line (a bar when it repeats the previous instruction's line), its
/// mnemonic, and — for a constant load — the index and the constant's
/// display form.
pub open spec fn instr_text(c: Chunk, offset: int) -> Seq<char> {
    let line_part = if offset > 0 && c.lines@[offset] == c.lines@[offset - 1] {
        "   | "@
    } else {
        dec_text(c.lines@[offset] as int) + " "@
    };
    let base = dec_text(offset) + "  "@ + line_part + mnemonic(c.code@[offset]);
    let full = match c.code@[offset] {
        Opcode::Constant(ix) => base + " "@ + dec_text(ix as int) + " '"@ + value_text(
            c.consts()[ix as int],
        ) + "'"@,
        _ => base,
    };
    full + "\n"@
}

/// The listing of the first `n` instructions.
pub open spec fn listing_text(c: Chunk, n: int) -> Seq<char>
    decreases n,
{
    if n <= 0 {
        Seq::empty()
    } else {
        listing_text(c, n - 1) + instr_text(c, n - 1)
    }
}

/// The whole listing, between labelled header and footer lines.
pub open spec fn disasm_text(c: Chunk, name: Seq<char>) -> Seq<char> {
    "== BEGIN "@ + name + " ==\n"@ + listing_text(c, c.code@.len() as int) + "== END "@ + name
        + " ==\n"@
}

/// The rendering of the values on a stack snapshot, bottom first.
pub open spec fn stack_items_text(s: Seq<ValueView>) -> Seq<char>
    decreases s.len(),
{
    if s.len() == 0 {
        Seq::empty()
    } else {
        stack_items_text(s.drop_last()) + "[ "@ + value_text(s.last()) + " ]"@
    }
}

/// The rendering of an optional stack snapshot.
pub open spec fn stack_text(s: Option<Seq<ValueView>>) -> Seq<char> {
    match s {
        Some(vs) => if vs.len() == 0 {
            "S: [ ]\n"@
        } else {
            "S: "@ + stack_items_text(vs) + "\n"@
        },
        None => Seq::empty(),
    }
}

/// A read-only observer over a chunk and an optional live stack.
pub struct Disassembler<'a> {
    pub chunk: &'a Chunk,
    pub stack: Option<&'a Vec<Value>>,
}

/// The model of the observed stack snapshot.
pub open spec fn snapshot(stack: Option<&Vec<Value>>) -> Option<Seq<ValueView>> {
    match stack {
        Some(v) => Some(v.deep_view()),
        None => None,
    }
}

/// Executable mnemonic of an instruction.
fn mnemonic_str(op: Opcode) -> (r: &'static str)
    ensures
        r@ == mnemonic(op),
{
    match op {
        Opcode::Constant(_) => "OP_Constant",
        Opcode::Nil => "OP_Nil",
        Opcode::True => "OP_True",
        Opcode::False => "OP_False",
        Opcode::Equal => "OP_Equal",
        Opcode::Greater => "OP_Greater",
        Opcode::Less => "OP_Less",
        Opcode::Add => "OP_Add",
        Opcode::Subtract => "OP_Subtract",
        Opcode::Multiply => "OP_Multiply",
        Opcode::Divide => "OP_Divide",
        Opcode::Negate => "OP_Negate",
        Opcode::Not => "OP_Not",
        Opcode::Return => "OP_Return",
    }
}

impl<'a> Disassembler<'a> {
    pub fn new(chunk: &'a Chunk, stack: Option<&'a Vec<Value>>) -> (d: Self)
        ensures
            d.chunk == chunk,
            d.stack == stack,
    {
        Disassembler { chunk, stack }
    }

    /// Renders the optional stack snapshot, per [`stack_text`].
    fn stack(&self) -> (r: String)
        ensures
            r@ == stack_text(snapshot(self.stack)),
    {
        match self.stack {
            None => String::new(),
            Some(values) => {
                if values.len() == 0 {
                    return "S: [ ]\n".to_owned();
                }
                let mut out = "S: ".to_owned();
                let mut i: usize = 0;
                while i < values.len()
                    invariant
                        0 <= i <= values@.len(),
                        out@ == "S: "@ + stack_items_text(values.deep_view().take(i as int)),
                    decreases values@.len() - i,
                {
                    out.append("[ ");
                    out.append(values[i].display_string().as_str());
                    out.append(" ]");
                    proof {
                        let vs = values.deep_view();
                        assert(vs.take(i + 1).drop_last() =~= vs.take(i as int));
                        assert(vs.take(i + 1).last() == vs[i as int]);
                        assert(out@ =~= "S: "@ + stack_items_text(vs.take(i + 1)));
                    }
                    i = i + 1;
                }
                out.append("\n");
                proof {
                    assert(values.deep_view().take(values@.len() as int) =~= values.deep_view());
                    assert(out@ =~= stack_text(snapshot(self.stack)));
                }
                out
            },
        }
    }

    /// Renders one instruction, per [`instr_text`].
    pub fn instruction(&self, offset: usize) -> (r: String)
        requires
            self.chunk.wf(),
            offset < self.chunk.code@.len(),
        ensures
            r@ == instr_text(*self.chunk, offset as int),
    {
        let mut out = u64_text(offset as u64);
        out.append("  ");
        let line = self.chunk.lines[offset];
        if offset > 0 && line == self.chunk.lines[offset - 1] {
            out.append("   | ");
        } else {
            out.append(u64_text(line as u64).as_str());
            out.append(" ");
        }
        let op = self.chunk.code[offset];
        out.append(mnemonic_str(op));
        match op {
            Opcode::Constant(ix) => {
                out.append(" ");
                out.append(u64_text(ix as u64).as_str());
                out.append(" '");
                let v = self.chunk.read_constant(ix);
                out.append(v.display_string().as_str());
                out.append("'");
            },
            _ => {},
        }
        out.append("\n");
        proof {
            assert(out@ =~= instr_text(*self.chunk, offset as int));
        }
        out
    }

    /// Renders the whole chunk, per [`disasm_text`], preceded by the
    /// stack snapshot when one is observed.
    pub fn disassemble(&self, name: &str) -> (r: String)
        requires
            self.chunk.wf(),
        ensures
            r@ == stack_text(snapshot(self.stack)) + disasm_text(*self.chunk, name@),
    {
        let mut out = self.stack();
        out.append("== BEGIN ");
        out.append(name);
        out.append(" ==\n");
        let ghost header = out@;
        let mut i: usize = 0;
        while i < self.chunk.code.len()
            invariant
                self.chunk.wf(),
                0 <= i <= self.chunk.code@.len(),
                header == stack_text(snapshot(self.stack)) + "== BEGIN "@ + name@ + " ==\n"@,
                out@ == header + listing_text(*self.chunk, i as int),
            decreases self.chunk.code@.len() - i,
        {
            out.append(self.instruction(i).as_str());
            proof {
                assert(out@ =~= header + listing_text(*self.chunk, i + 1));
            }
            i = i + 1;
        }
        out.append("== END ");
        out.append(name);
        out.append(" ==\n");
        proof {
            assert(out@ =~= stack_text(snapshot(self.stack)) + disasm_text(*self.chunk, name@));
        }
        out
    }
}

} // verus!
