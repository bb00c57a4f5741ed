//! The bytecode container: an instruction stream, a constant pool, and a
//! parallel source-line table.
use crate::value::{Value, ValueView};
use vstd::prelude::*;

verus! {

/// One instruction.  `Constant` carries an 8-bit index into the chunk's
/// constant pool, capping a compiled unit at 256 constants.
#[derive(Debug, Clone, Copy, PartialEq, Eq, Structural)]
pub enum Opcode {
    Constant(u8),
    Nil,
    True,
    False,
    Equal,
    Greater,
    Less,
    Add,
    Subtract,
    Multiply,
    Divide,
    Negate,
    Not,
    Return,
}

/// A compiled unit: three parallel growable sequences.  `lines[i]` is the
/// 1-based source line that produced `code[i]`.
#[derive(Debug)]
pub struct Chunk {
    pub code: Vec<Opcode>,
    pub constants: Vec<Value>,
    pub lines: Vec<usize>,
}

impl Chunk {
    /// The model of the constant pool.
    pub open spec fn consts(&self) -> Seq<ValueView> {
        self.constants.deep_view()
    }

    /// Well-formedness: the line table parallels the code, the constant
    /// pool never exceeds its 8-bit addressing ceiling, and every constant
    /// index is in range.
    pub open spec fn wf(&self) -> bool {
        &&& self.code@.len() == self.lines@.len()
        &&& self.constants@.len() <= 256
        &&& forall|i: int|
            0 <= i < self.code@.len() ==> ((#[trigger] self.code@[i]) matches Opcode::Constant(c)
                ==> (c as int) < self.constants@.len())
    }

    /// An empty chunk.
    pub fn new() -> (c: Self)
        ensures
            c.code@ =~= Seq::<Opcode>::empty(),
            c.consts() =~= Seq::<ValueView>::empty(),
            c.lines@ =~= Seq::<usize>::empty(),
            c.wf(),
    {
        Chunk { code: Vec::new(), constants: Vec::new(), lines: Vec::new() }
    }

    /// Appends one instruction together with its source line.
    pub fn write(&mut self, op: Opcode, line: usize)
        ensures
            final(self).code@ == old(self).code@.push(op),
            final(self).lines@ == old(self).lines@.push(line),
            final(self).constants == old(self).constants,
    {
        self.code.push(op);
        self.lines.push(line);
    }

    /// Appends a value to the constant pool and returns its index, or
    /// `None` when the pool already holds 256 entries (the addressing limit
    /// of `Opcode::Constant`); the pool is then left unchanged.
    pub fn add_constant(&mut self, value: Value) -> (idx: Option<u8>)
        ensures
            final(self).code == old(self).code,
            final(self).lines == old(self).lines,
            old(self).constants@.len() < 256 ==> {
                &&& idx == Some((old(self).constants@.len() as u8))
                &&& final(self).consts() =~= old(self).consts().push(value@)
                &&& final(self).constants@.len() == old(self).constants@.len() + 1
            },
            old(self).constants@.len() >= 256 ==> {
                &&& idx is None
                &&& final(self).constants == old(self).constants
            },
    {
        if self.constants.len() >= 256 {
            None
        } else {
            let i = self.constants.len();
            self.constants.push(value);
            Some(i as u8)
        }
    }

    /// Bounds-checked fetch of a constant.
    pub fn read_constant(&self, constant: u8) -> (v: Value)
        requires
            (constant as int) < self.constants@.len(),
        ensures
            v@ == self.consts()[constant as int],
    {
        self.constants[constant as usize].clone()
    }
}

} // verus!
