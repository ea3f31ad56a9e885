//! Value types, operators and SSA value definitions.
use vstd::prelude::*;
use crate::entity::{Block, Func, Global, Value};
use crate::text::{decimal, Dump};

verus! {

/// A WebAssembly value type.
#[derive(Clone, Copy, Debug, PartialEq, Eq, Hash, Structural)]
pub enum Type {
    I32,
    I64,
    F32,
    F64,
    V128,
    FuncRef,
    ExternRef,
}

impl Type {
    /// The type's text form.
    pub open spec fn text(self) -> Seq<char> {
        match self {
            Type::I32 => "i32"@,
            Type::I64 => "i64"@,
            Type::F32 => "f32"@,
            Type::F64 => "f64"@,
            Type::V128 => "v128"@,
            Type::FuncRef => "funcref"@,
            Type::ExternRef => "externref"@,
        }
    }

    /// Appends the type's text form to `out`.
    pub fn push_text(&self, out: &mut String)
        ensures
            final(out)@ == old(out)@ + self.text(),
    {
        match self {
            Type::I32 => out.append("i32"),
            Type::I64 => out.append("i64"),
            Type::F32 => out.append("f32"),
            Type::F64 => out.append("f64"),
            Type::V128 => out.append("v128"),
            Type::FuncRef => out.append("funcref"),
            Type::ExternRef => out.append("externref"),
        }
    }
}

impl Dump for Type {
    open spec fn dump(&self) -> Seq<char> {
        self.text()
    }

    fn push_dump(&self, out: &mut String) {
        self.push_text(out)
    }
}

/// An opcode, with its immediates, applied by an `Operator` value definition.
#[derive(Clone, Copy, Debug, PartialEq, Eq, Hash, Structural)]
pub enum Operator {
    Nop,
    Unreachable,
    I32Const { value: u32 },
    I64Const { value: u64 },
    I32Add,
    I32Sub,
    I32Mul,
    I32Eq,
    I32Eqz,
    I64Add,
    Select,
    Call { function_index: Func },
    GlobalGet { global_index: Global },
    GlobalSet { global_index: Global },
}

impl Operator {
    /// The opcode's text form, immediates in angle brackets.
    pub open spec fn text(self) -> Seq<char> {
        match self {
            Operator::Nop => "nop"@,
            Operator::Unreachable => "unreachable"@,
            Operator::I32Const { value } => "i32.const<"@ + decimal(value as nat) + ">"@,
            Operator::I64Const { value } => "i64.const<"@ + decimal(value as nat) + ">"@,
            Operator::I32Add => "i32.add"@,
            Operator::I32Sub => "i32.sub"@,
            Operator::I32Mul => "i32.mul"@,
            Operator::I32Eq => "i32.eq"@,
            Operator::I32Eqz => "i32.eqz"@,
            Operator::I64Add => "i64.add"@,
            Operator::Select => "select"@,
            Operator::Call { function_index } => "call<"@ + function_index.text() + ">"@,
            Operator::GlobalGet { global_index } => "global.get<"@ + global_index.text() + ">"@,
            Operator::GlobalSet { global_index } => "global.set<"@ + global_index.text() + ">"@,
        }
    }

    /// Appends the opcode's text form to `out`.
    pub fn push_text(&self, out: &mut String)
        ensures
            final(out)@ == old(out)@ + self.text(),
    {
        match self {
            Operator::Nop => out.append("nop"),
            Operator::Unreachable => out.append("unreachable"),
            Operator::I32Const { value } => {
                out.append("i32.const<");
                crate::text::push_decimal(out, *value as u64);
                out.append(">");
            },
            Operator::I64Const { value } => {
                out.append("i64.const<");
                crate::text::push_decimal(out, *value);
                out.append(">");
            },
            Operator::I32Add => out.append("i32.add"),
            Operator::I32Sub => out.append("i32.sub"),
            Operator::I32Mul => out.append("i32.mul"),
            Operator::I32Eq => out.append("i32.eq"),
            Operator::I32Eqz => out.append("i32.eqz"),
            Operator::I64Add => out.append("i64.add"),
            Operator::Select => out.append("select"),
            Operator::Call { function_index } => {
                out.append("call<");
                function_index.push_text(out);
                out.append(">");
            },
            Operator::GlobalGet { global_index } => {
                out.append("global.get<");
                global_index.push_text(out);
                out.append(">");
            },
            Operator::GlobalSet { global_index } => {
                out.append("global.set<");
                global_index.push_text(out);
                out.append(">");
            },
        }
        assert(final(out)@ =~= old(out)@ + self.text());
    }
}

/// What a value is bound to.
#[derive(Clone, Debug, PartialEq, Eq, Hash)]
pub enum ValueDef {
    /// The `index`-th parameter of a block, with its type.
    BlockParam(Block, usize, Type),
    /// An opcode applied to argument values, producing results of the given types.
    Operator(Operator, Vec<Value>, Vec<Type>),
    /// The `index`-th result of a multi-result operator.
    PickOutput(Value, usize, Type),
    /// A rename: uses of this value are uses of the target.
    Alias(Value),
    /// A typed forward declaration, resolved later in place.
    Placeholder(Type),
    /// A side-effect-free annotation over some values.
    Trace(usize, Vec<Value>),
    /// An uninitialised slot.
    Empty,
}

impl Default for ValueDef {
    fn default() -> (r: ValueDef)
        ensures
            r is Empty,
    {
        ValueDef::Empty
    }
}

/// Relies on `std::slice::from_ref`: a slice of length one over the referenced value.
#[verifier::external_body]
fn slice_of_one(t: &Type) -> (r: &[Type])
    ensures
        r@ == seq![*t],
{
    std::slice::from_ref(t)
}

impl ValueDef {
    /// The operands of the definition, in left-to-right order.
    pub open spec fn uses(&self) -> Seq<Value> {
        match self {
            ValueDef::Operator(_, args, _) => args@,
            ValueDef::Trace(_, args) => args@,
            ValueDef::PickOutput(from, _, _) => seq![*from],
            ValueDef::Alias(to) => seq![*to],
            _ => Seq::empty(),
        }
    }

    /// The single result type, where the definition has exactly one.
    pub open spec fn ty_spec(&self) -> Option<Type> {
        match self {
            ValueDef::BlockParam(_, _, t) => Some(*t),
            ValueDef::Operator(_, _, tys) => if tys@.len() == 1 {
                Some(tys@[0])
            } else {
                None
            },
            ValueDef::PickOutput(_, _, t) => Some(*t),
            ValueDef::Placeholder(t) => Some(*t),
            _ => None,
        }
    }

    /// All result types.
    pub open spec fn tys_spec(&self) -> Seq<Type> {
        match self {
            ValueDef::Operator(_, _, tys) => tys@,
            ValueDef::BlockParam(_, _, t) => seq![*t],
            ValueDef::PickOutput(_, _, t) => seq![*t],
            ValueDef::Placeholder(t) => seq![*t],
            _ => Seq::empty(),
        }
    }

    /// `self` and `other` are the same variant and agree on everything but their operands.
    pub open spec fn same_shape(&self, other: &ValueDef) -> bool {
        match (self, other) {
            (ValueDef::BlockParam(b1, i1, t1), ValueDef::BlockParam(b2, i2, t2)) => b1 == b2
                && i1 == i2 && t1 == t2,
            (ValueDef::Operator(o1, _, t1), ValueDef::Operator(o2, _, t2)) => o1 == o2 && t1@
                == t2@,
            (ValueDef::PickOutput(_, i1, t1), ValueDef::PickOutput(_, i2, t2)) => i1 == i2 && t1
                == t2,
            (ValueDef::Alias(_), ValueDef::Alias(_)) => true,
            (ValueDef::Placeholder(t1), ValueDef::Placeholder(t2)) => t1 == t2,
            (ValueDef::Trace(i1, _), ValueDef::Trace(i2, _)) => i1 == i2,
            (ValueDef::Empty, ValueDef::Empty) => true,
            _ => false,
        }
    }

    /// The single result type: `Some` for a block parameter, a picked output, a
    /// placeholder and an operator with one result; `None` otherwise.
    pub fn ty(&self) -> (r: Option<Type>)
        ensures
            r == self.ty_spec(),
    {
        match self {
            ValueDef::BlockParam(_, _, ty) => Some(*ty),
            ValueDef::Operator(_, _, tys) => if tys.len() == 1 {
                Some(tys[0])
            } else {
                None
            },
            ValueDef::PickOutput(_, _, ty) => Some(*ty),
            ValueDef::Placeholder(ty) => Some(*ty),
            _ => None,
        }
    }

    /// All result types: an operator's list, one type for the single-result
    /// variants, none for the rest.
    pub fn tys(&self) -> (r: &[Type])
        ensures
            r@ == self.tys_spec(),
    {
        match self {
            ValueDef::Operator(_, _, tys) => tys.as_slice(),
            ValueDef::BlockParam(_, _, ty) => slice_of_one(ty),
            ValueDef::PickOutput(_, _, ty) => slice_of_one(ty),
            ValueDef::Placeholder(ty) => slice_of_one(ty),
            _ => &[],
        }
    }

    /// Appends each operand of the definition to `out`, in left-to-right order.
    pub fn visit_uses(&self, out: &mut Vec<Value>)
        requires
            !(*self is Empty),
        ensures
            final(out)@ == old(out)@ + self.uses(),
    {
        match self {
            ValueDef::Operator(_, args, _) => push_all(out, args),
            ValueDef::Trace(_, args) => push_all(out, args),
            ValueDef::PickOutput(from, _, _) => out.push(*from),
            ValueDef::Alias(to) => out.push(*to),
            _ => {},
        }
        assert(final(out)@ =~= old(out)@ + self.uses());
    }

    /// Replaces each operand `u` of the definition by `f(u)`, in left-to-right
    /// order, leaving everything else as it was.
    pub fn update_uses<F: Fn(Value) -> Value>(&mut self, f: F)
        requires
            !(*old(self) is Empty),
            forall|v: Value| f.requires((v,)),
        ensures
            final(self).same_shape(old(self)),
            final(self).uses().len() == old(self).uses().len(),
            forall|i: int|
                0 <= i < old(self).uses().len() ==> f.ensures(
                    (#[trigger] old(self).uses()[i],),
                    final(self).uses()[i],
                ),
    {
        match self {
            ValueDef::Operator(_, args, _) => map_all(args, &f),
            ValueDef::Trace(_, args) => map_all(args, &f),
            ValueDef::PickOutput(from, _, _) => {
                *from = f(*from);
            },
            ValueDef::Alias(to) => {
                *to = f(*to);
            },
            _ => {},
        }
    }
}

fn push_all(out: &mut Vec<Value>, vs: &Vec<Value>)
    ensures
        final(out)@ == old(out)@ + vs@,
{
    let mut i: usize = 0;
    while i < vs.len()
        invariant
            i <= vs@.len(),
            out@ == old(out)@ + vs@.subrange(0, i as int),
        decreases vs@.len() - i,
    {
        out.push(vs[i]);
        i = i + 1;
        assert(out@ =~= old(out)@ + vs@.subrange(0, i as int));
    }
    assert(vs@.subrange(0, vs@.len() as int) =~= vs@);
}

fn map_all<F: Fn(Value) -> Value>(vs: &mut Vec<Value>, f: &F)
    requires
        forall|v: Value| f.requires((v,)),
    ensures
        final(vs)@.len() == old(vs)@.len(),
        forall|i: int|
            0 <= i < old(vs)@.len() ==> f.ensures((#[trigger] old(vs)@[i],), final(vs)@[i]),
{
    let mut i: usize = 0;
    while i < vs.len()
        invariant
            i <= vs@.len(),
            vs@.len() == old(vs)@.len(),
            forall|v: Value| f.requires((v,)),
            forall|j: int| i <= j < vs@.len() ==> vs@[j] == old(vs)@[j],
            forall|j: int| 0 <= j < i ==> f.ensures((#[trigger] old(vs)@[j],), vs@[j]),
        decreases vs@.len() - i,
    {
        let u = f(vs[i]);
        vs.set(i, u);
        i = i + 1;
    }
}

/// `visit_uses` and `update_uses` walk the same operand positions: a rewrite
/// that hands every visited operand back unchanged leaves the definition's
/// shape, operands and result types as they were.
pub proof fn lemma_uses_positions(before: ValueDef, after: ValueDef)
    requires
        after.same_shape(&before),
        after.uses().len() == before.uses().len(),
        forall|i: int| 0 <= i < before.uses().len() ==> after.uses()[i] == before.uses()[i],
    ensures
        after.uses() == before.uses(),
        after.ty_spec() == before.ty_spec(),
        after.tys_spec() == before.tys_spec(),
{
    assert(after.uses() =~= before.uses());
}

} // verus!
