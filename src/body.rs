//! Function bodies: blocks, terminators and the per-function value pool.
use vstd::prelude::*;
use crate::entity::{Block, Local, SourceLoc, Value, INVALID_INDEX};
use crate::text::{list_text, push_list, Dump};
use crate::value::{Operator, Type, ValueDef};

verus! {

/// An edge of a terminator: the successor block and the arguments passed to its parameters.
#[derive(Clone, Debug, PartialEq, Eq, Hash)]
pub struct BlockTarget {
    pub block: Block,
    pub args: Vec<Value>,
}

impl Dump for BlockTarget {
    open spec fn dump(&self) -> Seq<char> {
        self.block.text() + "("@ + list_text(self.args@, self.args@.len() as int) + ")"@
    }

    fn push_dump(&self, out: &mut String) {
        self.block.push_text(out);
        out.append("(");
        push_list(out, self.args.as_slice());
        out.append(")");
        assert(final(out)@ =~= old(out)@ + self.dump());
    }
}

/// The control transfer that ends a block.
#[derive(Clone, Debug, PartialEq, Eq, Hash)]
pub enum Terminator {
    Br { target: BlockTarget },
    CondBr { cond: Value, if_true: BlockTarget, if_false: BlockTarget },
    Select { value: Value, targets: Vec<BlockTarget>, default: BlockTarget },
    Return { values: Vec<Value> },
    Unreachable,
    Empty,
}

/// The successor blocks of the first `n` targets of a list.
pub open spec fn target_blocks(ts: Seq<BlockTarget>, n: int) -> Seq<Block>
    decreases n,
{
    if n <= 0 {
        Seq::empty()
    } else {
        target_blocks(ts, n - 1).push(ts[n - 1].block)
    }
}

impl Terminator {
    /// The successor of each edge, in order; one entry per edge.
    pub open spec fn succ_blocks(&self) -> Seq<Block> {
        match self {
            Terminator::Br { target } => seq![target.block],
            Terminator::CondBr { if_true, if_false, .. } => seq![if_true.block, if_false.block],
            Terminator::Select { targets, default, .. } => target_blocks(
                targets@,
                targets@.len() as int,
            ).push(default.block),
            _ => Seq::empty(),
        }
    }

    /// The terminator's text form.
    pub open spec fn text(&self) -> Seq<char> {
        match self {
            Terminator::Br { target } => "br "@ + target.dump(),
            Terminator::CondBr { cond, if_true, if_false } => "if "@ + cond.text() + ", "@
                + if_true.dump() + ", "@ + if_false.dump(),
            Terminator::Select { value, targets, default } => "select "@ + value.text() + ", ["@
                + list_text(targets@, targets@.len() as int) + "], "@ + default.dump(),
            Terminator::Return { values } => "return "@ + list_text(values@, values@.len() as int),
            Terminator::Unreachable => "unreachable"@,
            Terminator::Empty => "no terminator"@,
        }
    }

    /// Appends the terminator's text form to `out`.
    pub fn push_text(&self, out: &mut String)
        ensures
            final(out)@ == old(out)@ + self.text(),
    {
        match self {
            Terminator::Br { target } => {
                out.append("br ");
                target.push_dump(out);
            },
            Terminator::CondBr { cond, if_true, if_false } => {
                out.append("if ");
                cond.push_text(out);
                out.append(", ");
                if_true.push_dump(out);
                out.append(", ");
                if_false.push_dump(out);
            },
            Terminator::Select { value, targets, default } => {
                out.append("select ");
                value.push_text(out);
                out.append(", [");
                push_list(out, targets.as_slice());
                out.append("], ");
                default.push_dump(out);
            },
            Terminator::Return { values } => {
                out.append("return ");
                push_list(out, values.as_slice());
            },
            Terminator::Unreachable => out.append("unreachable"),
            Terminator::Empty => out.append("no terminator"),
        }
        assert(final(out)@ =~= old(out)@ + self.text());
    }
}

/// A basic block.
#[derive(Clone, Debug)]
pub struct BlockDef {
    /// Parameters, each with its type and the value that stands for it.
    pub params: Vec<(Type, Value)>,
    /// Instructions, excluding parameters and the terminator.
    pub insts: Vec<Value>,
    pub terminator: Terminator,
    pub preds: Vec<Block>,
    pub succs: Vec<Block>,
    /// Free-form text for debugging.
    pub desc: String,
}

/// The SSA graph of one function.
#[derive(Clone, Debug)]
pub struct FunctionBody {
    /// How many of the leading locals are the function's parameters.
    pub n_params: usize,
    pub locals: Vec<Type>,
    pub rets: Vec<Type>,
    /// The definition of each value, indexed by the value's index.
    pub values: Vec<ValueDef>,
    /// The blocks, indexed by the block's index; the first is the entry.
    pub blocks: Vec<BlockDef>,
    /// The source local of each value, if any.
    pub value_locals: Vec<Option<Local>>,
    /// The source location of each value; an invalid handle where there is none.
    pub source_locs: Vec<SourceLoc>,
}

impl FunctionBody {
    /// Every handle the body holds refers into its own pools, and the per-value
    /// tables cover every value.
    pub open spec fn wf(&self) -> bool {
        &&& self.n_params <= self.locals@.len()
        &&& self.values@.len() < INVALID_INDEX
        &&& self.blocks@.len() < INVALID_INDEX
        &&& self.value_locals@.len() == self.values@.len()
        &&& self.source_locs@.len() == self.values@.len()
        &&& forall|b: int|
            0 <= b < self.blocks@.len() ==> #[trigger] self.block_wf(self.blocks@[b])
    }

    pub open spec fn block_wf(&self, bd: BlockDef) -> bool {
        &&& forall|i: int|
            0 <= i < bd.params@.len() ==> (#[trigger] bd.params@[i]).1.index
                < self.values@.len()
        &&& forall|i: int| 0 <= i < bd.insts@.len() ==> (#[trigger] bd.insts@[i]).index
            < self.values@.len()
        &&& forall|i: int| 0 <= i < bd.preds@.len() ==> (#[trigger] bd.preds@[i]).index
            < self.blocks@.len()
        &&& forall|i: int| 0 <= i < bd.succs@.len() ==> (#[trigger] bd.succs@[i]).index
            < self.blocks@.len()
    }

    /// A body with no locals, results, values or blocks.
    pub fn new() -> (r: FunctionBody)
        ensures
            r.wf(),
            r.edges_symmetric(),
            r.aliases_acyclic(),
            r.n_params == 0,
            r.locals@.len() == 0,
            r.rets@.len() == 0,
            r.values@.len() == 0,
            r.blocks@.len() == 0,
    {
        FunctionBody {
            n_params: 0,
            locals: Vec::new(),
            rets: Vec::new(),
            values: Vec::new(),
            blocks: Vec::new(),
            value_locals: Vec::new(),
            source_locs: Vec::new(),
        }
    }
}

impl BlockDef {
    /// A block with no parameters, instructions or edges, not yet terminated.
    pub fn new() -> (r: BlockDef)
        ensures
            r.params@.len() == 0,
            r.insts@.len() == 0,
            r.terminator is Empty,
            r.preds@.len() == 0,
            r.succs@.len() == 0,
            r.desc@.len() == 0,
    {
        BlockDef {
            params: Vec::new(),
            insts: Vec::new(),
            terminator: Terminator::Empty,
            preds: Vec::new(),
            succs: Vec::new(),
            desc: String::new(),
        }
    }
}

impl FunctionBody {
    /// Adds a local slot of type `ty`.
    pub fn add_local(&mut self, ty: Type) -> (r: Local)
        requires
            old(self).wf(),
            old(self).locals@.len() < INVALID_INDEX,
        ensures
            old(self).aliases_acyclic() ==> final(self).aliases_acyclic(),
            old(self).edges_symmetric() ==> final(self).edges_symmetric(),
            final(self).wf(),
            r.index == old(self).locals@.len(),
            final(self).locals@ == old(self).locals@.push(ty),
            final(self).values@ == old(self).values@,
            final(self).blocks@ == old(self).blocks@,
            final(self).n_params == old(self).n_params,
    {
        let r = Local { index: self.locals.len() as u32 };
        self.locals.push(ty);
        proof {
            assert forall|k: int| 0 <= k < self.blocks@.len() implies #[trigger] self.block_wf(
                self.blocks@[k],
            ) by {
                assert(old(self).block_wf(old(self).blocks@[k]));
            }
        }
        r
    }

    /// Adds an empty block; the first block added is the entry.
    pub fn add_block(&mut self) -> (r: Block)
        requires
            old(self).wf(),
            old(self).blocks@.len() + 1 < INVALID_INDEX,
        ensures
            old(self).aliases_acyclic() ==> final(self).aliases_acyclic(),
            old(self).edges_symmetric() ==> final(self).edges_symmetric(),
            final(self).wf(),
            r.index == old(self).blocks@.len(),
            final(self).blocks@.len() == old(self).blocks@.len() + 1,
            forall|i: int|
                0 <= i < old(self).blocks@.len() ==> final(self).blocks@[i] == old(self).blocks@[i],
            final(self).blocks@[r.index as int].params@.len() == 0,
            final(self).blocks@[r.index as int].insts@.len() == 0,
            final(self).blocks@[r.index as int].terminator is Empty,
            final(self).blocks@[r.index as int].preds@.len() == 0,
            final(self).blocks@[r.index as int].succs@.len() == 0,
            final(self).values@ == old(self).values@,
            final(self).value_locals@ == old(self).value_locals@,
            final(self).source_locs@ == old(self).source_locs@,
    {
        let r = Block { index: self.blocks.len() as u32 };
        let bd = BlockDef::new();
        self.blocks.push(bd);
        proof {
            if old(self).edges_symmetric() {
                let n = old(self).blocks@.len() as int;
                assert(self.blocks@[n].terminator.succ_blocks() =~= Seq::<Block>::empty());
                assert forall|b: int| 0 <= b < self.blocks@.len() implies (#[trigger] self.blocks@[b]).succs@
                    == self.blocks@[b].terminator.succ_blocks() by {
                    if b < n {
                        assert(self.blocks@[b] == old(self).blocks@[b]);
                    }
                }
                assert forall|x: int, p: int|
                    0 <= x < self.blocks@.len() && 0 <= p < self.blocks@.len() implies occurrences(
                    (#[trigger] self.blocks@[x]).preds@,
                    Block { index: p as u32 },
                ) == occurrences((#[trigger] self.blocks@[p]).terminator.succ_blocks(), Block { index: x as u32 }) by {
                    if x == n {
                        assert(occurrences(self.blocks@[x].preds@, Block { index: p as u32 }) == 0);
                        if p < n {
                            assert(old(self).block_wf(old(self).blocks@[p]));
                            lemma_occurrences_absent(old(self).blocks@[p].succs@, Block { index: x as u32 });
                        }
                    } else if p == n {
                        assert(old(self).block_wf(old(self).blocks@[x]));
                        lemma_occurrences_absent(old(self).blocks@[x].preds@, Block { index: p as u32 });
                    }
                }
            }
            assert forall|b: int| 0 <= b < self.blocks@.len() implies #[trigger] self.block_wf(
                self.blocks@[b],
            ) by {
                if b < old(self).blocks@.len() {
                    assert(old(self).block_wf(old(self).blocks@[b]));
                }
            }
        }
        r
    }

    /// Adds a value defined by `def`, with no source local and no source location.
    pub fn add_value(&mut self, def: ValueDef) -> (r: Value)
        requires
            old(self).wf(),
            old(self).values@.len() + 1 < INVALID_INDEX,
        ensures
            old(self).aliases_acyclic() && !(def is Alias) ==> final(self).aliases_acyclic(),
            old(self).edges_symmetric() ==> final(self).edges_symmetric(),
            final(self).wf(),
            r.index == old(self).values@.len(),
            final(self).values@ == old(self).values@.push(def),
            final(self).value_locals@ == old(self).value_locals@.push(None),
            final(self).source_locs@ == old(self).source_locs@.push(
                SourceLoc { index: INVALID_INDEX },
            ),
            final(self).blocks@ == old(self).blocks@,
            final(self).locals@ == old(self).locals@,
            final(self).rets@ == old(self).rets@,
            final(self).n_params == old(self).n_params,
    {
        let r = Value { index: self.values.len() as u32 };
        self.values.push(def);
        self.value_locals.push(None);
        self.source_locs.push(SourceLoc::invalid());
        proof {
            if old(self).aliases_acyclic() && !(def is Alias) {
                lemma_acyclic_push(old(self).values@, def);
            }
            assert forall|b: int| 0 <= b < self.blocks@.len() implies #[trigger] self.block_wf(
                self.blocks@[b],
            ) by {
                assert(old(self).block_wf(old(self).blocks@[b]));
            }
        }
        r
    }

    /// Adds a value that forward-declares a value of type `ty`.
    pub fn add_placeholder(&mut self, ty: Type) -> (r: Value)
        requires
            old(self).wf(),
            old(self).values@.len() + 1 < INVALID_INDEX,
        ensures
            old(self).aliases_acyclic() ==> final(self).aliases_acyclic(),
            old(self).edges_symmetric() ==> final(self).edges_symmetric(),
            final(self).wf(),
            r.index == old(self).values@.len(),
            final(self).values@ == old(self).values@.push(ValueDef::Placeholder(ty)),
            final(self).blocks@ == old(self).blocks@,
    {
        self.add_value(ValueDef::Placeholder(ty))
    }

    /// Appends a parameter of type `ty` to `block`, defined by a new value.
    pub fn add_blockparam(&mut self, block: Block, ty: Type) -> (r: Value)
        requires
            old(self).wf(),
            block.index < old(self).blocks@.len(),
            old(self).values@.len() + 1 < INVALID_INDEX,
        ensures
            old(self).aliases_acyclic() ==> final(self).aliases_acyclic(),
            old(self).edges_symmetric() ==> final(self).edges_symmetric(),
            final(self).wf(),
            r.index == old(self).values@.len(),
            final(self).values@ == old(self).values@.push(
                ValueDef::BlockParam(block, old(self).blocks@[block.index as int].params@.len() as usize, ty),
            ),
            final(self).blocks@.len() == old(self).blocks@.len(),
            final(self).blocks@[block.index as int].params@ == old(self).blocks@[block.index as int].params@.push((ty, r)),
            final(self).blocks@[block.index as int].insts@ == old(self).blocks@[block.index as int].insts@,
            forall|i: int|
                0 <= i < old(self).blocks@.len() && i != block.index ==> final(self).blocks@[i]
                    == old(self).blocks@[i],
    {
        let b = block.index as usize;
        let idx = self.blocks[b].params.len();
        let r = self.add_value(ValueDef::BlockParam(block, idx, ty));
        self.blocks[b].params.push((ty, r));
        proof {
            assert forall|k: int| 0 <= k < self.blocks@.len() implies #[trigger] self.block_wf(
                self.blocks@[k],
            ) by {
                assert(old(self).block_wf(old(self).blocks@[k]));
            }
        }
        r
    }

    /// Appends `value` to the instructions of `block`.
    pub fn append_to_block(&mut self, block: Block, value: Value)
        requires
            old(self).wf(),
            block.index < old(self).blocks@.len(),
            value.index < old(self).values@.len(),
        ensures
            old(self).aliases_acyclic() ==> final(self).aliases_acyclic(),
            old(self).edges_symmetric() ==> final(self).edges_symmetric(),
            final(self).wf(),
            final(self).values@ == old(self).values@,
            final(self).blocks@.len() == old(self).blocks@.len(),
            final(self).blocks@[block.index as int].insts@ == old(self).blocks@[block.index as int].insts@.push(value),
            final(self).blocks@[block.index as int].params@ == old(self).blocks@[block.index as int].params@,
            forall|i: int|
                0 <= i < old(self).blocks@.len() && i != block.index ==> final(self).blocks@[i]
                    == old(self).blocks@[i],
    {
        self.blocks[block.index as usize].insts.push(value);
        proof {
            assert forall|k: int| 0 <= k < self.blocks@.len() implies #[trigger] self.block_wf(
                self.blocks@[k],
            ) by {
                assert(old(self).block_wf(old(self).blocks@[k]));
            }
        }
    }

    /// Adds the application of `op` to `args`, with results of types `tys`,
    /// as a new value at the end of `block`.
    pub fn add_op(&mut self, block: Block, op: Operator, args: Vec<Value>, tys: Vec<Type>) -> (r: Value)
        requires
            old(self).wf(),
            block.index < old(self).blocks@.len(),
            old(self).values@.len() + 1 < INVALID_INDEX,
        ensures
            old(self).aliases_acyclic() ==> final(self).aliases_acyclic(),
            old(self).edges_symmetric() ==> final(self).edges_symmetric(),
            final(self).wf(),
            r.index == old(self).values@.len(),
            final(self).values@.len() == old(self).values@.len() + 1,
            forall|i: int| 0 <= i < old(self).values@.len() ==> final(self).values@[i] == old(self).values@[i],
            final(self).values@[r.index as int] == ValueDef::Operator(op, args, tys),
            final(self).blocks@.len() == old(self).blocks@.len(),
            final(self).blocks@[block.index as int].insts@ == old(self).blocks@[block.index as int].insts@.push(r),
    {
        let r = self.add_value(ValueDef::Operator(op, args, tys));
        self.append_to_block(block, r);
        r
    }

    /// Replaces the definition of `value` in place; the handle stays the same.
    pub fn set_value_def(&mut self, value: Value, def: ValueDef)
        requires
            old(self).wf(),
            value.index < old(self).values@.len(),
        ensures
            old(self).aliases_acyclic() && !(def is Alias) ==> final(self).aliases_acyclic(),
            old(self).edges_symmetric() ==> final(self).edges_symmetric(),
            final(self).wf(),
            final(self).values@ == old(self).values@.update(value.index as int, def),
            final(self).blocks@ == old(self).blocks@,
    {
        self.values.set(value.index as usize, def);
        proof {
            if old(self).aliases_acyclic() && !(def is Alias) {
                lemma_acyclic_update(old(self).values@, value, def);
                assert(self.values@ == old(self).values@.update(value.index as int, def));
            }
            assert forall|k: int| 0 <= k < self.blocks@.len() implies #[trigger] self.block_wf(
                self.blocks@[k],
            ) by {
                assert(old(self).block_wf(old(self).blocks@[k]));
            }
        }
    }

    /// Ends `block` with `term`, recording its edges in the successor list of
    /// `block` and in the predecessor list of each successor, once per edge.
    /// A terminator is set once per block, while the body is built: the block
    /// must not have one yet, so no recorded edge ever needs removing.
    pub fn set_terminator(&mut self, block: Block, term: Terminator)
        requires
            old(self).wf(),
            block.index < old(self).blocks@.len(),
            old(self).blocks@[block.index as int].terminator is Empty,
            forall|i: int| 0 <= i < term.succ_blocks().len() ==> (#[trigger] term.succ_blocks()[i]).index < old(self).blocks@.len(),
        ensures
            old(self).aliases_acyclic() ==> final(self).aliases_acyclic(),
            old(self).edges_symmetric() ==> final(self).edges_symmetric(),
            final(self).wf(),
            final(self).values@ == old(self).values@,
            final(self).blocks@.len() == old(self).blocks@.len(),
            final(self).blocks@[block.index as int].terminator == term,
            final(self).blocks@[block.index as int].succs@ == old(self).blocks@[block.index as int].succs@ + term.succ_blocks(),
    {
        let succs = term.succ_block_vec();
        let b = block.index as usize;
        self.blocks[b].terminator = term;
        proof {
            assert forall|k: int| 0 <= k < self.blocks@.len() implies #[trigger] self.block_wf(
                self.blocks@[k],
            ) by {
                assert(old(self).block_wf(old(self).blocks@[k]));
            }
        }
        let mut i: usize = 0;
        while i < succs.len()
            invariant
                self.wf(),
                b == block.index,
                b < self.blocks@.len(),
                self.values@ == old(self).values@,
                self.blocks@.len() == old(self).blocks@.len(),
                self.blocks@[b as int].terminator == term,
                succs@ == term.succ_blocks(),
                forall|k: int| 0 <= k < succs@.len() ==> (#[trigger] succs@[k]).index < self.blocks@.len(),
                i <= succs@.len(),
                self.blocks@[b as int].succs@ == old(self).blocks@[b as int].succs@ + succs@.subrange(0, i as int),
                forall|x: int|
                    0 <= x < self.blocks@.len() && x != b ==> (#[trigger] self.blocks@[x]).terminator
                        == old(self).blocks@[x].terminator && self.blocks@[x].succs@ == old(self).blocks@[x].succs@,
                forall|x: int, p: int|
                    0 <= x < self.blocks@.len() && 0 <= p < self.blocks@.len() ==> #[trigger] occurrences(
                        self.blocks@[x].preds@,
                        Block { index: p as u32 },
                    ) == occurrences(old(self).blocks@[x].preds@, Block { index: p as u32 }) + if p == b {
                        occurrences(succs@.subrange(0, i as int), Block { index: x as u32 })
                    } else {
                        0nat
                    },
            decreases succs@.len() - i,
        {
            let s = succs[i];
            let ghost prev = *self;
            self.blocks[b].succs.push(s);
            self.blocks[s.index as usize].preds.push(block);
            i = i + 1;
            proof {
                assert forall|k: int| 0 <= k < self.blocks@.len() implies #[trigger] self.block_wf(
                    self.blocks@[k],
                ) by {
                    assert(prev.block_wf(prev.blocks@[k]));
                    if k == s.index {
                        assert(self.blocks@[k].preds@ == prev.blocks@[k].preds@.push(block));
                    }
                }
                assert(self.blocks@[b as int].succs@ =~= old(self).blocks@[b as int].succs@ + succs@.subrange(0, i as int));
                assert forall|x: int, p: int|
                    0 <= x < self.blocks@.len() && 0 <= p < self.blocks@.len() implies #[trigger] occurrences(
                        self.blocks@[x].preds@,
                        Block { index: p as u32 },
                    ) == occurrences(old(self).blocks@[x].preds@, Block { index: p as u32 }) + if p == b {
                        occurrences(succs@.subrange(0, i as int), Block { index: x as u32 })
                    } else {
                        0nat
                    } by {
                    assert(succs@.subrange(0, i as int) =~= succs@.subrange(0, i - 1).push(s));
                    lemma_occurrences_push(succs@.subrange(0, i - 1), s, Block { index: x as u32 });
                    if x == s.index {
                        assert(self.blocks@[x].preds@ == prev.blocks@[x].preds@.push(block));
                        lemma_occurrences_push(prev.blocks@[x].preds@, block, Block { index: p as u32 });
                    } else {
                        assert(self.blocks@[x].preds@ == prev.blocks@[x].preds@);
                    }
                }
            }
        }
        assert(succs@.subrange(0, succs@.len() as int) =~= succs@);
        proof {
            if old(self).edges_symmetric() {
                assert(old(self).blocks@[b as int].succs@ =~= Seq::<Block>::empty());
                assert forall|x: int| 0 <= x < self.blocks@.len() implies (#[trigger] self.blocks@[x]).succs@
                    == self.blocks@[x].terminator.succ_blocks() by {
                    if x == b {
                        assert(self.blocks@[x].succs@ =~= succs@);
                    }
                }
                assert forall|x: int, p: int|
                    0 <= x < self.blocks@.len() && 0 <= p < self.blocks@.len() implies occurrences(
                    (#[trigger] self.blocks@[x]).preds@,
                    Block { index: p as u32 },
                ) == occurrences((#[trigger] self.blocks@[p]).terminator.succ_blocks(), Block { index: x as u32 }) by {
                    assert(occurrences(old(self).blocks@[x].preds@, Block { index: p as u32 }) == occurrences(
                        old(self).blocks@[p].terminator.succ_blocks(),
                        Block { index: x as u32 },
                    ));
                    if p == b {
                        assert(old(self).blocks@[p].terminator.succ_blocks() =~= Seq::<Block>::empty());
                    }
                }
            }
        }
    }
}

/// The definition of `v` in a value pool; a handle outside the pool reads as
/// an empty slot.
pub open spec fn def_in(values: Seq<ValueDef>, v: Value) -> ValueDef {
    if v.index < values.len() {
        values[v.index as int]
    } else {
        ValueDef::Empty
    }
}

/// Where `n` steps along alias links from `v` lead in a value pool; a step
/// from a value that is not an alias stays put.
pub open spec fn follow_in(values: Seq<ValueDef>, v: Value, n: nat) -> Value
    decreases n,
{
    if n == 0 {
        v
    } else {
        match def_in(values, v) {
            ValueDef::Alias(to) => follow_in(values, to, (n - 1) as nat),
            _ => v,
        }
    }
}

impl FunctionBody {
    /// The definition of `v`; a handle outside the pool reads as an empty slot.
    pub open spec fn def_at(&self, v: Value) -> ValueDef {
        def_in(self.values@, v)
    }

    /// Where `n` steps along alias links from `v` lead.
    pub open spec fn follow(&self, v: Value, n: nat) -> Value {
        follow_in(self.values@, v, n)
    }

    /// No alias chain is cyclic: from every value, as many steps as there are
    /// values reach a definition that is not an alias.
    pub open spec fn aliases_acyclic(&self) -> bool {
        forall|v: Value|
            !(#[trigger] def_in(self.values@, follow_in(self.values@, v, self.values@.len() as nat)) is Alias)
    }

    /// Follows alias links from `value` until a definition that is not an
    /// alias, or until as many steps as there are values have been taken.
    pub fn resolve_alias(&self, value: Value) -> (r: Value)
        ensures
            exists|n: nat| n <= self.values@.len() && r == self.follow(value, n),
            self.aliases_acyclic() ==> !(self.def_at(r) is Alias),
            self.aliases_acyclic() ==> r == self.follow(value, self.values@.len() as nat),
    {
        let mut cur = value;
        let mut k: usize = 0;
        let len = self.values.len();
        while k < len
            invariant
                len == self.values@.len(),
                k <= len,
                cur == self.follow(value, k as nat),
            decreases len - k,
        {
            if (cur.index as usize) < len {
                if let ValueDef::Alias(to) = &self.values[cur.index as usize] {
                    proof {
                        lemma_follow_step(self.values@, value, k as nat);
                    }
                    cur = *to;
                    k = k + 1;
                } else {
                    proof {
                        lemma_follow_fixed(self.values@, value, k as nat, len as nat);
                    }
                    return cur;
                }
            } else {
                proof {
                    lemma_follow_fixed(self.values@, value, k as nat, len as nat);
                }
                return cur;
            }
        }
        cur
    }
}

impl Terminator {
    /// The edges of the terminator, in order.
    pub open spec fn targets(&self) -> Seq<BlockTarget> {
        match self {
            Terminator::Br { target } => seq![*target],
            Terminator::CondBr { if_true, if_false, .. } => seq![*if_true, *if_false],
            Terminator::Select { targets, default, .. } => targets@.push(*default),
            _ => Seq::empty(),
        }
    }
}

impl FunctionBody {
    /// The type of `v` after following its alias chain.
    pub open spec fn resolved_ty(&self, v: Value) -> Option<Type> {
        self.def_at(self.follow(v, self.values@.len() as nat)).ty_spec()
    }

    /// An edge passes one argument per parameter of its successor, each of
    /// the parameter's type.
    pub open spec fn target_ok(&self, t: BlockTarget) -> bool {
        &&& t.block.index < self.blocks@.len()
        &&& t.args@.len() == self.blocks@[t.block.index as int].params@.len()
        &&& forall|k: int|
            0 <= k < t.args@.len() ==> self.resolved_ty(#[trigger] t.args@[k]) == Some(
                self.blocks@[t.block.index as int].params@[k].0,
            )
    }

    /// Every edge of every terminator is well typed.
    pub open spec fn edges_well_typed(&self) -> bool {
        forall|b: int, i: int|
            0 <= b < self.blocks@.len() && 0 <= i < self.blocks@[b].terminator.targets().len()
                ==> self.target_ok(#[trigger] self.blocks@[b].terminator.targets()[i])
    }

    fn check_target(&self, t: &BlockTarget) -> (r: bool)
        requires
            self.aliases_acyclic(),
        ensures
            r == self.target_ok(*t),
    {
        let s = t.block.index as usize;
        if s >= self.blocks.len() {
            return false;
        }
        let params = &self.blocks[s].params;
        if t.args.len() != params.len() {
            return false;
        }
        let mut k: usize = 0;
        while k < t.args.len()
            invariant
                self.aliases_acyclic(),
                s == t.block.index,
                s < self.blocks@.len(),
                *params == self.blocks@[s as int].params,
                t.args@.len() == params@.len(),
                k <= t.args@.len(),
                forall|j: int| 0 <= j < k ==> self.resolved_ty(#[trigger] t.args@[j]) == Some(params@[j].0),
            decreases t.args@.len() - k,
        {
            let r = self.resolve_alias(t.args[k]);
            let ty = if (r.index as usize) < self.values.len() {
                self.values[r.index as usize].ty()
            } else {
                None
            };
            if ty != Some(params[k].0) {
                return false;
            }
            k = k + 1;
        }
        true
    }

    /// Whether every edge passes as many arguments as its successor has
    /// parameters, each of the parameter's type once aliases are followed.
    pub fn check_edge_types(&self) -> (r: bool)
        requires
            self.aliases_acyclic(),
        ensures
            r == self.edges_well_typed(),
    {
        let mut b: usize = 0;
        while b < self.blocks.len()
            invariant
                self.aliases_acyclic(),
                b <= self.blocks@.len(),
                forall|c: int, i: int|
                    0 <= c < b && 0 <= i < self.blocks@[c].terminator.targets().len()
                        ==> self.target_ok(#[trigger] self.blocks@[c].terminator.targets()[i]),
            decreases self.blocks@.len() - b,
        {
            let term = &self.blocks[b].terminator;
            let ok = match term {
                Terminator::Br { target } => self.check_target(target),
                Terminator::CondBr { if_true, if_false, .. } => {
                    if self.check_target(if_true) {
                        self.check_target(if_false)
                    } else {
                        false
                    }
                },
                Terminator::Select { targets, default, .. } => {
                    let mut all = true;
                    let mut i: usize = 0;
                    while i < targets.len()
                        invariant
                            self.aliases_acyclic(),
                            i <= targets@.len(),
                            all == (forall|j: int| 0 <= j < i ==> self.target_ok(#[trigger] targets@[j])),
                        decreases targets@.len() - i,
                    {
                        if !self.check_target(&targets[i]) {
                            all = false;
                        }
                        i = i + 1;
                    }
                    if all {
                        self.check_target(default)
                    } else {
                        false
                    }
                },
                _ => true,
            };
            if !ok {
                proof {
                    let ts = term.targets();
                    if let Terminator::Select { targets, default, .. } = term {
                        if exists|j: int| 0 <= j < targets@.len() && !self.target_ok(#[trigger] targets@[j]) {
                            let j = choose|j: int| 0 <= j < targets@.len() && !self.target_ok(#[trigger] targets@[j]);
                            assert(ts[j] == targets@[j]);
                        } else {
                            assert(ts[targets@.len() as int] == *default);
                        }
                    }
                    if let Terminator::CondBr { if_true, if_false, .. } = term {
                        assert(ts[0] == *if_true);
                        assert(ts[1] == *if_false);
                    }
                    if let Terminator::Br { target } = term {
                        assert(ts[0] == *target);
                    }
                }
                return false;
            }
            proof {
                let ts = term.targets();
                assert forall|i: int| 0 <= i < ts.len() implies self.target_ok(#[trigger] ts[i]) by {
                    if let Terminator::Select { targets, default, .. } = term {
                        if i < targets@.len() {
                            assert(ts[i] == targets@[i]);
                        }
                    }
                }
            }
            b = b + 1;
        }
        true
    }
}

/// How many times `x` occurs in `s`.
pub open spec fn occurrences(s: Seq<Block>, x: Block) -> nat
    decreases s.len(),
{
    if s.len() == 0 {
        0
    } else {
        occurrences(s.drop_last(), x) + if s.last() == x {
            1nat
        } else {
            0nat
        }
    }
}

pub proof fn lemma_occurrences_push(s: Seq<Block>, y: Block, x: Block)
    ensures
        occurrences(s.push(y), x) == occurrences(s, x) + if y == x {
            1nat
        } else {
            0nat
        },
{
    assert(s.push(y).drop_last() =~= s);
}

/// A block that occurs in a sequence stands at some position of it.
pub proof fn lemma_occurrences_pos(s: Seq<Block>, x: Block)
    requires
        occurrences(s, x) > 0,
    ensures
        exists|i: int| 0 <= i < s.len() && s[i] == x,
    decreases s.len(),
{
    if s.last() != x {
        lemma_occurrences_pos(s.drop_last(), x);
        let i = choose|i: int| 0 <= i < s.drop_last().len() && s.drop_last()[i] == x;
        assert(s[i] == x);
    } else {
        assert(s[s.len() - 1] == x);
    }
}

impl FunctionBody {
    /// The body meets every graph invariant this library tracks: it is well
    /// formed, its cached edge lists agree with its terminators, it has no
    /// alias cycle, and every edge is well typed.
    pub open spec fn sound(&self) -> bool {
        &&& self.wf()
        &&& self.edges_symmetric()
        &&& self.aliases_acyclic()
        &&& self.edges_well_typed()
    }
}

impl FunctionBody {
    /// `v` is defined in the block: as one of its parameters or instructions.
    pub open spec fn defined_in(&self, bd: BlockDef, v: Value) -> bool {
        (exists|k: int| 0 <= k < bd.params@.len() && (#[trigger] bd.params@[k]).1 == v) || (exists|
            k: int,
        |
            0 <= k < bd.insts@.len() && #[trigger] bd.insts@[k] == v)
    }

    /// Maximal SSA form: every operand of an instruction of a block, and every
    /// argument of its terminator's edges, names (once aliases are followed) a
    /// value defined in that same block; values live across blocks arrive only
    /// as block parameters.
    pub open spec fn max_ssa_form(&self) -> bool {
        &&& forall|b: int, k: int, j: int|
            0 <= b < self.blocks@.len() && 0 <= k < self.blocks@[b].insts@.len() && 0 <= j
                < self.def_at(self.blocks@[b].insts@[k]).uses().len() ==> self.defined_in(
                self.blocks@[b],
                self.follow(
                    #[trigger] self.def_at(self.blocks@[b].insts@[k]).uses()[j],
                    self.values@.len() as nat,
                ),
            )
        &&& forall|b: int, t: int, j: int|
            0 <= b < self.blocks@.len() && 0 <= t < self.blocks@[b].terminator.targets().len() && 0
                <= j < self.blocks@[b].terminator.targets()[t].args@.len() ==> self.defined_in(
                self.blocks@[b],
                self.follow(
                    #[trigger] self.blocks@[b].terminator.targets()[t].args@[j],
                    self.values@.len() as nat,
                ),
            )
    }
}

/// A block that stands at no position of a sequence does not occur in it.
pub proof fn lemma_occurrences_absent(s: Seq<Block>, x: Block)
    requires
        forall|i: int| 0 <= i < s.len() ==> s[i] != x,
    ensures
        occurrences(s, x) == 0,
    decreases s.len(),
{
    if s.len() > 0 {
        assert forall|i: int| 0 <= i < s.drop_last().len() implies s.drop_last()[i] != x by {
            assert(s.drop_last()[i] == s[i]);
        }
        lemma_occurrences_absent(s.drop_last(), x);
    }
}

impl FunctionBody {
    /// The cached edge lists agree with the terminators: each block's
    /// successor list is its terminator's edges in order, and `p` occurs in
    /// the predecessor list of `s` exactly as many times as the terminator of
    /// `p` has an edge to `s`.
    pub open spec fn edges_symmetric(&self) -> bool {
        &&& forall|b: int|
            0 <= b < self.blocks@.len() ==> (#[trigger] self.blocks@[b]).succs@
                == self.blocks@[b].terminator.succ_blocks()
        &&& forall|s: int, p: int|
            0 <= s < self.blocks@.len() && 0 <= p < self.blocks@.len() ==> occurrences(
                (#[trigger] self.blocks@[s]).preds@,
                Block { index: p as u32 },
            ) == occurrences((#[trigger] self.blocks@[p]).terminator.succ_blocks(), Block { index: s as u32 })
    }
}

/// Every entry of a predecessor list stands for an edge: where `p` is listed
/// among the predecessors of `s`, the terminator of `p` has an edge to `s`,
/// and as many such edges as `p` is listed.
pub proof fn lemma_pred_has_edge(body: &FunctionBody, s: Block, p: Block)
    requires
        body.wf(),
        body.edges_symmetric(),
        s.index < body.blocks@.len(),
        p.index < body.blocks@.len(),
        occurrences(body.blocks@[s.index as int].preds@, p) > 0,
    ensures
        exists|i: int|
            0 <= i < body.blocks@[p.index as int].terminator.succ_blocks().len()
                && body.blocks@[p.index as int].terminator.succ_blocks()[i] == s,
        occurrences(body.blocks@[s.index as int].preds@, p) == occurrences(
            body.blocks@[p.index as int].terminator.succ_blocks(),
            s,
        ),
{
    let bs = body.blocks@;
    assert(occurrences(bs[s.index as int].preds@, Block { index: p.index }) == occurrences(
        bs[p.index as int].terminator.succ_blocks(),
        Block { index: s.index },
    ));
    lemma_occurrences_pos(bs[p.index as int].terminator.succ_blocks(), s);
}

/// One more step along an alias link.
pub proof fn lemma_follow_step(values: Seq<ValueDef>, v: Value, n: nat)
    ensures
        follow_in(values, v, n + 1) == match def_in(values, follow_in(values, v, n)) {
            ValueDef::Alias(to) => to,
            _ => follow_in(values, v, n),
        },
    decreases n,
{
    match def_in(values, v) {
        ValueDef::Alias(to) => {
            assert(follow_in(values, v, n + 1) == follow_in(values, to, n));
            if n > 0 {
                lemma_follow_step(values, to, (n - 1) as nat);
                assert(follow_in(values, v, n) == follow_in(values, to, (n - 1) as nat));
            } else {
                assert(follow_in(values, to, 0) == to);
            }
        },
        _ => {
            assert(follow_in(values, v, n + 1) == v);
            assert(follow_in(values, v, n) == v);
        },
    }
}

/// Once a chain reaches a definition that is not an alias, further steps stay there.
pub proof fn lemma_follow_fixed(values: Seq<ValueDef>, v: Value, n: nat, m: nat)
    requires
        n <= m,
        !(def_in(values, follow_in(values, v, n)) is Alias),
    ensures
        follow_in(values, v, m) == follow_in(values, v, n),
    decreases m - n,
{
    if n < m {
        lemma_follow_step(values, v, n);
        lemma_follow_fixed(values, v, n + 1, m);
    }
}

/// Appending a definition that is not an alias changes no alias chain.
proof fn lemma_follow_push(values: Seq<ValueDef>, def: ValueDef, v: Value, k: nat)
    requires
        !(def is Alias),
    ensures
        follow_in(values.push(def), v, k) == follow_in(values, v, k),
    decreases k,
{
    if k > 0 {
        match def_in(values, v) {
            ValueDef::Alias(to) => {
                lemma_follow_push(values, def, to, (k - 1) as nat);
            },
            _ => {},
        }
    }
}

/// Appending a definition that is not an alias keeps the pool free of alias cycles.
proof fn lemma_acyclic_push(values: Seq<ValueDef>, def: ValueDef)
    requires
        !(def is Alias),
        forall|v: Value| !(#[trigger] def_in(values, follow_in(values, v, values.len() as nat)) is Alias),
    ensures
        forall|v: Value|
            !(#[trigger] def_in(values.push(def), follow_in(values.push(def), v, values.push(def).len() as nat)) is Alias),
{
    let n = values.len() as nat;
    let nv = values.push(def);
    assert forall|v: Value| !(#[trigger] def_in(nv, follow_in(nv, v, nv.len() as nat)) is Alias) by {
        lemma_follow_push(values, def, v, n + 1);
        assert(!(def_in(values, follow_in(values, v, n)) is Alias));
        lemma_follow_fixed(values, v, n, n + 1);
        let r = follow_in(values, v, n);
        if r.index < n {
            assert(def_in(nv, r) == def_in(values, r));
        }
    }
}

/// After a definition is replaced by one that is not an alias, a chain either
/// goes as before or has stopped at the replaced value.
proof fn lemma_follow_update(values: Seq<ValueDef>, v: Value, def: ValueDef, u: Value, k: nat)
    requires
        !(def is Alias),
        v.index < values.len(),
    ensures
        follow_in(values.update(v.index as int, def), u, k) == follow_in(values, u, k) || follow_in(
            values.update(v.index as int, def),
            u,
            k,
        ) == v,
    decreases k,
{
    let q = values.update(v.index as int, def);
    if k > 0 {
        lemma_follow_update(values, v, def, u, (k - 1) as nat);
        lemma_follow_step(q, u, (k - 1) as nat);
        lemma_follow_step(values, u, (k - 1) as nat);
        let c = follow_in(values, u, (k - 1) as nat);
        if follow_in(q, u, (k - 1) as nat) != v {
            assert(c != v);
            assert(c.index != v.index);
            assert(def_in(q, c) == def_in(values, c));
        } else {
            assert(def_in(q, v) == def);
        }
    }
}

/// Replacing a definition by one that is not an alias keeps the pool free of alias cycles.
proof fn lemma_acyclic_update(values: Seq<ValueDef>, v: Value, def: ValueDef)
    requires
        !(def is Alias),
        v.index < values.len(),
        forall|w: Value| !(#[trigger] def_in(values, follow_in(values, w, values.len() as nat)) is Alias),
    ensures
        forall|w: Value|
            !(#[trigger] def_in(
                values.update(v.index as int, def),
                follow_in(values.update(v.index as int, def), w, values.len() as nat),
            ) is Alias),
{
    let q = values.update(v.index as int, def);
    let n = values.len() as nat;
    assert forall|w: Value| !(#[trigger] def_in(q, follow_in(q, w, n)) is Alias) by {
        lemma_follow_update(values, v, def, w, n);
        let r = follow_in(q, w, n);
        if r == v {
            assert(def_in(q, v) == def);
        } else {
            assert(!(def_in(values, follow_in(values, w, n)) is Alias));
            assert(r.index != v.index);
            assert(def_in(q, r) == def_in(values, r));
        }
    }
}

/// Resolving a placeholder in place keeps every consumer as it was: after the
/// definition of `p` is replaced, every other value has the same operands, so
/// its uses still name `p` by the same handle.
pub proof fn lemma_resolution_keeps_consumers(
    before: &FunctionBody,
    after: &FunctionBody,
    p: Value,
    def: ValueDef,
    c: Value,
)
    requires
        p.index < before.values@.len(),
        after.values@ == before.values@.update(p.index as int, def),
        c.index < before.values@.len(),
        c != p,
    ensures
        after.values@[c.index as int].uses() == before.values@[c.index as int].uses(),
        after.values@[p.index as int].uses() == def.uses(),
{
}

/// Rewriting the operands of a definition that is not an alias (with
/// `update_uses`, which keeps its shape) keeps the pool free of alias cycles.
pub proof fn lemma_update_uses_keeps_acyclic(values: Seq<ValueDef>, w: Value, new_def: ValueDef)
    requires
        w.index < values.len(),
        !(values[w.index as int] is Alias),
        new_def.same_shape(&values[w.index as int]),
        forall|v: Value| !(#[trigger] def_in(values, follow_in(values, v, values.len() as nat)) is Alias),
    ensures
        forall|v: Value|
            !(#[trigger] def_in(
                values.update(w.index as int, new_def),
                follow_in(values.update(w.index as int, new_def), v, values.len() as nat),
            ) is Alias),
{
    assert(!(new_def is Alias));
    lemma_acyclic_update(values, w, new_def);
}

/// In a body without alias cycles, the alias chain from any value ends, within
/// as many steps as there are values, at a definition that is not an alias.
pub proof fn lemma_alias_chain_ends(b: &FunctionBody, v: Value)
    requires
        b.aliases_acyclic(),
    ensures
        exists|n: nat| n <= b.values@.len() && !(b.def_at(b.follow(v, n)) is Alias),
{
    let n = b.values@.len() as nat;
    assert(!(b.def_at(b.follow(v, n)) is Alias));
}

impl Terminator {
    /// The successor of each edge, in order.
    pub fn succ_block_vec(&self) -> (r: Vec<Block>)
        ensures
            r@ == self.succ_blocks(),
    {
        let mut r: Vec<Block> = Vec::new();
        match self {
            Terminator::Br { target } => r.push(target.block),
            Terminator::CondBr { if_true, if_false, .. } => {
                r.push(if_true.block);
                r.push(if_false.block);
            },
            Terminator::Select { targets, default, .. } => {
                let mut i: usize = 0;
                while i < targets.len()
                    invariant
                        i <= targets@.len(),
                        r@ == target_blocks(targets@, i as int),
                    decreases targets@.len() - i,
                {
                    r.push(targets[i].block);
                    i = i + 1;
                }
                r.push(default.block);
            },
            _ => {},
        }
        assert(r@ =~= self.succ_blocks());
        r
    }
}

} // verus!
