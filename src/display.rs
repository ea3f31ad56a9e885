//! The textual dump of function bodies and modules.
use vstd::prelude::*;
use crate::body::{BlockDef, FunctionBody};
use crate::entity::{Block, Func, Global, Memory, Signature, SourceFile, SourceLoc, Table, Value, INVALID_INDEX};
use crate::module::{FuncDecl, Module};
use crate::text::{decimal, list_text, opt_decimal, push_decimal, push_list, push_opt_decimal, Dump};
use crate::value::ValueDef;

verus! {

/// Hooks that add text at fixed anchors of a function dump: after an
/// instruction, before and after a block's body, and before and after a
/// function's body.
pub trait PrintDecorator {
    spec fn after_inst_text(&self, value: Value) -> Seq<char>;

    spec fn before_block_text(&self, block: Block) -> Seq<char>;

    spec fn after_block_text(&self, block: Block) -> Seq<char>;

    spec fn before_function_body_text(&self) -> Seq<char>;

    spec fn after_function_body_text(&self) -> Seq<char>;

    /// Text written after an instruction's line, before its line break.
    fn after_inst(&self, value: Value) -> (r: String)
        ensures
            r@ == self.after_inst_text(value),
    ;

    /// Text written after a block's header line.
    fn before_block(&self, block: Block) -> (r: String)
        ensures
            r@ == self.before_block_text(block),
    ;

    /// Text written after a block's instructions, before its terminator.
    fn after_block(&self, block: Block) -> (r: String)
        ensures
            r@ == self.after_block_text(block),
    ;

    /// Text written after a function's signature line.
    fn before_function_body(&self) -> (r: String)
        ensures
            r@ == self.before_function_body_text(),
    ;

    /// Text written after a function's last block, before its closing brace.
    fn after_function_body(&self) -> (r: String)
        ensures
            r@ == self.after_function_body_text(),
    ;
}

/// The decorator that adds nothing.
#[derive(Clone, Copy, Debug, Default)]
pub struct NOPPrintDecorator;

impl PrintDecorator for NOPPrintDecorator {
    open spec fn after_inst_text(&self, value: Value) -> Seq<char> {
        Seq::empty()
    }

    open spec fn before_block_text(&self, block: Block) -> Seq<char> {
        Seq::empty()
    }

    open spec fn after_block_text(&self, block: Block) -> Seq<char> {
        Seq::empty()
    }

    open spec fn before_function_body_text(&self) -> Seq<char> {
        Seq::empty()
    }

    open spec fn after_function_body_text(&self) -> Seq<char> {
        Seq::empty()
    }

    fn after_inst(&self, value: Value) -> (r: String) {
        String::new()
    }

    fn before_block(&self, block: Block) -> (r: String) {
        String::new()
    }

    fn after_block(&self, block: Block) -> (r: String) {
        String::new()
    }

    fn before_function_body(&self) -> (r: String) {
        String::new()
    }

    fn after_function_body(&self) -> (r: String) {
        String::new()
    }
}

/// A function body together with what its dump needs: the indentation of
/// every line, whether every value definition is listed first, the module
/// whose debug tables name source locations, and a decorator.
pub struct FunctionBodyDisplay<'a, PD: PrintDecorator> {
    pub body: &'a FunctionBody,
    pub indent: &'a str,
    pub verbose: bool,
    pub module: Option<&'a Module>,
    pub decorator: Option<&'a PD>,
}

/// The text of a value whose index is `i`.
pub open spec fn value_at(i: int) -> Seq<char> {
    Value { index: i as u32 }.text()
}

impl<'a, PD: PrintDecorator> FunctionBodyDisplay<'a, PD> {
    pub open spec fn ind(&self) -> Seq<char> {
        self.indent@
    }

    /// The start of an indented line inside a block.
    pub open spec fn lead(&self) -> Seq<char> {
        self.indent@ + "    "@
    }

    /// The line that opens the dump: parameter and result types.
    pub open spec fn header(&self) -> Seq<char> {
        self.ind() + "function("@ + list_text(self.body.locals@, self.body.n_params as int)
            + ") -> "@ + list_text(self.body.rets@, self.body.rets@.len() as int) + " {\n"@
    }

    /// The line for value `i` in the verbose list of all definitions; the
    /// plain dump has no such list.
    pub open spec fn def_line(&self, i: int) -> Seq<char> {
        let v = value_at(i);
        if !self.verbose {
            Seq::empty()
        } else {
            match self.body.values@[i] {
                ValueDef::Operator(op, args, tys) => self.lead() + v + " = "@ + op.text() + " "@
                    + list_text(args@, args@.len() as int) + " # "@ + list_text(
                    tys@,
                    tys@.len() as int,
                ) + " \n"@,
                ValueDef::BlockParam(b, idx, ty) => self.lead() + v + " = blockparam "@ + b.text()
                    + ", "@ + decimal(idx as nat) + " # "@ + ty.text() + "\n"@,
                ValueDef::Alias(to) => self.lead() + v + " = "@ + to.text() + "\n"@,
                ValueDef::PickOutput(from, idx, ty) => self.lead() + v + " = "@ + from.text() + "."@
                    + decimal(idx as nat) + " # "@ + ty.text() + "\n"@,
                ValueDef::Placeholder(ty) => self.lead() + v + " = placeholder # "@ + ty.text()
                    + "\n"@,
                ValueDef::Empty => self.lead() + v + " = none\n"@,
                ValueDef::Trace(id, args) => self.lead() + v + " = trace "@ + decimal(id as nat)
                    + " "@ + list_text(args@, args@.len() as int) + "\n"@,
            }
        }
    }

    /// The lines for the first `n` values.
    pub open spec fn defs_text(&self, n: int) -> Seq<char>
        decreases n,
    {
        if n <= 0 {
            Seq::empty()
        } else {
            self.defs_text(n - 1) + self.def_line(n - 1)
        }
    }

    /// The comment naming the source local of `v`, if it has one.
    pub open spec fn local_comment(&self, v: Value) -> Seq<char> {
        match self.body.value_locals@[v.index as int] {
            Some(l) => self.lead() + "# "@ + v.text() + ": "@ + l.text() + "\n"@,
            None => Seq::empty(),
        }
    }

    /// The local comments of the first `n` parameters of a block.
    pub open spec fn param_comments(&self, bd: BlockDef, n: int) -> Seq<char>
        decreases n,
    {
        if n <= 0 {
            Seq::empty()
        } else {
            self.param_comments(bd, n - 1) + self.local_comment(bd.params@[n - 1].1)
        }
    }

    /// `"v: ty"` for the first `n` parameters of a block, separated by `", "`.
    pub open spec fn params_text(&self, bd: BlockDef, n: int) -> Seq<char>
        decreases n,
    {
        if n <= 0 {
            Seq::empty()
        } else {
            let p = bd.params@[n - 1];
            let item = p.1.text() + ": "@ + p.0.text();
            if n == 1 {
                item
            } else {
                self.params_text(bd, n - 1) + ", "@ + item
            }
        }
    }

    /// `"blockN (desc)"` for the first `n` blocks of `bs`, separated by `", "`.
    pub open spec fn edges_text(&self, bs: Seq<Block>, n: int) -> Seq<char>
        decreases n,
    {
        if n <= 0 {
            Seq::empty()
        } else {
            let b = bs[n - 1];
            let item = b.text() + " ("@ + self.body.blocks@[b.index as int].desc@ + ")"@;
            if n == 1 {
                item
            } else {
                self.edges_text(bs, n - 1) + ", "@ + item
            }
        }
    }

    /// The source location of `v`, where it has a valid one that the module's
    /// debug tables name.
    pub open spec fn loc_text(&self, v: Value) -> Seq<char> {
        let loc = self.body.source_locs@[v.index as int];
        match self.module {
            Some(m) => if loc.index != INVALID_INDEX && loc.index < m.debug.source_locs@.len() {
                let data = m.debug.source_locs@[loc.index as int];
                if data.file.index < m.debug.source_files@.len() {
                    "@"@ + loc.text() + " "@ + m.debug.source_files@[data.file.index as int]@
                        + ":"@ + decimal(data.line as nat) + ":"@ + decimal(data.col as nat)
                } else {
                    Seq::empty()
                }
            } else {
                Seq::empty()
            },
            None => Seq::empty(),
        }
    }

    pub open spec fn after_inst_text(&self, v: Value) -> Seq<char> {
        match self.decorator {
            Some(d) => d.after_inst_text(v),
            None => Seq::empty(),
        }
    }

    /// The line of one instruction of a block.
    pub open spec fn inst_line(&self, v: Value) -> Seq<char> {
        match self.body.values@[v.index as int] {
            ValueDef::Operator(op, args, tys) => self.lead() + v.text() + " = "@ + op.text() + " "@
                + list_text(args@, args@.len() as int) + " # "@ + list_text(tys@, tys@.len() as int)
                + " "@ + self.loc_text(v) + " "@ + self.after_inst_text(v) + "\n"@,
            ValueDef::PickOutput(from, idx, ty) => self.lead() + v.text() + " = "@ + from.text()
                + "."@ + decimal(idx as nat) + " # "@ + ty.text() + self.after_inst_text(v) + "\n"@,
            ValueDef::Alias(to) => self.lead() + v.text() + " = "@ + to.text() + self.after_inst_text(v)
                + "\n"@,
            _ => Seq::empty(),
        }
    }

    /// The lines of the first `n` instructions of a block.
    pub open spec fn insts_text(&self, bd: BlockDef, n: int) -> Seq<char>
        decreases n,
    {
        if n <= 0 {
            Seq::empty()
        } else {
            let v = bd.insts@[n - 1];
            self.insts_text(bd, n - 1) + self.local_comment(v) + self.inst_line(v)
        }
    }

    /// The header line of the block whose index is `j`: its parameters and description.
    pub open spec fn block_head(&self, j: int) -> Seq<char> {
        let bd = self.body.blocks@[j];
        self.ind() + "  "@ + (Block { index: j as u32 }).text() + "("@ + self.params_text(
            bd,
            bd.params@.len() as int,
        ) + "): # "@ + bd.desc@ + "\n"@
    }

    /// The predecessor and successor comment lines of a block.
    pub open spec fn block_edges(&self, bd: BlockDef) -> Seq<char> {
        self.lead() + "# preds: "@ + self.edges_text(bd.preds@, bd.preds@.len() as int) + "\n"@
            + self.lead() + "# succs: "@ + self.edges_text(bd.succs@, bd.succs@.len() as int)
            + "\n"@
    }

    /// The local comments of a block's parameters, then its instruction lines.
    pub open spec fn block_body(&self, bd: BlockDef) -> Seq<char> {
        self.param_comments(bd, bd.params@.len() as int) + self.insts_text(
            bd,
            bd.insts@.len() as int,
        )
    }

    /// The dump of the block whose index is `j`.
    pub open spec fn block_text(&self, j: int) -> Seq<char> {
        let bd = self.body.blocks@[j];
        let b = Block { index: j as u32 };
        self.block_head(j) + self.before_block_text(b) + self.block_edges(bd) + self.block_body(bd)
            + self.after_block_text(b) + self.lead() + bd.terminator.text() + "\n"@
    }

    pub open spec fn before_block_text(&self, b: Block) -> Seq<char> {
        match self.decorator {
            Some(d) => d.before_block_text(b),
            None => Seq::empty(),
        }
    }

    pub open spec fn after_block_text(&self, b: Block) -> Seq<char> {
        match self.decorator {
            Some(d) => d.after_block_text(b),
            None => Seq::empty(),
        }
    }

    /// The dumps of the first `n` blocks.
    pub open spec fn blocks_text(&self, n: int) -> Seq<char>
        decreases n,
    {
        if n <= 0 {
            Seq::empty()
        } else {
            self.blocks_text(n - 1) + self.block_text(n - 1)
        }
    }

    /// The whole dump.
    pub open spec fn text(&self) -> Seq<char> {
        let (before, after) = match self.decorator {
            Some(d) => (d.before_function_body_text(), d.after_function_body_text()),
            None => (Seq::empty(), Seq::empty()),
        };
        self.header() + before + self.defs_text(self.body.values@.len() as int) + self.blocks_text(self.body.blocks@.len() as int) + after + self.ind() + "}\n"@
    }
}

impl<'a, PD: PrintDecorator> FunctionBodyDisplay<'a, PD> {
    fn push_lead(&self, out: &mut String)
        ensures
            final(out)@ == old(out)@ + self.lead(),
    {
        out.append(self.indent);
        out.append("    ");
        assert(final(out)@ =~= old(out)@ + self.lead());
    }

    #[verifier::rlimit(100)]
    fn push_def_line(&self, out: &mut String, i: usize)
        requires
            self.body.wf(),
            i < self.body.values@.len(),
        ensures
            final(out)@ == old(out)@ + self.def_line(i as int),
    {
        if !self.verbose {
            assert(out@ =~= old(out)@ + self.def_line(i as int));
            return;
        }
        let v = Value { index: i as u32 };
        self.push_lead(out);
        v.push_text(out);
        match &self.body.values[i] {
            ValueDef::Operator(op, args, tys) => {
                out.append(" = ");
                op.push_text(out);
                out.append(" ");
                push_list(out, args.as_slice());
                out.append(" # ");
                push_list(out, tys.as_slice());
                out.append(" \n");
            },
            ValueDef::BlockParam(b, idx, ty) => {
                out.append(" = blockparam ");
                b.push_text(out);
                out.append(", ");
                push_decimal(out, *idx as u64);
                out.append(" # ");
                ty.push_text(out);
                out.append("\n");
            },
            ValueDef::Alias(to) => {
                out.append(" = ");
                to.push_text(out);
                out.append("\n");
            },
            ValueDef::PickOutput(from, idx, ty) => {
                out.append(" = ");
                from.push_text(out);
                out.append(".");
                push_decimal(out, *idx as u64);
                out.append(" # ");
                ty.push_text(out);
                out.append("\n");
            },
            ValueDef::Placeholder(ty) => {
                out.append(" = placeholder # ");
                ty.push_text(out);
                out.append("\n");
            },
            ValueDef::Empty => {
                out.append(" = none\n");
            },
            ValueDef::Trace(id, args) => {
                out.append(" = trace ");
                push_decimal(out, *id as u64);
                out.append(" ");
                push_list(out, args.as_slice());
                out.append("\n");
            },
        }
        assert(final(out)@ =~= old(out)@ + self.def_line(i as int));
    }

    fn push_local_comment(&self, out: &mut String, v: Value)
        requires
            self.body.wf(),
            v.index < self.body.values@.len(),
        ensures
            final(out)@ == old(out)@ + self.local_comment(v),
    {
        if let Some(l) = self.body.value_locals[v.index as usize] {
            self.push_lead(out);
            out.append("# ");
            v.push_text(out);
            out.append(": ");
            l.push_text(out);
            out.append("\n");
        }
        assert(final(out)@ =~= old(out)@ + self.local_comment(v));
    }

    fn push_edges(&self, out: &mut String, bs: &Vec<Block>)
        requires
            self.body.wf(),
            forall|i: int| 0 <= i < bs@.len() ==> (#[trigger] bs@[i]).index
                < self.body.blocks@.len(),
        ensures
            final(out)@ == old(out)@ + self.edges_text(bs@, bs@.len() as int),
    {
        let mut i: usize = 0;
        while i < bs.len()
            invariant
                self.body.wf(),
                forall|k: int| 0 <= k < bs@.len() ==> (#[trigger] bs@[k]).index
                    < self.body.blocks@.len(),
                i <= bs@.len(),
                out@ == old(out)@ + self.edges_text(bs@, i as int),
            decreases bs@.len() - i,
        {
            if i > 0 {
                out.append(", ");
            }
            let b = bs[i];
            b.push_text(out);
            out.append(" (");
            out.append(self.body.blocks[b.index as usize].desc.as_str());
            out.append(")");
            i = i + 1;
            assert(out@ =~= old(out)@ + self.edges_text(bs@, i as int));
        }
    }

    fn push_loc(&self, out: &mut String, v: Value)
        requires
            self.body.wf(),
            v.index < self.body.values@.len(),
        ensures
            final(out)@ == old(out)@ + self.loc_text(v),
    {
        let loc = self.body.source_locs[v.index as usize];
        if let Some(m) = self.module {
            if loc.index != INVALID_INDEX && (loc.index as usize) < m.debug.source_locs.len() {
                let data = m.debug.source_locs[loc.index as usize];
                if (data.file.index as usize) < m.debug.source_files.len() {
                    out.append("@");
                    loc.push_text(out);
                    out.append(" ");
                    out.append(m.debug.source_files[data.file.index as usize].as_str());
                    out.append(":");
                    push_decimal(out, data.line as u64);
                    out.append(":");
                    push_decimal(out, data.col as u64);
                }
            }
        }
        assert(final(out)@ =~= old(out)@ + self.loc_text(v));
    }

    #[verifier::rlimit(100)]
    fn push_after_inst(&self, out: &mut String, v: Value)
        ensures
            final(out)@ == old(out)@ + self.after_inst_text(v),
    {
        if let Some(d) = self.decorator {
            let t = d.after_inst(v);
            out.append(t.as_str());
        }
        assert(final(out)@ =~= old(out)@ + self.after_inst_text(v));
    }

    fn push_inst_line(&self, out: &mut String, v: Value)
        requires
            self.body.wf(),
            v.index < self.body.values@.len(),
        ensures
            final(out)@ == old(out)@ + self.inst_line(v),
    {
        match &self.body.values[v.index as usize] {
            ValueDef::Operator(op, args, tys) => {
                self.push_lead(out);
                v.push_text(out);
                out.append(" = ");
                op.push_text(out);
                out.append(" ");
                push_list(out, args.as_slice());
                out.append(" # ");
                push_list(out, tys.as_slice());
                out.append(" ");
                self.push_loc(out, v);
                out.append(" ");
                self.push_after_inst(out, v);
                out.append("\n");
            },
            ValueDef::PickOutput(from, idx, ty) => {
                self.push_lead(out);
                v.push_text(out);
                out.append(" = ");
                from.push_text(out);
                out.append(".");
                push_decimal(out, *idx as u64);
                out.append(" # ");
                ty.push_text(out);
                self.push_after_inst(out, v);
                out.append("\n");
            },
            ValueDef::Alias(to) => {
                self.push_lead(out);
                v.push_text(out);
                out.append(" = ");
                to.push_text(out);
                self.push_after_inst(out, v);
                out.append("\n");
            },
            _ => {},
        }
        assert(final(out)@ =~= old(out)@ + self.inst_line(v));
    }

    fn push_block_head(&self, out: &mut String, j: usize)
        requires
            self.body.wf(),
            j < self.body.blocks@.len(),
        ensures
            final(out)@ == old(out)@ + self.block_head(j as int),
    {
        let bd = &self.body.blocks[j];
        let b = Block { index: j as u32 };
        let ghost start = out@;
        out.append(self.indent);
        out.append("  ");
        b.push_text(out);
        out.append("(");
        let mut i: usize = 0;
        while i < bd.params.len()
            invariant
                i <= bd.params@.len(),
                out@ == start + self.ind() + "  "@ + b.text() + "("@ + self.params_text(
                    *bd,
                    i as int,
                ),
            decreases bd.params@.len() - i,
        {
            if i > 0 {
                out.append(", ");
            }
            let (ty, v) = bd.params[i];
            v.push_text(out);
            out.append(": ");
            ty.push_text(out);
            i = i + 1;
            assert(out@ =~= start + self.ind() + "  "@ + b.text() + "("@ + self.params_text(
                *bd,
                i as int,
            ));
        }
        out.append("): # ");
        out.append(bd.desc.as_str());
        out.append("\n");
        assert(final(out)@ =~= old(out)@ + self.block_head(j as int));
    }

    fn push_block_edges(&self, out: &mut String, bd: &BlockDef)
        requires
            self.body.wf(),
            self.body.block_wf(*bd),
        ensures
            final(out)@ == old(out)@ + self.block_edges(*bd),
    {
        self.push_lead(out);
        out.append("# preds: ");
        self.push_edges(out, &bd.preds);
        out.append("\n");
        self.push_lead(out);
        out.append("# succs: ");
        self.push_edges(out, &bd.succs);
        out.append("\n");
        assert(final(out)@ =~= old(out)@ + self.block_edges(*bd));
    }

    fn push_block_body(&self, out: &mut String, bd: &BlockDef)
        requires
            self.body.wf(),
            self.body.block_wf(*bd),
        ensures
            final(out)@ == old(out)@ + self.block_body(*bd),
    {
        let mut i: usize = 0;
        while i < bd.params.len()
            invariant
                self.body.wf(),
                self.body.block_wf(*bd),
                i <= bd.params@.len(),
                out@ == old(out)@ + self.param_comments(*bd, i as int),
            decreases bd.params@.len() - i,
        {
            let (_, v) = bd.params[i];
            self.push_local_comment(out, v);
            i = i + 1;
            assert(out@ =~= old(out)@ + self.param_comments(*bd, i as int));
        }
        let ghost mid = out@;
        let mut i: usize = 0;
        while i < bd.insts.len()
            invariant
                self.body.wf(),
                self.body.block_wf(*bd),
                i <= bd.insts@.len(),
                out@ == mid + self.insts_text(*bd, i as int),
            decreases bd.insts@.len() - i,
        {
            let v = bd.insts[i];
            self.push_local_comment(out, v);
            self.push_inst_line(out, v);
            i = i + 1;
            assert(out@ =~= mid + self.insts_text(*bd, i as int));
        }
        assert(final(out)@ =~= old(out)@ + self.block_body(*bd));
    }

    fn push_before_block(&self, out: &mut String, b: Block)
        ensures
            final(out)@ == old(out)@ + self.before_block_text(b),
    {
        if let Some(d) = self.decorator {
            let t = d.before_block(b);
            out.append(t.as_str());
        }
        assert(final(out)@ =~= old(out)@ + self.before_block_text(b));
    }

    fn push_after_block(&self, out: &mut String, b: Block)
        ensures
            final(out)@ == old(out)@ + self.after_block_text(b),
    {
        if let Some(d) = self.decorator {
            let t = d.after_block(b);
            out.append(t.as_str());
        }
        assert(final(out)@ =~= old(out)@ + self.after_block_text(b));
    }

    #[verifier::rlimit(100)]
    fn push_block(&self, out: &mut String, j: usize)
        requires
            self.body.wf(),
            j < self.body.blocks@.len(),
        ensures
            final(out)@ == old(out)@ + self.block_text(j as int),
    {
        let bd = &self.body.blocks[j];
        assert(self.body.block_wf(*bd));
        let b = Block { index: j as u32 };
        let ghost s0 = out@;
        self.push_block_head(out, j);
        let ghost s1 = out@;
        self.push_before_block(out, b);
        let ghost s2 = out@;
        self.push_block_edges(out, bd);
        let ghost s3 = out@;
        self.push_block_body(out, bd);
        let ghost s4 = out@;
        self.push_after_block(out, b);
        let ghost s5 = out@;
        self.push_lead(out);
        let ghost s6 = out@;
        bd.terminator.push_text(out);
        let ghost s7 = out@;
        out.append("\n");
        let ghost parts = seq![
            self.block_head(j as int),
            self.before_block_text(b),
            self.block_edges(*bd),
            self.block_body(*bd),
            self.after_block_text(b),
            self.lead(),
            bd.terminator.text(),
            "\n"@,
        ];
        assert(final(out)@ =~= s0 + parts[0] + parts[1] + parts[2] + parts[3] + parts[4] + parts[5]
            + parts[6] + parts[7]);
    }

    fn push_defs(&self, out: &mut String)
        requires
            self.body.wf(),
        ensures
            final(out)@ == old(out)@ + self.defs_text(self.body.values@.len() as int),
    {
        let mut i: usize = 0;
        while i < self.body.values.len()
            invariant
                self.body.wf(),
                i <= self.body.values@.len(),
                out@ == old(out)@ + self.defs_text(i as int),
            decreases self.body.values@.len() - i,
        {
            self.push_def_line(out, i);
            i = i + 1;
            assert(out@ =~= old(out)@ + self.defs_text(i as int));
        }
    }

    fn push_blocks(&self, out: &mut String)
        requires
            self.body.wf(),
        ensures
            final(out)@ == old(out)@ + self.blocks_text(self.body.blocks@.len() as int),
    {
        let mut j: usize = 0;
        while j < self.body.blocks.len()
            invariant
                self.body.wf(),
                j <= self.body.blocks@.len(),
                out@ == old(out)@ + self.blocks_text(j as int),
            decreases self.body.blocks@.len() - j,
        {
            self.push_block(out, j);
            j = j + 1;
            assert(out@ =~= old(out)@ + self.blocks_text(j as int));
        }
    }

    /// The dump of the function body: its signature line, the definitions
    /// list, each block in order, and the closing brace.
    pub fn to_text(&self) -> (r: String)
        requires
            self.body.wf(),
        ensures
            r@ == self.text(),
    {
        let mut out = String::new();
        out.append(self.indent);
        out.append("function(");
        let mut i: usize = 0;
        while i < self.body.n_params
            invariant
                self.body.wf(),
                i <= self.body.n_params,
                out@ == self.ind() + "function("@ + list_text(self.body.locals@, i as int),
            decreases self.body.n_params - i,
        {
            if i > 0 {
                out.append(", ");
            }
            self.body.locals[i].push_text(&mut out);
            i = i + 1;
            assert(out@ =~= self.ind() + "function("@ + list_text(self.body.locals@, i as int));
        }
        out.append(") -> ");
        push_list(&mut out, self.body.rets.as_slice());
        out.append(" {\n");
        assert(out@ =~= self.header());
        if let Some(d) = self.decorator {
            let t = d.before_function_body();
            out.append(t.as_str());
        }
        self.push_defs(&mut out);
        self.push_blocks(&mut out);
        if let Some(d) = self.decorator {
            let t = d.after_function_body();
            out.append(t.as_str());
        }
        out.append(self.indent);
        out.append("}\n");
        assert(out@ =~= self.text());
        out
    }
}

impl FunctionBody {
    /// A plain dump of the body: each line starts with `indent`; source
    /// locations are named from `module`'s debug tables where it is given.
    pub fn display<'a>(&'a self, indent: &'a str, module: Option<&'a Module>) -> (r:
        FunctionBodyDisplay<'a, NOPPrintDecorator>)
        ensures
            r.body == self,
            r.indent == indent,
            !r.verbose,
            r.module == module,
            r.decorator is None,
    {
        FunctionBodyDisplay { body: self, indent, verbose: false, module, decorator: None }
    }

    /// A dump that first lists every value definition, with `decorator`'s text
    /// at its anchors.
    pub fn display_verbose<'a, PD: PrintDecorator>(
        &'a self,
        indent: &'a str,
        module: Option<&'a Module>,
        decorator: &'a PD,
    ) -> (r: FunctionBodyDisplay<'a, PD>)
        ensures
            r.body == self,
            r.indent == indent,
            r.verbose,
            r.module == module,
            r.decorator == Some(decorator),
    {
        FunctionBodyDisplay { body: self, indent, verbose: true, module, decorator: Some(decorator) }
    }
}

/// A module together with the decorators of its functions' dumps, indexed by
/// function; a function without an entry is dumped without one.
pub struct ModuleDisplay<'a, PD: PrintDecorator> {
    pub module: &'a Module,
    pub decorators: Option<Vec<&'a PD>>,
}

/// The text of a function type: parameter types, an arrow, result types.
pub open spec fn sig_text(m: &Module, i: int) -> Seq<char> {
    let sd = m.signatures@[i];
    list_text(sd.params@, sd.params@.len() as int) + " -> "@ + list_text(
        sd.returns@,
        sd.returns@.len() as int,
    )
}

impl<'a, PD: PrintDecorator> ModuleDisplay<'a, PD> {
    pub open spec fn start_text(&self) -> Seq<char> {
        match self.module.start_func {
            Some(f) => "    start = "@ + f.text() + "\n"@,
            None => Seq::empty(),
        }
    }

    pub open spec fn sigs_text(&self, n: int) -> Seq<char>
        decreases n,
    {
        if n <= 0 {
            Seq::empty()
        } else {
            self.sigs_text(n - 1) + "  "@ + (Signature { index: (n - 1) as u32 }).text() + ": "@
                + sig_text(self.module, n - 1) + "\n"@
        }
    }

    pub open spec fn globals_text(&self, n: int) -> Seq<char>
        decreases n,
    {
        if n <= 0 {
            Seq::empty()
        } else {
            let g = self.module.globals@[n - 1];
            self.globals_text(n - 1) + "  "@ + (Global { index: (n - 1) as u32 }).text() + ": "@
                + opt_decimal(g.value) + " # "@ + g.ty.text() + "\n"@
        }
    }

    /// The element lines of the first `n` elements of table `t`.
    pub open spec fn elems_text(&self, t: Table, elems: Seq<Func>, n: int) -> Seq<char>
        decreases n,
    {
        if n <= 0 {
            Seq::empty()
        } else {
            self.elems_text(t, elems, n - 1) + "    "@ + t.text() + "["@ + decimal((n - 1) as nat)
                + "]: "@ + elems[n - 1].text() + "\n"@
        }
    }

    pub open spec fn table_text(&self, i: int) -> Seq<char> {
        let td = self.module.tables@[i];
        let t = Table { index: i as u32 };
        "  "@ + t.text() + ": "@ + td.ty.text() + "\n"@ + match td.func_elements {
            Some(fs) => self.elems_text(t, fs@, fs@.len() as int),
            None => Seq::empty(),
        }
    }

    pub open spec fn tables_text(&self, n: int) -> Seq<char>
        decreases n,
    {
        if n <= 0 {
            Seq::empty()
        } else {
            self.tables_text(n - 1) + self.table_text(n - 1)
        }
    }

    /// The segment lines of the first `n` segments of memory `i`.
    pub open spec fn segs_text(&self, i: int, n: int) -> Seq<char>
        decreases n,
    {
        if n <= 0 {
            Seq::empty()
        } else {
            let seg = self.module.memories@[i].segments@[n - 1];
            self.segs_text(i, n - 1) + "    "@ + (Memory { index: i as u32 }).text() + " offset "@
                + decimal(seg.offset as nat) + ": # "@ + decimal(seg.data@.len()) + " bytes\n"@
        }
    }

    pub open spec fn memory_text(&self, i: int) -> Seq<char> {
        let md = self.module.memories@[i];
        "  "@ + (Memory { index: i as u32 }).text() + ": initial "@ + decimal(
            md.initial_pages as nat,
        ) + " max "@ + opt_decimal(
            match md.maximum_pages {
                Some(p) => Some(p as u64),
                None => None,
            },
        ) + "\n"@ + self.segs_text(i, md.segments@.len() as int)
    }

    pub open spec fn memories_text(&self, n: int) -> Seq<char>
        decreases n,
    {
        if n <= 0 {
            Seq::empty()
        } else {
            self.memories_text(n - 1) + self.memory_text(n - 1)
        }
    }

    pub open spec fn imports_text(&self, n: int) -> Seq<char>
        decreases n,
    {
        if n <= 0 {
            Seq::empty()
        } else {
            let im = self.module.imports@[n - 1];
            self.imports_text(n - 1) + "  import \""@ + im.module@ + "\".\""@ + im.name@ + "\": "@
                + im.kind.dump() + "\n"@
        }
    }

    pub open spec fn exports_text(&self, n: int) -> Seq<char>
        decreases n,
    {
        if n <= 0 {
            Seq::empty()
        } else {
            let ex = self.module.exports@[n - 1];
            self.exports_text(n - 1) + "  export \""@ + ex.name@ + "\": "@ + ex.kind.dump()
                + "\n"@
        }
    }

    /// The decorator of function `i`, if one is given for it.
    pub open spec fn decorator_of(&self, i: int) -> Option<&'a PD> {
        match self.decorators {
            Some(ds) => if 0 <= i < ds@.len() {
                Some(ds@[i])
            } else {
                None
            },
            None => None,
        }
    }

    /// The first line of a function with a signature: its name and type.
    pub open spec fn func_head(&self, f: Func, sig: Signature, name: Seq<char>, sep: Seq<char>) -> Seq<
        char,
    > {
        "  "@ + f.text() + " \""@ + name + "\": "@ + sig.text() + sep + sig_text(
            self.module,
            sig.index as int,
        ) + "\n"@
    }

    pub open spec fn func_text(&self, i: int) -> Seq<char> {
        let f = Func { index: i as u32 };
        match self.module.funcs@[i] {
            FuncDecl::Body(sig, name, body) => self.func_head(f, sig, name@, " = # "@)
                + (FunctionBodyDisplay {
                body: &body,
                indent: "    ",
                verbose: false,
                module: Some(self.module),
                decorator: self.decorator_of(i),
            }).text() + "\n"@,
            FuncDecl::Lazy(sig, name, bytes) => self.func_head(f, sig, name@, " = # "@)
                + "  # raw bytes (length "@ + decimal(bytes@.len()) + ")\n"@,
            FuncDecl::Compiled(sig, name) => self.func_head(f, sig, name@, " = # "@)
                + "  # already compiled\n"@,
            FuncDecl::Import(sig, name) => self.func_head(f, sig, name@, " # "@),
            FuncDecl::Empty => "  "@ + f.text() + ": none\n"@,
        }
    }

    pub open spec fn funcs_text(&self, n: int) -> Seq<char>
        decreases n,
    {
        if n <= 0 {
            Seq::empty()
        } else {
            self.funcs_text(n - 1) + self.func_text(n - 1)
        }
    }

    pub open spec fn locs_text(&self, n: int) -> Seq<char>
        decreases n,
    {
        if n <= 0 {
            Seq::empty()
        } else {
            let l = self.module.debug.source_locs@[n - 1];
            self.locs_text(n - 1) + "  "@ + (SourceLoc { index: (n - 1) as u32 }).text() + " = "@
                + l.file.text() + " line "@ + decimal(l.line as nat) + " column "@ + decimal(
                l.col as nat,
            ) + "\n"@
        }
    }

    pub open spec fn files_text(&self, n: int) -> Seq<char>
        decreases n,
    {
        if n <= 0 {
            Seq::empty()
        } else {
            self.files_text(n - 1) + "  "@ + (SourceFile { index: (n - 1) as u32 }).text()
                + " = \""@ + self.module.debug.source_files@[n - 1]@ + "\"\n"@
        }
    }

    /// The whole dump.
    pub open spec fn text(&self) -> Seq<char> {
        let m = self.module;
        "module {\n"@ + self.start_text() + self.sigs_text(m.signatures@.len() as int)
            + self.globals_text(m.globals@.len() as int) + self.tables_text(m.tables@.len() as int)
            + self.memories_text(m.memories@.len() as int) + self.imports_text(
            m.imports@.len() as int,
        ) + self.exports_text(m.exports@.len() as int) + self.funcs_text(m.funcs@.len() as int)
            + self.locs_text(m.debug.source_locs@.len() as int) + self.files_text(
            m.debug.source_files@.len() as int,
        ) + "}\n"@
    }
}

impl<'a, PD: PrintDecorator> ModuleDisplay<'a, PD> {
    fn push_sig_text(&self, out: &mut String, i: usize)
        requires
            i < self.module.signatures@.len(),
        ensures
            final(out)@ == old(out)@ + sig_text(self.module, i as int),
    {
        let sd = &self.module.signatures[i];
        push_list(out, sd.params.as_slice());
        out.append(" -> ");
        push_list(out, sd.returns.as_slice());
        assert(final(out)@ =~= old(out)@ + sig_text(self.module, i as int));
    }

    fn push_sigs(&self, out: &mut String)
        requires
            self.module.wf(),
        ensures
            final(out)@ == old(out)@ + self.sigs_text(self.module.signatures@.len() as int),
    {
        let mut i: usize = 0;
        while i < self.module.signatures.len()
            invariant
                self.module.wf(),
                i <= self.module.signatures@.len(),
                out@ == old(out)@ + self.sigs_text(i as int),
            decreases self.module.signatures@.len() - i,
        {
            out.append("  ");
            Signature { index: i as u32 }.push_text(out);
            out.append(": ");
            self.push_sig_text(out, i);
            out.append("\n");
            i = i + 1;
            assert(out@ =~= old(out)@ + self.sigs_text(i as int));
        }
    }

    fn push_globals(&self, out: &mut String)
        requires
            self.module.wf(),
        ensures
            final(out)@ == old(out)@ + self.globals_text(self.module.globals@.len() as int),
    {
        let mut i: usize = 0;
        while i < self.module.globals.len()
            invariant
                self.module.wf(),
                i <= self.module.globals@.len(),
                out@ == old(out)@ + self.globals_text(i as int),
            decreases self.module.globals@.len() - i,
        {
            let g = &self.module.globals[i];
            out.append("  ");
            Global { index: i as u32 }.push_text(out);
            out.append(": ");
            push_opt_decimal(out, g.value);
            out.append(" # ");
            g.ty.push_text(out);
            out.append("\n");
            i = i + 1;
            assert(out@ =~= old(out)@ + self.globals_text(i as int));
        }
    }

    fn push_table(&self, out: &mut String, i: usize)
        requires
            self.module.wf(),
            i < self.module.tables@.len(),
        ensures
            final(out)@ == old(out)@ + self.table_text(i as int),
    {
        let td = &self.module.tables[i];
        let t = Table { index: i as u32 };
        out.append("  ");
        t.push_text(out);
        out.append(": ");
        td.ty.push_text(out);
        out.append("\n");
        let ghost mid = out@;
        if let Some(fs) = &td.func_elements {
            let mut k: usize = 0;
            while k < fs.len()
                invariant
                    k <= fs@.len(),
                    out@ == mid + self.elems_text(t, fs@, k as int),
                decreases fs@.len() - k,
            {
                out.append("    ");
                t.push_text(out);
                out.append("[");
                push_decimal(out, k as u64);
                out.append("]: ");
                fs[k].push_text(out);
                out.append("\n");
                k = k + 1;
                assert(out@ =~= mid + self.elems_text(t, fs@, k as int));
            }
        }
        assert(final(out)@ =~= old(out)@ + self.table_text(i as int));
    }

    fn push_tables(&self, out: &mut String)
        requires
            self.module.wf(),
        ensures
            final(out)@ == old(out)@ + self.tables_text(self.module.tables@.len() as int),
    {
        let mut i: usize = 0;
        while i < self.module.tables.len()
            invariant
                self.module.wf(),
                i <= self.module.tables@.len(),
                out@ == old(out)@ + self.tables_text(i as int),
            decreases self.module.tables@.len() - i,
        {
            self.push_table(out, i);
            i = i + 1;
        }
    }

    #[verifier::rlimit(100)]
    fn push_memory(&self, out: &mut String, i: usize)
        requires
            self.module.wf(),
            i < self.module.memories@.len(),
        ensures
            final(out)@ == old(out)@ + self.memory_text(i as int),
    {
        let md = &self.module.memories[i];
        let m = Memory { index: i as u32 };
        out.append("  ");
        m.push_text(out);
        out.append(": initial ");
        push_decimal(out, md.initial_pages as u64);
        out.append(" max ");
        let max = match md.maximum_pages {
            Some(p) => Some(p as u64),
            None => None,
        };
        push_opt_decimal(out, max);
        out.append("\n");
        let ghost mid = out@;
        let mut k: usize = 0;
        while k < md.segments.len()
            invariant
                i < self.module.memories@.len(),
                *md == self.module.memories@[i as int],
                m == (Memory { index: i as u32 }),
                k <= md.segments@.len(),
                out@ == mid + self.segs_text(i as int, k as int),
            decreases md.segments@.len() - k,
        {
            let seg = &md.segments[k];
            out.append("    ");
            m.push_text(out);
            out.append(" offset ");
            push_decimal(out, seg.offset as u64);
            out.append(": # ");
            push_decimal(out, seg.data.len() as u64);
            out.append(" bytes\n");
            k = k + 1;
            assert(out@ =~= mid + self.segs_text(i as int, k as int));
        }
        assert(final(out)@ =~= old(out)@ + self.memory_text(i as int));
    }

    fn push_memories(&self, out: &mut String)
        requires
            self.module.wf(),
        ensures
            final(out)@ == old(out)@ + self.memories_text(self.module.memories@.len() as int),
    {
        let mut i: usize = 0;
        while i < self.module.memories.len()
            invariant
                self.module.wf(),
                i <= self.module.memories@.len(),
                out@ == old(out)@ + self.memories_text(i as int),
            decreases self.module.memories@.len() - i,
        {
            self.push_memory(out, i);
            i = i + 1;
        }
    }

    fn push_imports(&self, out: &mut String)
        ensures
            final(out)@ == old(out)@ + self.imports_text(self.module.imports@.len() as int),
    {
        let mut i: usize = 0;
        while i < self.module.imports.len()
            invariant
                i <= self.module.imports@.len(),
                out@ == old(out)@ + self.imports_text(i as int),
            decreases self.module.imports@.len() - i,
        {
            let im = &self.module.imports[i];
            out.append("  import \"");
            out.append(im.module.as_str());
            out.append("\".\"");
            out.append(im.name.as_str());
            out.append("\": ");
            im.kind.push_dump(out);
            out.append("\n");
            i = i + 1;
            assert(out@ =~= old(out)@ + self.imports_text(i as int));
        }
    }

    fn push_exports(&self, out: &mut String)
        ensures
            final(out)@ == old(out)@ + self.exports_text(self.module.exports@.len() as int),
    {
        let mut i: usize = 0;
        while i < self.module.exports.len()
            invariant
                i <= self.module.exports@.len(),
                out@ == old(out)@ + self.exports_text(i as int),
            decreases self.module.exports@.len() - i,
        {
            let ex = &self.module.exports[i];
            out.append("  export \"");
            out.append(ex.name.as_str());
            out.append("\": ");
            ex.kind.push_dump(out);
            out.append("\n");
            i = i + 1;
            assert(out@ =~= old(out)@ + self.exports_text(i as int));
        }
    }

    fn push_func_head(&self, out: &mut String, f: Func, sig: Signature, name: &String, sep: &str)
        requires
            sig.index < self.module.signatures@.len(),
        ensures
            final(out)@ == old(out)@ + self.func_head(f, sig, name@, sep@),
    {
        out.append("  ");
        f.push_text(out);
        out.append(" \"");
        out.append(name.as_str());
        out.append("\": ");
        sig.push_text(out);
        out.append(sep);
        self.push_sig_text(out, sig.index as usize);
        out.append("\n");
        assert(final(out)@ =~= old(out)@ + self.func_head(f, sig, name@, sep@));
    }

    fn decorator_at(&self, i: usize) -> (r: Option<&'a PD>)
        ensures
            r == self.decorator_of(i as int),
    {
        match &self.decorators {
            Some(ds) => if i < ds.len() {
                Some(ds[i])
            } else {
                None
            },
            None => None,
        }
    }

    #[verifier::rlimit(100)]
    fn push_func(&self, out: &mut String, i: usize)
        requires
            self.module.wf(),
            i < self.module.funcs@.len(),
        ensures
            final(out)@ == old(out)@ + self.func_text(i as int),
    {
        assert(self.module.decl_wf(self.module.funcs@[i as int]));
        let f = Func { index: i as u32 };
        match &self.module.funcs[i] {
            FuncDecl::Body(sig, name, body) => {
                self.push_func_head(out, f, *sig, name, " = # ");
                let d = FunctionBodyDisplay {
                    body: body,
                    indent: "    ",
                    verbose: false,
                    module: Some(self.module),
                    decorator: self.decorator_at(i),
                };
                let t = d.to_text();
                out.append(t.as_str());
                out.append("\n");
            },
            FuncDecl::Lazy(sig, name, bytes) => {
                self.push_func_head(out, f, *sig, name, " = # ");
                out.append("  # raw bytes (length ");
                push_decimal(out, bytes.len() as u64);
                out.append(")\n");
            },
            FuncDecl::Compiled(sig, name) => {
                self.push_func_head(out, f, *sig, name, " = # ");
                out.append("  # already compiled\n");
            },
            FuncDecl::Import(sig, name) => {
                self.push_func_head(out, f, *sig, name, " # ");
            },
            FuncDecl::Empty => {
                out.append("  ");
                f.push_text(out);
                out.append(": none\n");
            },
        }
        assert(final(out)@ =~= old(out)@ + self.func_text(i as int));
    }

    fn push_funcs(&self, out: &mut String)
        requires
            self.module.wf(),
        ensures
            final(out)@ == old(out)@ + self.funcs_text(self.module.funcs@.len() as int),
    {
        let mut i: usize = 0;
        while i < self.module.funcs.len()
            invariant
                self.module.wf(),
                i <= self.module.funcs@.len(),
                out@ == old(out)@ + self.funcs_text(i as int),
            decreases self.module.funcs@.len() - i,
        {
            self.push_func(out, i);
            i = i + 1;
        }
    }

    #[verifier::rlimit(100)]
    fn push_locs(&self, out: &mut String)
        requires
            self.module.wf(),
        ensures
            final(out)@ == old(out)@ + self.locs_text(self.module.debug.source_locs@.len() as int),
    {
        let mut i: usize = 0;
        while i < self.module.debug.source_locs.len()
            invariant
                self.module.wf(),
                i <= self.module.debug.source_locs@.len(),
                out@ == old(out)@ + self.locs_text(i as int),
            decreases self.module.debug.source_locs@.len() - i,
        {
            let l = self.module.debug.source_locs[i];
            out.append("  ");
            SourceLoc { index: i as u32 }.push_text(out);
            out.append(" = ");
            l.file.push_text(out);
            out.append(" line ");
            push_decimal(out, l.line as u64);
            out.append(" column ");
            push_decimal(out, l.col as u64);
            out.append("\n");
            i = i + 1;
            assert(out@ =~= old(out)@ + self.locs_text(i as int));
        }
    }

    #[verifier::rlimit(100)]
    fn push_files(&self, out: &mut String)
        requires
            self.module.wf(),
        ensures
            final(out)@ == old(out)@ + self.files_text(self.module.debug.source_files@.len() as int),
    {
        let mut i: usize = 0;
        while i < self.module.debug.source_files.len()
            invariant
                self.module.wf(),
                i <= self.module.debug.source_files@.len(),
                out@ == old(out)@ + self.files_text(i as int),
            decreases self.module.debug.source_files@.len() - i,
        {
            out.append("  ");
            SourceFile { index: i as u32 }.push_text(out);
            out.append(" = \"");
            out.append(self.module.debug.source_files[i].as_str());
            out.append("\"\n");
            i = i + 1;
            assert(out@ =~= old(out)@ + self.files_text(i as int));
        }
    }

    /// The dump of the module: its start function, signatures, globals,
    /// tables, memories, imports, exports, functions and debug tables, each
    /// entity under its handle's text form.
    pub fn to_text(&self) -> (r: String)
        requires
            self.module.wf(),
        ensures
            r@ == self.text(),
    {
        let mut out = String::new();
        out.append("module {\n");
        if let Some(f) = self.module.start_func {
            out.append("    start = ");
            f.push_text(&mut out);
            out.append("\n");
        }
        let ghost s1 = out@;
        assert(s1 =~= "module {\n"@ + self.start_text());
        self.push_sigs(&mut out);
        self.push_globals(&mut out);
        self.push_tables(&mut out);
        self.push_memories(&mut out);
        self.push_imports(&mut out);
        self.push_exports(&mut out);
        self.push_funcs(&mut out);
        self.push_locs(&mut out);
        self.push_files(&mut out);
        out.append("}\n");
        assert(out@ =~= self.text());
        out
    }
}

impl Module {
    /// A dump of the module, with the given decorators for its functions.
    pub fn display<'a, PD: PrintDecorator>(&'a self, decorators: Option<Vec<&'a PD>>) -> (r:
        ModuleDisplay<'a, PD>)
        ensures
            r.module == self,
            r.decorators == decorators,
    {
        ModuleDisplay { module: self, decorators }
    }
}

/// The dump is a function of what it shows: two displays of the same body,
/// with the same indentation text, mode, module and decorator, give the same
/// text; so printing a state twice yields identical output.
pub proof fn lemma_dump_deterministic<PD: PrintDecorator>(
    a: FunctionBodyDisplay<PD>,
    b: FunctionBodyDisplay<PD>,
)
    requires
        a.body == b.body,
        a.indent@ == b.indent@,
        a.verbose == b.verbose,
        a.module == b.module,
        a.decorator == b.decorator,
    ensures
        a.text() == b.text(),
{
    assert forall|i: int| 0 <= i < a.body.values@.len() implies a.def_line(i) == b.def_line(i) by {}
    assert forall|n: int| a.defs_text(n) == b.defs_text(n) by {
        lemma_defs_eq(a, b, n);
    }
    assert forall|n: int| a.blocks_text(n) == b.blocks_text(n) by {
        lemma_blocks_eq(a, b, n);
    }
}

proof fn lemma_defs_eq<PD: PrintDecorator>(a: FunctionBodyDisplay<PD>, b: FunctionBodyDisplay<PD>, n: int)
    requires
        a.body == b.body,
        a.indent@ == b.indent@,
        a.verbose == b.verbose,
    ensures
        a.defs_text(n) == b.defs_text(n),
    decreases n,
{
    if n > 0 {
        lemma_defs_eq(a, b, n - 1);
    }
}

proof fn lemma_blocks_eq<PD: PrintDecorator>(
    a: FunctionBodyDisplay<PD>,
    b: FunctionBodyDisplay<PD>,
    n: int,
)
    requires
        a.body == b.body,
        a.indent@ == b.indent@,
        a.verbose == b.verbose,
        a.module == b.module,
        a.decorator == b.decorator,
    ensures
        a.blocks_text(n) == b.blocks_text(n),
    decreases n,
{
    if n > 0 {
        lemma_blocks_eq(a, b, n - 1);
        let j = n - 1;
        let bd = a.body.blocks@[j];
        assert forall|k: int| a.params_text(bd, k) == b.params_text(bd, k) by {
            lemma_params_eq(a, b, bd, k);
        }
        assert forall|k: int| a.param_comments(bd, k) == b.param_comments(bd, k) by {
            lemma_param_comments_eq(a, b, bd, k);
        }
        assert forall|k: int| a.insts_text(bd, k) == b.insts_text(bd, k) by {
            lemma_insts_eq(a, b, bd, k);
        }
        assert forall|bs: Seq<Block>, k: int| a.edges_text(bs, k) == b.edges_text(bs, k) by {
            lemma_edges_eq(a, b, bs, k);
        }
    }
}

proof fn lemma_params_eq<PD: PrintDecorator>(
    a: FunctionBodyDisplay<PD>,
    b: FunctionBodyDisplay<PD>,
    bd: BlockDef,
    n: int,
)
    ensures
        a.params_text(bd, n) == b.params_text(bd, n),
    decreases n,
{
    if n > 0 {
        lemma_params_eq(a, b, bd, n - 1);
    }
}

proof fn lemma_param_comments_eq<PD: PrintDecorator>(
    a: FunctionBodyDisplay<PD>,
    b: FunctionBodyDisplay<PD>,
    bd: BlockDef,
    n: int,
)
    requires
        a.body == b.body,
        a.indent@ == b.indent@,
    ensures
        a.param_comments(bd, n) == b.param_comments(bd, n),
    decreases n,
{
    if n > 0 {
        lemma_param_comments_eq(a, b, bd, n - 1);
    }
}

proof fn lemma_insts_eq<PD: PrintDecorator>(
    a: FunctionBodyDisplay<PD>,
    b: FunctionBodyDisplay<PD>,
    bd: BlockDef,
    n: int,
)
    requires
        a.body == b.body,
        a.indent@ == b.indent@,
        a.module == b.module,
        a.decorator == b.decorator,
    ensures
        a.insts_text(bd, n) == b.insts_text(bd, n),
    decreases n,
{
    if n > 0 {
        lemma_insts_eq(a, b, bd, n - 1);
    }
}

proof fn lemma_edges_eq<PD: PrintDecorator>(
    a: FunctionBodyDisplay<PD>,
    b: FunctionBodyDisplay<PD>,
    bs: Seq<Block>,
    n: int,
)
    requires
        a.body == b.body,
    ensures
        a.edges_text(bs, n) == b.edges_text(bs, n),
    decreases n,
{
    if n > 0 {
        lemma_edges_eq(a, b, bs, n - 1);
    }
}

} // verus!
