//! Typed handles for IR entities: each is a dense 32-bit index with its own kind.
use vstd::prelude::*;
use crate::text::{decimal, push_decimal, Dump};

verus! {

/// The index reserved for a handle that refers to nothing.
pub const INVALID_INDEX: u32 = 0xffff_ffff;

/// An SSA value of a function body.
#[derive(Clone, Copy, Debug, PartialEq, Eq, Hash, Structural)]
pub struct Value {
    pub index: u32,
}

impl Value {
    /// The handle's text form: its kind prefix followed by its index.
    pub open spec fn text(self) -> Seq<char> {
        "v"@ + decimal(self.index as nat)
    }

    pub fn new(index: u32) -> (r: Value)
        ensures
            r.index == index,
    {
        Value { index }
    }

    pub fn index(&self) -> (r: u32)
        ensures
            r == self.index,
    {
        self.index
    }

    pub fn invalid() -> (r: Value)
        ensures
            r.index == INVALID_INDEX,
    {
        Value { index: INVALID_INDEX }
    }

    pub fn is_valid(&self) -> (r: bool)
        ensures
            r == (self.index != INVALID_INDEX),
    {
        self.index != INVALID_INDEX
    }

    /// Appends the handle's text form to `out`.
    pub fn push_text(&self, out: &mut String)
        ensures
            final(out)@ == old(out)@ + self.text(),
    {
        out.append("v");
        push_decimal(out, self.index as u64);
        assert(final(out)@ =~= old(out)@ + self.text());
    }
}

/// A basic block of a function body.
#[derive(Clone, Copy, Debug, PartialEq, Eq, Hash, Structural)]
pub struct Block {
    pub index: u32,
}

impl Block {
    /// The handle's text form: its kind prefix followed by its index.
    pub open spec fn text(self) -> Seq<char> {
        "block"@ + decimal(self.index as nat)
    }

    pub fn new(index: u32) -> (r: Block)
        ensures
            r.index == index,
    {
        Block { index }
    }

    pub fn index(&self) -> (r: u32)
        ensures
            r == self.index,
    {
        self.index
    }

    pub fn invalid() -> (r: Block)
        ensures
            r.index == INVALID_INDEX,
    {
        Block { index: INVALID_INDEX }
    }

    pub fn is_valid(&self) -> (r: bool)
        ensures
            r == (self.index != INVALID_INDEX),
    {
        self.index != INVALID_INDEX
    }

    /// Appends the handle's text form to `out`.
    pub fn push_text(&self, out: &mut String)
        ensures
            final(out)@ == old(out)@ + self.text(),
    {
        out.append("block");
        push_decimal(out, self.index as u64);
        assert(final(out)@ =~= old(out)@ + self.text());
    }
}

/// A pre-SSA local slot of a function.
#[derive(Clone, Copy, Debug, PartialEq, Eq, Hash, Structural)]
pub struct Local {
    pub index: u32,
}

impl Local {
    /// The handle's text form: its kind prefix followed by its index.
    pub open spec fn text(self) -> Seq<char> {
        "local"@ + decimal(self.index as nat)
    }

    pub fn new(index: u32) -> (r: Local)
        ensures
            r.index == index,
    {
        Local { index }
    }

    pub fn index(&self) -> (r: u32)
        ensures
            r == self.index,
    {
        self.index
    }

    pub fn invalid() -> (r: Local)
        ensures
            r.index == INVALID_INDEX,
    {
        Local { index: INVALID_INDEX }
    }

    pub fn is_valid(&self) -> (r: bool)
        ensures
            r == (self.index != INVALID_INDEX),
    {
        self.index != INVALID_INDEX
    }

    /// Appends the handle's text form to `out`.
    pub fn push_text(&self, out: &mut String)
        ensures
            final(out)@ == old(out)@ + self.text(),
    {
        out.append("local");
        push_decimal(out, self.index as u64);
        assert(final(out)@ =~= old(out)@ + self.text());
    }
}

/// A function slot of a module.
#[derive(Clone, Copy, Debug, PartialEq, Eq, Hash, Structural)]
pub struct Func {
    pub index: u32,
}

impl Func {
    /// The handle's text form: its kind prefix followed by its index.
    pub open spec fn text(self) -> Seq<char> {
        "func"@ + decimal(self.index as nat)
    }

    pub fn new(index: u32) -> (r: Func)
        ensures
            r.index == index,
    {
        Func { index }
    }

    pub fn index(&self) -> (r: u32)
        ensures
            r == self.index,
    {
        self.index
    }

    pub fn invalid() -> (r: Func)
        ensures
            r.index == INVALID_INDEX,
    {
        Func { index: INVALID_INDEX }
    }

    pub fn is_valid(&self) -> (r: bool)
        ensures
            r == (self.index != INVALID_INDEX),
    {
        self.index != INVALID_INDEX
    }

    /// Appends the handle's text form to `out`.
    pub fn push_text(&self, out: &mut String)
        ensures
            final(out)@ == old(out)@ + self.text(),
    {
        out.append("func");
        push_decimal(out, self.index as u64);
        assert(final(out)@ =~= old(out)@ + self.text());
    }
}

/// A function type of a module.
#[derive(Clone, Copy, Debug, PartialEq, Eq, Hash, Structural)]
pub struct Signature {
    pub index: u32,
}

impl Signature {
    /// The handle's text form: its kind prefix followed by its index.
    pub open spec fn text(self) -> Seq<char> {
        "sig"@ + decimal(self.index as nat)
    }

    pub fn new(index: u32) -> (r: Signature)
        ensures
            r.index == index,
    {
        Signature { index }
    }

    pub fn index(&self) -> (r: u32)
        ensures
            r == self.index,
    {
        self.index
    }

    pub fn invalid() -> (r: Signature)
        ensures
            r.index == INVALID_INDEX,
    {
        Signature { index: INVALID_INDEX }
    }

    pub fn is_valid(&self) -> (r: bool)
        ensures
            r == (self.index != INVALID_INDEX),
    {
        self.index != INVALID_INDEX
    }

    /// Appends the handle's text form to `out`.
    pub fn push_text(&self, out: &mut String)
        ensures
            final(out)@ == old(out)@ + self.text(),
    {
        out.append("sig");
        push_decimal(out, self.index as u64);
        assert(final(out)@ =~= old(out)@ + self.text());
    }
}

/// A global variable of a module.
#[derive(Clone, Copy, Debug, PartialEq, Eq, Hash, Structural)]
pub struct Global {
    pub index: u32,
}

impl Global {
    /// The handle's text form: its kind prefix followed by its index.
    pub open spec fn text(self) -> Seq<char> {
        "global"@ + decimal(self.index as nat)
    }

    pub fn new(index: u32) -> (r: Global)
        ensures
            r.index == index,
    {
        Global { index }
    }

    pub fn index(&self) -> (r: u32)
        ensures
            r == self.index,
    {
        self.index
    }

    pub fn invalid() -> (r: Global)
        ensures
            r.index == INVALID_INDEX,
    {
        Global { index: INVALID_INDEX }
    }

    pub fn is_valid(&self) -> (r: bool)
        ensures
            r == (self.index != INVALID_INDEX),
    {
        self.index != INVALID_INDEX
    }

    /// Appends the handle's text form to `out`.
    pub fn push_text(&self, out: &mut String)
        ensures
            final(out)@ == old(out)@ + self.text(),
    {
        out.append("global");
        push_decimal(out, self.index as u64);
        assert(final(out)@ =~= old(out)@ + self.text());
    }
}

/// A table of a module.
#[derive(Clone, Copy, Debug, PartialEq, Eq, Hash, Structural)]
pub struct Table {
    pub index: u32,
}

impl Table {
    /// The handle's text form: its kind prefix followed by its index.
    pub open spec fn text(self) -> Seq<char> {
        "table"@ + decimal(self.index as nat)
    }

    pub fn new(index: u32) -> (r: Table)
        ensures
            r.index == index,
    {
        Table { index }
    }

    pub fn index(&self) -> (r: u32)
        ensures
            r == self.index,
    {
        self.index
    }

    pub fn invalid() -> (r: Table)
        ensures
            r.index == INVALID_INDEX,
    {
        Table { index: INVALID_INDEX }
    }

    pub fn is_valid(&self) -> (r: bool)
        ensures
            r == (self.index != INVALID_INDEX),
    {
        self.index != INVALID_INDEX
    }

    /// Appends the handle's text form to `out`.
    pub fn push_text(&self, out: &mut String)
        ensures
            final(out)@ == old(out)@ + self.text(),
    {
        out.append("table");
        push_decimal(out, self.index as u64);
        assert(final(out)@ =~= old(out)@ + self.text());
    }
}

/// A linear memory of a module.
#[derive(Clone, Copy, Debug, PartialEq, Eq, Hash, Structural)]
pub struct Memory {
    pub index: u32,
}

impl Memory {
    /// The handle's text form: its kind prefix followed by its index.
    pub open spec fn text(self) -> Seq<char> {
        "memory"@ + decimal(self.index as nat)
    }

    pub fn new(index: u32) -> (r: Memory)
        ensures
            r.index == index,
    {
        Memory { index }
    }

    pub fn index(&self) -> (r: u32)
        ensures
            r == self.index,
    {
        self.index
    }

    pub fn invalid() -> (r: Memory)
        ensures
            r.index == INVALID_INDEX,
    {
        Memory { index: INVALID_INDEX }
    }

    pub fn is_valid(&self) -> (r: bool)
        ensures
            r == (self.index != INVALID_INDEX),
    {
        self.index != INVALID_INDEX
    }

    /// Appends the handle's text form to `out`.
    pub fn push_text(&self, out: &mut String)
        ensures
            final(out)@ == old(out)@ + self.text(),
    {
        out.append("memory");
        push_decimal(out, self.index as u64);
        assert(final(out)@ =~= old(out)@ + self.text());
    }
}

/// A source file of the debug tables.
#[derive(Clone, Copy, Debug, PartialEq, Eq, Hash, Structural)]
pub struct SourceFile {
    pub index: u32,
}

impl SourceFile {
    /// The handle's text form: its kind prefix followed by its index.
    pub open spec fn text(self) -> Seq<char> {
        "file"@ + decimal(self.index as nat)
    }

    pub fn new(index: u32) -> (r: SourceFile)
        ensures
            r.index == index,
    {
        SourceFile { index }
    }

    pub fn index(&self) -> (r: u32)
        ensures
            r == self.index,
    {
        self.index
    }

    pub fn invalid() -> (r: SourceFile)
        ensures
            r.index == INVALID_INDEX,
    {
        SourceFile { index: INVALID_INDEX }
    }

    pub fn is_valid(&self) -> (r: bool)
        ensures
            r == (self.index != INVALID_INDEX),
    {
        self.index != INVALID_INDEX
    }

    /// Appends the handle's text form to `out`.
    pub fn push_text(&self, out: &mut String)
        ensures
            final(out)@ == old(out)@ + self.text(),
    {
        out.append("file");
        push_decimal(out, self.index as u64);
        assert(final(out)@ =~= old(out)@ + self.text());
    }
}

/// A source location of the debug tables.
#[derive(Clone, Copy, Debug, PartialEq, Eq, Hash, Structural)]
pub struct SourceLoc {
    pub index: u32,
}

impl SourceLoc {
    /// The handle's text form: its kind prefix followed by its index.
    pub open spec fn text(self) -> Seq<char> {
        "loc"@ + decimal(self.index as nat)
    }

    pub fn new(index: u32) -> (r: SourceLoc)
        ensures
            r.index == index,
    {
        SourceLoc { index }
    }

    pub fn index(&self) -> (r: u32)
        ensures
            r == self.index,
    {
        self.index
    }

    pub fn invalid() -> (r: SourceLoc)
        ensures
            r.index == INVALID_INDEX,
    {
        SourceLoc { index: INVALID_INDEX }
    }

    pub fn is_valid(&self) -> (r: bool)
        ensures
            r == (self.index != INVALID_INDEX),
    {
        self.index != INVALID_INDEX
    }

    /// Appends the handle's text form to `out`.
    pub fn push_text(&self, out: &mut String)
        ensures
            final(out)@ == old(out)@ + self.text(),
    {
        out.append("loc");
        push_decimal(out, self.index as u64);
        assert(final(out)@ =~= old(out)@ + self.text());
    }
}

impl Dump for Value {
    open spec fn dump(&self) -> Seq<char> {
        self.text()
    }

    fn push_dump(&self, out: &mut String) {
        self.push_text(out)
    }
}

impl Dump for Block {
    open spec fn dump(&self) -> Seq<char> {
        self.text()
    }

    fn push_dump(&self, out: &mut String) {
        self.push_text(out)
    }
}

impl Dump for Local {
    open spec fn dump(&self) -> Seq<char> {
        self.text()
    }

    fn push_dump(&self, out: &mut String) {
        self.push_text(out)
    }
}

impl Dump for Func {
    open spec fn dump(&self) -> Seq<char> {
        self.text()
    }

    fn push_dump(&self, out: &mut String) {
        self.push_text(out)
    }
}

impl Dump for Signature {
    open spec fn dump(&self) -> Seq<char> {
        self.text()
    }

    fn push_dump(&self, out: &mut String) {
        self.push_text(out)
    }
}

impl Dump for Global {
    open spec fn dump(&self) -> Seq<char> {
        self.text()
    }

    fn push_dump(&self, out: &mut String) {
        self.push_text(out)
    }
}

impl Dump for Table {
    open spec fn dump(&self) -> Seq<char> {
        self.text()
    }

    fn push_dump(&self, out: &mut String) {
        self.push_text(out)
    }
}

impl Dump for Memory {
    open spec fn dump(&self) -> Seq<char> {
        self.text()
    }

    fn push_dump(&self, out: &mut String) {
        self.push_text(out)
    }
}

impl Dump for SourceFile {
    open spec fn dump(&self) -> Seq<char> {
        self.text()
    }

    fn push_dump(&self, out: &mut String) {
        self.push_text(out)
    }
}

impl Dump for SourceLoc {
    open spec fn dump(&self) -> Seq<char> {
        self.text()
    }

    fn push_dump(&self, out: &mut String) {
        self.push_text(out)
    }
}

} // verus!
