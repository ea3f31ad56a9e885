use waffle_ir::body::{BlockTarget, FunctionBody, Terminator};
use waffle_ir::display::{FunctionBodyDisplay, ModuleDisplay, NOPPrintDecorator};
use waffle_ir::entity::{Block, Func, Local, Signature, SourceFile, SourceLoc, Value};
use waffle_ir::module::{
    apply_options, DebugInfo, Export, FuncDecl, GlobalData, ImportKind, MemoryData, MemorySegment, Module, Options,
    SignatureData, SourceLocData, TableData,
};
use waffle_ir::value::{Operator, Type, ValueDef};

fn v(i: u32) -> Value {
    Value::new(i)
}

/// block0(v0: i32): v1 = i32.add v0, v0; return v1
fn add_body() -> FunctionBody {
    let mut b = FunctionBody::new();
    b.add_local(Type::I32);
    b.n_params = 1;
    b.rets.push(Type::I32);
    let b0 = b.add_block();
    let p = b.add_blockparam(b0, Type::I32);
    let s = b.add_op(b0, Operator::I32Add, vec![p, p], vec![Type::I32]);
    b.set_terminator(b0, Terminator::Return { values: vec![s] });
    b
}

fn show(body: &FunctionBody, indent: &str, verbose: bool) -> String {
    let d: FunctionBodyDisplay<NOPPrintDecorator> = FunctionBodyDisplay {
        body,
        indent,
        verbose,
        module: None,
        decorator: None,
    };
    d.to_text()
}

#[test]
fn ty_of_each_variant() {
    assert_eq!(ValueDef::BlockParam(Block::new(0), 0, Type::I64).ty(), Some(Type::I64));
    assert_eq!(ValueDef::Operator(Operator::Nop, vec![], vec![]).ty(), None);
    assert_eq!(ValueDef::Operator(Operator::I32Add, vec![v(0), v(1)], vec![Type::I32]).ty(), Some(Type::I32));
    assert_eq!(ValueDef::Operator(Operator::Call { function_index: Func::new(2) }, vec![], vec![Type::I32, Type::F64]).ty(), None);
    assert_eq!(ValueDef::PickOutput(v(3), 1, Type::F64).ty(), Some(Type::F64));
    assert_eq!(ValueDef::Alias(v(1)).ty(), None);
    assert_eq!(ValueDef::Placeholder(Type::I32).ty(), Some(Type::I32));
    assert_eq!(ValueDef::Trace(0, vec![v(1)]).ty(), None);
    assert_eq!(ValueDef::Empty.ty(), None);
    assert_eq!(ValueDef::default(), ValueDef::Empty);
}

#[test]
fn tys_of_each_variant() {
    let multi = ValueDef::Operator(Operator::Select, vec![], vec![Type::I32, Type::I64]);
    assert_eq!(multi.tys(), &[Type::I32, Type::I64][..]);
    assert_eq!(ValueDef::BlockParam(Block::new(0), 0, Type::V128).tys(), &[Type::V128][..]);
    assert_eq!(ValueDef::PickOutput(v(0), 0, Type::F32).tys(), &[Type::F32][..]);
    assert_eq!(ValueDef::Placeholder(Type::ExternRef).tys(), &[Type::ExternRef][..]);
    assert!(ValueDef::Alias(v(0)).tys().is_empty());
    assert!(ValueDef::Trace(1, vec![v(0)]).tys().is_empty());
    assert!(ValueDef::Empty.tys().is_empty());
}

#[test]
fn visit_uses_in_order() {
    let mut out = vec![v(9)];
    ValueDef::Operator(Operator::I32Sub, vec![v(2), v(1), v(2)], vec![Type::I32]).visit_uses(&mut out);
    assert_eq!(out, vec![v(9), v(2), v(1), v(2)]);
    let mut out = Vec::new();
    ValueDef::PickOutput(v(4), 1, Type::I32).visit_uses(&mut out);
    ValueDef::Alias(v(5)).visit_uses(&mut out);
    ValueDef::Trace(7, vec![v(6), v(7)]).visit_uses(&mut out);
    ValueDef::BlockParam(Block::new(0), 0, Type::I32).visit_uses(&mut out);
    ValueDef::Placeholder(Type::I32).visit_uses(&mut out);
    assert_eq!(out, vec![v(4), v(5), v(6), v(7)]);
}

#[test]
fn update_uses_rewrites_each_visited_position() {
    let mut d = ValueDef::Operator(Operator::I32Add, vec![v(1), v(2)], vec![Type::I32]);
    d.update_uses(|x: Value| Value::new(x.index + 10));
    assert_eq!(d, ValueDef::Operator(Operator::I32Add, vec![v(11), v(12)], vec![Type::I32]));
    let mut a = ValueDef::Alias(v(3));
    a.update_uses(|_x: Value| Value::new(0));
    assert_eq!(a, ValueDef::Alias(v(0)));
    let mut p = ValueDef::PickOutput(v(3), 2, Type::I64);
    p.update_uses(|x: Value| Value::new(x.index * 2));
    assert_eq!(p, ValueDef::PickOutput(v(6), 2, Type::I64));
    let mut bp = ValueDef::BlockParam(Block::new(1), 0, Type::I32);
    bp.update_uses(|_x: Value| Value::new(0));
    assert_eq!(bp, ValueDef::BlockParam(Block::new(1), 0, Type::I32));
    let mut t = ValueDef::Trace(4, vec![v(1)]);
    let mut before = Vec::new();
    t.visit_uses(&mut before);
    t.update_uses(|x: Value| Value::new(x.index + 1));
    let mut after = Vec::new();
    t.visit_uses(&mut after);
    assert_eq!(before.len(), after.len());
    assert_eq!(after, vec![v(2)]);
}

#[test]
fn entity_handles() {
    assert_eq!(Value::new(7).index(), 7);
    assert!(Value::new(7).is_valid());
    assert!(!Value::invalid().is_valid());
    assert!(!SourceLoc::invalid().is_valid());
    let mut s = String::new();
    Block::new(12).push_text(&mut s);
    s.push(' ');
    Signature::new(0).push_text(&mut s);
    s.push(' ');
    Local::new(305).push_text(&mut s);
    assert_eq!(s, "block12 sig0 local305");
}

#[test]
fn body_dump() {
    let b = add_body();
    let expected = "function(i32) -> i32 {\n  block0(v0: i32): # \n    # preds: \n    # succs: \n    v1 = i32.add v0, v0 # i32  \n    return v1\n}\n";
    assert_eq!(show(&b, "", false), expected);
}

#[test]
fn body_dump_verbose() {
    let b = add_body();
    let expected = "function(i32) -> i32 {\n    v0 = blockparam block0, 0 # i32\n    v1 = i32.add v0, v0 # i32 \n  block0(v0: i32): # \n    # preds: \n    # succs: \n    v1 = i32.add v0, v0 # i32  \n    return v1\n}\n";
    assert_eq!(show(&b, "", true), expected);
}

#[test]
fn body_dump_is_stable() {
    let b = add_body();
    assert_eq!(show(&b, "  ", true), show(&b, "  ", true));
    assert_eq!(show(&b, "", false), show(&b, "", false));
}

#[test]
fn body_dump_edges_locals_and_placeholders() {
    let mut b = FunctionBody::new();
    let b0 = b.add_block();
    let b1 = b.add_block();
    b.blocks[1].desc = "exit".to_string();
    let c = b.add_op(b0, Operator::I32Const { value: 42 }, vec![], vec![Type::I32]);
    b.value_locals[0] = Some(Local::new(2));
    let p = b.add_blockparam(b1, Type::I32);
    let ph = b.add_placeholder(Type::I64);
    b.set_terminator(
        b0,
        Terminator::CondBr {
            cond: c,
            if_true: BlockTarget { block: b1, args: vec![c] },
            if_false: BlockTarget { block: b1, args: vec![c] },
        },
    );
    b.set_terminator(b1, Terminator::Unreachable);
    assert_eq!(b.blocks[0].succs, vec![b1, b1]);
    assert_eq!(b.blocks[1].preds, vec![b0, b0]);
    let expected = "function() ->  {\n  block0(): # \n    # preds: \n    # succs: block1 (exit), block1 (exit)\n    # v0: local2\n    v0 = i32.const<42>  # i32  \n    if v0, block1(v0), block1(v0)\n  block1(v1: i32): # exit\n    # preds: block0 (), block0 ()\n    # succs: \n    unreachable\n}\n";
    assert_eq!(show(&b, "", false), expected);
    assert_eq!(p, v(1));
    assert_eq!(ph, v(2));
}

fn one_func_module(body: FunctionBody) -> Module {
    let mut m = Module::empty();
    m.signatures.push(SignatureData { params: vec![Type::I32], returns: vec![Type::I32] });
    m.funcs.push(FuncDecl::Body(Signature::new(0), "f".to_string(), body));
    m.exports.push(Export { name: "f".to_string(), kind: ImportKind::Func(Func::new(0)) });
    m
}

#[test]
fn module_dump() {
    let m = one_func_module(add_body());
    let d: ModuleDisplay<NOPPrintDecorator> = ModuleDisplay { module: &m, decorators: None };
    let expected = "module {\n  sig0: i32 -> i32\n  export \"f\": func0\n  func0 \"f\": sig0 = # i32 -> i32\n    function(i32) -> i32 {\n      block0(v0: i32): # \n        # preds: \n        # succs: \n        v1 = i32.add v0, v0 # i32  \n        return v1\n    }\n\n}\n";
    assert_eq!(d.to_text(), expected);
    assert_eq!(d.to_text(), d.to_text());
}

#[test]
fn module_dump_all_sections() {
    let mut body = add_body();
    body.source_locs[1] = SourceLoc::new(0);
    let mut m = one_func_module(body);
    m.start_func = Some(Func::new(0));
    m.globals.push(GlobalData { ty: Type::I64, value: Some(5), mutable: true });
    m.globals.push(GlobalData { ty: Type::F32, value: None, mutable: false });
    m.tables.push(TableData { ty: Type::FuncRef, func_elements: Some(vec![Func::new(0), Func::new(1)]) });
    m.memories.push(MemoryData {
        initial_pages: 1,
        maximum_pages: Some(16),
        segments: vec![MemorySegment { offset: 1024, data: vec![1, 2, 3] }],
    });
    m.funcs.push(FuncDecl::Lazy(Signature::new(0), "g".to_string(), vec![0, 1, 2, 3]));
    m.funcs.push(FuncDecl::Compiled(Signature::new(0), "h".to_string()));
    m.funcs.push(FuncDecl::Import(Signature::new(0), "i".to_string()));
    m.funcs.push(FuncDecl::Empty);
    m.debug = DebugInfo {
        source_locs: vec![SourceLocData { file: SourceFile::new(0), line: 3, col: 14 }],
        source_files: vec!["lib.c".to_string()],
    };
    let d: ModuleDisplay<NOPPrintDecorator> = ModuleDisplay { module: &m, decorators: None };
    let expected = "module {\n    start = func0\n  sig0: i32 -> i32\n  global0: Some(5) # i64\n  global1: None # f32\n  table0: funcref\n    table0[0]: func0\n    table0[1]: func1\n  memory0: initial 1 max Some(16)\n    memory0 offset 1024: # 3 bytes\n  export \"f\": func0\n  func0 \"f\": sig0 = # i32 -> i32\n    function(i32) -> i32 {\n      block0(v0: i32): # \n        # preds: \n        # succs: \n        v1 = i32.add v0, v0 # i32 @loc0 lib.c:3:14 \n        return v1\n    }\n\n  func1 \"g\": sig0 = # i32 -> i32\n  # raw bytes (length 4)\n  func2 \"h\": sig0 = # i32 -> i32\n  # already compiled\n  func3 \"i\": sig0 # i32 -> i32\n  func4: none\n  loc0 = file0 line 3 column 14\n  file0 = \"lib.c\"\n}\n";
    assert_eq!(d.to_text(), expected);
}

#[test]
fn placeholder_resolved_in_place() {
    let mut b = FunctionBody::new();
    let b0 = b.add_block();
    let p = b.add_placeholder(Type::I32);
    let user = b.add_op(b0, Operator::I32Eqz, vec![p], vec![Type::I32]);
    b.set_value_def(p, ValueDef::Operator(Operator::I32Const { value: 7 }, vec![], vec![Type::I32]));
    assert_eq!(b.values[p.index as usize], ValueDef::Operator(Operator::I32Const { value: 7 }, vec![], vec![Type::I32]));
    let mut uses = Vec::new();
    b.values[user.index as usize].visit_uses(&mut uses);
    assert_eq!(uses, vec![p]);
    assert_eq!(b.values[p.index as usize].ty(), Some(Type::I32));
}

#[test]
fn alias_chains_resolve() {
    let mut b = FunctionBody::new();
    let x = b.add_value(ValueDef::Placeholder(Type::I32));
    let y = b.add_value(ValueDef::Alias(x));
    let z = b.add_value(ValueDef::Alias(y));
    assert_eq!(b.resolve_alias(z), x);
    assert_eq!(b.resolve_alias(y), x);
    assert_eq!(b.resolve_alias(x), x);
    b.set_value_def(x, ValueDef::Alias(z));
    let r = b.resolve_alias(z);
    assert!(r == x || r == y || r == z);
}

fn decode(f: Func, bytes: &Vec<u8>) -> Result<FunctionBody, String> {
    if bytes.is_empty() {
        Err(format!("malformed body of func{}", f.index))
    } else {
        let mut b = FunctionBody::new();
        let b0 = b.add_block();
        let c = b.add_op(b0, Operator::I32Const { value: bytes[0] as u32 }, vec![], vec![Type::I32]);
        b.set_terminator(b0, Terminator::Return { values: vec![c] });
        Ok(b)
    }
}

fn lazy_module(malformed: Option<usize>) -> Module {
    let mut m = Module::empty();
    m.signatures.push(SignatureData { params: vec![], returns: vec![Type::I32] });
    for i in 0..5 {
        let bytes = if Some(i) == malformed { vec![] } else { vec![i as u8 + 40] };
        m.funcs.push(FuncDecl::Lazy(Signature::new(0), format!("f{}", i), bytes));
    }
    m
}

#[test]
fn expansion_materialises_every_lazy_body() {
    let mut m = lazy_module(None);
    m.funcs.push(FuncDecl::Import(Signature::new(0), "env".to_string()));
    assert!(m.expand_all_funcs(decode).is_ok());
    for i in 0..5 {
        match &m.funcs[i] {
            FuncDecl::Body(sig, name, body) => {
                assert_eq!(*sig, Signature::new(0));
                assert_eq!(name, &format!("f{}", i));
                assert_eq!(body.values[0], ValueDef::Operator(Operator::I32Const { value: 40 + i as u32 }, vec![], vec![Type::I32]));
            }
            other => panic!("slot {} not expanded: {:?}", i, other),
        }
    }
    assert!(matches!(m.funcs[5], FuncDecl::Import(_, _)));
}

#[test]
fn expansion_is_idempotent() {
    let mut m = lazy_module(None);
    m.expand_all_funcs(decode).unwrap();
    let d: ModuleDisplay<NOPPrintDecorator> = ModuleDisplay { module: &m, decorators: None };
    let first = d.to_text();
    let mut m2 = m.clone();
    assert!(m2.expand_all_funcs(decode).is_ok());
    let d2: ModuleDisplay<NOPPrintDecorator> = ModuleDisplay { module: &m2, decorators: None };
    assert_eq!(d2.to_text(), first);
}

#[test]
fn expansion_error_is_isolated() {
    let mut m = lazy_module(Some(3));
    let e = m.expand_all_funcs(decode).unwrap_err();
    assert_eq!(e.func, Func::new(3));
    assert_eq!(e.message, "malformed body of func3");
    for i in 0..3 {
        assert!(matches!(m.funcs[i], FuncDecl::Body(_, _, _)));
    }
    assert!(matches!(m.funcs[3], FuncDecl::Lazy(_, _, _)));
    assert!(matches!(m.funcs[4], FuncDecl::Lazy(_, _, _)));
}

#[test]
fn select_terminator_edges() {
    let mut b = FunctionBody::new();
    let b0 = b.add_block();
    let b1 = b.add_block();
    let b2 = b.add_block();
    let c = b.add_op(b0, Operator::I32Const { value: 0 }, vec![], vec![Type::I32]);
    let t = Terminator::Select {
        value: c,
        targets: vec![BlockTarget { block: b1, args: vec![] }, BlockTarget { block: b2, args: vec![] }],
        default: BlockTarget { block: b1, args: vec![] },
    };
    assert_eq!(t.succ_block_vec(), vec![b1, b2, b1]);
    b.set_terminator(b0, t);
    assert_eq!(b.blocks[1].preds, vec![b0, b0]);
    assert_eq!(b.blocks[2].preds, vec![b0]);
    let mut s = String::new();
    b.blocks[0].terminator.push_text(&mut s);
    assert_eq!(s, "select v0, [block1(), block2()], block1()");
}

#[test]
fn edge_types_checked_through_aliases() {
    let mut b = FunctionBody::new();
    let b0 = b.add_block();
    let b1 = b.add_block();
    let c = b.add_op(b0, Operator::I32Const { value: 1 }, vec![], vec![Type::I32]);
    let a = b.add_value(ValueDef::Alias(c));
    b.add_blockparam(b1, Type::I32);
    b.set_terminator(b0, Terminator::Br { target: BlockTarget { block: b1, args: vec![a] } });
    b.set_terminator(b1, Terminator::Return { values: vec![] });
    assert!(b.check_edge_types());
}

#[test]
fn edge_arity_and_type_mismatches_found() {
    let mut b = FunctionBody::new();
    let b0 = b.add_block();
    let b1 = b.add_block();
    let c = b.add_op(b0, Operator::I64Const { value: 1 }, vec![], vec![Type::I64]);
    b.add_blockparam(b1, Type::I32);
    let mut wrong_type = b.clone();
    b.set_terminator(b0, Terminator::Br { target: BlockTarget { block: b1, args: vec![] } });
    assert!(!b.check_edge_types());
    wrong_type.set_terminator(b0, Terminator::Br { target: BlockTarget { block: b1, args: vec![c] } });
    assert!(!wrong_type.check_edge_types());
}

#[test]
fn per_func_body_rewrites_bodies_only() {
    let mut m = lazy_module(None);
    m.expand_all_funcs(decode).unwrap();
    m.funcs.push(FuncDecl::Lazy(Signature::new(0), "later".to_string(), vec![1]));
    m.per_func_body(|b: &FunctionBody| {
        let mut nb = b.clone();
        nb.blocks[0].desc = "seen".to_string();
        nb
    });
    for i in 0..5 {
        match &m.funcs[i] {
            FuncDecl::Body(_, _, body) => assert_eq!(body.blocks[0].desc, "seen"),
            other => panic!("slot {} lost its body: {:?}", i, other),
        }
    }
    assert!(matches!(&m.funcs[5], FuncDecl::Lazy(_, name, bytes) if name == "later" && bytes == &vec![1u8]));
}

#[test]
fn numerals_and_optional_numbers() {
    let mut s = String::new();
    waffle_ir::text::push_decimal(&mut s, 0);
    s.push(' ');
    waffle_ir::text::push_decimal(&mut s, 1234567890123);
    s.push(' ');
    waffle_ir::text::push_decimal(&mut s, u64::MAX);
    s.push(' ');
    waffle_ir::text::push_opt_decimal(&mut s, Some(10));
    s.push(' ');
    waffle_ir::text::push_opt_decimal(&mut s, None);
    assert_eq!(s, "0 1234567890123 18446744073709551615 Some(10) None");
}

fn tagged(tag: &'static str) -> impl Fn(&FunctionBody) -> FunctionBody {
    move |b: &FunctionBody| {
        let mut nb = b.clone();
        let d = format!("{}{}", nb.blocks[0].desc, tag);
        nb.blocks[0].desc = d;
        nb
    }
}

fn first_desc(m: &Module, i: usize) -> String {
    match &m.funcs[i] {
        FuncDecl::Body(_, _, b) => b.blocks[0].desc.clone(),
        other => panic!("slot {} has no body: {:?}", i, other),
    }
}

#[test]
fn apply_options_runs_requested_passes_in_order() {
    let mut m = lazy_module(None);
    let opts = Options { basic_opts: true, max_ssa: true };
    assert!(apply_options(&opts, &mut m, decode, tagged("opt;"), tagged("ssa;")).is_ok());
    for i in 0..5 {
        assert_eq!(first_desc(&m, i), "opt;ssa;");
    }
    let mut m = lazy_module(None);
    let opts = Options { basic_opts: false, max_ssa: true };
    assert!(apply_options(&opts, &mut m, decode, tagged("opt;"), tagged("ssa;")).is_ok());
    assert_eq!(first_desc(&m, 0), "ssa;");
    let mut m = lazy_module(None);
    let opts = Options { basic_opts: false, max_ssa: false };
    assert!(apply_options(&opts, &mut m, decode, tagged("opt;"), tagged("ssa;")).is_ok());
    assert_eq!(first_desc(&m, 4), "");
}

#[test]
fn apply_options_stops_at_decode_failure() {
    let mut m = lazy_module(Some(1));
    let opts = Options { basic_opts: true, max_ssa: true };
    let e = apply_options(&opts, &mut m, decode, tagged("opt;"), tagged("ssa;")).unwrap_err();
    assert_eq!(e.func, Func::new(1));
    assert_eq!(first_desc(&m, 0), "");
    assert!(matches!(m.funcs[1], FuncDecl::Lazy(_, _, _)));
}

#[test]
fn display_builders() {
    let b = add_body();
    assert_eq!(b.display("", None).to_text(), show(&b, "", false));
    let nop = NOPPrintDecorator;
    assert_eq!(b.display_verbose("  ", None, &nop).to_text(), show(&b, "  ", true));
    let m = one_func_module(add_body());
    let first = m.display::<NOPPrintDecorator>(None).to_text();
    let second = m.display(Some(vec![&nop])).to_text();
    assert_eq!(first, second);
    assert!(first.starts_with("module {\n  sig0: i32 -> i32\n"));
}

#[test]
fn verbose_dump_lists_every_definition() {
    let mut b = FunctionBody::new();
    let b0 = b.add_block();
    let c = b.add_op(b0, Operator::I32Const { value: 3 }, vec![], vec![Type::I32]);
    let t = b.add_value(ValueDef::Trace(9, vec![c, c]));
    let ph = b.add_placeholder(Type::F64);
    let pick = b.add_value(ValueDef::PickOutput(c, 0, Type::I32));
    let none = b.add_value(ValueDef::Empty);
    b.append_to_block(b0, pick);
    b.set_terminator(b0, Terminator::Unreachable);
    assert_eq!((t, ph, none), (v(1), v(2), v(4)));
    let verbose = "function() ->  {\n    v0 = i32.const<3>  # i32 \n    v1 = trace 9 v0, v0\n    v2 = placeholder # f64\n    v3 = v0.0 # i32\n    v4 = none\n  block0(): # \n    # preds: \n    # succs: \n    v0 = i32.const<3>  # i32  \n    v3 = v0.0 # i32\n    unreachable\n}\n";
    assert_eq!(show(&b, "", true), verbose);
    let plain = "function() ->  {\n  block0(): # \n    # preds: \n    # succs: \n    v0 = i32.const<3>  # i32  \n    v3 = v0.0 # i32\n    unreachable\n}\n";
    assert_eq!(show(&b, "", false), plain);
}

#[test]
fn resolved_placeholder_prints_as_its_operator() {
    let mut b = FunctionBody::new();
    let b0 = b.add_block();
    let p = b.add_placeholder(Type::I32);
    b.append_to_block(b0, p);
    let user = b.add_op(b0, Operator::I32Eqz, vec![p], vec![Type::I32]);
    b.set_value_def(p, ValueDef::Operator(Operator::I32Const { value: 7 }, vec![], vec![Type::I32]));
    b.set_terminator(b0, Terminator::Return { values: vec![user] });
    let out = show(&b, "", false);
    assert!(!out.contains("placeholder"));
    assert!(out.contains("    v0 = i32.const<7>  # i32  \n"));
    assert!(out.contains("    v1 = i32.eqz v0 # i32  \n"));
}
