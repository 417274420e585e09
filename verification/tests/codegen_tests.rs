//! Whole-compilation checks: the example schemas, idempotent re-emission,
//! hoisting, and the symbol table.

use xdrgen::ast::Token;
use xdrgen::codegen::{CodeGen, CodegenState, CompileError, rustify};
use xdrgen::decimal::dec_string;
use xdrgen::strutil::{replace, to_lower};

fn compile_ok(src: &str) -> (String, String, String) {
    let mut cg = CodeGen::new();
    cg.compile(src).expect("schema should compile");
    (cg.types_wr.out, cg.codec_wr.out, cg.service_wr.out)
}

#[test]
fn color_point_schema_emits_types() {
    let src = "enum color { RED = 0, GREEN = 1, BLUE = 2 };\nstruct point { color c; int x; int y; };\n";
    let (types, _codec, _service) = compile_ok(src);
    assert!(types.contains("xdr_enum!(Color {"));
    assert!(types.contains("Red = 0,"));
    assert!(types.contains("Green = 1,"));
    assert!(types.contains("Blue = 2,"));
    assert!(types.contains("pub struct Point {"));
    assert!(types.contains("pub c: Color,"));
    assert!(types.contains("pub x: i32,"));
    assert!(types.contains("pub y: i32,"));
}

#[test]
fn color_point_schema_hoists_nothing() {
    let src = "enum color { RED = 0, GREEN = 1, BLUE = 2 };\nstruct point { color c; int x; int y; };\n";
    let mut cg = CodeGen::new();
    cg.compile(src).expect("schema should compile");
    assert!(cg.state.get_hoisted().is_empty());
}

#[test]
fn reemission_is_byte_identical() {
    let src = "enum color { RED = 0, GREEN = 1 };\nstruct point { color c; int x; } ;\nprogram p { version v { void noop(void) = 1; } = 1; } = 100;\n";
    let first = compile_ok(src);
    let second = compile_ok(src);
    assert_eq!(first, second);
}

#[test]
fn union_schema_emits_variants_and_annotations() {
    let src = "enum color { RED = 0, GREEN = 1, BLUE = 2 };\nunion u switch (color c) { case RED: int a; case GREEN: int b; default: void; };\n";
    let (types, _codec, _service) = compile_ok(src);
    assert!(types.contains("pub enum U {"));
    assert!(types.contains("#[serde(rename = \"0\")]"));
    assert!(types.contains("Red {"));
    assert!(types.contains("a: i32,"));
    assert!(types.contains("#[serde(rename = \"1\")]"));
    assert!(types.contains("Green {"));
    assert!(types.contains("b: i32,"));
    assert!(types.contains("UnionDefault_ {"));
}

#[test]
fn inline_struct_field_is_hoisted_as_top_level_definition() {
    let src = "struct outer { struct { int v; } inner; };\n";
    let (types, _codec, _service) = compile_ok(src);
    assert!(types.contains("pub struct Outer {"));
    // The field references the synthesized name...
    assert!(types.contains("pub inner: Inner,"));
    // ...and the hoisted definition exists under that name.
    assert!(types.contains("pub struct Inner {"));
    assert!(types.contains("pub v: i32,"));
}

#[test]
fn program_schema_emits_dispatch_functions() {
    let src = "program foo_prog { version v1 { void noop(void) = 1; } = 1; } = 100;\n";
    let (types, codec, service) = compile_ok(src);
    assert!(types.contains("pub enum FooProgRequestV1 {"));
    assert!(types.contains("Noop,"));
    assert!(types.contains("pub enum FooProgResponseV1 {"));
    assert!(types.contains("pub fn foo_prog_decode(program: u32, version: u32, procedure: u32"));
    assert!(types.contains("pub fn foo_prog_decode_v1(procedure: u32"));
    assert!(types.contains("pub fn foo_prog_decode_v1_noop(buf"));
    // Three-level dispatch: the program key is matched before the version.
    assert!(types.contains("match program  {"));
    assert!(types.contains("100u32 => {"));
    assert!(types.contains("match version  {"));
    assert!(types.contains("1u32 => {"));
    assert!(types.contains("unknown program"));
    assert!(types.contains("unknown version"));
    assert!(types.contains("unknown procedure"));
    assert!(types.contains("pub fn encode(msg: FooProgResponse"));
    assert!(codec.contains("impl Codec for FooAppCodec {"));
    assert!(codec.contains("pub type FooCodec = XdrCodec<FooAppCodec>;"));
    assert!(service.contains("impl Service for FooProgService {"));
    assert!(service.contains("self.noop_v1()"));
}

#[test]
fn unresolved_case_label_is_a_compile_error() {
    let src = "union u switch (color c) { case RED: int a; };\n";
    let mut cg = CodeGen::new();
    assert_eq!(cg.compile(src), Err(CompileError::UnresolvedCaseLabel));
}

#[test]
fn parse_failure_is_a_compile_error() {
    let mut cg = CodeGen::new();
    assert_eq!(cg.compile("struct {"), Err(CompileError::ParseFailure));
    assert!(cg.types_wr.out.is_empty());
}

#[test]
fn unsupported_node_is_a_compile_error() {
    // A constant definition has no emission rule.
    let mut cg = CodeGen::new();
    assert_eq!(cg.compile("const a = 1;"), Err(CompileError::UnsupportedNode));
}

#[test]
fn symbol_table_is_first_writer_wins() {
    let mut tab = CodegenState::new();
    let ns = Token::Ident("color".to_string());
    let red = Token::Ident("RED".to_string());
    let zero = Token::Constant(0);
    let seven = Token::Constant(7);
    assert_eq!(tab.add_symbol(&ns, &red, &zero), None);
    assert_eq!(tab.add_symbol(&ns, &red, &seven), Some(Token::Constant(0)));
    assert_eq!(tab.get_symbol(&ns, &red), Some(Token::Constant(0)));
    let blue = Token::Ident("BLUE".to_string());
    assert_eq!(tab.get_symbol(&ns, &blue), None);
}

#[test]
fn rustify_camel_cases_identifiers() {
    assert_eq!(rustify(&"foo_bar".to_string()), "FooBar");
    assert_eq!(rustify(&"RED".to_string()), "Red");
    assert_eq!(rustify(&"uint32_t".to_string()), "Uint32");
    assert_eq!(rustify(&"".to_string()), "");
}

#[test]
fn decimal_rendering_is_exact() {
    assert_eq!(dec_string(0), "0");
    assert_eq!(dec_string(100), "100");
    assert_eq!(dec_string(-5), "-5");
    assert_eq!(dec_string(i64::MIN), "-9223372036854775808");
    assert_eq!(dec_string(i64::MAX), "9223372036854775807");
}

#[test]
fn string_helpers_behave() {
    assert_eq!(replace("FooProg", "Prog", "Codec"), "FooCodec");
    assert_eq!(replace("aaa", "a", "bb"), "bbbbbb");
    assert_eq!(replace("abc", "", "x"), "abc");
    assert_eq!(to_lower("MixedCase123"), "mixedcase123");
}
