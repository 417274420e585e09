//! Character-exact checks of the text-emission helper.

use xdrgen::code_writer::CodeWriter;
use xdrgen::function_writer::{decoder_miss, proc_decoder_finalize, wrap_proc_result};

#[test]
fn lines_blocks_and_indentation() {
    let mut wr = CodeWriter::new();
    wr.comment("hello");
    wr.expr_block("fn main()");
    wr.write_line("let a = 1;");
    wr.write_line("");
    wr.close_block("");
    assert_eq!(wr.out, "// hello\nfn main() {\n  let a = 1;\n\n}\n");
    assert_eq!(wr.indent, 0);
}

#[test]
fn comment_without_text_is_bare() {
    let mut wr = CodeWriter::new();
    wr.comment("");
    assert_eq!(wr.out, "//\n");
}

#[test]
fn field_lists_and_optional_fields() {
    let mut wr = CodeWriter::new();
    let fields = vec!["a".to_string(), "b".to_string(), "c".to_string()];
    wr.optional_fields(&fields);
    assert_eq!(wr.out, "(a, b, c)");
    let mut wr2 = CodeWriter::new();
    let none: Vec<String> = Vec::new();
    wr2.optional_fields(&none);
    assert_eq!(wr2.out, "");
}

#[test]
fn enum_and_field_declarations() {
    let mut wr = CodeWriter::new();
    wr.indented();
    wr.enum_decl("Red", "0");
    wr.enum_decl("Blank", "");
    wr.pub_field_decl("x", "i32");
    wr.field_decl("y", "u64");
    assert_eq!(wr.out, "  Red = 0,\n  Blank,\n  pub x: i32,\n  y: u64,\n");
}

#[test]
fn aliases_and_variant_lines() {
    let mut wr = CodeWriter::new();
    wr.pub_alias("Locid", "u32");
    wr.alias("Request", "XdrRequest");
    wr.enum_tuple_decl("V1", "FooRequestV1");
    wr.version_proc_request("Get", &vec!["i32".to_string()]);
    wr.version_proc_response("Get", &Some("u64".to_string()));
    wr.version_proc_response("Put", &None);
    assert_eq!(
        wr.out,
        "pub type Locid = u32;\ntype Request = XdrRequest;\nV1(FooRequestV1),\nGet(i32),\nGet(u64),\nPut,\n"
    );
}

#[test]
fn union_enum_opening_carries_the_union_marker() {
    let mut wr = CodeWriter::new();
    wr.pub_union_enum("U");
    wr.close_block("");
    assert!(wr.out.contains("#[derive(Serialize, Deserialize, PartialEq, Debug)]"));
    assert!(wr.out.contains("#[serde(rename(deserialize = \"__UNION_SYMBOL__\"))]"));
    assert!(wr.out.contains("pub enum U {"));
}

#[test]
fn routing_miss_arm_text() {
    let mut wr = CodeWriter::new();
    decoder_miss("version", &mut wr);
    assert_eq!(
        wr.out,
        "_ => {\n  return Err(io::Error::new(io::ErrorKind::Other, \"unknown version\"));\n},\n"
    );
}

#[test]
fn request_constructor_line() {
    let mut wr = CodeWriter::new();
    proc_decoder_finalize("PRequestV1", "Get", 2, &mut wr);
    assert_eq!(wr.out, "Ok(Some(PRequestV1::Get(arg0, arg1)))\n");
}

#[test]
fn handler_result_wrapper_text() {
    let mut wr = CodeWriter::new();
    wrap_proc_result("P", 1, "Get", true, &mut wr);
    assert_eq!(wr.out, ".map(|r| {\n                PResponseV1::Get(r)\n              })");
}

#[test]
fn top_decoder_opens_the_entry_point() {
    let mut wr = CodeWriter::new();
    xdrgen::function_writer::top_decoder("P", &mut wr);
    wr.close_block("");
    assert!(wr.out.starts_with("pub fn decode(buf: &mut EasyBuf) -> io::Result<Option<PRequest>> {\n"));
    assert!(wr.out.contains("match header.rpc_vers {"));
    assert!(wr.out.contains("\"unknown RPC version\""));
    assert!(wr.out.ends_with("}\n"));
}
