//! Indentation-aware text emission.
//!
//! `CodeWriter` owns one output buffer and a block-nesting depth. Every
//! method's contract states exactly which text it appends, over the spec
//! functions below, so the generator's own contracts can pin the emitted
//! artifacts down to the character. Methods that open a block (`block`,
//! `expr_block` and their specialized forms) raise the depth by one;
//! `close_block` lowers it and writes the closing brace.

use vstd::prelude::*;
use crate::decimal::{spec_dec, dec_string};

verus! {

/// Indentation depths stay far below this bound; the emitter's nesting is
/// fixed by its code shape, never by input size.
pub const MAX_DEPTH: usize = 1048576;

/// Two spaces for each open block.
pub open spec fn ind_text(k: nat) -> Seq<char>
    decreases k,
{
    if k == 0 {
        Seq::empty()
    } else {
        ind_text((k - 1) as nat) + "  "@
    }
}

/// One line at depth `k`: indentation, text, newline. An empty line is a
/// bare newline.
pub open spec fn line_text(k: nat, s: Seq<char>) -> Seq<char> {
    if s.len() == 0 {
        "\n"@
    } else {
        ind_text(k) + s + "\n"@
    }
}

/// A block-opening line: `prefix {`.
pub open spec fn open_block_text(k: nat, prefix: Seq<char>) -> Seq<char> {
    ind_text(k) + prefix + " {\n"@
}

/// A comment line.
pub open spec fn comment_text(k: nat, c: Seq<char>) -> Seq<char> {
    if c.len() == 0 {
        ind_text(k) + "//"@ + "\n"@
    } else {
        ind_text(k) + "// "@ + c + "\n"@
    }
}

/// Fields joined by `, `.
pub open spec fn comma_upto(fs: Seq<Seq<char>>, i: int) -> Seq<char>
    decreases i,
{
    if i <= 0 {
        Seq::empty()
    } else if i == 1 {
        fs[0]
    } else {
        comma_upto(fs, i - 1) + ", "@ + fs[i - 1]
    }
}

/// All fields joined by `, `.
pub open spec fn comma_fields_text(fs: Seq<Seq<char>>) -> Seq<char> {
    comma_upto(fs, fs.len() as int)
}

/// A parenthesized field list, or nothing when there are no fields.
pub open spec fn opt_fields_text(fs: Seq<Seq<char>>) -> Seq<char> {
    if fs.len() == 0 {
        Seq::empty()
    } else {
        "("@ + comma_fields_text(fs) + ")"@
    }
}

/// The models of a list of field strings.
pub open spec fn strs_view(v: Seq<String>) -> Seq<Seq<char>> {
    v.map_values(|f: String| f@)
}

/// A `type name = target;` alias line.
pub open spec fn alias_text(k: nat, prefix: Seq<char>, name: Seq<char>, target: Seq<char>) -> Seq<
    char,
> {
    ind_text(k) + prefix + "type "@ + name + " = "@ + target + ";\n"@
}

/// The derive attribute put above every generated type.
pub open spec fn derive_line(k: nat) -> Seq<char> {
    line_text(k, "#[derive(Serialize, Deserialize, PartialEq, Debug)]"@)
}

/// Opening text of a generated `pub enum`.
pub open spec fn pub_enum_text(k: nat, name: Seq<char>) -> Seq<char> {
    "\n"@ + derive_line(k) + ind_text(k) + "pub enum "@ + name + " {\n"@
}

/// Opening text of a generated union enum, whose deserialization is keyed
/// by the union symbol marker.
pub open spec fn pub_union_enum_text(k: nat, name: Seq<char>) -> Seq<char> {
    "\n"@ + derive_line(k) + line_text(k, "#[serde(rename(deserialize = \"__UNION_SYMBOL__\"))]"@)
        + ind_text(k) + "pub enum "@ + name + " {\n"@
}

/// Opening text of a generated `pub struct`.
pub open spec fn pub_struct_text(k: nat, name: Seq<char>) -> Seq<char> {
    "\n"@ + derive_line(k) + ind_text(k) + "pub struct "@ + name + " {\n"@
}

/// One request variant line: name, optional positional payload, comma.
pub open spec fn proc_request_text(k: nat, name: Seq<char>, args: Seq<Seq<char>>) -> Seq<char> {
    ind_text(k) + name + opt_fields_text(args) + ",\n"@
}

/// One response variant line: name, optional payload, comma.
pub open spec fn proc_response_text(k: nat, name: Seq<char>, ret: Option<Seq<char>>) -> Seq<char> {
    ind_text(k) + name + (match ret {
        Some(s) => "("@ + s + ")"@,
        None => Seq::empty(),
    }) + ",\n"@
}

/// Opening text of one match arm: pattern, optional fields, ` => {`.
pub open spec fn match_option_text(k: nat, pat: Seq<char>, fs: Seq<Seq<char>>) -> Seq<char> {
    ind_text(k) + pat + opt_fields_text(fs) + " => {\n"@
}

/// One enum member line, with its explicit value when present.
pub open spec fn enum_decl_text(k: nat, name: Seq<char>, val: Seq<char>) -> Seq<char> {
    if val.len() == 0 {
        ind_text(k) + name + ",\n"@
    } else {
        ind_text(k) + name + " = "@ + val + ",\n"@
    }
}

/// The indentation-aware writer behind all three output artifacts.
pub struct CodeWriter {
    /// Everything written so far.
    pub out: String,
    /// Current block-nesting depth.
    pub indent: usize,
}

impl CodeWriter {
    /// A fresh writer with empty output at depth zero.
    pub fn new() -> (r: CodeWriter)
        ensures
            r.out@ == Seq::<char>::empty(),
            r.indent == 0,
    {
        CodeWriter { out: String::new(), indent: 0 }
    }

    /// Write the current indentation.
    fn write_indent(&mut self)
        ensures
            final(self).out@ == old(self).out@ + ind_text(old(self).indent as nat),
            final(self).indent == old(self).indent,
    {
        let k = self.indent;
        let mut i: usize = 0;
        proof {
            assert(old(self).out@ + ind_text(0) =~= old(self).out@);
        }
        while i < k
            invariant
                self.indent == k,
                i <= k,
                self.out@ == old(self).out@ + ind_text(i as nat),
            decreases k - i,
        {
            self.out.append("  ");
            i += 1;
        }
    }

    /// Write `text` on the current line, ignoring indentation.
    pub fn same_line(&mut self, text: &str)
        ensures
            final(self).out@ == old(self).out@ + text@,
            final(self).indent == old(self).indent,
    {
        self.out.append(text);
    }

    /// Enter one more level of indentation.
    pub fn indented(&mut self)
        requires
            old(self).indent < MAX_DEPTH,
        ensures
            final(self).out@ == old(self).out@,
            final(self).indent == old(self).indent + 1,
    {
        self.indent = self.indent + 1;
    }

    /// Leave one level of indentation.
    pub fn dedented(&mut self)
        requires
            old(self).indent >= 1,
        ensures
            final(self).out@ == old(self).out@,
            final(self).indent == old(self).indent - 1,
    {
        self.indent = self.indent - 1;
    }

    /// Write one `//` comment line.
    pub fn comment(&mut self, c: &str)
        ensures
            final(self).out@ == old(self).out@ + comment_text(old(self).indent as nat, c@),
            final(self).indent == old(self).indent,
    {
        self.write_indent();
        if c.is_empty() {
            self.out.append("//");
            self.out.append("\n");
        } else {
            self.out.append("// ");
            self.out.append(c);
            self.out.append("\n");
        }
    }

    /// Write indentation and `line`, without a newline.
    pub fn write(&mut self, line: &str)
        ensures
            final(self).out@ == old(self).out@ + ind_text(old(self).indent as nat) + line@,
            final(self).indent == old(self).indent,
    {
        self.write_indent();
        self.out.append(line);
    }

    /// Write `text` exactly as given.
    pub fn raw_write(&mut self, text: &str)
        ensures
            final(self).out@ == old(self).out@ + text@,
            final(self).indent == old(self).indent,
    {
        self.out.append(text);
    }

    /// Write one full line; an empty `line` gives a bare newline.
    pub fn write_line(&mut self, line: &str)
        ensures
            final(self).out@ == old(self).out@ + line_text(old(self).indent as nat, line@),
            final(self).indent == old(self).indent,
    {
        if line.is_empty() {
            self.out.append("\n");
        } else {
            self.write_indent();
            self.out.append(line);
            self.out.append("\n");
        }
    }

    /// Open a block: write `first_line` and indent.
    pub fn block(&mut self, first_line: &str)
        requires
            old(self).indent < MAX_DEPTH,
        ensures
            final(self).out@ == old(self).out@ + line_text(old(self).indent as nat, first_line@),
            final(self).indent == old(self).indent + 1,
    {
        self.write_line(first_line);
        self.indented();
    }

    /// Open an expression block: `prefix {` and indent.
    pub fn expr_block(&mut self, prefix: &str)
        requires
            old(self).indent < MAX_DEPTH,
        ensures
            final(self).out@ == old(self).out@ + open_block_text(old(self).indent as nat, prefix@),
            final(self).indent == old(self).indent + 1,
    {
        self.write_indent();
        self.out.append(prefix);
        self.out.append(" {\n");
        self.indented();
    }

    /// Close the innermost block: dedent and write `}` plus `trailing`.
    pub fn close_block(&mut self, trailing: &str)
        requires
            old(self).indent >= 1,
        ensures
            final(self).out@ == old(self).out@ + ind_text((old(self).indent - 1) as nat) + "}"@ + trailing@
                + "\n"@,
            final(self).indent == old(self).indent - 1,
    {
        self.dedented();
        self.write_indent();
        self.out.append("}");
        self.out.append(trailing);
        self.out.append("\n");
    }

    /// Header of the generated types artifact.
    pub fn write_types_header(&mut self)
        ensures
            final(self).out@ == old(self).out@ + comment_text(
                old(self).indent as nat,
                "Autogenerated by xdrust"@,
            ) + line_text(old(self).indent as nat, "#[allow(dead_code)]"@) + line_text(
                old(self).indent as nat,
                "use std::{io, fmt};"@,
            ) + line_text(old(self).indent as nat, "use serde_xdr;"@) + "\n"@,
            final(self).indent == old(self).indent,
    {
        proof {
            reveal_strlit("");
        }
        self.comment("Autogenerated by xdrust");
        self.write_line("#[allow(dead_code)]");
        self.write_line("use std::{io, fmt};");
        self.write_line("use serde_xdr;");
        self.write_line("");
    }

    /// Header of the generated protocol-types artifact.
    pub fn write_proto_header(&mut self)
        ensures
            final(self).out@ == old(self).out@ + comment_text(
                old(self).indent as nat,
                "autogenerated by xdrust"@,
            ) + comment_text(old(self).indent as nat, "translated XDR->Rust types and functions"@)
                + line_text(old(self).indent as nat, "#[allow(dead_code)]"@) + line_text(
                old(self).indent as nat,
                "use std::{io, fmt};"@,
            ) + line_text(old(self).indent as nat, "use serde_xdr;"@) + line_text(
                old(self).indent as nat,
                "use xdr_rpc;"@,
            ) + line_text(old(self).indent as nat, "use tokio_core::io::EasyBuf;"@) + "\n"@,
            final(self).indent == old(self).indent,
    {
        proof {
            reveal_strlit("");
        }
        self.comment("autogenerated by xdrust");
        self.comment("translated XDR->Rust types and functions");
        self.write_line("#[allow(dead_code)]");
        self.write_line("use std::{io, fmt};");
        self.write_line("use serde_xdr;");
        self.write_line("use xdr_rpc;");
        self.write_line("use tokio_core::io::EasyBuf;");
        self.write_line("");
    }

    /// Header of the generated codec artifact.
    pub fn write_codec_header(&mut self)
        ensures
            final(self).out@ == old(self).out@ + comment_text(
                old(self).indent as nat,
                "autogenerated by xdrust"@,
            ) + line_text(old(self).indent as nat, "#[allow(dead_code)]"@) + line_text(
                old(self).indent as nat,
                "use std::io;"@,
            ) + line_text(old(self).indent as nat, "use serde_xdr;"@) + line_text(
                old(self).indent as nat,
                "use xdr_rpc;"@,
            ) + line_text(old(self).indent as nat, "use tokio_core::io::{Codec, EasyBuf, Io};"@)
                + line_text(old(self).indent as nat, "use tokio_proto::pipeline::ServerProto;"@)
                + line_text(old(self).indent as nat, "use tokio_core::io::Framed;"@) + "\n"@,
            final(self).indent == old(self).indent,
    {
        proof {
            reveal_strlit("");
        }
        self.comment("autogenerated by xdrust");
        self.write_line("#[allow(dead_code)]");
        self.write_line("use std::io;");
        self.write_line("use serde_xdr;");
        self.write_line("use xdr_rpc;");
        self.write_line("use tokio_core::io::{Codec, EasyBuf, Io};");
        self.write_line("use tokio_proto::pipeline::ServerProto;");
        self.write_line("use tokio_core::io::Framed;");
        self.write_line("");
    }

    /// Header of the generated service artifact.
    pub fn write_service_header(&mut self)
        ensures
            final(self).out@ == old(self).out@ + comment_text(
                old(self).indent as nat,
                "autogenerated by xdrust"@,
            ) + line_text(old(self).indent as nat, "#[allow(dead_code)]"@) + line_text(
                old(self).indent as nat,
                "use std::io;"@,
            ) + line_text(old(self).indent as nat, "use futures::{future, BoxFuture, Future};"@)
                + line_text(old(self).indent as nat, "use tokio_service::Service;"@) + line_text(
                old(self).indent as nat,
                "use xdr_rpc;"@,
            ) + "\n"@,
            final(self).indent == old(self).indent,
    {
        proof {
            reveal_strlit("");
        }
        self.comment("autogenerated by xdrust");
        self.write_line("#[allow(dead_code)]");
        self.write_line("use std::io;");
        self.write_line("use futures::{future, BoxFuture, Future};");
        self.write_line("use tokio_service::Service;");
        self.write_line("use xdr_rpc;");
        self.write_line("");
    }

    /// Write a `type` alias line with the given visibility prefix.
    fn alias_impl(&mut self, prefix: &str, name: &str, target: &str)
        ensures
            final(self).out@ == old(self).out@ + alias_text(
                old(self).indent as nat,
                prefix@,
                name@,
                target@,
            ),
            final(self).indent == old(self).indent,
    {
        self.write_indent();
        self.out.append(prefix);
        self.out.append("type ");
        self.out.append(name);
        self.out.append(" = ");
        self.out.append(target);
        self.out.append(";\n");
    }

    /// Write a private `type` alias line.
    pub fn alias(&mut self, name: &str, target: &str)
        ensures
            final(self).out@ == old(self).out@ + alias_text(old(self).indent as nat, ""@, name@, target@),
            final(self).indent == old(self).indent,
    {
        self.alias_impl("", name, target);
    }

    /// Write a public `type` alias line.
    pub fn pub_alias(&mut self, name: &str, target: &str)
        ensures
            final(self).out@ == old(self).out@ + alias_text(
                old(self).indent as nat,
                "pub "@,
                name@,
                target@,
            ),
            final(self).indent == old(self).indent,
    {
        self.alias_impl("pub ", name, target);
    }

    /// Open an `impl` block: `impl<generics> trait for type {`.
    pub fn impl_(&mut self, generics: &str, trait_name: &str, ty_name: &str)
        requires
            old(self).indent < MAX_DEPTH,
        ensures
            final(self).out@ == old(self).out@ + ind_text(old(self).indent as nat) + "impl"@ + generics@
                + " "@ + trait_name@ + " for "@ + ty_name@ + " {\n"@,
            final(self).indent == old(self).indent + 1,
    {
        self.write_indent();
        self.out.append("impl");
        self.out.append(generics);
        self.out.append(" ");
        self.out.append(trait_name);
        self.out.append(" for ");
        self.out.append(ty_name);
        self.out.append(" {\n");
        self.indented();
    }

    /// Open the enum holding one generated union type.
    pub fn pub_union_enum(&mut self, name: &str)
        requires
            old(self).indent < MAX_DEPTH,
        ensures
            final(self).out@ == old(self).out@ + pub_union_enum_text(old(self).indent as nat, name@),
            final(self).indent == old(self).indent + 1,
    {
        self.out.append("\n");
        self.write_line("#[derive(Serialize, Deserialize, PartialEq, Debug)]");
        self.write_line("#[serde(rename(deserialize = \"__UNION_SYMBOL__\"))]");
        self.write_indent();
        self.out.append("pub enum ");
        self.out.append(name);
        self.out.append(" {\n");
        self.indented();
    }

    /// Open a generated `pub enum`.
    pub fn pub_enum(&mut self, name: &str)
        requires
            old(self).indent < MAX_DEPTH,
        ensures
            final(self).out@ == old(self).out@ + pub_enum_text(old(self).indent as nat, name@),
            final(self).indent == old(self).indent + 1,
    {
        self.out.append("\n");
        self.write_line("#[derive(Serialize, Deserialize, PartialEq, Debug)]");
        self.write_indent();
        self.out.append("pub enum ");
        self.out.append(name);
        self.out.append(" {\n");
        self.indented();
    }

    /// Open a generated `pub struct`.
    pub fn pub_struct(&mut self, name: &str)
        requires
            old(self).indent < MAX_DEPTH,
        ensures
            final(self).out@ == old(self).out@ + pub_struct_text(old(self).indent as nat, name@),
            final(self).indent == old(self).indent + 1,
    {
        self.out.append("\n");
        self.write_line("#[derive(Serialize, Deserialize, PartialEq, Debug)]");
        self.write_indent();
        self.out.append("pub struct ");
        self.out.append(name);
        self.out.append(" {\n");
        self.indented();
    }

    /// Open the request enum of one program version.
    pub fn program_version_request(&mut self, prog_name: &str, ver_num: i64)
        requires
            old(self).indent < MAX_DEPTH,
        ensures
            final(self).out@ == old(self).out@ + pub_enum_text(
                old(self).indent as nat,
                prog_name@ + "RequestV"@ + spec_dec(ver_num as int),
            ),
            final(self).indent == old(self).indent + 1,
    {
        let mut name = prog_name.to_owned();
        name.append("RequestV");
        let d = dec_string(ver_num);
        name.append(d.as_str());
        self.pub_enum(name.as_str());
    }

    /// Open the response enum of one program version.
    pub fn program_version_response(&mut self, prog_name: &str, ver_num: i64)
        requires
            old(self).indent < MAX_DEPTH,
        ensures
            final(self).out@ == old(self).out@ + pub_enum_text(
                old(self).indent as nat,
                prog_name@ + "ResponseV"@ + spec_dec(ver_num as int),
            ),
            final(self).indent == old(self).indent + 1,
    {
        let mut name = prog_name.to_owned();
        name.append("ResponseV");
        let d = dec_string(ver_num);
        name.append(d.as_str());
        self.pub_enum(name.as_str());
    }

    /// Write the fields joined by `, ` on the current line.
    pub fn comma_fields(&mut self, fields: &Vec<String>)
        ensures
            final(self).out@ == old(self).out@ + comma_fields_text(strs_view(fields@)),
            final(self).indent == old(self).indent,
    {
        let mut i: usize = 0;
        proof {
            assert(old(self).out@ + comma_upto(strs_view(fields@), 0) =~= old(self).out@);
        }
        while i < fields.len()
            invariant
                self.out@ == old(self).out@ + comma_upto(strs_view(fields@), i as int),
                self.indent == old(self).indent,
                i <= fields@.len(),
            decreases fields@.len() - i,
        {
            if i > 0 {
                self.out.append(", ");
            }
            self.out.append(fields[i].as_str());
            i += 1;
        }
    }

    /// Write the fields in parentheses, or nothing when there are none.
    pub fn optional_fields(&mut self, fields: &Vec<String>)
        ensures
            final(self).out@ == old(self).out@ + opt_fields_text(strs_view(fields@)),
            final(self).indent == old(self).indent,
    {
        if fields.len() == 0 {
            proof {
                assert(old(self).out@ + opt_fields_text(strs_view(fields@)) =~= old(self).out@);
            }
            return ;
        }
        self.out.append("(");
        self.comma_fields(fields);
        self.out.append(")");
    }

    /// Write one request variant of a version's request enum.
    pub fn version_proc_request(&mut self, name: &str, args: &Vec<String>)
        ensures
            final(self).out@ == old(self).out@ + proc_request_text(
                old(self).indent as nat,
                name@,
                strs_view(args@),
            ),
            final(self).indent == old(self).indent,
    {
        self.write(name);
        self.optional_fields(args);
        self.out.append(",\n");
    }

    /// Write one response variant of a version's response enum.
    pub fn version_proc_response(&mut self, name: &str, ret: &Option<String>)
        ensures
            final(self).out@ == old(self).out@ + proc_response_text(
                old(self).indent as nat,
                name@,
                match ret {
                    Some(s) => Some(s@),
                    None => None,
                },
            ),
            final(self).indent == old(self).indent,
    {
        self.write(name);
        match ret {
            Some(s) => {
                self.out.append("(");
                self.out.append(s.as_str());
                self.out.append(")");
            },
            None => {},
        }
        self.out.append(",\n");
    }

    /// Open the `impl Service` block of one program's service.
    pub fn program_version_service(&mut self, service_name: &str)
        requires
            old(self).indent < MAX_DEPTH,
        ensures
            final(self).out@ == old(self).out@ + ind_text(old(self).indent as nat) + "impl Service for "@
                + service_name@ + " {\n"@,
            final(self).indent == old(self).indent + 1,
    {
        self.write_indent();
        self.out.append("impl Service for ");
        self.out.append(service_name);
        self.out.append(" {\n");
        self.indented();
    }

    /// Open the service's dispatch entry point.
    pub fn dispatch_function(&mut self)
        requires
            old(self).indent < MAX_DEPTH,
        ensures
            final(self).out@ == old(self).out@ + open_block_text(
                old(self).indent as nat,
                "fn call (&self, req: Self::Request) -> Self::Future"@,
            ),
            final(self).indent == old(self).indent + 1,
    {
        self.expr_block("fn call (&self, req: Self::Request) -> Self::Future");
    }

    /// Open a `match` block over the given scrutinee.
    pub fn match_block(&mut self, scrut: &str)
        requires
            old(self).indent < MAX_DEPTH,
        ensures
            final(self).out@ == old(self).out@ + ind_text(old(self).indent as nat) + "match "@ + scrut@
                + "  {\n"@,
            final(self).indent == old(self).indent + 1,
    {
        self.write_indent();
        self.out.append("match ");
        self.out.append(scrut);
        self.out.append("  {\n");
        self.indented();
    }

    /// Open a `let x = match v {` block; close it with `close_block(";")`.
    pub fn let_match_block(&mut self, assign: &str, value: &str)
        requires
            old(self).indent < MAX_DEPTH,
        ensures
            final(self).out@ == old(self).out@ + ind_text(old(self).indent as nat) + "let "@ + assign@
                + " = match "@ + value@ + " {\n"@,
            final(self).indent == old(self).indent + 1,
    {
        self.write_indent();
        self.out.append("let ");
        self.out.append(assign);
        self.out.append(" = match ");
        self.out.append(value);
        self.out.append(" {\n");
        self.indented();
    }

    /// Open one match arm; close it with `close_block(",")`.
    pub fn match_option(&mut self, ty_name: &str, fields: &Vec<String>)
        requires
            old(self).indent < MAX_DEPTH,
        ensures
            final(self).out@ == old(self).out@ + match_option_text(
                old(self).indent as nat,
                ty_name@,
                strs_view(fields@),
            ),
            final(self).indent == old(self).indent + 1,
    {
        self.write(ty_name);
        self.optional_fields(fields);
        self.out.append(" => {\n");
        self.indented();
    }

    /// Open a `pub mod` block.
    pub fn namespace(&mut self, name: &str)
        requires
            old(self).indent < MAX_DEPTH,
        ensures
            final(self).out@ == old(self).out@ + ind_text(old(self).indent as nat) + "pub mod "@ + name@
                + " {\n"@,
            final(self).indent == old(self).indent + 1,
    {
        self.write_indent();
        self.out.append("pub mod ");
        self.out.append(name);
        self.out.append(" {\n");
        self.indented();
    }

    /// Write a `Vec<..>` type on the current line.
    pub fn var_vec(&mut self, type_: &str)
        ensures
            final(self).out@ == old(self).out@ + ind_text(old(self).indent as nat) + "Vec<"@ + type_@
                + ">"@,
            final(self).indent == old(self).indent,
    {
        self.write_indent();
        self.out.append("Vec<");
        self.out.append(type_);
        self.out.append(">");
    }

    /// Write one tuple-payload enum variant line.
    pub fn enum_tuple_decl(&mut self, name: &str, inner: &str)
        ensures
            final(self).out@ == old(self).out@ + ind_text(old(self).indent as nat) + name@ + "("@ + inner@
                + "),\n"@,
            final(self).indent == old(self).indent,
    {
        self.write_indent();
        self.out.append(name);
        self.out.append("(");
        self.out.append(inner);
        self.out.append("),\n");
    }

    /// Open one struct-payload enum variant; close it with
    /// `close_block(",")`.
    pub fn enum_struct_decl(&mut self, name: &str)
        requires
            old(self).indent < MAX_DEPTH,
        ensures
            final(self).out@ == old(self).out@ + ind_text(old(self).indent as nat) + name@ + " {\n"@,
            final(self).indent == old(self).indent + 1,
    {
        self.write_indent();
        self.out.append(name);
        self.out.append(" {\n");
        self.indented();
    }

    /// Write one enum member line, with its value when one is given.
    pub fn enum_decl(&mut self, name: &str, val: &str)
        ensures
            final(self).out@ == old(self).out@ + enum_decl_text(old(self).indent as nat, name@, val@),
            final(self).indent == old(self).indent,
    {
        if val.is_empty() {
            self.write_indent();
            self.out.append(name);
            self.out.append(",\n");
        } else {
            self.write_indent();
            self.out.append(name);
            self.out.append(" = ");
            self.out.append(val);
            self.out.append(",\n");
        }
    }

    /// Write one public struct field whose type was rendered by the caller.
    pub fn pub_field_decl_fn(&mut self, name: &str, ty: &str)
        ensures
            final(self).out@ == old(self).out@ + ind_text(old(self).indent as nat) + "pub "@ + name@
                + ": "@ + ty@ + ",\n"@,
            final(self).indent == old(self).indent,
    {
        self.write_indent();
        self.out.append("pub ");
        self.out.append(name);
        self.out.append(": ");
        self.out.append(ty);
        self.out.append(",\n");
    }

    /// Write one public struct field line.
    pub fn pub_field_decl(&mut self, name: &str, field_type: &str)
        ensures
            final(self).out@ == old(self).out@ + ind_text(old(self).indent as nat) + "pub "@ + name@
                + ": "@ + field_type@ + ",\n"@,
            final(self).indent == old(self).indent,
    {
        self.write_indent();
        self.out.append("pub ");
        self.out.append(name);
        self.out.append(": ");
        self.out.append(field_type);
        self.out.append(",\n");
    }

    /// Write the serde rename annotation carrying a union tag.
    pub fn enc_annotation(&mut self, name: &str)
        ensures
            final(self).out@ == old(self).out@ + ind_text(old(self).indent as nat) + "#[serde(rename = \""@
                + name@ + "\")]\n"@,
            final(self).indent == old(self).indent,
    {
        self.write_indent();
        self.out.append("#[serde(rename = \"");
        self.out.append(name);
        self.out.append("\")]\n");
    }

    /// Write one private field line.
    pub fn field_decl(&mut self, name: &str, field_type: &str)
        ensures
            final(self).out@ == old(self).out@ + ind_text(old(self).indent as nat) + name@ + ": "@
                + field_type@ + ",\n"@,
            final(self).indent == old(self).indent,
    {
        self.write_indent();
        self.out.append(name);
        self.out.append(": ");
        self.out.append(field_type);
        self.out.append(",\n");
    }

    /// Open an `xdr_enum!` macro block; close it with `close_block(");")`.
    pub fn xdr_enum(&mut self, prefix: &str)
        requires
            old(self).indent < MAX_DEPTH,
        ensures
            final(self).out@ == old(self).out@ + ind_text(old(self).indent as nat) + "xdr_enum!("@
                + prefix@ + " {\n"@,
            final(self).indent == old(self).indent + 1,
    {
        self.write_indent();
        self.out.append("xdr_enum!(");
        self.out.append(prefix);
        self.out.append(" {\n");
        self.indented();
    }
}

} // verus!
