//! Emitters for the generated decode/encode dispatch functions and the
//! routing-miss arms they share. Each function's contract gives the exact
//! text it appends.

use vstd::prelude::*;
use crate::code_writer::{
    CodeWriter, MAX_DEPTH, ind_text, line_text, open_block_text, match_option_text, strs_view,
};
use crate::decimal::{spec_dec, dec_string};

verus! {

/// Closing line of a block: `}` plus a trailing mark.
pub open spec fn close_text(k: nat, trailing: Seq<char>) -> Seq<char> {
    ind_text(k) + "}"@ + trailing + "\n"@
}

/// One `_ =>` routing-miss arm returning an "unknown level" error.
pub open spec fn decoder_miss_text(k: nat, ty: Seq<char>, suffix: Seq<char>, s: Seq<char>) -> Seq<
    char,
> {
    match_option_text(k, "_"@, Seq::empty()) + line_text(
        (k + 1) as nat,
        "return "@ + ty + "(io::Error::new(io::ErrorKind::Other, \"unknown "@ + s + "\"))"@ + suffix
            + ";"@,
    ) + close_text(k, ","@)
}

/// Write a routing-miss arm with the given error constructor and suffix.
pub fn decoder_miss_impl(ty_name: &str, suffix: &str, s: &str, wr: &mut CodeWriter)
    requires
        old(wr).indent < MAX_DEPTH,
    ensures
        final(wr).out@ == old(wr).out@ + decoder_miss_text(
            old(wr).indent as nat,
            ty_name@,
            suffix@,
            s@,
        ),
        final(wr).indent == old(wr).indent,
{
    let no_fields: Vec<String> = Vec::new();
    proof {
        assert(strs_view(no_fields@) =~= Seq::<Seq<char>>::empty());
    }
    wr.match_option("_", &no_fields);
    let mut t = String::new();
    t.append("return ");
    t.append(ty_name);
    t.append("(io::Error::new(io::ErrorKind::Other, \"unknown ");
    t.append(s);
    t.append("\"))");
    t.append(suffix);
    t.append(";");
    wr.write_line(t.as_str());
    wr.close_block(",");
}

/// Write the routing-miss arm of a decode `match`.
pub fn decoder_miss(s: &str, wr: &mut CodeWriter)
    requires
        old(wr).indent < MAX_DEPTH,
    ensures
        final(wr).out@ == old(wr).out@ + decoder_miss_text(old(wr).indent as nat, "Err"@, ""@, s@),
        final(wr).indent == old(wr).indent,
{
    decoder_miss_impl("Err", "", s, wr);
}

/// Write the routing-miss arm of a service dispatch `match`.
pub fn decoder_miss_future(s: &str, wr: &mut CodeWriter)
    requires
        old(wr).indent < MAX_DEPTH,
    ensures
        final(wr).out@ == old(wr).out@ + decoder_miss_text(
            old(wr).indent as nat,
            "future::err"@,
            ".boxed()"@,
            s@,
        ),
        final(wr).indent == old(wr).indent,
{
    decoder_miss_impl("future::err", ".boxed()", s, wr);
}

/// Opening text of the program-level decode function.
pub open spec fn prog_decoder_text(k: nat, prog: Seq<char>, fn_name: Seq<char>) -> Seq<char> {
    open_block_text(
        k,
        "pub fn "@ + fn_name
            + "(program: u32, version: u32, procedure: u32, buf: &mut EasyBuf) ->\n    io::Result<Option<"@
            + prog + "Request>>"@,
    )
}

/// Open the program-level decode function.
pub fn prog_decoder(prog_name: &str, fn_name: &str, wr: &mut CodeWriter)
    requires
        old(wr).indent < MAX_DEPTH,
    ensures
        final(wr).out@ == old(wr).out@ + prog_decoder_text(
            old(wr).indent as nat,
            prog_name@,
            fn_name@,
        ),
        final(wr).indent == old(wr).indent + 1,
{
    let mut t = String::new();
    t.append("pub fn ");
    t.append(fn_name);
    t.append(
        "(program: u32, version: u32, procedure: u32, buf: &mut EasyBuf) ->\n    io::Result<Option<",
    );
    t.append(prog_name);
    t.append("Request>>");
    wr.expr_block(t.as_str());
}

/// Write the call descending from the program to the version decoder.
pub fn prog_decoder_call(fn_name: &str, wr: &mut CodeWriter)
    ensures
        final(wr).out@ == old(wr).out@ + line_text(
            old(wr).indent as nat,
            fn_name@ + "(header.version, header.procedure, buf)"@,
        ),
        final(wr).indent == old(wr).indent,
{
    let mut t = String::new();
    t.append(fn_name);
    t.append("(header.version, header.procedure, buf)");
    wr.write_line(t.as_str());
}

/// Open the `let request = match procedure {` block of a version decoder.
pub fn version_decoder_match(wr: &mut CodeWriter)
    requires
        old(wr).indent < MAX_DEPTH,
    ensures
        final(wr).out@ == old(wr).out@ + ind_text(old(wr).indent as nat) + "let "@ + "request"@
            + " = match "@ + "procedure"@ + " {\n"@,
        final(wr).indent == old(wr).indent + 1,
{
    wr.let_match_block("request", "procedure");
}

/// Opening text of the version-level decode function.
pub open spec fn version_decoder_text(k: nat, prog: Seq<char>, fn_name: Seq<char>) -> Seq<char> {
    open_block_text(
        k,
        "pub fn "@ + fn_name + "(procedure: u32, buf: &mut EasyBuf) ->\n    io::Result<Option<"@
            + prog + "Request>>"@,
    )
}

/// Open the version-level decode function.
pub fn version_decoder(prog_name: &str, fn_name: &str, wr: &mut CodeWriter)
    requires
        old(wr).indent < MAX_DEPTH,
    ensures
        final(wr).out@ == old(wr).out@ + version_decoder_text(
            old(wr).indent as nat,
            prog_name@,
            fn_name@,
        ),
        final(wr).indent == old(wr).indent + 1,
{
    let mut t = String::new();
    t.append("pub fn ");
    t.append(fn_name);
    t.append("(procedure: u32, buf: &mut EasyBuf) ->\n    io::Result<Option<");
    t.append(prog_name);
    t.append("Request>>");
    wr.expr_block(t.as_str());
}

/// Write the call descending from the version to the procedure decoder.
pub fn version_decoder_call(fn_name: &str, wr: &mut CodeWriter)
    ensures
        final(wr).out@ == old(wr).out@ + line_text(old(wr).indent as nat, fn_name@ + "(procedure, buf)"@),
        final(wr).indent == old(wr).indent,
{
    let mut t = String::new();
    t.append(fn_name);
    t.append("(procedure, buf)");
    wr.write_line(t.as_str());
}

/// Text of the line wrapping a version decoder's result in the program's
/// request enum.
pub open spec fn version_decoder_finalize_text(k: nat, prog: Seq<char>, ver: int) -> Seq<char> {
    line_text(
        k,
        "Ok(Some("@ + prog + "Request::V"@ + spec_dec(ver) + "(request.unwrap().unwrap())))"@,
    )
}

/// Write the line wrapping a version decoder's result.
pub fn version_decoder_finalize(prog_name: &str, ver_num: i64, wr: &mut CodeWriter)
    ensures
        final(wr).out@ == old(wr).out@ + version_decoder_finalize_text(
            old(wr).indent as nat,
            prog_name@,
            ver_num as int,
        ),
        final(wr).indent == old(wr).indent,
{
    let mut t = String::new();
    t.append("Ok(Some(");
    t.append(prog_name);
    t.append("Request::V");
    let d = dec_string(ver_num);
    t.append(d.as_str());
    t.append("(request.unwrap().unwrap())))");
    wr.write_line(t.as_str());
}

/// Opening text of the procedure-level decode function.
pub open spec fn proc_decoder_text(k: nat, prog: Seq<char>, fn_name: Seq<char>, ver: int) -> Seq<
    char,
> {
    open_block_text(
        k,
        "pub fn "@ + fn_name + "(buf: &mut EasyBuf) -> io::Result<Option<"@ + prog + "RequestV"@
            + spec_dec(ver) + ">>"@,
    )
}

/// Open the procedure-level decode function.
pub fn proc_decoder(prog_name: &str, fn_name: &str, ver_num: i64, wr: &mut CodeWriter)
    requires
        old(wr).indent < MAX_DEPTH,
    ensures
        final(wr).out@ == old(wr).out@ + proc_decoder_text(
            old(wr).indent as nat,
            prog_name@,
            fn_name@,
            ver_num as int,
        ),
        final(wr).indent == old(wr).indent + 1,
{
    let mut t = String::new();
    t.append("pub fn ");
    t.append(fn_name);
    t.append("(buf: &mut EasyBuf) -> io::Result<Option<");
    t.append(prog_name);
    t.append("RequestV");
    let d = dec_string(ver_num);
    t.append(d.as_str());
    t.append(">>");
    wr.expr_block(t.as_str());
}

/// Write the call into one procedure decoder.
pub fn proc_decoder_call(fn_name: &str, wr: &mut CodeWriter)
    ensures
        final(wr).out@ == old(wr).out@ + line_text(old(wr).indent as nat, fn_name@ + "(buf)"@),
        final(wr).indent == old(wr).indent,
{
    let mut t = String::new();
    t.append(fn_name);
    t.append("(buf)");
    wr.write_line(t.as_str());
}

/// Text decoding one positional argument of a procedure.
pub open spec fn proc_arg_decoder_text(k: nat, idx: int, ty: Seq<char>) -> Seq<char> {
    line_text(
        k,
        "let res"@ + spec_dec(idx) + " = serde_xdr::from_bytes::<"@ + ty + ">(buf.as_slice());\n    let arg"@
            + spec_dec(idx) + " = match res"@ + spec_dec(idx)
            + " {\n        Ok((arg, consumed)) => {\n            buf.drain_to(consumed);\n            arg\n        },\n        Err(e) => {\n            match e {\n                serde_xdr::EncoderError::Io(i) => {\n                    return Err(i);\n                },\n                serde_xdr::EncoderError::Unknown(s) => {\n                    return Err(io::Error::new(io::ErrorKind::Other,\n                        format!(\"argument "@
            + spec_dec(idx) + " parse failure: {}\", s)));\n                }\n            }\n        }\n    };\n"@,
    )
}

/// Write the decoding of one positional procedure argument.
pub fn proc_arg_decoder(arg_index: usize, arg_type: &str, wr: &mut CodeWriter)
    ensures
        final(wr).out@ == old(wr).out@ + proc_arg_decoder_text(
            old(wr).indent as nat,
            arg_index as int,
            arg_type@,
        ),
        final(wr).indent == old(wr).indent,
{
    let d = crate::decimal::dec_u64(arg_index as u64);
    proof {
        assert(d@ == spec_dec(arg_index as int));
    }
    let mut t = String::new();
    t.append("let res");
    t.append(d.as_str());
    t.append(" = serde_xdr::from_bytes::<");
    t.append(arg_type);
    t.append(">(buf.as_slice());\n    let arg");
    t.append(d.as_str());
    t.append(" = match res");
    t.append(d.as_str());
    t.append(
        " {\n        Ok((arg, consumed)) => {\n            buf.drain_to(consumed);\n            arg\n        },\n        Err(e) => {\n            match e {\n                serde_xdr::EncoderError::Io(i) => {\n                    return Err(i);\n                },\n                serde_xdr::EncoderError::Unknown(s) => {\n                    return Err(io::Error::new(io::ErrorKind::Other,\n                        format!(\"argument ",
    );
    t.append(d.as_str());
    t.append(" parse failure: {}\", s)));\n                }\n            }\n        }\n    };\n");
    wr.write_line(t.as_str());
}

/// Positional argument names `arg0`, `arg1`, ...
pub open spec fn arg_names(n: int) -> Seq<Seq<char>> {
    Seq::new(
        if n >= 0 {
            n as nat
        } else {
            0
        },
        |i: int| "arg"@ + spec_dec(i),
    )
}

/// Text constructing the decoded request variant from its arguments.
pub open spec fn proc_decoder_finalize_text(
    k: nat,
    req_type: Seq<char>,
    req_name: Seq<char>,
    n: int,
) -> Seq<char> {
    ind_text(k) + "Ok(Some("@ + req_type + "::"@ + req_name
        + crate::code_writer::opt_fields_text(arg_names(n)) + "))\n"@
}

/// Write the line constructing the decoded request variant.
pub fn proc_decoder_finalize(req_type: &str, req_name: &str, n_args: usize, wr: &mut CodeWriter)
    ensures
        final(wr).out@ == old(wr).out@ + proc_decoder_finalize_text(
            old(wr).indent as nat,
            req_type@,
            req_name@,
            n_args as int,
        ),
        final(wr).indent == old(wr).indent,
{
    let mut t = String::new();
    t.append("Ok(Some(");
    t.append(req_type);
    t.append("::");
    t.append(req_name);
    wr.write(t.as_str());
    let mut names: Vec<String> = Vec::new();
    let mut i: usize = 0;
    proof {
        assert(strs_view(names@) =~= arg_names(0));
    }
    while i < n_args
        invariant
            i <= n_args,
            strs_view(names@) =~= arg_names(i as int),
        decreases n_args - i,
    {
        let mut a = String::new();
        a.append("arg");
        let d = crate::decimal::dec_u64(i as u64);
        a.append(d.as_str());
        proof {
            assert(a@ =~= "arg"@ + spec_dec(i as int));
        }
        let ghost old_names = names@;
        names.push(a);
        proof {
            assert(strs_view(old_names).len() == old_names.len());
            assert(arg_names(i as int).len() == i);
            assert(old_names.len() == i);
            assert(names@.len() == i + 1);
            assert(arg_names(i + 1 as int).len() == i + 1);
            assert forall|j: int| 0 <= j < names@.len() implies strs_view(names@)[j] == arg_names(
                i + 1,
            )[j] by {
                assert(strs_view(names@)[j] == names@[j]@);
                if j < i {
                    assert(names@[j] == old_names[j]);
                    assert(strs_view(old_names)[j] == old_names[j]@);
                    assert(strs_view(old_names)[j] == arg_names(i as int)[j]);
                }
            }
            assert(strs_view(names@) =~= arg_names(i + 1 as int));
        }
        i += 1;
    }
    wr.optional_fields(&names);
    wr.raw_write("))\n");
}

/// Opening text of the program-level encode function.
pub open spec fn encoder_text(k: nat, prog: Seq<char>) -> Seq<char> {
    open_block_text(
        k,
        "pub fn encode(msg: "@ + prog + "Response, buf: &mut Vec<u8>) -> io::Result<()>"@,
    )
}

/// Open the program-level encode function.
pub fn encoder(prog_name: &str, wr: &mut CodeWriter)
    requires
        old(wr).indent < MAX_DEPTH,
    ensures
        final(wr).out@ == old(wr).out@ + encoder_text(old(wr).indent as nat, prog_name@),
        final(wr).indent == old(wr).indent + 1,
{
    let mut t = String::new();
    t.append("pub fn encode(msg: ");
    t.append(prog_name);
    t.append("Response, buf: &mut Vec<u8>) -> io::Result<()>");
    wr.expr_block(t.as_str());
}

/// Opening text of the match arm selecting one version's responses.
pub open spec fn encoder_version_text(k: nat, prog: Seq<char>, ver: int) -> Seq<char> {
    match_option_text(k, prog + "Response::V"@ + spec_dec(ver), seq!["rsp"@])
}

/// Open the match arm selecting one version's responses; close it with
/// `close_block(",")`.
pub fn encoder_version(prog_name: &str, ver_num: i64, wr: &mut CodeWriter)
    requires
        old(wr).indent < MAX_DEPTH,
    ensures
        final(wr).out@ == old(wr).out@ + encoder_version_text(
            old(wr).indent as nat,
            prog_name@,
            ver_num as int,
        ),
        final(wr).indent == old(wr).indent + 1,
{
    let mut t = String::new();
    t.append(prog_name);
    t.append("Response::V");
    let d = dec_string(ver_num);
    t.append(d.as_str());
    let mut fields: Vec<String> = Vec::new();
    fields.push("rsp".to_owned());
    proof {
        assert(strs_view(fields@) =~= seq!["rsp"@]);
    }
    wr.match_option(t.as_str(), &fields);
}

/// Text of one encode arm: serialize the return value when there is one.
pub open spec fn encoder_proc_text(
    k: nat,
    prog: Seq<char>,
    proc_name: Seq<char>,
    ver: int,
    has_return: bool,
) -> Seq<char> {
    match_option_text(
        k,
        prog + "ResponseV"@ + spec_dec(ver) + "::"@ + proc_name,
        if has_return {
            seq!["r"@]
        } else {
            Seq::empty()
        },
    ) + (if has_return {
        line_text((k + 1) as nat, "try!(serde_xdr::to_bytes(&r, buf));"@)
    } else {
        Seq::empty()
    }) + close_text(k, ","@)
}

/// Write one response-encoding match arm.
pub fn encoder_proc(prog_name: &str, proc_name: &str, ver_num: i64, has_return: bool, wr: &mut CodeWriter)
    requires
        old(wr).indent < MAX_DEPTH,
    ensures
        final(wr).out@ == old(wr).out@ + encoder_proc_text(
            old(wr).indent as nat,
            prog_name@,
            proc_name@,
            ver_num as int,
            has_return,
        ),
        final(wr).indent == old(wr).indent,
{
    let mut t = String::new();
    t.append(prog_name);
    t.append("ResponseV");
    let d = dec_string(ver_num);
    t.append(d.as_str());
    t.append("::");
    t.append(proc_name);
    let mut fields: Vec<String> = Vec::new();
    if has_return {
        fields.push("r".to_owned());
        proof {
            assert(strs_view(fields@) =~= seq!["r"@]);
        }
    } else {
        proof {
            assert(strs_view(fields@) =~= Seq::<Seq<char>>::empty());
        }
    }
    wr.match_option(t.as_str(), &fields);
    if has_return {
        wr.write_line("try!(serde_xdr::to_bytes(&r, buf));");
    } else {
        proof {
            assert(final(wr).out@ + Seq::<char>::empty() =~= final(wr).out@);
        }
    }
    wr.close_block(",");
}

/// Text mapping a handler's result into the version's response variant.
pub open spec fn wrap_proc_result_text(
    prog: Seq<char>,
    ver: int,
    proc_name: Seq<char>,
    has_return: bool,
) -> Seq<char> {
    ".map(|r| {\n                "@ + prog + "ResponseV"@ + spec_dec(ver) + "::"@ + proc_name + (
    if has_return {
        "(r)"@
    } else {
        Seq::empty()
    }) + "\n              })"@
}

/// Write the mapping of a handler's result into its response variant.
pub fn wrap_proc_result(prog_name: &str, ver_num: i64, proc_name: &str, has_return: bool, wr: &mut CodeWriter)
    ensures
        final(wr).out@ == old(wr).out@ + wrap_proc_result_text(
            prog_name@,
            ver_num as int,
            proc_name@,
            has_return,
        ),
        final(wr).indent == old(wr).indent,
{
    let mut t = String::new();
    t.append(".map(|r| {\n                ");
    t.append(prog_name);
    t.append("ResponseV");
    let d = dec_string(ver_num);
    t.append(d.as_str());
    t.append("::");
    t.append(proc_name);
    if has_return {
        t.append("(r)");
    } else {
        proof {
            assert(t@ + Seq::<char>::empty() =~= t@);
        }
    }
    t.append("\n              })");
    wr.raw_write(t.as_str());
}

/// Text mapping a version's result into the program's response enum.
pub open spec fn wrap_version_result_text(k: nat, prog: Seq<char>, ver: int) -> Seq<char> {
    line_text(
        k,
        "res.map(|r| {\n            "@ + prog + "Response::V"@ + spec_dec(ver)
            + "(r)\n          }).boxed()"@,
    )
}

/// Write the mapping of a version's result into the response enum.
pub fn wrap_version_result(prog_name: &str, ver_num: i64, wr: &mut CodeWriter)
    ensures
        final(wr).out@ == old(wr).out@ + wrap_version_result_text(
            old(wr).indent as nat,
            prog_name@,
            ver_num as int,
        ),
        final(wr).indent == old(wr).indent,
{
    let mut t = String::new();
    t.append("res.map(|r| {\n            ");
    t.append(prog_name);
    t.append("Response::V");
    let d = dec_string(ver_num);
    t.append(d.as_str());
    t.append("(r)\n          }).boxed()");
    wr.write_line(t.as_str());
}

/// Opening text of the top-level decode entry point, including the header
/// parsing prelude it writes.
pub open spec fn top_decoder_text(k: nat, prog: Seq<char>) -> Seq<char> {
    open_block_text(k, "pub fn decode(buf: &mut EasyBuf) -> io::Result<Option<"@ + prog + "Request>>"@)
        + ind_text((k + 1) as nat)
        + "let header_res = serde_xdr::from_bytes::<xdr_rpc::XdrRpcHeader>(buf.as_slice());\n    let header = match header_res {\n        Ok((h, consumed)) => {\n            buf.drain_to(consumed);\n            h\n        },\n        Err(e) => {\n            match e {\n                serde_xdr::EncoderError::Io(i) => {\n                    return Err(i);\n                },\n                serde_xdr::EncoderError::Unknown(s) => {\n                    return Err(io::Error::new(io::ErrorKind::Other,\n                        format!(\"failed to read header: {}\", s)));\n                }\n            }\n        }\n    };\n\n    match header.rpc_vers {\n        2u32 => {},\n        _ => {\n            return Err(io::Error::new(io::ErrorKind::Other, \"unknown RPC version\"));\n        }\n    }\n"@
}

/// Open the top-level decode entry point and write its header-parsing
/// prelude.
pub fn top_decoder(prog_name: &str, wr: &mut CodeWriter)
    requires
        old(wr).indent < MAX_DEPTH,
    ensures
        final(wr).out@ == old(wr).out@ + top_decoder_text(old(wr).indent as nat, prog_name@),
        final(wr).indent == old(wr).indent + 1,
{
    let mut t = String::new();
    t.append("pub fn decode(buf: &mut EasyBuf) -> io::Result<Option<");
    t.append(prog_name);
    t.append("Request>>");
    wr.expr_block(t.as_str());
    wr.write(
        "let header_res = serde_xdr::from_bytes::<xdr_rpc::XdrRpcHeader>(buf.as_slice());\n    let header = match header_res {\n        Ok((h, consumed)) => {\n            buf.drain_to(consumed);\n            h\n        },\n        Err(e) => {\n            match e {\n                serde_xdr::EncoderError::Io(i) => {\n                    return Err(i);\n                },\n                serde_xdr::EncoderError::Unknown(s) => {\n                    return Err(io::Error::new(io::ErrorKind::Other,\n                        format!(\"failed to read header: {}\", s)));\n                }\n            }\n        }\n    };\n\n    match header.rpc_vers {\n        2u32 => {},\n        _ => {\n            return Err(io::Error::new(io::ErrorKind::Other, \"unknown RPC version\"));\n        }\n    }\n",
    );
}

/// Re-associate one appended chunk onto an accumulated prefix.
pub proof fn lemma_chunk_step<A>(out0: Seq<A>, acc: Seq<A>, t: Seq<A>)
    ensures
        (out0 + acc) + t == out0 + (acc + t),
{
    vstd::seq_lib::lemma_concat_associative(out0, acc, t);
}

/// Re-associate the four pieces written by `close_block` onto an
/// accumulated prefix.
pub proof fn lemma_close_step(out0: Seq<char>, acc: Seq<char>, k: nat, trailing: Seq<char>)
    ensures
        ((((out0 + acc) + ind_text(k)) + "}"@) + trailing) + "\n"@ == out0 + (acc + close_text(
            k,
            trailing,
        )),
{
    let a1 = ind_text(k);
    let a2 = "}"@;
    let a4 = "\n"@;
    vstd::seq_lib::lemma_concat_associative(out0, acc, a1);
    vstd::seq_lib::lemma_concat_associative(out0, acc + a1, a2);
    vstd::seq_lib::lemma_concat_associative(out0, (acc + a1) + a2, trailing);
    vstd::seq_lib::lemma_concat_associative(out0, ((acc + a1) + a2) + trailing, a4);
    vstd::seq_lib::lemma_concat_associative(acc, a1, a2);
    vstd::seq_lib::lemma_concat_associative(acc, a1 + a2, trailing);
    vstd::seq_lib::lemma_concat_associative(acc, (a1 + a2) + trailing, a4);
}

} // verus!
