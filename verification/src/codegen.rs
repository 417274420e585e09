//! The code generator: one walk over the syntax tree that emits the types,
//! codec and service artifacts, resolving union tags through a symbol table
//! and hoisting inline aggregate types into top-level definitions.
//!
//! Every emission function is proved equal to a spec-level mirror, so the
//! whole compilation is a mathematical function of the source text: the
//! same schema always yields byte-identical artifacts.

use vstd::prelude::*;
use crate::ast::{Token, TokenV, Type, tok_view, toks_view, pairs_view, one, tok_clone};
use crate::ast::{
    lemma_toks_view_push, lemma_toks_view_len, lemma_toks_view_index, lemma_pairs_view_index,
    lemma_pairs_view_len, lemma_tok_view_kind,
};
use crate::code_writer::CodeWriter;
use crate::decimal::{spec_dec, dec_string};
use crate::strutil::{up_char, low_char, push_char, up_char_exec, low_char_exec};

verus! {

/// Why a compilation was aborted. All failures are terminal: the partial
/// output is discarded.
#[derive(Clone, Copy, Debug, PartialEq, Eq, Structural)]
pub enum CompileError {
    /// Some prefix of the source failed to match the grammar.
    ParseFailure,
    /// A construct with no emission rule was reached.
    UnsupportedNode,
    /// A union case label does not resolve against its discriminant's enum.
    UnresolvedCaseLabel,
}

/// Mirror of `rustify` one step at a time: `i` is the next index, `under`
/// records a pending underscore, `first` that nothing was emitted yet.
pub open spec fn rustify_rec(s: Seq<char>, i: int, under: bool, first: bool) -> Seq<char>
    decreases s.len() - i,
{
    if i < 0 || i >= s.len() {
        Seq::empty()
    } else {
        let c = s[i];
        if c == 't' && i == s.len() - 1 && under {
            rustify_rec(s, i + 1, under, first)
        } else if c == '_' {
            rustify_rec(s, i + 1, true, first)
        } else if under || first {
            seq![up_char(c)] + rustify_rec(s, i + 1, false, false)
        } else {
            seq![low_char(c)] + rustify_rec(s, i + 1, under, first)
        }
    }
}

/// CamelCase image of a snake_case identifier: underscores dropped, the
/// following character uppercased, other characters lowercased, and a
/// trailing `_t` suffix removed.
pub open spec fn spec_rustify(s: Seq<char>) -> Seq<char> {
    rustify_rec(s, 0, false, true)
}

/// Convert a snake_case identifier to CamelCase.
pub fn rustify(underscores: &String) -> (r: String)
    ensures
        r@ == spec_rustify(underscores@),
{
    let s = underscores.as_str();
    let n = s.unicode_len();
    let mut collect = String::new();
    let mut under = false;
    let mut first = true;
    let mut i: usize = 0;
    while i < n
        invariant
            n == s@.len(),
            i <= n,
            spec_rustify(s@) == collect@ + rustify_rec(s@, i as int, under, first),
        decreases n - i,
    {
        let c = s.get_char(i);
        if c == 't' && i == n - 1 && under {
            // A trailing `_t` is dropped.
        } else if c == '_' {
            under = true;
        } else if under || first {
            push_char(&mut collect, up_char_exec(c));
            first = false;
            under = false;
        } else {
            push_char(&mut collect, low_char_exec(c));
        }
        i += 1;
    }
    proof {
        assert(collect@ + rustify_rec(s@, n as int, under, first) =~= collect@);
    }
    collect
}

/// Mirror of `convert_basic_token`: the target-language text of a primitive
/// type, identifier or constant; `None` for any other node.
pub open spec fn spec_basic(t: TokenV, is_type: bool) -> Option<Seq<char>> {
    match t {
        TokenV::Type(ty) => match ty {
            Type::Uint => Some("u32"@),
            Type::Int => Some("i32"@),
            Type::Uhyper => Some("u64"@),
            Type::Hyper => Some("i64"@),
            Type::Float => Some("f32"@),
            Type::Double => Some("f64"@),
            Type::Bool => Some("bool"@),
            Type::Quadruple => None,
        },
        TokenV::Ident(s) => {
            if is_type {
                Some(spec_rustify(s))
            } else {
                Some(s)
            }
        },
        TokenV::Constant(v) => Some(spec_dec(v)),
        _ => None,
    }
}

/// Render a primitive type, identifier or constant as target-language text.
pub fn convert_basic_token(ident: &Token, is_type: bool) -> (r: Option<String>)
    ensures
        match r {
            Some(s) => spec_basic(tok_view(ident), is_type) == Some(s@),
            None => spec_basic(tok_view(ident), is_type) is None,
        },
{
    match ident {
        Token::Type(ty) => match ty {
            Type::Uint => Some("u32".to_owned()),
            Type::Int => Some("i32".to_owned()),
            Type::Uhyper => Some("u64".to_owned()),
            Type::Hyper => Some("i64".to_owned()),
            Type::Float => Some("f32".to_owned()),
            Type::Double => Some("f64".to_owned()),
            Type::Bool => Some("bool".to_owned()),
            Type::Quadruple => None,
        },
        Token::Ident(s) => {
            if is_type {
                Some(rustify(s))
            } else {
                Some(s.clone())
            }
        },
        Token::Constant(v) => Some(dec_string(*v)),
        _ => None,
    }
}

/// Symbol-table keys are identifier, constant or primitive-type tokens;
/// other nodes never key an entry and compare unequal.
pub open spec fn key_eqv(a: TokenV, b: TokenV) -> bool {
    match (a, b) {
        (TokenV::Ident(x), TokenV::Ident(y)) => x == y,
        (TokenV::Constant(x), TokenV::Constant(y)) => x == y,
        (TokenV::Type(x), TokenV::Type(y)) => x == y,
        _ => false,
    }
}

/// Executable equality of two primitive type tags.
pub fn type_eq(a: &Type, b: &Type) -> (r: bool)
    ensures
        r == (a == b),
{
    match (a, b) {
        (Type::Bool, Type::Bool) => true,
        (Type::Int, Type::Int) => true,
        (Type::Uint, Type::Uint) => true,
        (Type::Hyper, Type::Hyper) => true,
        (Type::Uhyper, Type::Uhyper) => true,
        (Type::Float, Type::Float) => true,
        (Type::Double, Type::Double) => true,
        (Type::Quadruple, Type::Quadruple) => true,
        _ => false,
    }
}

/// Executable key comparison; agrees with `key_eqv` on the models.
pub fn key_eq(a: &Token, b: &Token) -> (r: bool)
    ensures
        r == key_eqv(tok_view(a), tok_view(b)),
{
    match (a, b) {
        (Token::Ident(x), Token::Ident(y)) => *x == *y,
        (Token::Constant(x), Token::Constant(y)) => *x == *y,
        (Token::Type(x), Token::Type(y)) => type_eq(x, y),
        _ => false,
    }
}

/// Model of the symbol table: its entries in insertion order.
pub open spec fn table_view(t: Seq<(Token, Token, Token)>) -> Seq<(TokenV, TokenV, TokenV)>
    decreases t,
{
    if t.len() == 0 {
        Seq::empty()
    } else {
        seq![(tok_view(&t[0].0), tok_view(&t[0].1), tok_view(&t[0].2))] + table_view(t.drop_first())
    }
}

/// The table model indexes pointwise.
pub proof fn lemma_table_view_index(t: Seq<(Token, Token, Token)>, i: int)
    requires
        0 <= i < t.len(),
    ensures
        table_view(t).len() == t.len(),
        table_view(t)[i] == (tok_view(&t[i].0), tok_view(&t[i].1), tok_view(&t[i].2)),
    decreases t,
{
    lemma_table_view_len(t);
    if i > 0 {
        lemma_table_view_index(t.drop_first(), i - 1);
    }
}

/// The table model has the table's length.
pub proof fn lemma_table_view_len(t: Seq<(Token, Token, Token)>)
    ensures
        table_view(t).len() == t.len(),
    decreases t,
{
    if t.len() > 0 {
        lemma_table_view_len(t.drop_first());
    }
}

/// Appending an entry extends the table model by that entry's model.
pub proof fn lemma_table_view_push(t: Seq<(Token, Token, Token)>, e: (Token, Token, Token))
    ensures
        table_view(t.push(e)) =~= table_view(t).push(
            (tok_view(&e.0), tok_view(&e.1), tok_view(&e.2)),
        ),
{
    lemma_table_view_len(t);
    lemma_table_view_len(t.push(e));
    assert forall|i: int| 0 <= i < t.len() + 1 implies table_view(t.push(e))[i] == table_view(
        t,
    ).push((tok_view(&e.0), tok_view(&e.1), tok_view(&e.2)))[i] by {
        lemma_table_view_index(t.push(e), i);
        if i < t.len() {
            lemma_table_view_index(t, i);
        }
    }
}

/// First value recorded under `(ns, id)`, searching from entry `i` on.
pub open spec fn lookup_from(
    t: Seq<(TokenV, TokenV, TokenV)>,
    i: int,
    ns: TokenV,
    id: TokenV,
) -> Option<TokenV>
    decreases t.len() - i,
{
    if 0 <= i < t.len() {
        if key_eqv(t[i].0, ns) && key_eqv(t[i].1, id) {
            Some(t[i].2)
        } else {
            lookup_from(t, i + 1, ns, id)
        }
    } else {
        None
    }
}

/// First value recorded under `(ns, id)`.
pub open spec fn spec_lookup(t: Seq<(TokenV, TokenV, TokenV)>, ns: TokenV, id: TokenV) -> Option<
    TokenV,
> {
    lookup_from(t, 0, ns, id)
}

/// The table after recording `(ns, id) -> val`; the first writer wins, a
/// duplicate key leaves the table unchanged.
pub open spec fn spec_add_sym(
    t: Seq<(TokenV, TokenV, TokenV)>,
    ns: TokenV,
    id: TokenV,
    val: TokenV,
) -> Seq<(TokenV, TokenV, TokenV)> {
    if spec_lookup(t, ns, id) is Some {
        t
    } else {
        t.push((ns, id, val))
    }
}

/// The side state of one compilation: the union-tag symbol table and the
/// queue of hoisted inline definitions.
pub struct CodegenState {
    /// `(discriminant type, case label) -> recorded constant` entries, in
    /// insertion order.
    pub table: Vec<(Token, Token, Token)>,
    /// Hoisted inline definitions still to be emitted.
    pub hoister: Vec<Token>,
}

impl CodegenState {
    /// An empty state.
    pub fn new() -> (r: CodegenState)
        ensures
            table_view(r.table@) == Seq::<(TokenV, TokenV, TokenV)>::empty(),
            toks_view(r.hoister@) == Seq::<TokenV>::empty(),
    {
        let r = CodegenState { table: Vec::new(), hoister: Vec::new() };
        proof {
            assert(table_view(r.table@) =~= Seq::<(TokenV, TokenV, TokenV)>::empty());
            assert(toks_view(r.hoister@) =~= Seq::<TokenV>::empty());
        }
        r
    }

    /// Queue one synthesized top-level definition for later emission.
    pub fn hoist(&mut self, tkn: &Token)
        ensures
            toks_view(final(self).hoister@) == toks_view(old(self).hoister@).push(tok_view(tkn)),
            final(self).table == old(self).table,
    {
        proof {
            lemma_toks_view_push(self.hoister@, *tkn);
        }
        let c = tok_clone(tkn);
        proof {
            lemma_toks_view_push(self.hoister@, c);
        }
        self.hoister.push(c);
    }

    /// A copy of the queued definitions, in queue order.
    pub fn get_hoisted(&self) -> (r: Vec<Token>)
        ensures
            toks_view(r@) == toks_view(self.hoister@),
    {
        crate::ast::toks_clone(&self.hoister)
    }

    /// Record an enum constant under its enclosing enum's name. The first
    /// writer wins: a later duplicate is ignored and the earlier value is
    /// returned.
    pub fn add_symbol(&mut self, ns_tkn: &Token, id_tkn: &Token, val: &Token) -> (r: Option<Token>)
        ensures
            table_view(final(self).table@) == spec_add_sym(
                table_view(old(self).table@),
                tok_view(ns_tkn),
                tok_view(id_tkn),
                tok_view(val),
            ),
            final(self).hoister == old(self).hoister,
            match r {
                Some(t) => spec_lookup(
                    table_view(old(self).table@),
                    tok_view(ns_tkn),
                    tok_view(id_tkn),
                ) == Some(tok_view(&t)),
                None => spec_lookup(
                    table_view(old(self).table@),
                    tok_view(ns_tkn),
                    tok_view(id_tkn),
                ) is None,
            },
    {
        let existing = self.get_symbol(ns_tkn, id_tkn);
        match existing {
            Some(t) => Some(t),
            None => {
                let e = (tok_clone(ns_tkn), tok_clone(id_tkn), tok_clone(val));
                proof {
                    lemma_table_view_push(self.table@, e);
                }
                self.table.push(e);
                None
            },
        }
    }

    /// Look up the constant recorded for a case label under the given
    /// discriminant type.
    pub fn get_symbol(&self, ns_tkn: &Token, id_tkn: &Token) -> (r: Option<Token>)
        ensures
            match r {
                Some(t) => spec_lookup(table_view(self.table@), tok_view(ns_tkn), tok_view(id_tkn))
                    == Some(tok_view(&t)),
                None => spec_lookup(
                    table_view(self.table@),
                    tok_view(ns_tkn),
                    tok_view(id_tkn),
                ) is None,
            },
    {
        let mut i: usize = 0;
        proof {
            lemma_table_view_len(self.table@);
        }
        while i < self.table.len()
            invariant
                i <= self.table@.len(),
                table_view(self.table@).len() == self.table@.len(),
                spec_lookup(table_view(self.table@), tok_view(ns_tkn), tok_view(id_tkn))
                    == lookup_from(
                    table_view(self.table@),
                    i as int,
                    tok_view(ns_tkn),
                    tok_view(id_tkn),
                ),
            decreases self.table@.len() - i,
        {
            proof {
                lemma_table_view_index(self.table@, i as int);
            }
            let e = &self.table[i];
            if key_eq(&e.0, ns_tkn) && key_eq(&e.1, id_tkn) {
                return Some(tok_clone(&e.2));
            }
            i += 1;
        }
        None
    }
}

// ---------------------------------------------------------------------------
// Type emission
// ---------------------------------------------------------------------------
/// One emitted field line, public or private.
pub open spec fn field_text(k: nat, is_pub: bool, name: Seq<char>, ty: Seq<char>) -> Seq<char> {
    if is_pub {
        crate::code_writer::ind_text(k) + "pub "@ + name + ": "@ + ty + ",\n"@
    } else {
        crate::code_writer::ind_text(k) + name + ": "@ + ty + ",\n"@
    }
}

/// Emission of one aggregate field: its line of text and the inline
/// definitions hoisted out of it.
pub open spec fn field_gen(f: TokenV, k: nat, is_pub: bool) -> Result<
    (Seq<char>, Seq<TokenV>),
    CompileError,
> {
    match f {
        TokenV::Decl { ty, id } => {
            let tyv = ty[0];
            let idv = id[0];
            match tyv {
                TokenV::Union { decl: _, cases: _, default: _ } => match (
                    spec_basic(idv, false),
                    spec_basic(idv, true),
                ) {
                    (Some(n), Some(t)) => Ok(
                        (field_text(k, is_pub, n, t), seq![TokenV::UnionDef { id: id, decl: ty }]),
                    ),
                    _ => Err(CompileError::UnsupportedNode),
                },
                TokenV::Struct(_) => match (spec_basic(idv, false), spec_basic(idv, true)) {
                    (Some(n), Some(t)) => Ok(
                        (field_text(k, is_pub, n, t), seq![TokenV::StructDef { id: id, decl: ty }]),
                    ),
                    _ => Err(CompileError::UnsupportedNode),
                },
                _ => match (spec_basic(idv, false), spec_basic(tyv, true)) {
                    (Some(n), Some(t)) => Ok((field_text(k, is_pub, n, t), Seq::empty())),
                    _ => Err(CompileError::UnsupportedNode),
                },
            }
        },
        TokenV::StringDecl { id, size: _ } => match spec_basic(id[0], false) {
            Some(n) => Ok((field_text(k, is_pub, n, "String"@), Seq::empty())),
            None => Err(CompileError::UnsupportedNode),
        },
        TokenV::VarArrayDecl { ty, id, size: _ } => match (
            spec_basic(id[0], false),
            spec_basic(ty[0], true),
        ) {
            (Some(n), Some(t)) => Ok((field_text(k, is_pub, n, "Vec<"@ + t + ">"@), Seq::empty())),
            _ => Err(CompileError::UnsupportedNode),
        },
        TokenV::VarOpaqueDecl { id, size: _ } => match spec_basic(id[0], false) {
            Some(n) => Ok((field_text(k, is_pub, n, "Vec<u8>"@), Seq::empty())),
            None => Err(CompileError::UnsupportedNode),
        },
        _ => Err(CompileError::UnsupportedNode),
    }
}

/// Emission of a whole field list, in declaration order.
pub open spec fn fields_gen(fs: Seq<TokenV>, k: nat, is_pub: bool) -> Result<
    (Seq<char>, Seq<TokenV>),
    CompileError,
>
    decreases fs.len(),
{
    if fs.len() == 0 {
        Ok((Seq::empty(), Seq::empty()))
    } else {
        match field_gen(fs[0], k, is_pub) {
            Ok((t, h)) => match fields_gen(fs.drop_first(), k, is_pub) {
                Ok((rt, rh)) => Ok((t + rt, h + rh)),
                Err(e) => Err(e),
            },
            Err(e) => Err(e),
        }
    }
}

/// Emission of one named struct definition.
pub open spec fn spec_write_struct(identv: TokenV, fs: Seq<TokenV>, k: nat) -> Result<
    (Seq<char>, Seq<TokenV>),
    CompileError,
> {
    match identv {
        TokenV::Ident(s) => match fields_gen(fs, (k + 1) as nat, true) {
            Ok((txt, hs)) => Ok(
                (
                    crate::code_writer::pub_struct_text(k, spec_rustify(s)) + txt
                        + crate::function_writer::close_text(k, ""@),
                    hs,
                ),
            ),
            Err(e) => Err(e),
        },
        _ => Err(CompileError::UnsupportedNode),
    }
}

/// Write one field line, public or private.
fn emit_field_line(n: &str, t: &str, is_pub: bool, wr: &mut CodeWriter)
    ensures
        final(wr).out@ == old(wr).out@ + field_text(old(wr).indent as nat, is_pub, n@, t@),
        final(wr).indent == old(wr).indent,
{
    if is_pub {
        wr.pub_field_decl(n, t);
    } else {
        wr.field_decl(n, t);
    }
}

/// Queue the definition hoisted out of an inline aggregate field.
fn hoist_def(is_union: bool, ty: &Box<Token>, id: &Box<Token>, tab: &mut CodegenState)
    ensures
        final(tab).table == old(tab).table,
        toks_view(final(tab).hoister@) == toks_view(old(tab).hoister@) + seq![
            if is_union {
                TokenV::UnionDef { id: one(tok_view(id)), decl: one(tok_view(ty)) }
            } else {
                TokenV::StructDef { id: one(tok_view(id)), decl: one(tok_view(ty)) }
            },
        ],
{
    let h = if is_union {
        Token::UnionDef { id: Box::new(tok_clone(id)), decl: Box::new(tok_clone(ty)) }
    } else {
        Token::StructDef { id: Box::new(tok_clone(id)), decl: Box::new(tok_clone(ty)) }
    };
    proof {
        if is_union {
            assert(tok_view(&h) == TokenV::UnionDef {
                id: one(tok_view(id)),
                decl: one(tok_view(ty)),
            });
        } else {
            assert(tok_view(&h) == TokenV::StructDef {
                id: one(tok_view(id)),
                decl: one(tok_view(ty)),
            });
        }
    }
    tab.hoist(&h);
    proof {
        assert(toks_view(old(tab).hoister@).push(tok_view(&h)) =~= toks_view(old(tab).hoister@)
            + seq![tok_view(&h)]);
    }
}

/// Emit one bare `type name;` field, hoisting an inline aggregate type.
fn write_decl_field(ty: &Box<Token>, id: &Box<Token>, is_pub: bool, tab: &mut CodegenState, wr: &mut CodeWriter) -> (r: Result<(), CompileError>)
    ensures
        match field_gen(
            TokenV::Decl { ty: one(tok_view(ty)), id: one(tok_view(id)) },
            old(wr).indent as nat,
            is_pub,
        ) {
            Ok(p) => r == Ok::<(), CompileError>(()) && final(wr).out@ == old(wr).out@ + p.0
                && final(wr).indent == old(wr).indent && final(tab).table == old(tab).table
                && toks_view(final(tab).hoister@) == toks_view(old(tab).hoister@) + p.1,
            Err(e) => r == Err::<(), CompileError>(e),
        },
{
    let hoisting: bool = match &**ty {
        Token::Union { decl: _, cases: _, default: _ } => true,
        Token::Struct(_) => true,
        _ => false,
    };
    if hoisting {
        let n = convert_basic_token(id, false);
        let t = convert_basic_token(id, true);
        match (n, t) {
            (Some(n), Some(t)) => {
                emit_field_line(n.as_str(), t.as_str(), is_pub, wr);
                let is_union = match &**ty {
                    Token::Union { decl: _, cases: _, default: _ } => true,
                    _ => false,
                };
                hoist_def(is_union, ty, id, tab);
                Ok(())
            },
            _ => Err(CompileError::UnsupportedNode),
        }
    } else {
        let n = convert_basic_token(id, false);
        let t = convert_basic_token(ty, true);
        match (n, t) {
            (Some(n), Some(t)) => {
                emit_field_line(n.as_str(), t.as_str(), is_pub, wr);
                proof {
                    assert(toks_view(final(tab).hoister@) =~= toks_view(old(tab).hoister@)
                        + Seq::<TokenV>::empty());
                }
                Ok(())
            },
            _ => Err(CompileError::UnsupportedNode),
        }
    }
}

/// Emit one aggregate field and queue whatever it hoists.
fn write_field(field: &Token, is_pub: bool, tab: &mut CodegenState, wr: &mut CodeWriter) -> (r:
    Result<(), CompileError>)
    ensures
        match field_gen(tok_view(field), old(wr).indent as nat, is_pub) {
            Ok(p) => r == Ok::<(), CompileError>(()) && final(wr).out@ == old(wr).out@ + p.0
                && final(wr).indent == old(wr).indent && final(tab).table == old(tab).table
                && toks_view(final(tab).hoister@) == toks_view(old(tab).hoister@) + p.1,
            Err(e) => r == Err::<(), CompileError>(e),
        },
{
    match field {
        Token::Decl { ty, id } => write_decl_field(ty, id, is_pub, tab, wr),
        Token::StringDecl { id, size: _ } => {
            match convert_basic_token(id, false) {
                Some(n) => {
                    emit_field_line(n.as_str(), "String", is_pub, wr);
                    proof {
                        assert(toks_view(final(tab).hoister@) =~= toks_view(old(tab).hoister@)
                            + Seq::<TokenV>::empty());
                    }
                    Ok(())
                },
                None => Err(CompileError::UnsupportedNode),
            }
        },
        Token::VarArrayDecl { ty, id, size: _ } => {
            let n = convert_basic_token(id, false);
            let t = convert_basic_token(ty, true);
            match (n, t) {
                (Some(n), Some(t)) => {
                    let mut vt = String::new();
                    vt.append("Vec<");
                    vt.append(t.as_str());
                    vt.append(">");
                    proof {
                        assert(vt@ =~= "Vec<"@ + t@ + ">"@);
                    }
                    if is_pub {
                        wr.pub_field_decl_fn(n.as_str(), vt.as_str());
                    } else {
                        wr.field_decl(n.as_str(), vt.as_str());
                    }
                    proof {
                        assert(toks_view(final(tab).hoister@) =~= toks_view(old(tab).hoister@)
                            + Seq::<TokenV>::empty());
                    }
                    Ok(())
                },
                _ => Err(CompileError::UnsupportedNode),
            }
        },
        Token::VarOpaqueDecl { id, size: _ } => {
            match convert_basic_token(id, false) {
                Some(n) => {
                    emit_field_line(n.as_str(), "Vec<u8>", is_pub, wr);
                    proof {
                        assert(toks_view(final(tab).hoister@) =~= toks_view(old(tab).hoister@)
                            + Seq::<TokenV>::empty());
                    }
                    Ok(())
                },
                None => Err(CompileError::UnsupportedNode),
            }
        },
        _ => Err(CompileError::UnsupportedNode),
    }
}

/// Emit one named struct definition into the types stream, queueing any
/// inline definitions found in its fields.
pub fn write_struct(ident: &Token, fields: &Vec<Token>, tab: &mut CodegenState, wr: &mut CodeWriter) -> (r: Result<(), CompileError>)
    requires
        old(wr).indent + 2 < crate::code_writer::MAX_DEPTH,
    ensures
        match spec_write_struct(tok_view(ident), toks_view(fields@), old(wr).indent as nat) {
            Ok(p) => r == Ok::<(), CompileError>(()) && final(wr).out@ == old(wr).out@ + p.0
                && final(wr).indent == old(wr).indent && final(tab).table == old(tab).table
                && toks_view(final(tab).hoister@) == toks_view(old(tab).hoister@) + p.1,
            Err(e) => r == Err::<(), CompileError>(e),
        },
{
    let ghost mut sname: Seq<char> = Seq::empty();
    let id = match ident {
        Token::Ident(s) => {
            proof {
                sname = s@;
            }
            rustify(s)
        },
        _ => {
            return Err(CompileError::UnsupportedNode);
        },
    };
    let ghost k = old(wr).indent as nat;
    proof {
        assert(tok_view(ident) == TokenV::Ident(sname));
    }
    let ghost all = toks_view(fields@);
    wr.pub_struct(id.as_str());
    let ghost base_out = wr.out@;
    let ghost base_h = toks_view(tab.hoister@);
    let mut i: usize = 0;
    let ghost mut done_txt: Seq<char> = Seq::empty();
    let ghost mut done_hs: Seq<TokenV> = Seq::empty();
    proof {
        lemma_toks_view_len(fields@);
        assert(all.skip(0) =~= all);
        assert(base_out + done_txt =~= base_out);
        assert(base_h + done_hs =~= base_h);
    }
    while i < fields.len()
        invariant
            i <= fields@.len(),
            all.len() == fields@.len(),
            all == toks_view(fields@),
            tok_view(ident) == TokenV::Ident(sname),
            id@ == spec_rustify(sname),
            k == old(wr).indent as nat,
            wr.indent == k + 1,
            wr.out@ == base_out + done_txt,
            toks_view(tab.hoister@) == base_h + done_hs,
            tab.table == old(tab).table,
            fields_gen(all, (k + 1) as nat, true) == (match fields_gen(
                all.skip(i as int),
                (k + 1) as nat,
                true,
            ) {
                Ok((rt, rh)) => Ok::<(Seq<char>, Seq<TokenV>), CompileError>(
                    (done_txt + rt, done_hs + rh),
                ),
                Err(e) => Err(e),
            }),
        decreases fields@.len() - i,
    {
        proof {
            lemma_toks_view_index(fields@, i as int);
            assert(all.skip(i as int)[0] == all[i as int]);
        }
        let res = write_field(&fields[i], true, tab, wr);
        match res {
            Ok(()) => {
                proof {
                    let fg = field_gen(all[i as int], (k + 1) as nat, true);
                    let t0 = fg->Ok_0.0;
                    let h0 = fg->Ok_0.1;
                    assert(all.skip(i as int).drop_first() =~= all.skip(i + 1));
                    match fields_gen(all.skip(i + 1), (k + 1) as nat, true) {
                        Ok((rt, rh)) => {
                            assert(done_txt + (t0 + rt) =~= (done_txt + t0) + rt);
                            assert(done_hs + (h0 + rh) =~= (done_hs + h0) + rh);
                        },
                        Err(_) => {},
                    }
                    done_txt = done_txt + t0;
                    done_hs = done_hs + h0;
                    assert(wr.out@ =~= base_out + done_txt);
                    assert(toks_view(tab.hoister@) =~= base_h + done_hs);
                }
            },
            Err(e) => {
                return Err(e);
            },
        }
        i += 1;
    }
    proof {
        assert(all.skip(fields@.len() as int) =~= Seq::<TokenV>::empty());
        assert(done_txt + Seq::<char>::empty() =~= done_txt);
        assert(done_hs + Seq::<TokenV>::empty() =~= done_hs);
    }
    wr.close_block("");
    proof {
        if let Ok((txt, hs)) = spec_write_struct(
            tok_view(ident),
            toks_view(fields@),
            old(wr).indent as nat,
        ) {
            assert(wr.out@ =~= old(wr).out@ + txt);
            assert(toks_view(tab.hoister@) =~= toks_view(old(tab).hoister@) + hs);
        }
    }
    Ok(())
}

/// The serde annotation recovering a union case's wire tag, when its label
/// resolves through the symbol table; literal labels carry none.
pub open spec fn annotation_gen(
    v: TokenV,
    k: nat,
    ns: TokenV,
    table: Seq<(TokenV, TokenV, TokenV)>,
) -> Result<Seq<char>, CompileError> {
    match v {
        TokenV::Ident(_) => match spec_lookup(table, ns, v) {
            Some(t) => match spec_basic(t, false) {
                Some(a) => Ok(
                    crate::code_writer::ind_text(k) + "#[serde(rename = \""@ + a + "\")]\n"@,
                ),
                None => Err(CompileError::UnsupportedNode),
            },
            None => Err(CompileError::UnresolvedCaseLabel),
        },
        TokenV::Constant(_) => Ok(Seq::empty()),
        _ => Err(CompileError::UnsupportedNode),
    }
}

/// The fields of one union variant: a single declaration, or nothing for a
/// valueless arm.
pub open spec fn case_body_gen(declv: TokenV, k: nat) -> Result<
    (Seq<char>, Seq<TokenV>),
    CompileError,
> {
    match declv {
        TokenV::Decl { ty: _, id: _ } => field_gen(declv, k, false),
        _ => Ok((Seq::empty(), Seq::empty())),
    }
}

/// One union variant produced by one case label.
pub open spec fn label_gen(
    v: TokenV,
    declv: TokenV,
    k: nat,
    ns: TokenV,
    table: Seq<(TokenV, TokenV, TokenV)>,
) -> Result<(Seq<char>, Seq<TokenV>), CompileError> {
    match annotation_gen(v, k, ns, table) {
        Ok(atxt) => match spec_basic(v, true) {
            Some(vn) => match case_body_gen(declv, (k + 1) as nat) {
                Ok((btxt, bhs)) => Ok(
                    (
                        atxt + crate::code_writer::ind_text(k) + vn + " {\n"@ + btxt
                            + crate::function_writer::close_text(k, ","@),
                        bhs,
                    ),
                ),
                Err(e) => Err(e),
            },
            None => Err(CompileError::UnsupportedNode),
        },
        Err(e) => Err(e),
    }
}

/// The variants of one case arm: one per label, sharing the declaration.
pub open spec fn labels_gen(
    vals: Seq<TokenV>,
    declv: TokenV,
    k: nat,
    ns: TokenV,
    table: Seq<(TokenV, TokenV, TokenV)>,
) -> Result<(Seq<char>, Seq<TokenV>), CompileError>
    decreases vals.len(),
{
    if vals.len() == 0 {
        Ok((Seq::empty(), Seq::empty()))
    } else {
        match label_gen(vals[0], declv, k, ns, table) {
            Ok((t, h)) => match labels_gen(vals.drop_first(), declv, k, ns, table) {
                Ok((rt, rh)) => Ok((t + rt, h + rh)),
                Err(e) => Err(e),
            },
            Err(e) => Err(e),
        }
    }
}

/// One case arm of a union body; nodes of any other kind are skipped.
pub open spec fn case_gen(
    c: TokenV,
    k: nat,
    ns: TokenV,
    table: Seq<(TokenV, TokenV, TokenV)>,
) -> Result<(Seq<char>, Seq<TokenV>), CompileError> {
    match c {
        TokenV::UnionCase { vals, decl } => labels_gen(vals, decl[0], k, ns, table),
        _ => Ok((Seq::empty(), Seq::empty())),
    }
}

/// All case arms of a union body.
pub open spec fn cases_gen(
    cs: Seq<TokenV>,
    k: nat,
    ns: TokenV,
    table: Seq<(TokenV, TokenV, TokenV)>,
) -> Result<(Seq<char>, Seq<TokenV>), CompileError>
    decreases cs.len(),
{
    if cs.len() == 0 {
        Ok((Seq::empty(), Seq::empty()))
    } else {
        match case_gen(cs[0], k, ns, table) {
            Ok((t, h)) => match cases_gen(cs.drop_first(), k, ns, table) {
                Ok((rt, rh)) => Ok((t + rt, h + rh)),
                Err(e) => Err(e),
            },
            Err(e) => Err(e),
        }
    }
}

/// The catch-all variant from a union's optional default arm.
pub open spec fn default_gen(dfl: Seq<TokenV>, k: nat) -> Result<Seq<char>, CompileError> {
    if dfl.len() == 0 {
        Ok(Seq::empty())
    } else {
        let body = (match dfl[0] {
            TokenV::Decl { ty, id } => match (spec_basic(id[0], false), spec_basic(ty[0], true)) {
                (Some(n), Some(t)) => Ok(field_text((k + 1) as nat, false, n, t)),
                _ => Err(CompileError::UnsupportedNode),
            },
            TokenV::VoidDecl => Ok(Seq::<char>::empty()),
            _ => Err(CompileError::UnsupportedNode),
        });
        match body {
            Ok(btxt) => Ok(
                crate::code_writer::comment_text(k, "Default case for the XDR Union"@)
                    + crate::code_writer::ind_text(k) + "UnionDefault_"@ + " {\n"@ + btxt
                    + crate::function_writer::close_text(k, ","@),
            ),
            Err(e) => Err(e),
        }
    }
}

/// Emission of one named union definition: the enum text and the inline
/// definitions hoisted out of its arms.
pub open spec fn spec_write_union(
    identv: TokenV,
    ns_declv: TokenV,
    casesv: Seq<TokenV>,
    defaultv: Seq<TokenV>,
    k: nat,
    table: Seq<(TokenV, TokenV, TokenV)>,
) -> Result<(Seq<char>, Seq<TokenV>), CompileError> {
    match identv {
        TokenV::Ident(s) => match ns_declv {
            TokenV::Decl { ty, id: _ } => {
                let ns = ty[0];
                match cases_gen(casesv, (k + 1) as nat, ns, table) {
                    Ok((ctxt, chs)) => match default_gen(defaultv, (k + 1) as nat) {
                        Ok(dtxt) => Ok(
                            (
                                crate::code_writer::pub_union_enum_text(k, spec_rustify(s)) + ctxt
                                    + dtxt + crate::function_writer::close_text(k, ""@),
                                chs,
                            ),
                        ),
                        Err(e) => Err(e),
                    },
                    Err(e) => Err(e),
                }
            },
            _ => Err(CompileError::UnsupportedNode),
        },
        _ => Err(CompileError::UnsupportedNode),
    }
}

/// Emit the tag annotation of one case label, when one is owed.
fn write_annotation(ns: &Token, case: &Token, tab: &CodegenState, wr: &mut CodeWriter) -> (r:
    Result<(), CompileError>)
    ensures
        match annotation_gen(
            tok_view(case),
            old(wr).indent as nat,
            tok_view(ns),
            table_view(tab.table@),
        ) {
            Ok(t) => r == Ok::<(), CompileError>(()) && final(wr).out@ == old(wr).out@ + t
                && final(wr).indent == old(wr).indent,
            Err(e) => r == Err::<(), CompileError>(e),
        },
{
    match case {
        Token::Ident(_) => {
            match tab.get_symbol(ns, case) {
                Some(t) => {
                    match convert_basic_token(&t, false) {
                        Some(a) => {
                            wr.enc_annotation(a.as_str());
                            Ok(())
                        },
                        None => Err(CompileError::UnsupportedNode),
                    }
                },
                None => Err(CompileError::UnresolvedCaseLabel),
            }
        },
        Token::Constant(_) => {
            proof {
                assert(final(wr).out@ + Seq::<char>::empty() =~= final(wr).out@);
            }
            Ok(())
        },
        _ => Err(CompileError::UnsupportedNode),
    }
}

/// Emit the variant generated by one case label.
#[verifier::rlimit(100)]
fn write_case_label(ns: &Token, case: &Token, decl: &Token, tab: &mut CodegenState, wr: &mut CodeWriter) -> (r: Result<(), CompileError>)
    requires
        old(wr).indent + 2 < crate::code_writer::MAX_DEPTH,
    ensures
        match label_gen(
            tok_view(case),
            tok_view(decl),
            old(wr).indent as nat,
            tok_view(ns),
            table_view(old(tab).table@),
        ) {
            Ok(p) => r == Ok::<(), CompileError>(()) && final(wr).out@ == old(wr).out@ + p.0
                && final(wr).indent == old(wr).indent && final(tab).table == old(tab).table
                && toks_view(final(tab).hoister@) == toks_view(old(tab).hoister@) + p.1,
            Err(e) => r == Err::<(), CompileError>(e),
        },
{
    match write_annotation(ns, case, tab, wr) {
        Ok(()) => {},
        Err(e) => {
            return Err(e);
        },
    }
    match convert_basic_token(case, true) {
        Some(vn) => {
            wr.enum_struct_decl(vn.as_str());
            let is_decl = match decl {
                Token::Decl { ty: _, id: _ } => true,
                _ => false,
            };
            if is_decl {
                match write_field(decl, false, tab, wr) {
                    Ok(()) => {},
                    Err(e) => {
                        return Err(e);
                    },
                }
            } else {
                proof {
                    assert(toks_view(final(tab).hoister@) =~= toks_view(old(tab).hoister@)
                        + Seq::<TokenV>::empty());
                }
            }
            wr.close_block(",");
            Ok(())
        },
        None => Err(CompileError::UnsupportedNode),
    }
}

/// Emit the variants of one case arm.
fn write_union_case(ns: &Token, arm: &Token, tab: &mut CodegenState, wr: &mut CodeWriter) -> (r:
    Result<(), CompileError>)
    requires
        old(wr).indent + 2 < crate::code_writer::MAX_DEPTH,
    ensures
        match case_gen(
            tok_view(arm),
            old(wr).indent as nat,
            tok_view(ns),
            table_view(old(tab).table@),
        ) {
            Ok(p) => r == Ok::<(), CompileError>(()) && final(wr).out@ == old(wr).out@ + p.0
                && final(wr).indent == old(wr).indent && final(tab).table == old(tab).table
                && toks_view(final(tab).hoister@) == toks_view(old(tab).hoister@) + p.1,
            Err(e) => r == Err::<(), CompileError>(e),
        },
{
    match arm {
        Token::UnionCase { vals, decl } => {
            let ghost k = old(wr).indent as nat;
            let ghost all = toks_view(vals@);
            let ghost declv = tok_view(&**decl);
            let ghost nsv = tok_view(ns);
            let ghost tbl = table_view(old(tab).table@);
            let ghost base_out = wr.out@;
            let ghost base_h = toks_view(tab.hoister@);
            let mut i: usize = 0;
            let ghost mut done_txt: Seq<char> = Seq::empty();
            let ghost mut done_hs: Seq<TokenV> = Seq::empty();
            proof {
                lemma_toks_view_len(vals@);
                assert(all.skip(0) =~= all);
                assert(base_out + done_txt =~= base_out);
                assert(base_h + done_hs =~= base_h);
            }
            while i < vals.len()
                invariant
                    i <= vals@.len(),
                    all.len() == vals@.len(),
                    all == toks_view(vals@),
                    declv == tok_view(&**decl),
                    tok_view(arm) == (TokenV::UnionCase { vals: all, decl: one(declv) }),
                    nsv == tok_view(ns),
                    tbl == table_view(tab.table@),
                    tab.table == old(tab).table,
                    old(wr).indent + 2 < crate::code_writer::MAX_DEPTH,
                    k == old(wr).indent as nat,
                    wr.indent == k,
                    wr.out@ == base_out + done_txt,
                    toks_view(tab.hoister@) == base_h + done_hs,
                    labels_gen(all, declv, k, nsv, tbl) == (match labels_gen(
                        all.skip(i as int),
                        declv,
                        k,
                        nsv,
                        tbl,
                    ) {
                        Ok((rt, rh)) => Ok::<(Seq<char>, Seq<TokenV>), CompileError>(
                            (done_txt + rt, done_hs + rh),
                        ),
                        Err(e) => Err(e),
                    }),
                decreases vals@.len() - i,
            {
                proof {
                    lemma_toks_view_index(vals@, i as int);
                    assert(all.skip(i as int)[0] == all[i as int]);
                }
                let res = write_case_label(ns, &vals[i], decl, tab, wr);
                match res {
                    Ok(()) => {
                        proof {
                            let fg = label_gen(all[i as int], declv, k, nsv, tbl);
                            let t0 = fg->Ok_0.0;
                            let h0 = fg->Ok_0.1;
                            assert(all.skip(i as int).drop_first() =~= all.skip(i + 1));
                            match labels_gen(all.skip(i + 1), declv, k, nsv, tbl) {
                                Ok((rt, rh)) => {
                                    assert(done_txt + (t0 + rt) =~= (done_txt + t0) + rt);
                                    assert(done_hs + (h0 + rh) =~= (done_hs + h0) + rh);
                                },
                                Err(_) => {},
                            }
                            done_txt = done_txt + t0;
                            done_hs = done_hs + h0;
                            assert(wr.out@ =~= base_out + done_txt);
                            assert(toks_view(tab.hoister@) =~= base_h + done_hs);
                        }
                    },
                    Err(e) => {
                        return Err(e);
                    },
                }
                i += 1;
            }
            proof {
                assert(all.skip(vals@.len() as int) =~= Seq::<TokenV>::empty());
                assert(done_txt + Seq::<char>::empty() =~= done_txt);
                assert(done_hs + Seq::<TokenV>::empty() =~= done_hs);
                assert(labels_gen(all, declv, k, nsv, tbl) == Ok::<
                    (Seq<char>, Seq<TokenV>),
                    CompileError,
                >((done_txt, done_hs)));
            }
            Ok(())
        },
        _ => {
            proof {
                assert(final(wr).out@ + Seq::<char>::empty() =~= final(wr).out@);
                assert(toks_view(final(tab).hoister@) =~= toks_view(old(tab).hoister@)
                    + Seq::<TokenV>::empty());
            }
            Ok(())
        },
    }
}

/// Emit the union's default arm, when there is one.
#[verifier::rlimit(100)]
fn write_union_default(default: &Option<Token>, wr: &mut CodeWriter) -> (r: Result<
    (),
    CompileError,
>)
    requires
        old(wr).indent + 2 < crate::code_writer::MAX_DEPTH,
    ensures
        match default_gen(crate::ast::opt_view(default), old(wr).indent as nat) {
            Ok(t) => r == Ok::<(), CompileError>(()) && final(wr).out@ == old(wr).out@ + t
                && final(wr).indent == old(wr).indent,
            Err(e) => r == Err::<(), CompileError>(e),
        },
{
    match default {
        Some(d) => {
            wr.comment("Default case for the XDR Union");
            wr.enum_struct_decl("UnionDefault_");
            match d {
                Token::Decl { ty, id } => {
                    let n = convert_basic_token(id, false);
                    let t = convert_basic_token(ty, true);
                    match (n, t) {
                        (Some(n), Some(t)) => {
                            wr.field_decl(n.as_str(), t.as_str());
                        },
                        _ => {
                            return Err(CompileError::UnsupportedNode);
                        },
                    }
                },
                Token::VoidDecl => {
                    proof {
                        assert(final(wr).out@ + Seq::<char>::empty() =~= final(wr).out@);
                    }
                },
                _ => {
                    return Err(CompileError::UnsupportedNode);
                },
            }
            wr.close_block(",");
            Ok(())
        },
        None => {
            proof {
                assert(final(wr).out@ + Seq::<char>::empty() =~= final(wr).out@);
            }
            Ok(())
        },
    }
}

/// Emit one named union definition into the types stream, queueing any
/// inline definitions found in its arms.
#[verifier::rlimit(100)]
pub fn write_union(ident: &Token, ns_decl: &Token, cases: &Vec<Token>, default: &Option<Token>, tab: &mut CodegenState, wr: &mut CodeWriter) -> (r: Result<(), CompileError>)
    requires
        old(wr).indent + 3 < crate::code_writer::MAX_DEPTH,
    ensures
        match spec_write_union(
            tok_view(ident),
            tok_view(ns_decl),
            toks_view(cases@),
            crate::ast::opt_view(default),
            old(wr).indent as nat,
            table_view(old(tab).table@),
        ) {
            Ok(p) => r == Ok::<(), CompileError>(()) && final(wr).out@ == old(wr).out@ + p.0
                && final(wr).indent == old(wr).indent && final(tab).table == old(tab).table
                && toks_view(final(tab).hoister@) == toks_view(old(tab).hoister@) + p.1,
            Err(e) => r == Err::<(), CompileError>(e),
        },
{
    let ghost mut sname: Seq<char> = Seq::empty();
    let id = match ident {
        Token::Ident(s) => {
            proof {
                sname = s@;
            }
            rustify(s)
        },
        _ => {
            return Err(CompileError::UnsupportedNode);
        },
    };
    proof {
        assert(tok_view(ident) == TokenV::Ident(sname));
    }
    let ns: &Token = match ns_decl {
        Token::Decl { ty, id: _ } => &**ty,
        _ => {
            return Err(CompileError::UnsupportedNode);
        },
    };
    let ghost k = old(wr).indent as nat;
    let ghost all = toks_view(cases@);
    let ghost nsv = tok_view(ns);
    let ghost tbl = table_view(old(tab).table@);
    wr.pub_union_enum(id.as_str());
    let ghost base_out = wr.out@;
    let ghost base_h = toks_view(tab.hoister@);
    let mut i: usize = 0;
    let ghost mut done_txt: Seq<char> = Seq::empty();
    let ghost mut done_hs: Seq<TokenV> = Seq::empty();
    proof {
        lemma_toks_view_len(cases@);
        assert(all.skip(0) =~= all);
        assert(base_out + done_txt =~= base_out);
        assert(base_h + done_hs =~= base_h);
    }
    while i < cases.len()
        invariant
            i <= cases@.len(),
            all.len() == cases@.len(),
            all == toks_view(cases@),
            tok_view(ident) == TokenV::Ident(sname),
            id@ == spec_rustify(sname),
            nsv == tok_view(ns),
            tok_view(ns_decl) matches TokenV::Decl { ty, id: _ } && ty[0] == nsv,
            tbl == table_view(tab.table@),
            tab.table == old(tab).table,
            k == old(wr).indent as nat,
            old(wr).indent + 3 < crate::code_writer::MAX_DEPTH,
            wr.indent == k + 1,
            wr.out@ == base_out + done_txt,
            toks_view(tab.hoister@) == base_h + done_hs,
            cases_gen(all, (k + 1) as nat, nsv, tbl) == (match cases_gen(
                all.skip(i as int),
                (k + 1) as nat,
                nsv,
                tbl,
            ) {
                Ok((rt, rh)) => Ok::<(Seq<char>, Seq<TokenV>), CompileError>(
                    (done_txt + rt, done_hs + rh),
                ),
                Err(e) => Err(e),
            }),
        decreases cases@.len() - i,
    {
        proof {
            lemma_toks_view_index(cases@, i as int);
            assert(all.skip(i as int)[0] == all[i as int]);
        }
        let res = write_union_case(ns, &cases[i], tab, wr);
        match res {
            Ok(()) => {
                proof {
                    let fg = case_gen(all[i as int], (k + 1) as nat, nsv, tbl);
                    let t0 = fg->Ok_0.0;
                    let h0 = fg->Ok_0.1;
                    assert(all.skip(i as int).drop_first() =~= all.skip(i + 1));
                    match cases_gen(all.skip(i + 1), (k + 1) as nat, nsv, tbl) {
                        Ok((rt, rh)) => {
                            assert(done_txt + (t0 + rt) =~= (done_txt + t0) + rt);
                            assert(done_hs + (h0 + rh) =~= (done_hs + h0) + rh);
                        },
                        Err(_) => {},
                    }
                    done_txt = done_txt + t0;
                    done_hs = done_hs + h0;
                    assert(wr.out@ =~= base_out + done_txt);
                    assert(toks_view(tab.hoister@) =~= base_h + done_hs);
                }
            },
            Err(e) => {
                return Err(e);
            },
        }
        i += 1;
    }
    proof {
        assert(all.skip(cases@.len() as int) =~= Seq::<TokenV>::empty());
        assert(done_txt + Seq::<char>::empty() =~= done_txt);
        assert(done_hs + Seq::<TokenV>::empty() =~= done_hs);
    }
    let dres = write_union_default(default, wr);
    match dres {
        Ok(()) => {},
        Err(e) => {
            return Err(e);
        },
    }
    wr.close_block("");
    proof {
        if let Ok((txt, hs)) = spec_write_union(
            tok_view(ident),
            tok_view(ns_decl),
            toks_view(cases@),
            crate::ast::opt_view(default),
            old(wr).indent as nat,
            table_view(old(tab).table@),
        ) {
            assert(wr.out@ =~= old(wr).out@ + txt);
            assert(toks_view(tab.hoister@) =~= toks_view(old(tab).hoister@) + hs);
        }
    }
    Ok(())
}

/// Emission of the member lines of one enum definition, threading the
/// symbol table: each valued member is recorded under the enum's name.
pub open spec fn enum_members_gen(
    ns: TokenV,
    fs: Seq<(TokenV, TokenV)>,
    k: nat,
    table: Seq<(TokenV, TokenV, TokenV)>,
) -> Result<(Seq<char>, Seq<(TokenV, TokenV, TokenV)>), CompileError>
    decreases fs.len(),
{
    if fs.len() == 0 {
        Ok((Seq::empty(), table))
    } else {
        let (fid, fval) = fs[0];
        match fval {
            TokenV::Blank => match spec_basic(fid, true) {
                Some(n) => match enum_members_gen(ns, fs.drop_first(), k, table) {
                    Ok((rt, tf)) => Ok(
                        (crate::code_writer::enum_decl_text(k, n, ""@) + rt, tf),
                    ),
                    Err(e) => Err(e),
                },
                None => Err(CompileError::UnsupportedNode),
            },
            _ => match (spec_basic(fid, true), spec_basic(fval, false)) {
                (Some(n), Some(v)) => {
                    let t2 = spec_add_sym(table, ns, fid, fval);
                    match enum_members_gen(ns, fs.drop_first(), k, t2) {
                        Ok((rt, tf)) => Ok(
                            (crate::code_writer::enum_decl_text(k, n, v) + rt, tf),
                        ),
                        Err(e) => Err(e),
                    }
                },
                _ => Err(CompileError::UnsupportedNode),
            },
        }
    }
}

/// Emission of one named enum definition: its text and the symbol table
/// extended with its members.
pub open spec fn spec_write_enum(
    identv: TokenV,
    fs: Seq<(TokenV, TokenV)>,
    k: nat,
    table: Seq<(TokenV, TokenV, TokenV)>,
) -> Result<(Seq<char>, Seq<(TokenV, TokenV, TokenV)>), CompileError> {
    match identv {
        TokenV::Ident(s) => match enum_members_gen(identv, fs, (k + 1) as nat, table) {
            Ok((txt, tf)) => Ok(
                (
                    crate::code_writer::ind_text(k) + "xdr_enum!("@ + spec_rustify(s) + " {\n"@
                        + txt + crate::function_writer::close_text(k, ");"@),
                    tf,
                ),
            ),
            Err(e) => Err(e),
        },
        _ => Err(CompileError::UnsupportedNode),
    }
}

/// Emit one enum member line, recording a valued member in the table.
fn write_enum_member(ns: &Token, fid: &Token, fval: &Token, tab: &mut CodegenState, wr: &mut CodeWriter) -> (r: Result<(), CompileError>)
    ensures
        ({
            let step = (match tok_view(fval) {
                TokenV::Blank => match spec_basic(tok_view(fid), true) {
                    Some(n) => Ok(
                        (
                            crate::code_writer::enum_decl_text(old(wr).indent as nat, n, ""@),
                            table_view(old(tab).table@),
                        ),
                    ),
                    None => Err(CompileError::UnsupportedNode),
                },
                _ => match (spec_basic(tok_view(fid), true), spec_basic(tok_view(fval), false)) {
                    (Some(n), Some(v)) => Ok(
                        (
                            crate::code_writer::enum_decl_text(old(wr).indent as nat, n, v),
                            spec_add_sym(
                                table_view(old(tab).table@),
                                tok_view(ns),
                                tok_view(fid),
                                tok_view(fval),
                            ),
                        ),
                    ),
                    _ => Err(CompileError::UnsupportedNode),
                },
            });
            match step {
                Ok(p) => r == Ok::<(), CompileError>(()) && final(wr).out@ == old(wr).out@ + p.0
                    && final(wr).indent == old(wr).indent && table_view(final(tab).table@) == p.1
                    && final(tab).hoister == old(tab).hoister,
                Err(e) => r == Err::<(), CompileError>(e),
            }
        }),
{
    let is_blank = match fval {
        Token::Blank => true,
        _ => false,
    };
    if is_blank {
        match convert_basic_token(fid, true) {
            Some(n) => {
                wr.enum_decl(n.as_str(), "");
                Ok(())
            },
            None => Err(CompileError::UnsupportedNode),
        }
    } else {
        let n = convert_basic_token(fid, true);
        let v = convert_basic_token(fval, false);
        match (n, v) {
            (Some(n), Some(v)) => {
                let _prev = tab.add_symbol(ns, fid, fval);
                wr.enum_decl(n.as_str(), v.as_str());
                Ok(())
            },
            _ => Err(CompileError::UnsupportedNode),
        }
    }
}

/// Emit one named enum definition into the types stream, recording its
/// members in the symbol table.
pub fn write_enum(ident: &Token, fields: &Vec<(Token, Token)>, tab: &mut CodegenState, wr: &mut CodeWriter) -> (r: Result<(), CompileError>)
    requires
        old(wr).indent + 2 < crate::code_writer::MAX_DEPTH,
    ensures
        match spec_write_enum(
            tok_view(ident),
            pairs_view(fields@),
            old(wr).indent as nat,
            table_view(old(tab).table@),
        ) {
            Ok(p) => r == Ok::<(), CompileError>(()) && final(wr).out@ == old(wr).out@ + p.0
                && final(wr).indent == old(wr).indent && table_view(final(tab).table@) == p.1
                && final(tab).hoister == old(tab).hoister,
            Err(e) => r == Err::<(), CompileError>(e),
        },
{
    let ghost mut sname: Seq<char> = Seq::empty();
    let id = match ident {
        Token::Ident(s) => {
            proof {
                sname = s@;
            }
            rustify(s)
        },
        _ => {
            return Err(CompileError::UnsupportedNode);
        },
    };
    proof {
        assert(tok_view(ident) == TokenV::Ident(sname));
    }
    let ghost k = old(wr).indent as nat;
    let ghost allp = pairs_view(fields@);
    let ghost tbl0 = table_view(old(tab).table@);
    wr.xdr_enum(id.as_str());
    let ghost base_out = wr.out@;
    let mut i: usize = 0;
    let ghost mut done_txt: Seq<char> = Seq::empty();
    proof {
        lemma_pairs_view_len(fields@);
        assert(allp.skip(0) =~= allp);
        assert(base_out + done_txt =~= base_out);
    }
    while i < fields.len()
        invariant
            i <= fields@.len(),
            allp.len() == fields@.len(),
            allp == pairs_view(fields@),
            tok_view(ident) == TokenV::Ident(sname),
            id@ == spec_rustify(sname),
            tbl0 == table_view(old(tab).table@),
            tab.hoister == old(tab).hoister,
            k == old(wr).indent as nat,
            wr.indent == k + 1,
            wr.out@ == base_out + done_txt,
            enum_members_gen(tok_view(ident), allp, (k + 1) as nat, tbl0) == (match enum_members_gen(
                tok_view(ident),
                allp.skip(i as int),
                (k + 1) as nat,
                table_view(tab.table@),
            ) {
                Ok((rt, tf)) => Ok::<(Seq<char>, Seq<(TokenV, TokenV, TokenV)>), CompileError>(
                    (done_txt + rt, tf),
                ),
                Err(e) => Err(e),
            }),
        decreases fields@.len() - i,
    {
        proof {
            lemma_pairs_view_index(fields@, i as int);
            assert(allp.skip(i as int)[0] == allp[i as int]);
        }
        let pair = &fields[i];
        let res = write_enum_member(ident, &pair.0, &pair.1, tab, wr);
        match res {
            Ok(()) => {
                proof {
                    assert(allp.skip(i as int).drop_first() =~= allp.skip(i + 1));
                    let fid = allp[i as int].0;
                    let fval = allp[i as int].1;
                    let t0 = (match fval {
                        TokenV::Blank => crate::code_writer::enum_decl_text(
                            (k + 1) as nat,
                            spec_basic(fid, true)->Some_0,
                            ""@,
                        ),
                        _ => crate::code_writer::enum_decl_text(
                            (k + 1) as nat,
                            spec_basic(fid, true)->Some_0,
                            spec_basic(fval, false)->Some_0,
                        ),
                    });
                    match enum_members_gen(
                        tok_view(ident),
                        allp.skip(i + 1),
                        (k + 1) as nat,
                        table_view(tab.table@),
                    ) {
                        Ok((rt, tf)) => {
                            assert(done_txt + (t0 + rt) =~= (done_txt + t0) + rt);
                        },
                        Err(_) => {},
                    }
                    done_txt = done_txt + t0;
                    assert(wr.out@ =~= base_out + done_txt);
                }
            },
            Err(e) => {
                return Err(e);
            },
        }
        i += 1;
    }
    proof {
        assert(allp.skip(fields@.len() as int) =~= Seq::<(TokenV, TokenV)>::empty());
        assert(done_txt + Seq::<char>::empty() =~= done_txt);
    }
    wr.close_block(");");
    proof {
        if let Ok((txt, tf)) = spec_write_enum(
            tok_view(ident),
            pairs_view(fields@),
            old(wr).indent as nat,
            table_view(old(tab).table@),
        ) {
            assert(wr.out@ =~= old(wr).out@ + txt);
        }
    }
    Ok(())
}

/// Emission of one typedef as a public type alias.
pub open spec fn spec_write_typedef(defv: TokenV, k: nat) -> Result<Seq<char>, CompileError> {
    match defv {
        TokenV::VarArrayDecl { ty, id, size: _ } => match (
            spec_basic(id[0], true),
            spec_basic(ty[0], true),
        ) {
            (Some(n), Some(t)) => Ok(
                crate::code_writer::alias_text(k, "pub "@, n, "Vec<"@ + t + ">"@),
            ),
            _ => Err(CompileError::UnsupportedNode),
        },
        TokenV::StringDecl { id, size: _ } => match spec_basic(id[0], true) {
            Some(n) => Ok(crate::code_writer::alias_text(k, "pub "@, n, "String"@)),
            None => Err(CompileError::UnsupportedNode),
        },
        TokenV::Decl { ty, id } => match (spec_basic(id[0], true), spec_basic(ty[0], true)) {
            (Some(n), Some(t)) => Ok(crate::code_writer::alias_text(k, "pub "@, n, t)),
            _ => Err(CompileError::UnsupportedNode),
        },
        _ => Err(CompileError::UnsupportedNode),
    }
}

/// Emit one typedef into the types stream.
pub fn write_typedef(def: &Token, wr: &mut CodeWriter) -> (r: Result<(), CompileError>)
    ensures
        match spec_write_typedef(tok_view(def), old(wr).indent as nat) {
            Ok(t) => r == Ok::<(), CompileError>(()) && final(wr).out@ == old(wr).out@ + t
                && final(wr).indent == old(wr).indent,
            Err(e) => r == Err::<(), CompileError>(e),
        },
{
    match def {
        Token::VarArrayDecl { ty, id, size: _ } => {
            let n = convert_basic_token(id, true);
            let t = convert_basic_token(ty, true);
            match (n, t) {
                (Some(n), Some(t)) => {
                    let mut vt = String::new();
                    vt.append("Vec<");
                    vt.append(t.as_str());
                    vt.append(">");
                    proof {
                        assert(vt@ =~= "Vec<"@ + t@ + ">"@);
                    }
                    wr.pub_alias(n.as_str(), vt.as_str());
                    Ok(())
                },
                _ => Err(CompileError::UnsupportedNode),
            }
        },
        Token::StringDecl { id, size: _ } => {
            match convert_basic_token(id, true) {
                Some(n) => {
                    wr.pub_alias(n.as_str(), "String");
                    Ok(())
                },
                None => Err(CompileError::UnsupportedNode),
            }
        },
        Token::Decl { ty, id } => {
            let n = convert_basic_token(id, true);
            let t = convert_basic_token(ty, true);
            match (n, t) {
                (Some(n), Some(t)) => {
                    wr.pub_alias(n.as_str(), t.as_str());
                    Ok(())
                },
                _ => Err(CompileError::UnsupportedNode),
            }
        },
        _ => Err(CompileError::UnsupportedNode),
    }
}

/// The rendered non-void argument types of one procedure.
pub open spec fn req_args_gen(args: Seq<TokenV>) -> Result<Seq<Seq<char>>, CompileError>
    decreases args.len(),
{
    if args.len() == 0 {
        Ok(Seq::empty())
    } else {
        match args[0] {
            TokenV::VoidDecl => req_args_gen(args.drop_first()),
            _ => match spec_basic(args[0], true) {
                Some(t) => match req_args_gen(args.drop_first()) {
                    Ok(rest) => Ok(seq![t] + rest),
                    Err(e) => Err(e),
                },
                None => Err(CompileError::UnsupportedNode),
            },
        }
    }
}

/// Request-variant lines of one version, one per procedure; emission stops
/// at the first node that is not a procedure.
pub open spec fn req_lines_gen(procs: Seq<TokenV>, k: nat) -> Result<Seq<char>, CompileError>
    decreases procs.len(),
{
    if procs.len() == 0 {
        Ok(Seq::empty())
    } else {
        match procs[0] {
            TokenV::Proc { return_type: _, name, arg_types, id: _ } => match spec_basic(
                name[0],
                true,
            ) {
                Some(n) => match req_args_gen(arg_types) {
                    Ok(args) => match req_lines_gen(procs.drop_first(), k) {
                        Ok(rest) => Ok(
                            crate::code_writer::proc_request_text(k, n, args) + rest,
                        ),
                        Err(e) => Err(e),
                    },
                    Err(e) => Err(e),
                },
                None => Err(CompileError::UnsupportedNode),
            },
            _ => Ok(Seq::empty()),
        }
    }
}

/// Response-variant lines of one version; emission stops at the first node
/// that is not a procedure.
pub open spec fn resp_lines_gen(procs: Seq<TokenV>, k: nat) -> Result<Seq<char>, CompileError>
    decreases procs.len(),
{
    if procs.len() == 0 {
        Ok(Seq::empty())
    } else {
        match procs[0] {
            TokenV::Proc { return_type, name, arg_types: _, id: _ } => match spec_basic(
                name[0],
                true,
            ) {
                Some(n) => {
                    let retr = (match return_type[0] {
                        TokenV::VoidDecl => Ok(Option::<Seq<char>>::None),
                        _ => match spec_basic(return_type[0], true) {
                            Some(t) => Ok(Some(t)),
                            None => Err(CompileError::UnsupportedNode),
                        },
                    });
                    match retr {
                        Ok(ret) => match resp_lines_gen(procs.drop_first(), k) {
                            Ok(rest) => Ok(
                                crate::code_writer::proc_response_text(k, n, ret) + rest,
                            ),
                            Err(e) => Err(e),
                        },
                        Err(e) => Err(e),
                    }
                },
                None => Err(CompileError::UnsupportedNode),
            },
            _ => Ok(Seq::empty()),
        }
    }
}

/// Emission of one version's request and response enums.
pub open spec fn spec_write_version(prog: Seq<char>, ver: int, procs: Seq<TokenV>, k: nat) -> Result<
    Seq<char>,
    CompileError,
> {
    match req_lines_gen(procs, (k + 1) as nat) {
        Ok(req) => match resp_lines_gen(procs, (k + 1) as nat) {
            Ok(resp) => Ok(
                crate::code_writer::pub_enum_text(k, prog + "RequestV"@ + spec_dec(ver)) + req
                    + crate::function_writer::close_text(k, ""@)
                    + crate::code_writer::pub_enum_text(k, prog + "ResponseV"@ + spec_dec(ver))
                    + resp + crate::function_writer::close_text(k, ""@),
            ),
            Err(e) => Err(e),
        },
        Err(e) => Err(e),
    }
}

/// Render the non-void argument types of one procedure.
fn build_req_args(arg_types: &Vec<Token>) -> (r: Result<Vec<String>, CompileError>)
    ensures
        match req_args_gen(toks_view(arg_types@)) {
            Ok(args) => r matches Ok(v) && crate::code_writer::strs_view(v@) == args,
            Err(e) => r == Err::<Vec<String>, CompileError>(e),
        },
{
    let ghost all = toks_view(arg_types@);
    let mut out: Vec<String> = Vec::new();
    let mut i: usize = 0;
    let ghost mut done: Seq<Seq<char>> = Seq::empty();
    proof {
        lemma_toks_view_len(arg_types@);
        assert(all.skip(0) =~= all);
        assert(crate::code_writer::strs_view(out@) =~= done);
    }
    while i < arg_types.len()
        invariant
            i <= arg_types@.len(),
            all.len() == arg_types@.len(),
            all == toks_view(arg_types@),
            crate::code_writer::strs_view(out@) == done,
            req_args_gen(all) == (match req_args_gen(all.skip(i as int)) {
                Ok(rest) => Ok::<Seq<Seq<char>>, CompileError>(done + rest),
                Err(e) => Err(e),
            }),
        decreases arg_types@.len() - i,
    {
        proof {
            lemma_toks_view_index(arg_types@, i as int);
            assert(all.skip(i as int)[0] == all[i as int]);
            assert(all.skip(i as int).drop_first() =~= all.skip(i + 1));
        }
        let arg = &arg_types[i];
        let is_void = match arg {
            Token::VoidDecl => true,
            _ => false,
        };
        if !is_void {
            match convert_basic_token(arg, true) {
                Some(t) => {
                    let ghost old_out = out@;
                    let ghost tv = t@;
                    out.push(t);
                    proof {
                        match req_args_gen(all.skip(i + 1)) {
                            Ok(rest) => {
                                assert(done + (seq![tv] + rest) =~= (done + seq![tv]) + rest);
                            },
                            Err(_) => {},
                        }
                        done = done + seq![tv];
                        assert forall|j: int|
                            0 <= j < out@.len() implies crate::code_writer::strs_view(out@)[j]
                            == done[j] by {
                            if j < old_out.len() {
                                assert(crate::code_writer::strs_view(old_out)[j] == old_out[j]@);
                            }
                        }
                        assert(crate::code_writer::strs_view(out@) =~= done);
                    }
                },
                None => {
                    return Err(CompileError::UnsupportedNode);
                },
            }
        }
        i += 1;
    }
    proof {
        assert(all.skip(arg_types@.len() as int) =~= Seq::<TokenV>::empty());
        assert(done + Seq::<Seq<char>>::empty() =~= done);
    }
    Ok(out)
}

/// Emit the request-variant lines of one version.
#[verifier::rlimit(100)]
fn write_req_lines(procs: &Vec<Token>, wr: &mut CodeWriter) -> (r: Result<(), CompileError>)
    ensures
        match req_lines_gen(toks_view(procs@), old(wr).indent as nat) {
            Ok(t) => r == Ok::<(), CompileError>(()) && final(wr).out@ == old(wr).out@ + t
                && final(wr).indent == old(wr).indent,
            Err(e) => r == Err::<(), CompileError>(e),
        },
{
    let ghost k = old(wr).indent as nat;
    let ghost all = toks_view(procs@);
    let ghost base_out = wr.out@;
    let mut i: usize = 0;
    let mut stopped = false;
    let ghost mut done_txt: Seq<char> = Seq::empty();
    proof {
        lemma_toks_view_len(procs@);
        assert(all.skip(0) =~= all);
        assert(base_out + done_txt =~= base_out);
    }
    while i < procs.len() && !stopped
        invariant
            i <= procs@.len(),
            all.len() == procs@.len(),
            all == toks_view(procs@),
            k == old(wr).indent as nat,
            wr.indent == k,
            wr.out@ == base_out + done_txt,
            stopped ==> req_lines_gen(all, k) == Ok::<Seq<char>, CompileError>(done_txt),
            !stopped ==> req_lines_gen(all, k) == (match req_lines_gen(all.skip(i as int), k) {
                Ok(rest) => Ok::<Seq<char>, CompileError>(done_txt + rest),
                Err(e) => Err(e),
            }),
        decreases procs@.len() - i + (if stopped { 0int } else { 1int }),
    {
        proof {
            lemma_toks_view_index(procs@, i as int);
            assert(all.skip(i as int)[0] == all[i as int]);
            assert(all.skip(i as int).drop_first() =~= all.skip(i + 1));
        }
        match &procs[i] {
            Token::Proc { return_type: _, name, arg_types, id: _ } => {
                let n = match convert_basic_token(name, true) {
                    Some(n) => n,
                    None => {
                        return Err(CompileError::UnsupportedNode);
                    },
                };
                let args = match build_req_args(arg_types) {
                    Ok(a) => a,
                    Err(e) => {
                        return Err(e);
                    },
                };
                wr.version_proc_request(n.as_str(), &args);
                proof {
                    let t0 = crate::code_writer::proc_request_text(
                        k,
                        spec_basic(all[i as int]->Proc_name[0], true)->Some_0,
                        req_args_gen(all[i as int]->Proc_arg_types)->Ok_0,
                    );
                    match req_lines_gen(all.skip(i + 1), k) {
                        Ok(rest) => {
                            assert(done_txt + (t0 + rest) =~= (done_txt + t0) + rest);
                        },
                        Err(_) => {},
                    }
                    done_txt = done_txt + t0;
                    assert(wr.out@ =~= base_out + done_txt);
                }
            },
            _ => {
                stopped = true;
                proof {
                    assert(done_txt + Seq::<char>::empty() =~= done_txt);
                }
            },
        }
        if !stopped {
            i += 1;
        }
    }
    proof {
        if !stopped {
            assert(all.skip(i as int) =~= Seq::<TokenV>::empty());
            assert(done_txt + Seq::<char>::empty() =~= done_txt);
        }
    }
    Ok(())
}

/// Emit the response-variant lines of one version.
#[verifier::rlimit(100)]
fn write_resp_lines(procs: &Vec<Token>, wr: &mut CodeWriter) -> (r: Result<(), CompileError>)
    ensures
        match resp_lines_gen(toks_view(procs@), old(wr).indent as nat) {
            Ok(t) => r == Ok::<(), CompileError>(()) && final(wr).out@ == old(wr).out@ + t
                && final(wr).indent == old(wr).indent,
            Err(e) => r == Err::<(), CompileError>(e),
        },
{
    let ghost k = old(wr).indent as nat;
    let ghost all = toks_view(procs@);
    let ghost base_out = wr.out@;
    let mut i: usize = 0;
    let mut stopped = false;
    let ghost mut done_txt: Seq<char> = Seq::empty();
    proof {
        lemma_toks_view_len(procs@);
        assert(all.skip(0) =~= all);
        assert(base_out + done_txt =~= base_out);
    }
    while i < procs.len() && !stopped
        invariant
            i <= procs@.len(),
            all.len() == procs@.len(),
            all == toks_view(procs@),
            k == old(wr).indent as nat,
            wr.indent == k,
            wr.out@ == base_out + done_txt,
            stopped ==> resp_lines_gen(all, k) == Ok::<Seq<char>, CompileError>(done_txt),
            !stopped ==> resp_lines_gen(all, k) == (match resp_lines_gen(all.skip(i as int), k) {
                Ok(rest) => Ok::<Seq<char>, CompileError>(done_txt + rest),
                Err(e) => Err(e),
            }),
        decreases procs@.len() - i + (if stopped { 0int } else { 1int }),
    {
        proof {
            lemma_toks_view_index(procs@, i as int);
            assert(all.skip(i as int)[0] == all[i as int]);
            assert(all.skip(i as int).drop_first() =~= all.skip(i + 1));
        }
        match &procs[i] {
            Token::Proc { return_type, name, arg_types: _, id: _ } => {
                let n = match convert_basic_token(name, true) {
                    Some(n) => n,
                    None => {
                        return Err(CompileError::UnsupportedNode);
                    },
                };
                let is_void = match &**return_type {
                    Token::VoidDecl => true,
                    _ => false,
                };
                let ret: Option<String> = if is_void {
                    None
                } else {
                    match convert_basic_token(return_type, true) {
                        Some(t) => Some(t),
                        None => {
                            return Err(CompileError::UnsupportedNode);
                        },
                    }
                };
                wr.version_proc_response(n.as_str(), &ret);
                proof {
                    let rt0 = all[i as int]->Proc_return_type[0];
                    let retv = (match rt0 {
                        TokenV::VoidDecl => Option::<Seq<char>>::None,
                        _ => Some(spec_basic(rt0, true)->Some_0),
                    });
                    let t0 = crate::code_writer::proc_response_text(
                        k,
                        spec_basic(all[i as int]->Proc_name[0], true)->Some_0,
                        retv,
                    );
                    match resp_lines_gen(all.skip(i + 1), k) {
                        Ok(rest) => {
                            assert(done_txt + (t0 + rest) =~= (done_txt + t0) + rest);
                        },
                        Err(_) => {},
                    }
                    done_txt = done_txt + t0;
                    assert(wr.out@ =~= base_out + done_txt);
                }
            },
            _ => {
                stopped = true;
                proof {
                    assert(done_txt + Seq::<char>::empty() =~= done_txt);
                }
            },
        }
        if !stopped {
            i += 1;
        }
    }
    proof {
        if !stopped {
            assert(all.skip(i as int) =~= Seq::<TokenV>::empty());
            assert(done_txt + Seq::<char>::empty() =~= done_txt);
        }
    }
    Ok(())
}

/// Emit one version's request and response enums into the types stream.
#[verifier::rlimit(100)]
pub fn write_version(prog_name: &str, ver_num: i64, procs: &Vec<Token>, wr: &mut CodeWriter) -> (r:
    Result<(), CompileError>)
    requires
        old(wr).indent + 2 < crate::code_writer::MAX_DEPTH,
    ensures
        match spec_write_version(
            prog_name@,
            ver_num as int,
            toks_view(procs@),
            old(wr).indent as nat,
        ) {
            Ok(t) => r == Ok::<(), CompileError>(()) && final(wr).out@ == old(wr).out@ + t
                && final(wr).indent == old(wr).indent,
            Err(e) => r == Err::<(), CompileError>(e),
        },
{
    wr.program_version_request(prog_name, ver_num);
    match write_req_lines(procs, wr) {
        Ok(()) => {},
        Err(e) => {
            return Err(e);
        },
    }
    wr.close_block("");
    wr.program_version_response(prog_name, ver_num);
    match write_resp_lines(procs, wr) {
        Ok(()) => {},
        Err(e) => {
            return Err(e);
        },
    }
    wr.close_block("");
    proof {
        if let Ok(txt) = spec_write_version(
            prog_name@,
            ver_num as int,
            toks_view(procs@),
            old(wr).indent as nat,
        ) {
            assert(wr.out@ =~= old(wr).out@ + txt);
        }
    }
    Ok(())
}

/// One `V<n>(..)` wrapper line of a version-set enum.
pub open spec fn version_set_lines(
    versions: Seq<TokenV>,
    prog: Seq<char>,
    set_type: Seq<char>,
    k: nat,
) -> Seq<char>
    decreases versions.len(),
{
    if versions.len() == 0 {
        Seq::empty()
    } else {
        let line = (match versions[0] {
            TokenV::Version { name: _, id, procs: _ } => match id[0] {
                TokenV::Constant(n) => crate::code_writer::ind_text(k) + "V"@ + spec_dec(n) + "("@
                    + prog + set_type + "V"@ + spec_dec(n) + "),\n"@,
                _ => Seq::<char>::empty(),
            },
            _ => Seq::<char>::empty(),
        });
        line + version_set_lines(versions.drop_first(), prog, set_type, k)
    }
}

/// Emission of one program-wide request or response umbrella enum.
pub open spec fn spec_write_version_set(
    prog: Seq<char>,
    versions: Seq<TokenV>,
    set_type: Seq<char>,
    k: nat,
) -> Seq<char> {
    crate::code_writer::pub_enum_text(k, prog + set_type) + version_set_lines(
        versions,
        prog,
        set_type,
        (k + 1) as nat,
    ) + crate::function_writer::close_text(k, ""@)
}

/// The wrapper line of one version-set entry.
pub open spec fn version_set_line(v: TokenV, prog: Seq<char>, set_type: Seq<char>, k: nat) -> Seq<
    char,
> {
    match v {
        TokenV::Version { name: _, id, procs: _ } => match id[0] {
            TokenV::Constant(n) => crate::code_writer::ind_text(k) + "V"@ + spec_dec(n) + "("@
                + prog + set_type + "V"@ + spec_dec(n) + "),
"@,
            _ => Seq::<char>::empty(),
        },
        _ => Seq::<char>::empty(),
    }
}

/// Emit the wrapper line of one version-set entry.
#[verifier::rlimit(100)]
fn emit_version_set_line(v: &Token, prog_name: &str, set_type: &str, wr: &mut CodeWriter)
    ensures
        final(wr).out@ == old(wr).out@ + version_set_line(
            tok_view(v),
            prog_name@,
            set_type@,
            old(wr).indent as nat,
        ),
        final(wr).indent == old(wr).indent,
{
    match v {
        Token::Version { name: _, id, procs: _ } => {
            match &**id {
                Token::Constant(n) => {
                    let d = dec_string(*n);
                    let mut vn = String::new();
                    vn.append("V");
                    vn.append(d.as_str());
                    let mut inner = String::new();
                    inner.append(prog_name);
                    inner.append(set_type);
                    inner.append("V");
                    inner.append(d.as_str());
                    wr.enum_tuple_decl(vn.as_str(), inner.as_str());
                    proof {
                        if let TokenV::Version { name: _, id: vid, procs: _ } = tok_view(v) {
                            assert(vid == one(tok_view(&**id)));
                            assert(vid[0] == tok_view(&**id));
                            assert(tok_view(&**id) == TokenV::Constant(*n as int));
                        }
                        assert(wr.out@ =~= old(wr).out@ + version_set_line(
                            tok_view(v),
                            prog_name@,
                            set_type@,
                            old(wr).indent as nat,
                        ));
                    }
                },
                _ => {
                    proof {
                        lemma_tok_view_kind(id);
                        assert(wr.out@ =~= old(wr).out@ + version_set_line(
                            tok_view(v),
                            prog_name@,
                            set_type@,
                            old(wr).indent as nat,
                        ));
                    }
                },
            }
        },
        _ => {
            proof {
                assert(wr.out@ =~= old(wr).out@ + version_set_line(
                    tok_view(v),
                    prog_name@,
                    set_type@,
                    old(wr).indent as nat,
                ));
            }
        },
    }
}

/// Emit one umbrella enum wrapping a `V<n>` variant per declared version.
#[verifier::rlimit(100)]
pub fn write_version_set(prog_name: &str, versions: &Vec<Token>, set_type: &str, wr: &mut CodeWriter) -> (r: bool)
    requires
        old(wr).indent + 2 < crate::code_writer::MAX_DEPTH,
    ensures
        r,
        final(wr).out@ == old(wr).out@ + spec_write_version_set(
            prog_name@,
            toks_view(versions@),
            set_type@,
            old(wr).indent as nat,
        ),
        final(wr).indent == old(wr).indent,
{
    let ghost k = old(wr).indent as nat;
    let ghost all = toks_view(versions@);
    let mut ename = prog_name.to_owned();
    ename.append(set_type);
    wr.pub_enum(ename.as_str());
    let ghost base_out = wr.out@;
    let mut i: usize = 0;
    let ghost mut done_txt: Seq<char> = Seq::empty();
    proof {
        lemma_toks_view_len(versions@);
        assert(all.skip(0) =~= all);
        assert(base_out + done_txt =~= base_out);
    }
    while i < versions.len()
        invariant
            i <= versions@.len(),
            all.len() == versions@.len(),
            all == toks_view(versions@),
            k == old(wr).indent as nat,
            old(wr).indent + 2 < crate::code_writer::MAX_DEPTH,
            wr.indent == k + 1,
            wr.out@ == base_out + done_txt,
            version_set_lines(all, prog_name@, set_type@, (k + 1) as nat) == done_txt
                + version_set_lines(all.skip(i as int), prog_name@, set_type@, (k + 1) as nat),
        decreases versions@.len() - i,
    {
        proof {
            lemma_toks_view_index(versions@, i as int);
            assert(all.skip(i as int)[0] == all[i as int]);
            assert(all.skip(i as int).drop_first() =~= all.skip(i + 1));
        }
        let ghost pre = done_txt;
        emit_version_set_line(&versions[i], prog_name, set_type, wr);
        proof {
            let t0 = version_set_line(all[i as int], prog_name@, set_type@, (k + 1) as nat);
            assert(pre + (t0 + version_set_lines(
                all.skip(i + 1),
                prog_name@,
                set_type@,
                (k + 1) as nat,
            )) =~= (pre + t0) + version_set_lines(
                all.skip(i + 1),
                prog_name@,
                set_type@,
                (k + 1) as nat,
            ));
            done_txt = pre + t0;
            assert(wr.out@ =~= base_out + done_txt);
        }
        i += 1;
    }
    proof {
        assert(all.skip(versions@.len() as int) =~= Seq::<TokenV>::empty());
        assert(done_txt + Seq::<char>::empty() =~= done_txt);
    }
    wr.close_block("");
    proof {
        assert(wr.out@ =~= old(wr).out@ + spec_write_version_set(
            prog_name@,
            toks_view(versions@),
            set_type@,
            old(wr).indent as nat,
        ));
    }
    true
}

/// Emission of all per-version enums of one program; versions carrying an
/// unexpected shape are skipped.
pub open spec fn program_versions_gen(prog: Seq<char>, versions: Seq<TokenV>, k: nat) -> Result<
    Seq<char>,
    CompileError,
>
    decreases versions.len(),
{
    if versions.len() == 0 {
        Ok(Seq::empty())
    } else {
        let head = (match versions[0] {
            TokenV::Version { name: _, id, procs } => match id[0] {
                TokenV::Constant(n) => spec_write_version(prog, n, procs, k),
                _ => Ok(Seq::<char>::empty()),
            },
            _ => Ok(Seq::<char>::empty()),
        });
        match head {
            Ok(t) => match program_versions_gen(prog, versions.drop_first(), k) {
                Ok(rest) => Ok(t + rest),
                Err(e) => Err(e),
            },
            Err(e) => Err(e),
        }
    }
}

/// Emission of one program's umbrella enums and per-version enums.
pub open spec fn spec_write_program(prog_raw: Seq<char>, versions: Seq<TokenV>, k: nat) -> Result<
    Seq<char>,
    CompileError,
> {
    let prog = spec_rustify(prog_raw);
    match program_versions_gen(prog, versions, k) {
        Ok(t) => Ok(
            spec_write_version_set(prog, versions, "Request"@, k) + spec_write_version_set(
                prog,
                versions,
                "Response"@,
                k,
            ) + t,
        ),
        Err(e) => Err(e),
    }
}

/// Emit one program's request/response enums into the types stream.
#[verifier::rlimit(100)]
pub fn write_program(prog_name: &String, versions: &Vec<Token>, wr: &mut CodeWriter) -> (r: Result<
    (),
    CompileError,
>)
    requires
        old(wr).indent + 3 < crate::code_writer::MAX_DEPTH,
    ensures
        match spec_write_program(prog_name@, toks_view(versions@), old(wr).indent as nat) {
            Ok(t) => r == Ok::<(), CompileError>(()) && final(wr).out@ == old(wr).out@ + t
                && final(wr).indent == old(wr).indent,
            Err(e) => r == Err::<(), CompileError>(e),
        },
{
    let ghost k = old(wr).indent as nat;
    let ghost all = toks_view(versions@);
    let rust_prog_name = rustify(prog_name);
    write_version_set(rust_prog_name.as_str(), versions, "Request", wr);
    write_version_set(rust_prog_name.as_str(), versions, "Response", wr);
    let ghost base_out = wr.out@;
    let mut i: usize = 0;
    let ghost mut done_txt: Seq<char> = Seq::empty();
    proof {
        lemma_toks_view_len(versions@);
        assert(all.skip(0) =~= all);
        assert(base_out + done_txt =~= base_out);
    }
    while i < versions.len()
        invariant
            i <= versions@.len(),
            all.len() == versions@.len(),
            all == toks_view(versions@),
            rust_prog_name@ == spec_rustify(prog_name@),
            k == old(wr).indent as nat,
            old(wr).indent + 3 < crate::code_writer::MAX_DEPTH,
            wr.indent == k,
            wr.out@ == base_out + done_txt,
            program_versions_gen(rust_prog_name@, all, k) == (match program_versions_gen(
                rust_prog_name@,
                all.skip(i as int),
                k,
            ) {
                Ok(rest) => Ok::<Seq<char>, CompileError>(done_txt + rest),
                Err(e) => Err(e),
            }),
        decreases versions@.len() - i,
    {
        proof {
            lemma_toks_view_index(versions@, i as int);
            assert(all.skip(i as int)[0] == all[i as int]);
            assert(all.skip(i as int).drop_first() =~= all.skip(i + 1));
        }
        let ghost pre = done_txt;
        match &versions[i] {
            Token::Version { name: _, id, procs } => {
                match &**id {
                    Token::Constant(n) => {
                        let res = write_version(rust_prog_name.as_str(), *n, procs, wr);
                        match res {
                            Ok(()) => {
                                proof {
                                    let ghost mut vprocs: Seq<TokenV> = Seq::empty();
                                    if let TokenV::Version { name: _, id: vid, procs: vp } = all[i as int] {
                                        assert(vid[0] == tok_view(&**id));
                                        assert(vp == toks_view(procs@));
                                        vprocs = vp;
                                    }
                                    let t0 = spec_write_version(
                                        rust_prog_name@,
                                        *n as int,
                                        vprocs,
                                        k,
                                    )->Ok_0;
                                    match program_versions_gen(
                                        rust_prog_name@,
                                        all.skip(i + 1),
                                        k,
                                    ) {
                                        Ok(rest) => {
                                            assert(pre + (t0 + rest) =~= (pre + t0) + rest);
                                        },
                                        Err(_) => {},
                                    }
                                    done_txt = pre + t0;
                                    assert(wr.out@ =~= base_out + done_txt);
                                }
                            },
                            Err(e) => {
                                return Err(e);
                            },
                        }
                    },
                    _ => {
                        proof {
                            lemma_tok_view_kind(id);
                            if let TokenV::Version { name: _, id: vid, procs: _ } = all[i as int] {
                                assert(vid[0] == tok_view(&**id));
                            }
                            let rest0 = program_versions_gen(rust_prog_name@, all.skip(i + 1), k);
                            match rest0 {
                                Ok(rest) => {
                                    assert(pre + (Seq::<char>::empty() + rest) =~= pre + rest);
                                },
                                Err(_) => {},
                            }
                        }
                    },
                }
            },
            _ => {
                proof {
                    lemma_tok_view_kind(&versions@[i as int]);
                    let rest0 = program_versions_gen(rust_prog_name@, all.skip(i + 1), k);
                    match rest0 {
                        Ok(rest) => {
                            assert(pre + (Seq::<char>::empty() + rest) =~= pre + rest);
                        },
                        Err(_) => {},
                    }
                }
            },
        }
        i += 1;
    }
    proof {
        assert(all.skip(versions@.len() as int) =~= Seq::<TokenV>::empty());
        assert(done_txt + Seq::<char>::empty() =~= done_txt);
    }
    proof {
        if let Ok(txt) = spec_write_program(
            prog_name@,
            toks_view(versions@),
            old(wr).indent as nat,
        ) {
            assert(wr.out@ =~= old(wr).out@ + txt);
        }
    }
    Ok(())
}

/// Handler argument names `arg<i>`, one per non-void argument, keeping the
/// argument's position in its name.
pub open spec fn svc_args_upto(args: Seq<TokenV>, i: int) -> Seq<Seq<char>>
    decreases i,
{
    if i <= 0 {
        Seq::empty()
    } else {
        svc_args_upto(args, i - 1) + (if args[i - 1] is VoidDecl {
            Seq::empty()
        } else {
            seq!["arg"@ + spec_dec(i - 1)]
        })
    }
}

/// All handler argument names of one procedure.
pub open spec fn svc_arg_names(args: Seq<TokenV>) -> Seq<Seq<char>> {
    svc_args_upto(args, args.len() as int)
}

/// One service dispatch arm: match the request variant, call the handler,
/// wrap its result.
pub open spec fn spec_write_service_proc(
    prog: Seq<char>,
    ver: int,
    pname: TokenV,
    ret: TokenV,
    args: Seq<TokenV>,
    k: nat,
) -> Result<Seq<char>, CompileError> {
    match (spec_basic(pname, true), spec_basic(pname, false)) {
        (Some(pn), Some(pl)) => {
            let ns = svc_arg_names(args);
            let has_ret = !(ret is VoidDecl);
            Ok(
                crate::code_writer::match_option_text(
                    k,
                    prog + "RequestV"@ + spec_dec(ver) + "::"@ + pn,
                    ns,
                ) + crate::code_writer::ind_text((k + 1) as nat) + ("self."@
                    + crate::strutil::low_str(pl) + "_v"@ + spec_dec(ver) + "("@)
                    + crate::code_writer::comma_fields_text(ns) + ")"@
                    + crate::function_writer::wrap_proc_result_text(prog, ver, pn, has_ret)
                    + ".boxed()\n"@ + crate::function_writer::close_text(k, ","@),
            )
        },
        _ => Err(CompileError::UnsupportedNode),
    }
}

/// Build the handler argument name list of one procedure.
fn build_svc_args(arg_types: &Vec<Token>) -> (r: Vec<String>)
    ensures
        crate::code_writer::strs_view(r@) == svc_arg_names(toks_view(arg_types@)),
{
    let ghost all = toks_view(arg_types@);
    let mut out: Vec<String> = Vec::new();
    let mut i: usize = 0;
    proof {
        lemma_toks_view_len(arg_types@);
        assert(crate::code_writer::strs_view(out@) =~= svc_args_upto(all, 0));
    }
    while i < arg_types.len()
        invariant
            i <= arg_types@.len(),
            all.len() == arg_types@.len(),
            all == toks_view(arg_types@),
            crate::code_writer::strs_view(out@) == svc_args_upto(all, i as int),
        decreases arg_types@.len() - i,
    {
        proof {
            lemma_toks_view_index(arg_types@, i as int);
        }
        let is_void = match &arg_types[i] {
            Token::VoidDecl => true,
            _ => false,
        };
        proof {
            lemma_tok_view_kind(&arg_types@[i as int]);
        }
        if !is_void {
            let mut a = String::new();
            a.append("arg");
            let d = crate::decimal::dec_u64(i as u64);
            a.append(d.as_str());
            proof {
                assert(a@ =~= "arg"@ + spec_dec(i as int));
            }
            let ghost old_out = out@;
            out.push(a);
            proof {
                assert forall|j: int|
                    0 <= j < out@.len() implies crate::code_writer::strs_view(out@)[j]
                    == svc_args_upto(all, i + 1)[j] by {
                    if j < old_out.len() {
                        assert(crate::code_writer::strs_view(old_out)[j] == old_out[j]@);
                        assert(svc_args_upto(all, i as int)[j] == crate::code_writer::strs_view(
                            old_out,
                        )[j]);
                    }
                }
                assert(crate::code_writer::strs_view(out@).len() == svc_args_upto(
                    all,
                    i + 1,
                ).len());
                assert(crate::code_writer::strs_view(out@) =~= svc_args_upto(all, i + 1));
            }
        } else {
            proof {
                assert(crate::code_writer::strs_view(out@) =~= svc_args_upto(all, i + 1));
            }
        }
        i += 1;
    }
    out
}

/// Emit one service dispatch arm.
#[verifier::rlimit(100)]
pub fn write_service_proc(prog_name: &str, ver_num: i64, proc_name: &Token, ret_type: &Token, arg_types: &Vec<Token>, wr: &mut CodeWriter) -> (r: Result<(), CompileError>)
    requires
        old(wr).indent + 2 < crate::code_writer::MAX_DEPTH,
    ensures
        match spec_write_service_proc(
            prog_name@,
            ver_num as int,
            tok_view(proc_name),
            tok_view(ret_type),
            toks_view(arg_types@),
            old(wr).indent as nat,
        ) {
            Ok(t) => r == Ok::<(), CompileError>(()) && final(wr).out@ == old(wr).out@ + t
                && final(wr).indent == old(wr).indent,
            Err(e) => r == Err::<(), CompileError>(e),
        },
{
    let pn = match convert_basic_token(proc_name, true) {
        Some(n) => n,
        None => {
            return Err(CompileError::UnsupportedNode);
        },
    };
    let pl = match convert_basic_token(proc_name, false) {
        Some(n) => n,
        None => {
            return Err(CompileError::UnsupportedNode);
        },
    };
    let names = build_svc_args(arg_types);
    let d = dec_string(ver_num);
    let mut pat = prog_name.to_owned();
    pat.append("RequestV");
    pat.append(d.as_str());
    pat.append("::");
    pat.append(pn.as_str());
    let ghost k = old(wr).indent as nat;
    let ghost out0 = old(wr).out@;
    let ghost ns = svc_arg_names(toks_view(arg_types@));
    wr.match_option(pat.as_str(), &names);
    let ghost mut acc: Seq<char> = crate::code_writer::match_option_text(
        k,
        prog_name@ + "RequestV"@ + spec_dec(ver_num as int) + "::"@ + pn@,
        ns,
    );
    proof {
        assert(pat@ =~= prog_name@ + "RequestV"@ + spec_dec(ver_num as int) + "::"@ + pn@);
        assert(wr.out@ =~= out0 + acc);
    }
    let lowered = crate::strutil::to_lower(pl.as_str());
    let mut callt = String::new();
    callt.append("self.");
    callt.append(lowered.as_str());
    callt.append("_v");
    callt.append(d.as_str());
    callt.append("(");
    wr.write(callt.as_str());
    proof {
        assert(callt@ =~= "self."@ + crate::strutil::low_str(pl@) + "_v"@ + spec_dec(
            ver_num as int,
        ) + "("@);
        crate::function_writer::lemma_chunk_step(
            out0,
            acc,
            crate::code_writer::ind_text((k + 1) as nat),
        );
        crate::function_writer::lemma_chunk_step(
            out0,
            acc + crate::code_writer::ind_text((k + 1) as nat),
            callt@,
        );
        acc = (acc + crate::code_writer::ind_text((k + 1) as nat)) + callt@;
        assert(wr.out@ == out0 + acc);
    }
    wr.comma_fields(&names);
    proof {
        let t = crate::code_writer::comma_fields_text(ns);
        crate::function_writer::lemma_chunk_step(out0, acc, t);
        acc = acc + t;
        assert(wr.out@ == out0 + acc);
    }
    wr.raw_write(")");
    proof {
        crate::function_writer::lemma_chunk_step(out0, acc, ")"@);
        acc = acc + ")"@;
        assert(wr.out@ == out0 + acc);
    }
    let has_return = match ret_type {
        Token::VoidDecl => false,
        _ => true,
    };
    proof {
        lemma_tok_view_kind(ret_type);
    }
    crate::function_writer::wrap_proc_result(prog_name, ver_num, pn.as_str(), has_return, wr);
    proof {
        let t = crate::function_writer::wrap_proc_result_text(
            prog_name@,
            ver_num as int,
            pn@,
            has_return,
        );
        crate::function_writer::lemma_chunk_step(out0, acc, t);
        acc = acc + t;
        assert(wr.out@ == out0 + acc);
    }
    wr.raw_write(".boxed()\n");
    proof {
        crate::function_writer::lemma_chunk_step(out0, acc, ".boxed()\n"@);
        acc = acc + ".boxed()\n"@;
        assert(wr.out@ == out0 + acc);
    }
    wr.close_block(",");
    proof {
        crate::function_writer::lemma_close_step(out0, acc, k, ","@);
        acc = acc + crate::function_writer::close_text(k, ","@);
        assert(wr.out@ == out0 + acc);
        if let Ok(txt) = spec_write_service_proc(
            prog_name@,
            ver_num as int,
            tok_view(proc_name),
            tok_view(ret_type),
            toks_view(arg_types@),
            k,
        ) {
            assert(txt == acc);
        }
    }
    Ok(())
}

/// Service dispatch arms of one version's procedures; nodes of any other
/// kind are skipped.
pub open spec fn svc_procs_gen(prog: Seq<char>, ver: int, procs: Seq<TokenV>, k: nat) -> Result<
    Seq<char>,
    CompileError,
>
    decreases procs.len(),
{
    if procs.len() == 0 {
        Ok(Seq::empty())
    } else {
        let head = (match procs[0] {
            TokenV::Proc { return_type, name, arg_types, id: _ } => spec_write_service_proc(
                prog,
                ver,
                name[0],
                return_type[0],
                arg_types,
                k,
            ),
            _ => Ok(Seq::<char>::empty()),
        });
        match head {
            Ok(t) => match svc_procs_gen(prog, ver, procs.drop_first(), k) {
                Ok(rest) => Ok(t + rest),
                Err(e) => Err(e),
            },
            Err(e) => Err(e),
        }
    }
}

/// One version's arm of the service dispatch.
pub open spec fn spec_write_service_version(
    prog: Seq<char>,
    ver: int,
    procs: Seq<TokenV>,
    k: nat,
) -> Result<Seq<char>, CompileError> {
    match svc_procs_gen(prog, ver, procs, (k + 2) as nat) {
        Ok(arms) => Ok(
            crate::code_writer::match_option_text(
                k,
                prog + "Request::V"@ + spec_dec(ver),
                seq!["data"@],
            ) + crate::code_writer::ind_text((k + 1) as nat) + "let "@ + "res"@ + " = match "@
                + "data"@ + " {\n"@ + arms + crate::function_writer::decoder_miss_text(
                (k + 2) as nat,
                "future::err"@,
                ".boxed()"@,
                "procedure"@,
            ) + crate::function_writer::close_text((k + 1) as nat, ";"@)
                + crate::function_writer::wrap_version_result_text((k + 1) as nat, prog, ver)
                + crate::function_writer::close_text(k, ","@),
        ),
        Err(e) => Err(e),
    }
}

/// Emit the dispatch arms of one version's procedures.
#[verifier::rlimit(100)]
fn write_svc_proc_arms(prog_name: &str, ver_num: i64, procs: &Vec<Token>, wr: &mut CodeWriter) -> (r: Result<(), CompileError>)
    requires
        old(wr).indent + 2 < crate::code_writer::MAX_DEPTH,
    ensures
        match svc_procs_gen(prog_name@, ver_num as int, toks_view(procs@), old(wr).indent as nat) {
            Ok(t) => r == Ok::<(), CompileError>(()) && final(wr).out@ == old(wr).out@ + t
                && final(wr).indent == old(wr).indent,
            Err(e) => r == Err::<(), CompileError>(e),
        },
{
    let ghost k = old(wr).indent as nat;
    let ghost all = toks_view(procs@);
    let ghost base_out = wr.out@;
    let mut i: usize = 0;
    let ghost mut done_txt: Seq<char> = Seq::empty();
    proof {
        lemma_toks_view_len(procs@);
        assert(all.skip(0) =~= all);
        assert(base_out + done_txt =~= base_out);
    }
    while i < procs.len()
        invariant
            i <= procs@.len(),
            all.len() == procs@.len(),
            all == toks_view(procs@),
            k == old(wr).indent as nat,
            old(wr).indent + 2 < crate::code_writer::MAX_DEPTH,
            wr.indent == k,
            wr.out@ == base_out + done_txt,
            svc_procs_gen(prog_name@, ver_num as int, all, k) == (match svc_procs_gen(
                prog_name@,
                ver_num as int,
                all.skip(i as int),
                k,
            ) {
                Ok(rest) => Ok::<Seq<char>, CompileError>(done_txt + rest),
                Err(e) => Err(e),
            }),
        decreases procs@.len() - i,
    {
        proof {
            lemma_toks_view_index(procs@, i as int);
            assert(all.skip(i as int)[0] == all[i as int]);
            assert(all.skip(i as int).drop_first() =~= all.skip(i + 1));
        }
        let ghost pre = done_txt;
        match &procs[i] {
            Token::Proc { return_type, name, arg_types, id: _ } => {
                let res = write_service_proc(
                    prog_name,
                    ver_num,
                    name,
                    return_type,
                    arg_types,
                    wr,
                );
                match res {
                    Ok(()) => {
                        proof {
                            let ghost mut t0: Seq<char> = Seq::empty();
                            if let TokenV::Proc {
                                return_type: rt,
                                name: nm,
                                arg_types: ats,
                                id: _,
                            } = all[i as int] {
                                assert(nm[0] == tok_view(&**name));
                                assert(rt[0] == tok_view(&**return_type));
                                assert(ats == toks_view(arg_types@));
                                t0 = spec_write_service_proc(
                                    prog_name@,
                                    ver_num as int,
                                    nm[0],
                                    rt[0],
                                    ats,
                                    k,
                                )->Ok_0;
                            }
                            match svc_procs_gen(
                                prog_name@,
                                ver_num as int,
                                all.skip(i + 1),
                                k,
                            ) {
                                Ok(rest) => {
                                    assert(pre + (t0 + rest) =~= (pre + t0) + rest);
                                },
                                Err(_) => {},
                            }
                            done_txt = pre + t0;
                            assert(wr.out@ =~= base_out + done_txt);
                        }
                    },
                    Err(e) => {
                        return Err(e);
                    },
                }
            },
            _ => {
                proof {
                    lemma_tok_view_kind(&procs@[i as int]);
                    match svc_procs_gen(prog_name@, ver_num as int, all.skip(i + 1), k) {
                        Ok(rest) => {
                            assert(pre + (Seq::<char>::empty() + rest) =~= pre + rest);
                        },
                        Err(_) => {},
                    }
                }
            },
        }
        i += 1;
    }
    proof {
        assert(all.skip(procs@.len() as int) =~= Seq::<TokenV>::empty());
        assert(done_txt + Seq::<char>::empty() =~= done_txt);
    }
    Ok(())
}

/// Emit one version's arm of the service dispatch.
#[verifier::rlimit(100)]
pub fn write_service_version(prog_name: &str, ver_num: i64, procs: &Vec<Token>, wr: &mut CodeWriter) -> (r: Result<(), CompileError>)
    requires
        old(wr).indent + 4 < crate::code_writer::MAX_DEPTH,
    ensures
        match spec_write_service_version(
            prog_name@,
            ver_num as int,
            toks_view(procs@),
            old(wr).indent as nat,
        ) {
            Ok(t) => r == Ok::<(), CompileError>(()) && final(wr).out@ == old(wr).out@ + t
                && final(wr).indent == old(wr).indent,
            Err(e) => r == Err::<(), CompileError>(e),
        },
{
    let ghost k = old(wr).indent as nat;
    let ghost out0 = old(wr).out@;
    let d = dec_string(ver_num);
    let mut pat = prog_name.to_owned();
    pat.append("Request::V");
    pat.append(d.as_str());
    let mut fields: Vec<String> = Vec::new();
    fields.push("data".to_owned());
    proof {
        assert(crate::code_writer::strs_view(fields@) =~= seq!["data"@]);
    }
    wr.match_option(pat.as_str(), &fields);
    let ghost mut acc: Seq<char> = crate::code_writer::match_option_text(
        k,
        prog_name@ + "Request::V"@ + spec_dec(ver_num as int),
        seq!["data"@],
    );
    proof {
        assert(wr.out@ =~= out0 + acc);
    }
    wr.let_match_block("res", "data");
    proof {
        acc = acc + crate::code_writer::ind_text((k + 1) as nat) + "let "@ + "res"@ + " = match "@
            + "data"@ + " {\n"@;
        assert(wr.out@ =~= out0 + acc);
    }
    match write_svc_proc_arms(prog_name, ver_num, procs, wr) {
        Ok(()) => {},
        Err(e) => {
            return Err(e);
        },
    }
    proof {
        acc = acc + svc_procs_gen(
            prog_name@,
            ver_num as int,
            toks_view(procs@),
            (k + 2) as nat,
        )->Ok_0;
        assert(wr.out@ =~= out0 + acc);
    }
    crate::function_writer::decoder_miss_future("procedure", wr);
    proof {
        acc = acc + crate::function_writer::decoder_miss_text(
            (k + 2) as nat,
            "future::err"@,
            ".boxed()"@,
            "procedure"@,
        );
        assert(wr.out@ =~= out0 + acc);
    }
    wr.close_block(";");
    proof {
        acc = acc + crate::function_writer::close_text((k + 1) as nat, ";"@);
        assert(wr.out@ =~= out0 + acc);
    }
    crate::function_writer::wrap_version_result(prog_name, ver_num, wr);
    proof {
        acc = acc + crate::function_writer::wrap_version_result_text(
            (k + 1) as nat,
            prog_name@,
            ver_num as int,
        );
        assert(wr.out@ =~= out0 + acc);
    }
    wr.close_block(",");
    proof {
        acc = acc + crate::function_writer::close_text(k, ","@);
        assert(wr.out@ =~= out0 + acc);
        if let Ok(txt) = spec_write_service_version(
            prog_name@,
            ver_num as int,
            toks_view(procs@),
            k,
        ) {
            assert(txt =~= acc);
        }
    }
    Ok(())
}

/// The version arms of one program's service dispatch; entries that are not
/// versions with numeric ids are skipped.
pub open spec fn svc_versions_gen(prog: Seq<char>, versions: Seq<TokenV>, k: nat) -> Result<
    Seq<char>,
    CompileError,
>
    decreases versions.len(),
{
    if versions.len() == 0 {
        Ok(Seq::empty())
    } else {
        let head = (match versions[0] {
            TokenV::Version { name: _, id, procs } => match id[0] {
                TokenV::Constant(n) => spec_write_service_version(prog, n, procs, k),
                _ => Ok(Seq::<char>::empty()),
            },
            _ => Ok(Seq::<char>::empty()),
        });
        match head {
            Ok(t) => match svc_versions_gen(prog, versions.drop_first(), k) {
                Ok(rest) => Ok(t + rest),
                Err(e) => Err(e),
            },
            Err(e) => Err(e),
        }
    }
}

/// Emission of one program's service scaffolding.
pub open spec fn spec_write_service(prog_raw: Seq<char>, versions: Seq<TokenV>, k: nat) -> Result<
    Seq<char>,
    CompileError,
> {
    let rust = spec_rustify(prog_raw);
    match svc_versions_gen(rust, versions, (k + 3) as nat) {
        Ok(arms) => Ok(
            crate::code_writer::ind_text(k) + "impl Service for "@ + (rust + "Service"@) + " {\n"@
                + crate::code_writer::alias_text(
                (k + 1) as nat,
                ""@,
                "Request"@,
                "xdr_rpc::XdrRequest<"@ + rust + "Request>"@,
            ) + crate::code_writer::alias_text(
                (k + 1) as nat,
                ""@,
                "Response"@,
                "xdr_rpc::XdrResponse<"@ + rust + "Response>"@,
            ) + crate::code_writer::alias_text((k + 1) as nat, ""@, "Error"@, "io::Error"@)
                + crate::code_writer::alias_text(
                (k + 1) as nat,
                ""@,
                "Future"@,
                "BoxFuture<Self::Response, Self::Error>"@,
            ) + crate::code_writer::open_block_text(
                (k + 1) as nat,
                "fn call (&self, req: Self::Request) -> Self::Future"@,
            ) + crate::code_writer::line_text((k + 2) as nat, "let xid = req.xid;"@)
                + crate::code_writer::ind_text((k + 2) as nat) + "match "@ + "req.val"@ + "  {\n"@
                + arms + crate::function_writer::decoder_miss_text(
                (k + 3) as nat,
                "future::err"@,
                ".boxed()"@,
                "version"@,
            ) + crate::function_writer::close_text((k + 2) as nat, ""@)
                + crate::function_writer::close_text((k + 1) as nat, ""@)
                + crate::function_writer::close_text(k, ""@),
        ),
        Err(e) => Err(e),
    }
}

/// Emit the fixed head of one program's service impl, through the opening
/// of the dispatch match.
#[verifier::rlimit(100)]
fn service_prelude(rust: &str, wr: &mut CodeWriter)
    requires
        old(wr).indent + 7 < crate::code_writer::MAX_DEPTH,
    ensures
        final(wr).out@ == old(wr).out@ + (crate::code_writer::ind_text(old(wr).indent as nat)
            + "impl Service for "@ + (rust@ + "Service"@) + " {\n"@ + crate::code_writer::alias_text(
            (old(wr).indent + 1) as nat,
            ""@,
            "Request"@,
            "xdr_rpc::XdrRequest<"@ + rust@ + "Request>"@,
        ) + crate::code_writer::alias_text(
            (old(wr).indent + 1) as nat,
            ""@,
            "Response"@,
            "xdr_rpc::XdrResponse<"@ + rust@ + "Response>"@,
        ) + crate::code_writer::alias_text(
            (old(wr).indent + 1) as nat,
            ""@,
            "Error"@,
            "io::Error"@,
        ) + crate::code_writer::alias_text(
            (old(wr).indent + 1) as nat,
            ""@,
            "Future"@,
            "BoxFuture<Self::Response, Self::Error>"@,
        ) + crate::code_writer::open_block_text(
            (old(wr).indent + 1) as nat,
            "fn call (&self, req: Self::Request) -> Self::Future"@,
        ) + crate::code_writer::line_text((old(wr).indent + 2) as nat, "let xid = req.xid;"@)
            + crate::code_writer::ind_text((old(wr).indent + 2) as nat) + "match "@ + "req.val"@
            + "  {\n"@),
        final(wr).indent == old(wr).indent + 3,
{
    let ghost k = old(wr).indent as nat;
    let ghost out0 = old(wr).out@;
    let mut svc = rust.to_owned();
    svc.append("Service");
    wr.program_version_service(svc.as_str());
    let ghost mut acc: Seq<char> = crate::code_writer::ind_text(k) + "impl Service for "@ + (rust@
        + "Service"@) + " {\n"@;
    proof {
        assert(wr.out@ =~= out0 + acc);
    }
    let mut t1 = String::new();
    t1.append("xdr_rpc::XdrRequest<");
    t1.append(rust);
    t1.append("Request>");
    wr.alias("Request", t1.as_str());
    proof {
        acc = acc + crate::code_writer::alias_text(
            (k + 1) as nat,
            ""@,
            "Request"@,
            "xdr_rpc::XdrRequest<"@ + rust@ + "Request>"@,
        );
        assert(wr.out@ =~= out0 + acc);
    }
    let mut t2 = String::new();
    t2.append("xdr_rpc::XdrResponse<");
    t2.append(rust);
    t2.append("Response>");
    wr.alias("Response", t2.as_str());
    proof {
        acc = acc + crate::code_writer::alias_text(
            (k + 1) as nat,
            ""@,
            "Response"@,
            "xdr_rpc::XdrResponse<"@ + rust@ + "Response>"@,
        );
        assert(wr.out@ =~= out0 + acc);
    }
    wr.alias("Error", "io::Error");
    proof {
        acc = acc + crate::code_writer::alias_text((k + 1) as nat, ""@, "Error"@, "io::Error"@);
        assert(wr.out@ =~= out0 + acc);
    }
    wr.alias("Future", "BoxFuture<Self::Response, Self::Error>");
    proof {
        acc = acc + crate::code_writer::alias_text(
            (k + 1) as nat,
            ""@,
            "Future"@,
            "BoxFuture<Self::Response, Self::Error>"@,
        );
        assert(wr.out@ =~= out0 + acc);
    }
    wr.dispatch_function();
    proof {
        acc = acc + crate::code_writer::open_block_text(
            (k + 1) as nat,
            "fn call (&self, req: Self::Request) -> Self::Future"@,
        );
        assert(wr.out@ =~= out0 + acc);
    }
    wr.write_line("let xid = req.xid;");
    proof {
        acc = acc + crate::code_writer::line_text((k + 2) as nat, "let xid = req.xid;"@);
        assert(wr.out@ =~= out0 + acc);
    }
    wr.match_block("req.val");
    proof {
        acc = acc + crate::code_writer::ind_text((k + 2) as nat) + "match "@ + "req.val"@
            + "  {\n"@;
        assert(wr.out@ =~= out0 + acc);
    }
}

/// Emit the version arms of one program's service dispatch.
#[verifier::rlimit(100)]
fn write_svc_version_arms(rust: &String, versions: &Vec<Token>, wr: &mut CodeWriter) -> (r: Result<
    (),
    CompileError,
>)
    requires
        old(wr).indent + 4 < crate::code_writer::MAX_DEPTH,
    ensures
        match svc_versions_gen(rust@, toks_view(versions@), old(wr).indent as nat) {
            Ok(t) => r == Ok::<(), CompileError>(()) && final(wr).out@ == old(wr).out@ + t
                && final(wr).indent == old(wr).indent,
            Err(e) => r == Err::<(), CompileError>(e),
        },
{
    let ghost k = old(wr).indent as nat;
    let ghost all = toks_view(versions@);
    let ghost base_out = wr.out@;
    let mut i: usize = 0;
    let ghost mut done_txt: Seq<char> = Seq::empty();
    proof {
        lemma_toks_view_len(versions@);
        assert(all.skip(0) =~= all);
        assert(base_out + done_txt =~= base_out);
    }
    while i < versions.len()
        invariant
            i <= versions@.len(),
            all.len() == versions@.len(),
            all == toks_view(versions@),
            k == old(wr).indent as nat,
            old(wr).indent + 4 < crate::code_writer::MAX_DEPTH,
            wr.indent == k,
            wr.out@ == base_out + done_txt,
            svc_versions_gen(rust@, all, k) == (match svc_versions_gen(
                rust@,
                all.skip(i as int),
                k,
            ) {
                Ok(rest) => Ok::<Seq<char>, CompileError>(done_txt + rest),
                Err(e) => Err(e),
            }),
        decreases versions@.len() - i,
    {
        proof {
            lemma_toks_view_index(versions@, i as int);
            assert(all.skip(i as int)[0] == all[i as int]);
            assert(all.skip(i as int).drop_first() =~= all.skip(i + 1));
        }
        let ghost pre = done_txt;
        match &versions[i] {
            Token::Version { name: _, id, procs } => {
                match &**id {
                    Token::Constant(n) => {
                        let res = write_service_version(rust.as_str(), *n, procs, wr);
                        match res {
                            Ok(()) => {
                                proof {
                                    let ghost mut t0: Seq<char> = Seq::empty();
                                    if let TokenV::Version { name: _, id: vid, procs: vp } = all[i as int] {
                                        assert(vid[0] == tok_view(&**id));
                                        assert(vp == toks_view(procs@));
                                        t0 = spec_write_service_version(
                                            rust@,
                                            *n as int,
                                            vp,
                                            k,
                                        )->Ok_0;
                                    }
                                    match svc_versions_gen(rust@, all.skip(i + 1), k) {
                                        Ok(rest) => {
                                            assert(pre + (t0 + rest) =~= (pre + t0) + rest);
                                        },
                                        Err(_) => {},
                                    }
                                    done_txt = pre + t0;
                                    assert(wr.out@ =~= base_out + done_txt);
                                }
                            },
                            Err(e) => {
                                return Err(e);
                            },
                        }
                    },
                    _ => {
                        proof {
                            lemma_tok_view_kind(id);
                            if let TokenV::Version { name: _, id: vid, procs: _ } = all[i as int] {
                                assert(vid[0] == tok_view(&**id));
                            }
                            match svc_versions_gen(rust@, all.skip(i + 1), k) {
                                Ok(rest) => {
                                    assert(pre + (Seq::<char>::empty() + rest) =~= pre + rest);
                                },
                                Err(_) => {},
                            }
                        }
                    },
                }
            },
            _ => {
                proof {
                    lemma_tok_view_kind(&versions@[i as int]);
                    match svc_versions_gen(rust@, all.skip(i + 1), k) {
                        Ok(rest) => {
                            assert(pre + (Seq::<char>::empty() + rest) =~= pre + rest);
                        },
                        Err(_) => {},
                    }
                }
            },
        }
        i += 1;
    }
    proof {
        assert(all.skip(versions@.len() as int) =~= Seq::<TokenV>::empty());
        assert(done_txt + Seq::<char>::empty() =~= done_txt);
    }
    Ok(())
}

/// Emit one program's service scaffolding into the service stream.
#[verifier::rlimit(100)]
pub fn write_service(prog_name: &String, versions: &Vec<Token>, wr: &mut CodeWriter) -> (r: Result<
    (),
    CompileError,
>)
    requires
        old(wr).indent + 7 < crate::code_writer::MAX_DEPTH,
    ensures
        match spec_write_service(prog_name@, toks_view(versions@), old(wr).indent as nat) {
            Ok(t) => r == Ok::<(), CompileError>(()) && final(wr).out@ == old(wr).out@ + t
                && final(wr).indent == old(wr).indent,
            Err(e) => r == Err::<(), CompileError>(e),
        },
{
    let ghost k = old(wr).indent as nat;
    let ghost out0 = old(wr).out@;
    let rust_prog_name = rustify(prog_name);
    let ghost rust = rust_prog_name@;
    service_prelude(rust_prog_name.as_str(), wr);
    let ghost mut acc: Seq<char> = crate::code_writer::ind_text(k) + "impl Service for "@ + (rust
        + "Service"@) + " {\n"@ + crate::code_writer::alias_text(
        (k + 1) as nat,
        ""@,
        "Request"@,
        "xdr_rpc::XdrRequest<"@ + rust + "Request>"@,
    ) + crate::code_writer::alias_text(
        (k + 1) as nat,
        ""@,
        "Response"@,
        "xdr_rpc::XdrResponse<"@ + rust + "Response>"@,
    ) + crate::code_writer::alias_text((k + 1) as nat, ""@, "Error"@, "io::Error"@)
        + crate::code_writer::alias_text(
        (k + 1) as nat,
        ""@,
        "Future"@,
        "BoxFuture<Self::Response, Self::Error>"@,
    ) + crate::code_writer::open_block_text(
        (k + 1) as nat,
        "fn call (&self, req: Self::Request) -> Self::Future"@,
    ) + crate::code_writer::line_text((k + 2) as nat, "let xid = req.xid;"@)
        + crate::code_writer::ind_text((k + 2) as nat) + "match "@ + "req.val"@ + "  {\n"@;
    proof {
        assert(wr.out@ == out0 + acc);
    }
    match write_svc_version_arms(&rust_prog_name, versions, wr) {
        Ok(()) => {},
        Err(e) => {
            return Err(e);
        },
    }
    proof {
        let t = svc_versions_gen(rust, toks_view(versions@), (k + 3) as nat)->Ok_0;
        vstd::seq_lib::lemma_concat_associative(out0, acc, t);
        acc = acc + t;
        assert(wr.out@ == out0 + acc);
    }
    crate::function_writer::decoder_miss_future("version", wr);
    proof {
        let t = crate::function_writer::decoder_miss_text(
            (k + 3) as nat,
            "future::err"@,
            ".boxed()"@,
            "version"@,
        );
        vstd::seq_lib::lemma_concat_associative(out0, acc, t);
        acc = acc + t;
        assert(wr.out@ == out0 + acc);
    }
    wr.close_block("");
    proof {
        let a1 = crate::code_writer::ind_text((k + 2) as nat);
        let a2 = "}"@;
        let a3 = ""@;
        let a4 = "\n"@;
        vstd::seq_lib::lemma_concat_associative(out0, acc, a1);
        vstd::seq_lib::lemma_concat_associative(out0, acc + a1, a2);
        vstd::seq_lib::lemma_concat_associative(out0, (acc + a1) + a2, a3);
        vstd::seq_lib::lemma_concat_associative(out0, ((acc + a1) + a2) + a3, a4);
        vstd::seq_lib::lemma_concat_associative(acc, a1, a2);
        vstd::seq_lib::lemma_concat_associative(acc, a1 + a2, a3);
        vstd::seq_lib::lemma_concat_associative(acc, (a1 + a2) + a3, a4);
        acc = acc + crate::function_writer::close_text((k + 2) as nat, ""@);
        assert(wr.out@ == out0 + acc);
    }
    wr.close_block("");
    proof {
        let a1 = crate::code_writer::ind_text((k + 1) as nat);
        let a2 = "}"@;
        let a3 = ""@;
        let a4 = "\n"@;
        vstd::seq_lib::lemma_concat_associative(out0, acc, a1);
        vstd::seq_lib::lemma_concat_associative(out0, acc + a1, a2);
        vstd::seq_lib::lemma_concat_associative(out0, (acc + a1) + a2, a3);
        vstd::seq_lib::lemma_concat_associative(out0, ((acc + a1) + a2) + a3, a4);
        vstd::seq_lib::lemma_concat_associative(acc, a1, a2);
        vstd::seq_lib::lemma_concat_associative(acc, a1 + a2, a3);
        vstd::seq_lib::lemma_concat_associative(acc, (a1 + a2) + a3, a4);
        acc = acc + crate::function_writer::close_text((k + 1) as nat, ""@);
        assert(wr.out@ == out0 + acc);
    }
    wr.close_block("");
    proof {
        let a1 = crate::code_writer::ind_text(k);
        let a2 = "}"@;
        let a3 = ""@;
        let a4 = "\n"@;
        vstd::seq_lib::lemma_concat_associative(out0, acc, a1);
        vstd::seq_lib::lemma_concat_associative(out0, acc + a1, a2);
        vstd::seq_lib::lemma_concat_associative(out0, (acc + a1) + a2, a3);
        vstd::seq_lib::lemma_concat_associative(out0, ((acc + a1) + a2) + a3, a4);
        vstd::seq_lib::lemma_concat_associative(acc, a1, a2);
        vstd::seq_lib::lemma_concat_associative(acc, a1 + a2, a3);
        vstd::seq_lib::lemma_concat_associative(acc, (a1 + a2) + a3, a4);
        acc = acc + crate::function_writer::close_text(k, ""@);
        assert(wr.out@ == out0 + acc);
        if let Ok(txt) = spec_write_service(prog_name@, toks_view(versions@), k) {
            assert(txt == acc);
        }
    }
    Ok(())
}

// ---------------------------------------------------------------------------
// Decode and encode dispatch trees
// ---------------------------------------------------------------------------
/// Argument-decoding lines of one procedure; `i` numbers the non-void
/// arguments consecutively. Returns the text and the final count.
pub open spec fn proc_args_dec_gen(args: Seq<TokenV>, k: nat, i: int) -> Result<
    (Seq<char>, int),
    CompileError,
>
    decreases args.len(),
{
    if args.len() == 0 {
        Ok((Seq::empty(), i))
    } else {
        match args[0] {
            TokenV::VoidDecl => proc_args_dec_gen(args.drop_first(), k, i),
            _ => match spec_basic(args[0], true) {
                Some(t) => match proc_args_dec_gen(args.drop_first(), k, i + 1) {
                    Ok((rest, n)) => Ok(
                        (crate::function_writer::proc_arg_decoder_text(k, i, t) + rest, n),
                    ),
                    Err(e) => Err(e),
                },
                None => Err(CompileError::UnsupportedNode),
            },
        }
    }
}

/// Emission of one procedure-level decode function.
pub open spec fn spec_write_proc_decoder(
    prog_raw: Seq<char>,
    ver: int,
    pname: TokenV,
    args: Seq<TokenV>,
    k: nat,
) -> Result<Seq<char>, CompileError> {
    match (spec_basic(pname, false), spec_basic(pname, true)) {
        (Some(pl), Some(pn)) => {
            let fn_name = crate::strutil::low_str(prog_raw) + "_decode_v"@ + spec_dec(ver) + "_"@
                + crate::strutil::low_str(pl);
            match proc_args_dec_gen(args, (k + 1) as nat, 0) {
                Ok((atxt, n)) => Ok(
                    crate::function_writer::proc_decoder_text(
                        k,
                        spec_rustify(prog_raw),
                        fn_name,
                        ver,
                    ) + atxt + crate::function_writer::proc_decoder_finalize_text(
                        (k + 1) as nat,
                        spec_rustify(prog_raw) + "RequestV"@ + spec_dec(ver),
                        pn,
                        n,
                    ) + crate::function_writer::close_text(k, ""@),
                ),
                Err(e) => Err(e),
            }
        },
        _ => Err(CompileError::UnsupportedNode),
    }
}

/// Emit the argument-decoding lines of one procedure; returns the count of
/// non-void arguments.
#[verifier::rlimit(100)]
fn write_proc_args_dec(arg_types: &Vec<Token>, wr: &mut CodeWriter) -> (r: Result<
    usize,
    CompileError,
>)
    ensures
        match proc_args_dec_gen(toks_view(arg_types@), old(wr).indent as nat, 0) {
            Ok(p) => r matches Ok(n) && n == p.1 && final(wr).out@ == old(wr).out@ + p.0
                && final(wr).indent == old(wr).indent,
            Err(e) => r == Err::<usize, CompileError>(e),
        },
{
    let ghost k = old(wr).indent as nat;
    let ghost all = toks_view(arg_types@);
    let ghost base_out = wr.out@;
    let mut i: usize = 0;
    let mut count: usize = 0;
    let ghost mut done_txt: Seq<char> = Seq::empty();
    proof {
        lemma_toks_view_len(arg_types@);
        assert(all.skip(0) =~= all);
        assert(base_out + done_txt =~= base_out);
    }
    while i < arg_types.len()
        invariant
            i <= arg_types@.len(),
            count <= i,
            all.len() == arg_types@.len(),
            all == toks_view(arg_types@),
            k == old(wr).indent as nat,
            wr.indent == k,
            wr.out@ == base_out + done_txt,
            proc_args_dec_gen(all, k, 0) == (match proc_args_dec_gen(
                all.skip(i as int),
                k,
                count as int,
            ) {
                Ok((rest, n)) => Ok::<(Seq<char>, int), CompileError>((done_txt + rest, n)),
                Err(e) => Err(e),
            }),
        decreases arg_types@.len() - i,
    {
        proof {
            lemma_toks_view_index(arg_types@, i as int);
            assert(all.skip(i as int)[0] == all[i as int]);
            assert(all.skip(i as int).drop_first() =~= all.skip(i + 1));
        }
        let is_void = match &arg_types[i] {
            Token::VoidDecl => true,
            _ => false,
        };
        proof {
            lemma_tok_view_kind(&arg_types@[i as int]);
        }
        if !is_void {
            match convert_basic_token(&arg_types[i], true) {
                Some(t) => {
                    crate::function_writer::proc_arg_decoder(count, t.as_str(), wr);
                    proof {
                        let t0 = crate::function_writer::proc_arg_decoder_text(
                            k,
                            count as int,
                            t@,
                        );
                        match proc_args_dec_gen(all.skip(i + 1), k, count + 1) {
                            Ok((rest, _n)) => {
                                assert(done_txt + (t0 + rest) =~= (done_txt + t0) + rest);
                            },
                            Err(_) => {},
                        }
                        done_txt = done_txt + t0;
                        assert(wr.out@ =~= base_out + done_txt);
                    }
                    count += 1;
                },
                None => {
                    return Err(CompileError::UnsupportedNode);
                },
            }
        }
        i += 1;
    }
    proof {
        assert(all.skip(arg_types@.len() as int) =~= Seq::<TokenV>::empty());
        assert(done_txt + Seq::<char>::empty() =~= done_txt);
    }
    Ok(count)
}

/// Emit one procedure-level decode function into the types stream.
#[verifier::rlimit(100)]
pub fn write_proc_decoder(prog_name: &String, ver_num: i64, proc_name: &Token, arg_types: &Vec<Token>, wr: &mut CodeWriter) -> (r: Result<(), CompileError>)
    requires
        old(wr).indent + 2 < crate::code_writer::MAX_DEPTH,
    ensures
        match spec_write_proc_decoder(
            prog_name@,
            ver_num as int,
            tok_view(proc_name),
            toks_view(arg_types@),
            old(wr).indent as nat,
        ) {
            Ok(t) => r == Ok::<(), CompileError>(()) && final(wr).out@ == old(wr).out@ + t
                && final(wr).indent == old(wr).indent,
            Err(e) => r == Err::<(), CompileError>(e),
        },
{
    let ghost k = old(wr).indent as nat;
    let ghost out0 = old(wr).out@;
    let pl = match convert_basic_token(proc_name, false) {
        Some(n) => n,
        None => {
            return Err(CompileError::UnsupportedNode);
        },
    };
    let pn = match convert_basic_token(proc_name, true) {
        Some(n) => n,
        None => {
            return Err(CompileError::UnsupportedNode);
        },
    };
    let rust = rustify(prog_name);
    let lower = crate::strutil::to_lower(prog_name.as_str());
    let pll = crate::strutil::to_lower(pl.as_str());
    let d = dec_string(ver_num);
    let mut fn_name = lower;
    fn_name.append("_decode_v");
    fn_name.append(d.as_str());
    fn_name.append("_");
    fn_name.append(pll.as_str());
    crate::function_writer::proc_decoder(rust.as_str(), fn_name.as_str(), ver_num, wr);
    let ghost mut acc: Seq<char> = crate::function_writer::proc_decoder_text(
        k,
        spec_rustify(prog_name@),
        crate::strutil::low_str(prog_name@) + "_decode_v"@ + spec_dec(ver_num as int) + "_"@
            + crate::strutil::low_str(pl@),
        ver_num as int,
    );
    proof {
        assert(wr.out@ == out0 + acc);
    }
    let n = match write_proc_args_dec(arg_types, wr) {
        Ok(n) => n,
        Err(e) => {
            return Err(e);
        },
    };
    proof {
        let t = proc_args_dec_gen(toks_view(arg_types@), (k + 1) as nat, 0)->Ok_0.0;
        crate::function_writer::lemma_chunk_step(out0, acc, t);
        acc = acc + t;
        assert(wr.out@ == out0 + acc);
    }
    let mut req_type = rust;
    req_type.append("RequestV");
    req_type.append(d.as_str());
    crate::function_writer::proc_decoder_finalize(req_type.as_str(), pn.as_str(), n, wr);
    proof {
        let t = crate::function_writer::proc_decoder_finalize_text(
            (k + 1) as nat,
            spec_rustify(prog_name@) + "RequestV"@ + spec_dec(ver_num as int),
            pn@,
            n as int,
        );
        crate::function_writer::lemma_chunk_step(out0, acc, t);
        acc = acc + t;
        assert(wr.out@ == out0 + acc);
    }
    wr.close_block("");
    proof {
        crate::function_writer::lemma_close_step(out0, acc, k, ""@);
        acc = acc + crate::function_writer::close_text(k, ""@);
        assert(wr.out@ == out0 + acc);
        if let Ok(txt) = spec_write_proc_decoder(
            prog_name@,
            ver_num as int,
            tok_view(proc_name),
            toks_view(arg_types@),
            k,
        ) {
            assert(txt == acc);
        }
    }
    Ok(())
}

/// Procedure arms of one version decoder's `match`.
pub open spec fn vd_arms_gen(procs: Seq<TokenV>, vfn: Seq<char>, k: nat) -> Result<
    Seq<char>,
    CompileError,
>
    decreases procs.len(),
{
    if procs.len() == 0 {
        Ok(Seq::empty())
    } else {
        let head = (match procs[0] {
            TokenV::Proc { return_type: _, name, arg_types: _, id } => match spec_basic(
                name[0],
                false,
            ) {
                Some(pl) => match id[0] {
                    TokenV::Constant(n) => Ok(
                        crate::code_writer::match_option_text(
                            k,
                            spec_dec(n) + "u32"@,
                            Seq::empty(),
                        ) + crate::code_writer::line_text(
                            (k + 1) as nat,
                            (vfn + "_"@ + crate::strutil::low_str(pl)) + "(buf)"@,
                        ) + crate::function_writer::close_text(k, ","@),
                    ),
                    _ => Ok(Seq::<char>::empty()),
                },
                None => Err(CompileError::UnsupportedNode),
            },
            _ => Ok(Seq::<char>::empty()),
        });
        match head {
            Ok(t) => match vd_arms_gen(procs.drop_first(), vfn, k) {
                Ok(rest) => Ok(t + rest),
                Err(e) => Err(e),
            },
            Err(e) => Err(e),
        }
    }
}

/// The procedure decoders that follow one version decoder.
pub open spec fn vd_procs_gen(prog_raw: Seq<char>, ver: int, procs: Seq<TokenV>, k: nat) -> Result<
    Seq<char>,
    CompileError,
>
    decreases procs.len(),
{
    if procs.len() == 0 {
        Ok(Seq::empty())
    } else {
        let head = (match procs[0] {
            TokenV::Proc { return_type: _, name, arg_types, id: _ } => spec_write_proc_decoder(
                prog_raw,
                ver,
                name[0],
                arg_types,
                k,
            ),
            _ => Ok(Seq::<char>::empty()),
        });
        match head {
            Ok(t) => match vd_procs_gen(prog_raw, ver, procs.drop_first(), k) {
                Ok(rest) => Ok(t + rest),
                Err(e) => Err(e),
            },
            Err(e) => Err(e),
        }
    }
}

/// Emission of one version-level decode function and its procedure
/// decoders.
pub open spec fn spec_write_version_decoder(
    prog_raw: Seq<char>,
    ver: int,
    procs: Seq<TokenV>,
    k: nat,
) -> Result<Seq<char>, CompileError> {
    let vfn = crate::strutil::low_str(prog_raw) + "_decode_v"@ + spec_dec(ver);
    match vd_arms_gen(procs, vfn, (k + 2) as nat) {
        Ok(arms) => match vd_procs_gen(prog_raw, ver, procs, k) {
            Ok(pds) => Ok(
                crate::function_writer::version_decoder_text(k, spec_rustify(prog_raw), vfn)
                    + crate::code_writer::ind_text((k + 1) as nat) + "let "@ + "request"@
                    + " = match "@ + "procedure"@ + " {\n"@ + arms
                    + crate::function_writer::decoder_miss_text(
                    (k + 2) as nat,
                    "Err"@,
                    ""@,
                    "procedure"@,
                ) + crate::function_writer::close_text((k + 1) as nat, ";"@)
                    + crate::function_writer::version_decoder_finalize_text(
                    (k + 1) as nat,
                    spec_rustify(prog_raw),
                    ver,
                ) + crate::function_writer::close_text(k, ""@) + pds,
            ),
            Err(e) => Err(e),
        },
        Err(e) => Err(e),
    }
}

/// Emit the procedure arms of one version decoder's `match`.
#[verifier::rlimit(100)]
fn write_vd_arms(procs: &Vec<Token>, vfn: &String, wr: &mut CodeWriter) -> (r: Result<
    (),
    CompileError,
>)
    requires
        old(wr).indent + 2 < crate::code_writer::MAX_DEPTH,
    ensures
        match vd_arms_gen(toks_view(procs@), vfn@, old(wr).indent as nat) {
            Ok(t) => r == Ok::<(), CompileError>(()) && final(wr).out@ == old(wr).out@ + t
                && final(wr).indent == old(wr).indent,
            Err(e) => r == Err::<(), CompileError>(e),
        },
{
    let ghost k = old(wr).indent as nat;
    let ghost all = toks_view(procs@);
    let ghost base_out = wr.out@;
    let mut i: usize = 0;
    let ghost mut done_txt: Seq<char> = Seq::empty();
    proof {
        lemma_toks_view_len(procs@);
        assert(all.skip(0) =~= all);
        assert(base_out + done_txt =~= base_out);
    }
    while i < procs.len()
        invariant
            i <= procs@.len(),
            all.len() == procs@.len(),
            all == toks_view(procs@),
            k == old(wr).indent as nat,
            old(wr).indent + 2 < crate::code_writer::MAX_DEPTH,
            wr.indent == k,
            wr.out@ == base_out + done_txt,
            vd_arms_gen(all, vfn@, k) == (match vd_arms_gen(all.skip(i as int), vfn@, k) {
                Ok(rest) => Ok::<Seq<char>, CompileError>(done_txt + rest),
                Err(e) => Err(e),
            }),
        decreases procs@.len() - i,
    {
        proof {
            lemma_toks_view_index(procs@, i as int);
            assert(all.skip(i as int)[0] == all[i as int]);
            assert(all.skip(i as int).drop_first() =~= all.skip(i + 1));
        }
        let ghost pre = done_txt;
        match &procs[i] {
            Token::Proc { return_type: _, name, arg_types: _, id } => {
                let pl = match convert_basic_token(name, false) {
                    Some(n) => n,
                    None => {
                        return Err(CompileError::UnsupportedNode);
                    },
                };
                match &**id {
                    Token::Constant(n) => {
                        let d = dec_string(*n);
                        let mut pat = d;
                        pat.append("u32");
                        let no_fields: Vec<String> = Vec::new();
                        proof {
                            assert(crate::code_writer::strs_view(no_fields@)
                                =~= Seq::<Seq<char>>::empty());
                        }
                        wr.match_option(pat.as_str(), &no_fields);
                        let pll = crate::strutil::to_lower(pl.as_str());
                        let mut pfn = vfn.clone();
                        pfn.append("_");
                        pfn.append(pll.as_str());
                        crate::function_writer::proc_decoder_call(pfn.as_str(), wr);
                        wr.close_block(",");
                        proof {
                            let ghost mut t0: Seq<char> = Seq::empty();
                            if let TokenV::Proc { return_type: _, name: nm, arg_types: _, id: pid }
                                = all[i as int] {
                                assert(nm[0] == tok_view(&**name));
                                assert(pid[0] == tok_view(&**id));
                                t0 = crate::code_writer::match_option_text(
                                    k,
                                    spec_dec(*n as int) + "u32"@,
                                    Seq::empty(),
                                ) + crate::code_writer::line_text(
                                    (k + 1) as nat,
                                    (vfn@ + "_"@ + crate::strutil::low_str(pl@)) + "(buf)"@,
                                ) + crate::function_writer::close_text(k, ","@);
                            }
                            match vd_arms_gen(all.skip(i + 1), vfn@, k) {
                                Ok(rest) => {
                                    assert(pre + (t0 + rest) =~= (pre + t0) + rest);
                                },
                                Err(_) => {},
                            }
                            done_txt = pre + t0;
                            assert(wr.out@ =~= base_out + done_txt);
                        }
                    },
                    _ => {
                        proof {
                            lemma_tok_view_kind(id);
                            if let TokenV::Proc { return_type: _, name: _, arg_types: _, id: pid }
                                = all[i as int] {
                                assert(pid[0] == tok_view(&**id));
                            }
                            match vd_arms_gen(all.skip(i + 1), vfn@, k) {
                                Ok(rest) => {
                                    assert(pre + (Seq::<char>::empty() + rest) =~= pre + rest);
                                },
                                Err(_) => {},
                            }
                        }
                    },
                }
            },
            _ => {
                proof {
                    lemma_tok_view_kind(&procs@[i as int]);
                    match vd_arms_gen(all.skip(i + 1), vfn@, k) {
                        Ok(rest) => {
                            assert(pre + (Seq::<char>::empty() + rest) =~= pre + rest);
                        },
                        Err(_) => {},
                    }
                }
            },
        }
        i += 1;
    }
    proof {
        assert(all.skip(procs@.len() as int) =~= Seq::<TokenV>::empty());
        assert(done_txt + Seq::<char>::empty() =~= done_txt);
    }
    Ok(())
}

/// Emit the procedure decoders that follow one version decoder.
#[verifier::rlimit(100)]
fn write_vd_procs(prog_name: &String, ver_num: i64, procs: &Vec<Token>, wr: &mut CodeWriter) -> (r:
    Result<(), CompileError>)
    requires
        old(wr).indent + 2 < crate::code_writer::MAX_DEPTH,
    ensures
        match vd_procs_gen(prog_name@, ver_num as int, toks_view(procs@), old(wr).indent as nat) {
            Ok(t) => r == Ok::<(), CompileError>(()) && final(wr).out@ == old(wr).out@ + t
                && final(wr).indent == old(wr).indent,
            Err(e) => r == Err::<(), CompileError>(e),
        },
{
    let ghost k = old(wr).indent as nat;
    let ghost all = toks_view(procs@);
    let ghost base_out = wr.out@;
    let mut i: usize = 0;
    let ghost mut done_txt: Seq<char> = Seq::empty();
    proof {
        lemma_toks_view_len(procs@);
        assert(all.skip(0) =~= all);
        assert(base_out + done_txt =~= base_out);
    }
    while i < procs.len()
        invariant
            i <= procs@.len(),
            all.len() == procs@.len(),
            all == toks_view(procs@),
            k == old(wr).indent as nat,
            old(wr).indent + 2 < crate::code_writer::MAX_DEPTH,
            wr.indent == k,
            wr.out@ == base_out + done_txt,
            vd_procs_gen(prog_name@, ver_num as int, all, k) == (match vd_procs_gen(
                prog_name@,
                ver_num as int,
                all.skip(i as int),
                k,
            ) {
                Ok(rest) => Ok::<Seq<char>, CompileError>(done_txt + rest),
                Err(e) => Err(e),
            }),
        decreases procs@.len() - i,
    {
        proof {
            lemma_toks_view_index(procs@, i as int);
            assert(all.skip(i as int)[0] == all[i as int]);
            assert(all.skip(i as int).drop_first() =~= all.skip(i + 1));
        }
        let ghost pre = done_txt;
        match &procs[i] {
            Token::Proc { return_type: _, name, arg_types, id: _ } => {
                let res = write_proc_decoder(prog_name, ver_num, name, arg_types, wr);
                match res {
                    Ok(()) => {
                        proof {
                            let ghost mut t0: Seq<char> = Seq::empty();
                            if let TokenV::Proc { return_type: _, name: nm, arg_types: ats, id: _ }
                                = all[i as int] {
                                assert(nm[0] == tok_view(&**name));
                                assert(ats == toks_view(arg_types@));
                                t0 = spec_write_proc_decoder(
                                    prog_name@,
                                    ver_num as int,
                                    nm[0],
                                    ats,
                                    k,
                                )->Ok_0;
                            }
                            match vd_procs_gen(prog_name@, ver_num as int, all.skip(i + 1), k) {
                                Ok(rest) => {
                                    assert(pre + (t0 + rest) =~= (pre + t0) + rest);
                                },
                                Err(_) => {},
                            }
                            done_txt = pre + t0;
                            assert(wr.out@ =~= base_out + done_txt);
                        }
                    },
                    Err(e) => {
                        return Err(e);
                    },
                }
            },
            _ => {
                proof {
                    lemma_tok_view_kind(&procs@[i as int]);
                    match vd_procs_gen(prog_name@, ver_num as int, all.skip(i + 1), k) {
                        Ok(rest) => {
                            assert(pre + (Seq::<char>::empty() + rest) =~= pre + rest);
                        },
                        Err(_) => {},
                    }
                }
            },
        }
        i += 1;
    }
    proof {
        assert(all.skip(procs@.len() as int) =~= Seq::<TokenV>::empty());
        assert(done_txt + Seq::<char>::empty() =~= done_txt);
    }
    Ok(())
}

/// Emit one version-level decode function and its procedure decoders.
#[verifier::rlimit(100)]
pub fn write_version_decoder(prog_name: &String, ver_num: i64, procs: &Vec<Token>, wr: &mut CodeWriter) -> (r: Result<(), CompileError>)
    requires
        old(wr).indent + 4 < crate::code_writer::MAX_DEPTH,
    ensures
        match spec_write_version_decoder(
            prog_name@,
            ver_num as int,
            toks_view(procs@),
            old(wr).indent as nat,
        ) {
            Ok(t) => r == Ok::<(), CompileError>(()) && final(wr).out@ == old(wr).out@ + t
                && final(wr).indent == old(wr).indent,
            Err(e) => r == Err::<(), CompileError>(e),
        },
{
    let ghost k = old(wr).indent as nat;
    let ghost out0 = old(wr).out@;
    let rust = rustify(prog_name);
    let lower = crate::strutil::to_lower(prog_name.as_str());
    let d = dec_string(ver_num);
    let mut vfn = lower;
    vfn.append("_decode_v");
    vfn.append(d.as_str());
    let ghost vfnv = crate::strutil::low_str(prog_name@) + "_decode_v"@ + spec_dec(ver_num as int);
    crate::function_writer::version_decoder(rust.as_str(), vfn.as_str(), wr);
    let ghost mut acc: Seq<char> = crate::function_writer::version_decoder_text(
        k,
        spec_rustify(prog_name@),
        vfnv,
    );
    proof {
        assert(wr.out@ == out0 + acc);
    }
    crate::function_writer::version_decoder_match(wr);
    proof {
        acc = acc + crate::code_writer::ind_text((k + 1) as nat) + "let "@ + "request"@
            + " = match "@ + "procedure"@ + " {\n"@;
        assert(wr.out@ =~= out0 + acc);
    }
    match write_vd_arms(procs, &vfn, wr) {
        Ok(()) => {},
        Err(e) => {
            return Err(e);
        },
    }
    proof {
        let t = vd_arms_gen(toks_view(procs@), vfnv, (k + 2) as nat)->Ok_0;
        crate::function_writer::lemma_chunk_step(out0, acc, t);
        acc = acc + t;
        assert(wr.out@ == out0 + acc);
    }
    crate::function_writer::decoder_miss("procedure", wr);
    proof {
        let t = crate::function_writer::decoder_miss_text(
            (k + 2) as nat,
            "Err"@,
            ""@,
            "procedure"@,
        );
        crate::function_writer::lemma_chunk_step(out0, acc, t);
        acc = acc + t;
        assert(wr.out@ == out0 + acc);
    }
    wr.close_block(";");
    proof {
        crate::function_writer::lemma_close_step(out0, acc, (k + 1) as nat, ";"@);
        acc = acc + crate::function_writer::close_text((k + 1) as nat, ";"@);
        assert(wr.out@ == out0 + acc);
    }
    crate::function_writer::version_decoder_finalize(rust.as_str(), ver_num, wr);
    proof {
        let t = crate::function_writer::version_decoder_finalize_text(
            (k + 1) as nat,
            spec_rustify(prog_name@),
            ver_num as int,
        );
        crate::function_writer::lemma_chunk_step(out0, acc, t);
        acc = acc + t;
        assert(wr.out@ == out0 + acc);
    }
    wr.close_block("");
    proof {
        crate::function_writer::lemma_close_step(out0, acc, k, ""@);
        acc = acc + crate::function_writer::close_text(k, ""@);
        assert(wr.out@ == out0 + acc);
    }
    match write_vd_procs(prog_name, ver_num, procs, wr) {
        Ok(()) => {},
        Err(e) => {
            return Err(e);
        },
    }
    proof {
        let t = vd_procs_gen(prog_name@, ver_num as int, toks_view(procs@), k)->Ok_0;
        crate::function_writer::lemma_chunk_step(out0, acc, t);
        acc = acc + t;
        assert(wr.out@ == out0 + acc);
        if let Ok(txt) = spec_write_version_decoder(
            prog_name@,
            ver_num as int,
            toks_view(procs@),
            k,
        ) {
            assert(txt == acc);
        }
    }
    Ok(())
}

/// Version arms of the program decoder's `match`.
pub open spec fn pd_arms_gen(versions: Seq<TokenV>, pfn: Seq<char>, k: nat) -> Seq<char>
    decreases versions.len(),
{
    if versions.len() == 0 {
        Seq::empty()
    } else {
        let head = (match versions[0] {
            TokenV::Version { name: _, id, procs: _ } => match id[0] {
                TokenV::Constant(n) => crate::code_writer::match_option_text(
                    k,
                    spec_dec(n) + "u32"@,
                    Seq::empty(),
                ) + crate::code_writer::line_text(
                    (k + 1) as nat,
                    (pfn + "_v"@ + spec_dec(n)) + "(procedure, buf)"@,
                ) + crate::function_writer::close_text(k, ","@),
                _ => Seq::<char>::empty(),
            },
            _ => Seq::<char>::empty(),
        });
        head + pd_arms_gen(versions.drop_first(), pfn, k)
    }
}

/// The version decoders that follow the program decoder.
pub open spec fn pd_versions_gen(prog_raw: Seq<char>, versions: Seq<TokenV>, k: nat) -> Result<
    Seq<char>,
    CompileError,
>
    decreases versions.len(),
{
    if versions.len() == 0 {
        Ok(Seq::empty())
    } else {
        let head = (match versions[0] {
            TokenV::Version { name: _, id, procs } => match id[0] {
                TokenV::Constant(n) => spec_write_version_decoder(prog_raw, n, procs, k),
                _ => Ok(Seq::<char>::empty()),
            },
            _ => Ok(Seq::<char>::empty()),
        });
        match head {
            Ok(t) => match pd_versions_gen(prog_raw, versions.drop_first(), k) {
                Ok(rest) => Ok(t + rest),
                Err(e) => Err(e),
            },
            Err(e) => Err(e),
        }
    }
}

/// Emission of one program's whole decode dispatch tree: the program-level
/// match on the program's registration number, the version-level match
/// inside its arm, and the version decoders that follow.
pub open spec fn spec_write_decoder(
    prog_raw: Seq<char>,
    pid: int,
    versions: Seq<TokenV>,
    k: nat,
) -> Result<Seq<char>, CompileError> {
    let pfn = crate::strutil::low_str(prog_raw) + "_decode"@;
    match pd_versions_gen(prog_raw, versions, k) {
        Ok(vds) => Ok(
            crate::function_writer::prog_decoder_text(k, spec_rustify(prog_raw), pfn)
                + crate::code_writer::ind_text((k + 1) as nat) + "match "@ + "program"@ + "  {\n"@
                + crate::code_writer::match_option_text(
                (k + 2) as nat,
                spec_dec(pid) + "u32"@,
                Seq::empty(),
            ) + crate::code_writer::ind_text((k + 3) as nat) + "match "@ + "version"@ + "  {\n"@
                + pd_arms_gen(versions, pfn, (k + 4) as nat)
                + crate::function_writer::decoder_miss_text((k + 4) as nat, "Err"@, ""@, "version"@)
                + crate::function_writer::close_text((k + 3) as nat, ""@)
                + crate::function_writer::close_text((k + 2) as nat, ","@)
                + crate::function_writer::decoder_miss_text((k + 2) as nat, "Err"@, ""@, "program"@)
                + crate::function_writer::close_text((k + 1) as nat, ""@)
                + crate::function_writer::close_text(k, ""@) + vds,
        ),
        Err(e) => Err(e),
    }
}

/// Emit the version arms of the program decoder's `match`.
#[verifier::rlimit(100)]
fn write_pd_arms(versions: &Vec<Token>, pfn: &String, wr: &mut CodeWriter)
    requires
        old(wr).indent + 2 < crate::code_writer::MAX_DEPTH,
    ensures
        final(wr).out@ == old(wr).out@ + pd_arms_gen(
            toks_view(versions@),
            pfn@,
            old(wr).indent as nat,
        ),
        final(wr).indent == old(wr).indent,
{
    let ghost k = old(wr).indent as nat;
    let ghost all = toks_view(versions@);
    let ghost base_out = wr.out@;
    let mut i: usize = 0;
    let ghost mut done_txt: Seq<char> = Seq::empty();
    proof {
        lemma_toks_view_len(versions@);
        assert(all.skip(0) =~= all);
        assert(base_out + done_txt =~= base_out);
    }
    while i < versions.len()
        invariant
            i <= versions@.len(),
            all.len() == versions@.len(),
            all == toks_view(versions@),
            k == old(wr).indent as nat,
            old(wr).indent + 2 < crate::code_writer::MAX_DEPTH,
            wr.indent == k,
            wr.out@ == base_out + done_txt,
            pd_arms_gen(all, pfn@, k) == done_txt + pd_arms_gen(all.skip(i as int), pfn@, k),
        decreases versions@.len() - i,
    {
        proof {
            lemma_toks_view_index(versions@, i as int);
            assert(all.skip(i as int)[0] == all[i as int]);
            assert(all.skip(i as int).drop_first() =~= all.skip(i + 1));
        }
        let ghost pre = done_txt;
        match &versions[i] {
            Token::Version { name: _, id, procs: _ } => {
                match &**id {
                    Token::Constant(n) => {
                        let d = dec_string(*n);
                        let mut pat = d.clone();
                        pat.append("u32");
                        let no_fields: Vec<String> = Vec::new();
                        proof {
                            assert(crate::code_writer::strs_view(no_fields@)
                                =~= Seq::<Seq<char>>::empty());
                        }
                        wr.match_option(pat.as_str(), &no_fields);
                        let mut vfn = pfn.clone();
                        vfn.append("_v");
                        vfn.append(d.as_str());
                        crate::function_writer::version_decoder_call(vfn.as_str(), wr);
                        wr.close_block(",");
                        proof {
                            if let TokenV::Version { name: _, id: vid, procs: _ } = all[i as int] {
                                assert(vid[0] == tok_view(&**id));
                            }
                            let t0 = crate::code_writer::match_option_text(
                                k,
                                spec_dec(*n as int) + "u32"@,
                                Seq::empty(),
                            ) + crate::code_writer::line_text(
                                (k + 1) as nat,
                                (pfn@ + "_v"@ + spec_dec(*n as int)) + "(procedure, buf)"@,
                            ) + crate::function_writer::close_text(k, ","@);
                            assert(pre + (t0 + pd_arms_gen(all.skip(i + 1), pfn@, k)) =~= (pre + t0)
                                + pd_arms_gen(all.skip(i + 1), pfn@, k));
                            done_txt = pre + t0;
                            assert(wr.out@ =~= base_out + done_txt);
                        }
                    },
                    _ => {
                        proof {
                            lemma_tok_view_kind(id);
                            if let TokenV::Version { name: _, id: vid, procs: _ } = all[i as int] {
                                assert(vid[0] == tok_view(&**id));
                            }
                            assert(pre + (Seq::<char>::empty() + pd_arms_gen(
                                all.skip(i + 1),
                                pfn@,
                                k,
                            )) =~= pre + pd_arms_gen(all.skip(i + 1), pfn@, k));
                        }
                    },
                }
            },
            _ => {
                proof {
                    lemma_tok_view_kind(&versions@[i as int]);
                    assert(pre + (Seq::<char>::empty() + pd_arms_gen(all.skip(i + 1), pfn@, k))
                        =~= pre + pd_arms_gen(all.skip(i + 1), pfn@, k));
                }
            },
        }
        i += 1;
    }
    proof {
        assert(all.skip(versions@.len() as int) =~= Seq::<TokenV>::empty());
        assert(done_txt + Seq::<char>::empty() =~= done_txt);
    }
}

/// Emit the version decoders that follow the program decoder.
#[verifier::rlimit(100)]
fn write_pd_versions(prog_name: &String, versions: &Vec<Token>, wr: &mut CodeWriter) -> (r: Result<
    (),
    CompileError,
>)
    requires
        old(wr).indent + 4 < crate::code_writer::MAX_DEPTH,
    ensures
        match pd_versions_gen(prog_name@, toks_view(versions@), old(wr).indent as nat) {
            Ok(t) => r == Ok::<(), CompileError>(()) && final(wr).out@ == old(wr).out@ + t
                && final(wr).indent == old(wr).indent,
            Err(e) => r == Err::<(), CompileError>(e),
        },
{
    let ghost k = old(wr).indent as nat;
    let ghost all = toks_view(versions@);
    let ghost base_out = wr.out@;
    let mut i: usize = 0;
    let ghost mut done_txt: Seq<char> = Seq::empty();
    proof {
        lemma_toks_view_len(versions@);
        assert(all.skip(0) =~= all);
        assert(base_out + done_txt =~= base_out);
    }
    while i < versions.len()
        invariant
            i <= versions@.len(),
            all.len() == versions@.len(),
            all == toks_view(versions@),
            k == old(wr).indent as nat,
            old(wr).indent + 4 < crate::code_writer::MAX_DEPTH,
            wr.indent == k,
            wr.out@ == base_out + done_txt,
            pd_versions_gen(prog_name@, all, k) == (match pd_versions_gen(
                prog_name@,
                all.skip(i as int),
                k,
            ) {
                Ok(rest) => Ok::<Seq<char>, CompileError>(done_txt + rest),
                Err(e) => Err(e),
            }),
        decreases versions@.len() - i,
    {
        proof {
            lemma_toks_view_index(versions@, i as int);
            assert(all.skip(i as int)[0] == all[i as int]);
            assert(all.skip(i as int).drop_first() =~= all.skip(i + 1));
        }
        let ghost pre = done_txt;
        match &versions[i] {
            Token::Version { name: _, id, procs } => {
                match &**id {
                    Token::Constant(n) => {
                        let res = write_version_decoder(prog_name, *n, procs, wr);
                        match res {
                            Ok(()) => {
                                proof {
                                    let ghost mut t0: Seq<char> = Seq::empty();
                                    if let TokenV::Version { name: _, id: vid, procs: vp } = all[i as int] {
                                        assert(vid[0] == tok_view(&**id));
                                        assert(vp == toks_view(procs@));
                                        t0 = spec_write_version_decoder(
                                            prog_name@,
                                            *n as int,
                                            vp,
                                            k,
                                        )->Ok_0;
                                    }
                                    match pd_versions_gen(prog_name@, all.skip(i + 1), k) {
                                        Ok(rest) => {
                                            assert(pre + (t0 + rest) =~= (pre + t0) + rest);
                                        },
                                        Err(_) => {},
                                    }
                                    done_txt = pre + t0;
                                    assert(wr.out@ =~= base_out + done_txt);
                                }
                            },
                            Err(e) => {
                                return Err(e);
                            },
                        }
                    },
                    _ => {
                        proof {
                            lemma_tok_view_kind(id);
                            if let TokenV::Version { name: _, id: vid, procs: _ } = all[i as int] {
                                assert(vid[0] == tok_view(&**id));
                            }
                            match pd_versions_gen(prog_name@, all.skip(i + 1), k) {
                                Ok(rest) => {
                                    assert(pre + (Seq::<char>::empty() + rest) =~= pre + rest);
                                },
                                Err(_) => {},
                            }
                        }
                    },
                }
            },
            _ => {
                proof {
                    lemma_tok_view_kind(&versions@[i as int]);
                    match pd_versions_gen(prog_name@, all.skip(i + 1), k) {
                        Ok(rest) => {
                            assert(pre + (Seq::<char>::empty() + rest) =~= pre + rest);
                        },
                        Err(_) => {},
                    }
                }
            },
        }
        i += 1;
    }
    proof {
        assert(all.skip(versions@.len() as int) =~= Seq::<TokenV>::empty());
        assert(done_txt + Seq::<char>::empty() =~= done_txt);
    }
    Ok(())
}

/// Emit one program's whole decode dispatch tree into the types stream.
#[verifier::rlimit(100)]
pub fn write_decoder(prog_name: &String, prog_id: i64, versions: &Vec<Token>, wr: &mut CodeWriter) -> (r: Result<(), CompileError>)
    requires
        old(wr).indent + 6 < crate::code_writer::MAX_DEPTH,
    ensures
        match spec_write_decoder(
            prog_name@,
            prog_id as int,
            toks_view(versions@),
            old(wr).indent as nat,
        ) {
            Ok(t) => r == Ok::<(), CompileError>(()) && final(wr).out@ == old(wr).out@ + t
                && final(wr).indent == old(wr).indent,
            Err(e) => r == Err::<(), CompileError>(e),
        },
{
    let ghost k = old(wr).indent as nat;
    let ghost out0 = old(wr).out@;
    let rust = rustify(prog_name);
    let lower = crate::strutil::to_lower(prog_name.as_str());
    let mut pfn = lower;
    pfn.append("_decode");
    let ghost pfnv = crate::strutil::low_str(prog_name@) + "_decode"@;
    crate::function_writer::prog_decoder(rust.as_str(), pfn.as_str(), wr);
    let ghost mut acc: Seq<char> = crate::function_writer::prog_decoder_text(
        k,
        spec_rustify(prog_name@),
        pfnv,
    );
    proof {
        assert(wr.out@ == out0 + acc);
    }
    wr.match_block("program");
    proof {
        acc = acc + crate::code_writer::ind_text((k + 1) as nat) + "match "@ + "program"@
            + "  {\n"@;
        assert(wr.out@ =~= out0 + acc);
    }
    let d = dec_string(prog_id);
    let mut pat = d;
    pat.append("u32");
    let no_fields: Vec<String> = Vec::new();
    proof {
        assert(crate::code_writer::strs_view(no_fields@) =~= Seq::<Seq<char>>::empty());
    }
    wr.match_option(pat.as_str(), &no_fields);
    proof {
        let t = crate::code_writer::match_option_text(
            (k + 2) as nat,
            spec_dec(prog_id as int) + "u32"@,
            Seq::empty(),
        );
        crate::function_writer::lemma_chunk_step(out0, acc, t);
        acc = acc + t;
        assert(wr.out@ == out0 + acc);
    }
    wr.match_block("version");
    proof {
        acc = acc + crate::code_writer::ind_text((k + 3) as nat) + "match "@ + "version"@
            + "  {\n"@;
        assert(wr.out@ =~= out0 + acc);
    }
    write_pd_arms(versions, &pfn, wr);
    proof {
        let t = pd_arms_gen(toks_view(versions@), pfnv, (k + 4) as nat);
        crate::function_writer::lemma_chunk_step(out0, acc, t);
        acc = acc + t;
        assert(wr.out@ == out0 + acc);
    }
    crate::function_writer::decoder_miss("version", wr);
    proof {
        let t = crate::function_writer::decoder_miss_text((k + 4) as nat, "Err"@, ""@, "version"@);
        crate::function_writer::lemma_chunk_step(out0, acc, t);
        acc = acc + t;
        assert(wr.out@ == out0 + acc);
    }
    wr.close_block("");
    proof {
        crate::function_writer::lemma_close_step(out0, acc, (k + 3) as nat, ""@);
        acc = acc + crate::function_writer::close_text((k + 3) as nat, ""@);
        assert(wr.out@ == out0 + acc);
    }
    wr.close_block(",");
    proof {
        crate::function_writer::lemma_close_step(out0, acc, (k + 2) as nat, ","@);
        acc = acc + crate::function_writer::close_text((k + 2) as nat, ","@);
        assert(wr.out@ == out0 + acc);
    }
    crate::function_writer::decoder_miss("program", wr);
    proof {
        let t = crate::function_writer::decoder_miss_text((k + 2) as nat, "Err"@, ""@, "program"@);
        crate::function_writer::lemma_chunk_step(out0, acc, t);
        acc = acc + t;
        assert(wr.out@ == out0 + acc);
    }
    wr.close_block("");
    proof {
        crate::function_writer::lemma_close_step(out0, acc, (k + 1) as nat, ""@);
        acc = acc + crate::function_writer::close_text((k + 1) as nat, ""@);
        assert(wr.out@ == out0 + acc);
    }
    wr.close_block("");
    proof {
        crate::function_writer::lemma_close_step(out0, acc, k, ""@);
        acc = acc + crate::function_writer::close_text(k, ""@);
        assert(wr.out@ == out0 + acc);
    }
    match write_pd_versions(prog_name, versions, wr) {
        Ok(()) => {},
        Err(e) => {
            return Err(e);
        },
    }
    proof {
        let t = pd_versions_gen(prog_name@, toks_view(versions@), k)->Ok_0;
        crate::function_writer::lemma_chunk_step(out0, acc, t);
        acc = acc + t;
        assert(wr.out@ == out0 + acc);
        if let Ok(txt) = spec_write_decoder(
            prog_name@,
            prog_id as int,
            toks_view(versions@),
            k,
        ) {
            assert(txt == acc);
        }
    }
    Ok(())
}

/// Response-encoding arms of one version's procedures.
pub open spec fn enc_procs_gen(prog: Seq<char>, ver: int, procs: Seq<TokenV>, k: nat) -> Result<
    Seq<char>,
    CompileError,
>
    decreases procs.len(),
{
    if procs.len() == 0 {
        Ok(Seq::empty())
    } else {
        let head = (match procs[0] {
            TokenV::Proc { return_type, name, arg_types: _, id: _ } => match spec_basic(
                name[0],
                true,
            ) {
                Some(pn) => Ok(
                    crate::function_writer::encoder_proc_text(
                        k,
                        prog,
                        pn,
                        ver,
                        !(return_type[0] is VoidDecl),
                    ),
                ),
                None => Err(CompileError::UnsupportedNode),
            },
            _ => Ok(Seq::<char>::empty()),
        });
        match head {
            Ok(t) => match enc_procs_gen(prog, ver, procs.drop_first(), k) {
                Ok(rest) => Ok(t + rest),
                Err(e) => Err(e),
            },
            Err(e) => Err(e),
        }
    }
}

/// Emission of one version's arm of the encode dispatch.
pub open spec fn spec_write_version_encoder(
    prog: Seq<char>,
    ver: int,
    procs: Seq<TokenV>,
    k: nat,
) -> Result<Seq<char>, CompileError> {
    match enc_procs_gen(prog, ver, procs, (k + 2) as nat) {
        Ok(arms) => Ok(
            crate::function_writer::encoder_version_text(k, prog, ver)
                + crate::code_writer::ind_text((k + 1) as nat) + "match "@ + "rsp"@ + "  {\n"@
                + arms + crate::function_writer::decoder_miss_text(
                (k + 2) as nat,
                "Err"@,
                ""@,
                "procedure"@,
            ) + crate::function_writer::close_text((k + 1) as nat, ""@)
                + crate::code_writer::line_text((k + 1) as nat, "Ok(())"@)
                + crate::function_writer::close_text(k, ","@),
        ),
        Err(e) => Err(e),
    }
}

/// Emit the response-encoding arms of one version's procedures.
#[verifier::rlimit(100)]
fn write_enc_procs(prog_name: &str, ver_num: i64, procs: &Vec<Token>, wr: &mut CodeWriter) -> (r:
    Result<(), CompileError>)
    requires
        old(wr).indent + 2 < crate::code_writer::MAX_DEPTH,
    ensures
        match enc_procs_gen(prog_name@, ver_num as int, toks_view(procs@), old(wr).indent as nat) {
            Ok(t) => r == Ok::<(), CompileError>(()) && final(wr).out@ == old(wr).out@ + t
                && final(wr).indent == old(wr).indent,
            Err(e) => r == Err::<(), CompileError>(e),
        },
{
    let ghost k = old(wr).indent as nat;
    let ghost all = toks_view(procs@);
    let ghost base_out = wr.out@;
    let mut i: usize = 0;
    let ghost mut done_txt: Seq<char> = Seq::empty();
    proof {
        lemma_toks_view_len(procs@);
        assert(all.skip(0) =~= all);
        assert(base_out + done_txt =~= base_out);
    }
    while i < procs.len()
        invariant
            i <= procs@.len(),
            all.len() == procs@.len(),
            all == toks_view(procs@),
            k == old(wr).indent as nat,
            old(wr).indent + 2 < crate::code_writer::MAX_DEPTH,
            wr.indent == k,
            wr.out@ == base_out + done_txt,
            enc_procs_gen(prog_name@, ver_num as int, all, k) == (match enc_procs_gen(
                prog_name@,
                ver_num as int,
                all.skip(i as int),
                k,
            ) {
                Ok(rest) => Ok::<Seq<char>, CompileError>(done_txt + rest),
                Err(e) => Err(e),
            }),
        decreases procs@.len() - i,
    {
        proof {
            lemma_toks_view_index(procs@, i as int);
            assert(all.skip(i as int)[0] == all[i as int]);
            assert(all.skip(i as int).drop_first() =~= all.skip(i + 1));
        }
        let ghost pre = done_txt;
        match &procs[i] {
            Token::Proc { return_type, name, arg_types: _, id: _ } => {
                let pn = match convert_basic_token(name, true) {
                    Some(n) => n,
                    None => {
                        return Err(CompileError::UnsupportedNode);
                    },
                };
                let has_return = match &**return_type {
                    Token::VoidDecl => false,
                    _ => true,
                };
                crate::function_writer::encoder_proc(prog_name, pn.as_str(), ver_num, has_return, wr);
                proof {
                    lemma_tok_view_kind(return_type);
                    let ghost mut t0: Seq<char> = Seq::empty();
                    if let TokenV::Proc { return_type: rt, name: nm, arg_types: _, id: _ } = all[i as int] {
                        assert(nm[0] == tok_view(&**name));
                        assert(rt[0] == tok_view(&**return_type));
                        t0 = crate::function_writer::encoder_proc_text(
                            k,
                            prog_name@,
                            pn@,
                            ver_num as int,
                            !(rt[0] is VoidDecl),
                        );
                    }
                    match enc_procs_gen(prog_name@, ver_num as int, all.skip(i + 1), k) {
                        Ok(rest) => {
                            assert(pre + (t0 + rest) =~= (pre + t0) + rest);
                        },
                        Err(_) => {},
                    }
                    done_txt = pre + t0;
                    assert(wr.out@ =~= base_out + done_txt);
                }
            },
            _ => {
                proof {
                    lemma_tok_view_kind(&procs@[i as int]);
                    match enc_procs_gen(prog_name@, ver_num as int, all.skip(i + 1), k) {
                        Ok(rest) => {
                            assert(pre + (Seq::<char>::empty() + rest) =~= pre + rest);
                        },
                        Err(_) => {},
                    }
                }
            },
        }
        i += 1;
    }
    proof {
        assert(all.skip(procs@.len() as int) =~= Seq::<TokenV>::empty());
        assert(done_txt + Seq::<char>::empty() =~= done_txt);
    }
    Ok(())
}

/// Emit one version's arm of the encode dispatch.
#[verifier::rlimit(100)]
pub fn write_version_encoder(prog_name: &str, ver_num: i64, procs: &Vec<Token>, wr: &mut CodeWriter) -> (r: Result<(), CompileError>)
    requires
        old(wr).indent + 4 < crate::code_writer::MAX_DEPTH,
    ensures
        match spec_write_version_encoder(
            prog_name@,
            ver_num as int,
            toks_view(procs@),
            old(wr).indent as nat,
        ) {
            Ok(t) => r == Ok::<(), CompileError>(()) && final(wr).out@ == old(wr).out@ + t
                && final(wr).indent == old(wr).indent,
            Err(e) => r == Err::<(), CompileError>(e),
        },
{
    let ghost k = old(wr).indent as nat;
    let ghost out0 = old(wr).out@;
    crate::function_writer::encoder_version(prog_name, ver_num, wr);
    let ghost mut acc: Seq<char> = crate::function_writer::encoder_version_text(
        k,
        prog_name@,
        ver_num as int,
    );
    proof {
        assert(wr.out@ == out0 + acc);
    }
    wr.match_block("rsp");
    proof {
        acc = acc + crate::code_writer::ind_text((k + 1) as nat) + "match "@ + "rsp"@ + "  {\n"@;
        assert(wr.out@ =~= out0 + acc);
    }
    match write_enc_procs(prog_name, ver_num, procs, wr) {
        Ok(()) => {},
        Err(e) => {
            return Err(e);
        },
    }
    proof {
        let t = enc_procs_gen(prog_name@, ver_num as int, toks_view(procs@), (k + 2) as nat)->Ok_0;
        crate::function_writer::lemma_chunk_step(out0, acc, t);
        acc = acc + t;
        assert(wr.out@ == out0 + acc);
    }
    crate::function_writer::decoder_miss("procedure", wr);
    proof {
        let t = crate::function_writer::decoder_miss_text(
            (k + 2) as nat,
            "Err"@,
            ""@,
            "procedure"@,
        );
        crate::function_writer::lemma_chunk_step(out0, acc, t);
        acc = acc + t;
        assert(wr.out@ == out0 + acc);
    }
    wr.close_block("");
    proof {
        crate::function_writer::lemma_close_step(out0, acc, (k + 1) as nat, ""@);
        acc = acc + crate::function_writer::close_text((k + 1) as nat, ""@);
        assert(wr.out@ == out0 + acc);
    }
    wr.write_line("Ok(())");
    proof {
        let t = crate::code_writer::line_text((k + 1) as nat, "Ok(())"@);
        crate::function_writer::lemma_chunk_step(out0, acc, t);
        acc = acc + t;
        assert(wr.out@ == out0 + acc);
    }
    wr.close_block(",");
    proof {
        crate::function_writer::lemma_close_step(out0, acc, k, ","@);
        acc = acc + crate::function_writer::close_text(k, ","@);
        assert(wr.out@ == out0 + acc);
        if let Ok(txt) = spec_write_version_encoder(
            prog_name@,
            ver_num as int,
            toks_view(procs@),
            k,
        ) {
            assert(txt == acc);
        }
    }
    Ok(())
}

/// The version arms of one program's encode dispatch.
pub open spec fn enc_versions_gen(prog: Seq<char>, versions: Seq<TokenV>, k: nat) -> Result<
    Seq<char>,
    CompileError,
>
    decreases versions.len(),
{
    if versions.len() == 0 {
        Ok(Seq::empty())
    } else {
        let head = (match versions[0] {
            TokenV::Version { name: _, id, procs } => match id[0] {
                TokenV::Constant(n) => spec_write_version_encoder(prog, n, procs, k),
                _ => Ok(Seq::<char>::empty()),
            },
            _ => Ok(Seq::<char>::empty()),
        });
        match head {
            Ok(t) => match enc_versions_gen(prog, versions.drop_first(), k) {
                Ok(rest) => Ok(t + rest),
                Err(e) => Err(e),
            },
            Err(e) => Err(e),
        }
    }
}

/// Emission of one program's whole encode dispatch.
pub open spec fn spec_write_encoder(prog_raw: Seq<char>, versions: Seq<TokenV>, k: nat) -> Result<
    Seq<char>,
    CompileError,
> {
    let rust = spec_rustify(prog_raw);
    match enc_versions_gen(rust, versions, (k + 2) as nat) {
        Ok(arms) => Ok(
            crate::function_writer::encoder_text(k, rust) + crate::code_writer::ind_text(
                (k + 1) as nat,
            ) + "match "@ + "msg"@ + "  {\n"@ + arms + crate::function_writer::decoder_miss_text(
                (k + 2) as nat,
                "Err"@,
                ""@,
                "version"@,
            ) + crate::function_writer::close_text((k + 1) as nat, ""@)
                + crate::function_writer::close_text(k, ""@),
        ),
        Err(e) => Err(e),
    }
}

/// Emit the version arms of one program's encode dispatch.
#[verifier::rlimit(100)]
fn write_enc_versions(rust: &String, versions: &Vec<Token>, wr: &mut CodeWriter) -> (r: Result<
    (),
    CompileError,
>)
    requires
        old(wr).indent + 6 < crate::code_writer::MAX_DEPTH,
    ensures
        match enc_versions_gen(rust@, toks_view(versions@), old(wr).indent as nat) {
            Ok(t) => r == Ok::<(), CompileError>(()) && final(wr).out@ == old(wr).out@ + t
                && final(wr).indent == old(wr).indent,
            Err(e) => r == Err::<(), CompileError>(e),
        },
{
    let ghost k = old(wr).indent as nat;
    let ghost all = toks_view(versions@);
    let ghost base_out = wr.out@;
    let mut i: usize = 0;
    let ghost mut done_txt: Seq<char> = Seq::empty();
    proof {
        lemma_toks_view_len(versions@);
        assert(all.skip(0) =~= all);
        assert(base_out + done_txt =~= base_out);
    }
    while i < versions.len()
        invariant
            i <= versions@.len(),
            all.len() == versions@.len(),
            all == toks_view(versions@),
            k == old(wr).indent as nat,
            old(wr).indent + 6 < crate::code_writer::MAX_DEPTH,
            wr.indent == k,
            wr.out@ == base_out + done_txt,
            enc_versions_gen(rust@, all, k) == (match enc_versions_gen(
                rust@,
                all.skip(i as int),
                k,
            ) {
                Ok(rest) => Ok::<Seq<char>, CompileError>(done_txt + rest),
                Err(e) => Err(e),
            }),
        decreases versions@.len() - i,
    {
        proof {
            lemma_toks_view_index(versions@, i as int);
            assert(all.skip(i as int)[0] == all[i as int]);
            assert(all.skip(i as int).drop_first() =~= all.skip(i + 1));
        }
        let ghost pre = done_txt;
        match &versions[i] {
            Token::Version { name: _, id, procs } => {
                match &**id {
                    Token::Constant(n) => {
                        let res = write_version_encoder(rust.as_str(), *n, procs, wr);
                        match res {
                            Ok(()) => {
                                proof {
                                    let ghost mut t0: Seq<char> = Seq::empty();
                                    if let TokenV::Version { name: _, id: vid, procs: vp } = all[i as int] {
                                        assert(vid[0] == tok_view(&**id));
                                        assert(vp == toks_view(procs@));
                                        t0 = spec_write_version_encoder(
                                            rust@,
                                            *n as int,
                                            vp,
                                            k,
                                        )->Ok_0;
                                    }
                                    match enc_versions_gen(rust@, all.skip(i + 1), k) {
                                        Ok(rest) => {
                                            assert(pre + (t0 + rest) =~= (pre + t0) + rest);
                                        },
                                        Err(_) => {},
                                    }
                                    done_txt = pre + t0;
                                    assert(wr.out@ =~= base_out + done_txt);
                                }
                            },
                            Err(e) => {
                                return Err(e);
                            },
                        }
                    },
                    _ => {
                        proof {
                            lemma_tok_view_kind(id);
                            if let TokenV::Version { name: _, id: vid, procs: _ } = all[i as int] {
                                assert(vid[0] == tok_view(&**id));
                            }
                            match enc_versions_gen(rust@, all.skip(i + 1), k) {
                                Ok(rest) => {
                                    assert(pre + (Seq::<char>::empty() + rest) =~= pre + rest);
                                },
                                Err(_) => {},
                            }
                        }
                    },
                }
            },
            _ => {
                proof {
                    lemma_tok_view_kind(&versions@[i as int]);
                    match enc_versions_gen(rust@, all.skip(i + 1), k) {
                        Ok(rest) => {
                            assert(pre + (Seq::<char>::empty() + rest) =~= pre + rest);
                        },
                        Err(_) => {},
                    }
                }
            },
        }
        i += 1;
    }
    proof {
        assert(all.skip(versions@.len() as int) =~= Seq::<TokenV>::empty());
        assert(done_txt + Seq::<char>::empty() =~= done_txt);
    }
    Ok(())
}

/// Emit one program's whole encode dispatch into the types stream.
#[verifier::rlimit(100)]
pub fn write_encoder(prog_name: &String, versions: &Vec<Token>, wr: &mut CodeWriter) -> (r: Result<
    (),
    CompileError,
>)
    requires
        old(wr).indent + 8 < crate::code_writer::MAX_DEPTH,
    ensures
        match spec_write_encoder(prog_name@, toks_view(versions@), old(wr).indent as nat) {
            Ok(t) => r == Ok::<(), CompileError>(()) && final(wr).out@ == old(wr).out@ + t
                && final(wr).indent == old(wr).indent,
            Err(e) => r == Err::<(), CompileError>(e),
        },
{
    let ghost k = old(wr).indent as nat;
    let ghost out0 = old(wr).out@;
    let rust_prog_name = rustify(prog_name);
    crate::function_writer::encoder(rust_prog_name.as_str(), wr);
    let ghost mut acc: Seq<char> = crate::function_writer::encoder_text(
        k,
        spec_rustify(prog_name@),
    );
    proof {
        assert(wr.out@ == out0 + acc);
    }
    wr.match_block("msg");
    proof {
        acc = acc + crate::code_writer::ind_text((k + 1) as nat) + "match "@ + "msg"@ + "  {\n"@;
        assert(wr.out@ =~= out0 + acc);
    }
    match write_enc_versions(&rust_prog_name, versions, wr) {
        Ok(()) => {},
        Err(e) => {
            return Err(e);
        },
    }
    proof {
        let t = enc_versions_gen(
            spec_rustify(prog_name@),
            toks_view(versions@),
            (k + 2) as nat,
        )->Ok_0;
        crate::function_writer::lemma_chunk_step(out0, acc, t);
        acc = acc + t;
        assert(wr.out@ == out0 + acc);
    }
    crate::function_writer::decoder_miss("version", wr);
    proof {
        let t = crate::function_writer::decoder_miss_text((k + 2) as nat, "Err"@, ""@, "version"@);
        crate::function_writer::lemma_chunk_step(out0, acc, t);
        acc = acc + t;
        assert(wr.out@ == out0 + acc);
    }
    wr.close_block("");
    proof {
        crate::function_writer::lemma_close_step(out0, acc, (k + 1) as nat, ""@);
        acc = acc + crate::function_writer::close_text((k + 1) as nat, ""@);
        assert(wr.out@ == out0 + acc);
    }
    wr.close_block("");
    proof {
        crate::function_writer::lemma_close_step(out0, acc, k, ""@);
        acc = acc + crate::function_writer::close_text(k, ""@);
        assert(wr.out@ == out0 + acc);
        if let Ok(txt) = spec_write_encoder(prog_name@, toks_view(versions@), k) {
            assert(txt == acc);
        }
    }
    Ok(())
}

/// Emission of one program's codec scaffolding: the application codec, its
/// `Codec` impl delegating to the generated decode/encode functions, and the
/// protocol glue around the record-marking transport.
pub open spec fn spec_write_codec(prog_raw: Seq<char>, k: nat) -> Seq<char> {
    spec_codec_head(prog_raw, k) + spec_codec_tail(prog_raw, k)
}

/// First half of the codec scaffolding: the application codec and its
/// `Codec` and `AppCodec` impls.
pub open spec fn spec_codec_head(prog_raw: Seq<char>, k: nat) -> Seq<char> {
    let prog = spec_rustify(prog_raw);
    let ac = crate::strutil::spec_replace(prog, "Prog"@, "AppCodec"@);
    let areq = crate::strutil::spec_replace(prog, "Prog"@, "ProgRequest"@);
    let ares = crate::strutil::spec_replace(prog, "Prog"@, "ProgResponse"@);
    let lower = crate::strutil::low_str(prog_raw);
    crate::code_writer::pub_struct_text(k, ac) + crate::function_writer::close_text(k, ""@)
        + crate::code_writer::ind_text(k) + "impl"@ + ""@ + " "@ + "Codec"@ + " for "@ + ac
        + " {\n"@ + crate::code_writer::alias_text((k + 1) as nat, ""@, "In"@, areq)
        + crate::code_writer::alias_text((k + 1) as nat, ""@, "Out"@, ares)
        + crate::code_writer::open_block_text(
        (k + 1) as nat,
        "fn decode(&mut self, buf: &mut EasyBuf) -> io::Result<Option<Self::In>>"@,
    ) + crate::code_writer::line_text((k + 2) as nat, "decode(buf)"@)
        + crate::function_writer::close_text((k + 1) as nat, ""@)
        + crate::code_writer::open_block_text(
        (k + 1) as nat,
        "fn encode(&mut self, msg: Self::Out, buf: &mut Vec<u8>) -> io::Result<()>"@,
    ) + crate::code_writer::line_text((k + 2) as nat, "encode(msg, buf)"@)
        + crate::function_writer::close_text((k + 1) as nat, ""@)
        + crate::function_writer::close_text(k, ""@) + crate::code_writer::ind_text(k) + "impl"@
        + ""@ + " "@ + "AppCodec"@ + " for "@ + ac + " {\n"@
        + crate::code_writer::open_block_text(
        (k + 1) as nat,
        "fn app_decode(&mut self, program: u32, version: u32, procedure: u32, buf: &mut EasyBuf) -> io::Result<Option<Self::In>>"@,
    ) + crate::code_writer::line_text(
        (k + 2) as nat,
        lower + "_decode(program, version, procedure, buf)"@,
    ) + crate::function_writer::close_text((k + 1) as nat, ""@)
        + crate::function_writer::close_text(k, ""@)
}

/// Second half of the codec scaffolding: the codec alias, the protocol type
/// and its `ServerProto` impl.
pub open spec fn spec_codec_tail(prog_raw: Seq<char>, k: nat) -> Seq<char> {
    let prog = spec_rustify(prog_raw);
    let ac = crate::strutil::spec_replace(prog, "Prog"@, "AppCodec"@);
    let cd = crate::strutil::spec_replace(prog, "Prog"@, "Codec"@);
    let pr = crate::strutil::spec_replace(prog, "Prog"@, "Protocol"@);
    let areq = crate::strutil::spec_replace(prog, "Prog"@, "ProgRequest"@);
    let ares = crate::strutil::spec_replace(prog, "Prog"@, "ProgResponse"@);
    crate::code_writer::alias_text(
        k,
        "pub "@,
        cd,
        "XdrCodec<"@ + ac + ">"@,
    ) + crate::code_writer::pub_struct_text(k, pr) + crate::function_writer::close_text(k, ""@)
        + crate::code_writer::ind_text(k) + "impl"@ + "<T: Io + 'static>"@ + " "@
        + "ServerProto<T>"@ + " for "@ + pr + " {\n"@ + crate::code_writer::alias_text(
        (k + 1) as nat,
        ""@,
        "Request"@,
        "xdr_rpc::XdrRequest<"@ + areq + ">"@,
    ) + crate::code_writer::alias_text(
        (k + 1) as nat,
        ""@,
        "Response"@,
        "xdr_rpc::XdrResponse<"@ + ares + ">"@,
    ) + crate::code_writer::alias_text((k + 1) as nat, ""@, "Transport"@, "Framed<T, "@ + cd + ">"@)
        + crate::code_writer::alias_text(
        (k + 1) as nat,
        ""@,
        "BindTransport"@,
        "io::Result<Self::Transport>"@,
    ) + crate::code_writer::open_block_text(
        (k + 1) as nat,
        "fn bind_transport(&self, io: T) -> Self::BindTransport"@,
    ) + crate::code_writer::line_text(
        (k + 2) as nat,
        "Ok(io.framed("@ + cd + "::new("@ + ac + " {})))"@,
    ) + crate::function_writer::close_text((k + 1) as nat, ""@)
        + crate::function_writer::close_text(k, ""@)
}

/// Emit the first half of one program's codec scaffolding.
#[verifier::rlimit(100)]
fn write_codec_head(prog_name: &String, wr: &mut CodeWriter)
    requires
        old(wr).indent + 3 < crate::code_writer::MAX_DEPTH,
    ensures
        final(wr).out@ == old(wr).out@ + spec_codec_head(prog_name@, old(wr).indent as nat),
        final(wr).indent == old(wr).indent,
{
    let ghost k = old(wr).indent as nat;
    let ghost out0 = old(wr).out@;
    let prog = rustify(prog_name);
    let ac = crate::strutil::replace(prog.as_str(), "Prog", "AppCodec");
    let cd = crate::strutil::replace(prog.as_str(), "Prog", "Codec");
    let pr = crate::strutil::replace(prog.as_str(), "Prog", "Protocol");
    let areq = crate::strutil::replace(prog.as_str(), "Prog", "ProgRequest");
    let ares = crate::strutil::replace(prog.as_str(), "Prog", "ProgResponse");
    let lower = crate::strutil::to_lower(prog_name.as_str());
    wr.pub_struct(ac.as_str());
    let ghost mut acc: Seq<char> = crate::code_writer::pub_struct_text(k, ac@);
    proof {
        assert(wr.out@ == out0 + acc);
    }
    wr.close_block("");
    proof {
        crate::function_writer::lemma_close_step(out0, acc, k, ""@);
        acc = acc + crate::function_writer::close_text(k, ""@);
        assert(wr.out@ == out0 + acc);
    }
    wr.impl_("", "Codec", ac.as_str());
    proof {
        acc = acc + crate::code_writer::ind_text(k) + "impl"@ + ""@ + " "@ + "Codec"@ + " for "@
            + ac@ + " {\n"@;
        assert(wr.out@ =~= out0 + acc);
    }
    wr.alias("In", areq.as_str());
    proof {
        let t = crate::code_writer::alias_text((k + 1) as nat, ""@, "In"@, areq@);
        crate::function_writer::lemma_chunk_step(out0, acc, t);
        acc = acc + t;
        assert(wr.out@ == out0 + acc);
    }
    wr.alias("Out", ares.as_str());
    proof {
        let t = crate::code_writer::alias_text((k + 1) as nat, ""@, "Out"@, ares@);
        crate::function_writer::lemma_chunk_step(out0, acc, t);
        acc = acc + t;
        assert(wr.out@ == out0 + acc);
    }
    wr.expr_block("fn decode(&mut self, buf: &mut EasyBuf) -> io::Result<Option<Self::In>>");
    proof {
        let t = crate::code_writer::open_block_text(
            (k + 1) as nat,
            "fn decode(&mut self, buf: &mut EasyBuf) -> io::Result<Option<Self::In>>"@,
        );
        crate::function_writer::lemma_chunk_step(out0, acc, t);
        acc = acc + t;
        assert(wr.out@ == out0 + acc);
    }
    wr.write_line("decode(buf)");
    proof {
        let t = crate::code_writer::line_text((k + 2) as nat, "decode(buf)"@);
        crate::function_writer::lemma_chunk_step(out0, acc, t);
        acc = acc + t;
        assert(wr.out@ == out0 + acc);
    }
    wr.close_block("");
    proof {
        crate::function_writer::lemma_close_step(out0, acc, (k + 1) as nat, ""@);
        acc = acc + crate::function_writer::close_text((k + 1) as nat, ""@);
        assert(wr.out@ == out0 + acc);
    }
    wr.expr_block("fn encode(&mut self, msg: Self::Out, buf: &mut Vec<u8>) -> io::Result<()>");
    proof {
        let t = crate::code_writer::open_block_text(
            (k + 1) as nat,
            "fn encode(&mut self, msg: Self::Out, buf: &mut Vec<u8>) -> io::Result<()>"@,
        );
        crate::function_writer::lemma_chunk_step(out0, acc, t);
        acc = acc + t;
        assert(wr.out@ == out0 + acc);
    }
    wr.write_line("encode(msg, buf)");
    proof {
        let t = crate::code_writer::line_text((k + 2) as nat, "encode(msg, buf)"@);
        crate::function_writer::lemma_chunk_step(out0, acc, t);
        acc = acc + t;
        assert(wr.out@ == out0 + acc);
    }
    wr.close_block("");
    proof {
        crate::function_writer::lemma_close_step(out0, acc, (k + 1) as nat, ""@);
        acc = acc + crate::function_writer::close_text((k + 1) as nat, ""@);
        assert(wr.out@ == out0 + acc);
    }
    wr.close_block("");
    proof {
        crate::function_writer::lemma_close_step(out0, acc, k, ""@);
        acc = acc + crate::function_writer::close_text(k, ""@);
        assert(wr.out@ == out0 + acc);
    }
    wr.impl_("", "AppCodec", ac.as_str());
    proof {
        acc = acc + crate::code_writer::ind_text(k) + "impl"@ + ""@ + " "@ + "AppCodec"@ + " for "@
            + ac@ + " {\n"@;
        assert(wr.out@ =~= out0 + acc);
    }
    wr.expr_block(
        "fn app_decode(&mut self, program: u32, version: u32, procedure: u32, buf: &mut EasyBuf) -> io::Result<Option<Self::In>>",
    );
    proof {
        let t = crate::code_writer::open_block_text(
            (k + 1) as nat,
            "fn app_decode(&mut self, program: u32, version: u32, procedure: u32, buf: &mut EasyBuf) -> io::Result<Option<Self::In>>"@,
        );
        crate::function_writer::lemma_chunk_step(out0, acc, t);
        acc = acc + t;
        assert(wr.out@ == out0 + acc);
    }
    let mut callt = lower;
    callt.append("_decode(program, version, procedure, buf)");
    wr.write_line(callt.as_str());
    proof {
        let t = crate::code_writer::line_text(
            (k + 2) as nat,
            crate::strutil::low_str(prog_name@) + "_decode(program, version, procedure, buf)"@,
        );
        assert(callt@ == crate::strutil::low_str(prog_name@)
            + "_decode(program, version, procedure, buf)"@);
        crate::function_writer::lemma_chunk_step(out0, acc, t);
        acc = acc + t;
        assert(wr.out@ == out0 + acc);
    }
    wr.close_block("");
    proof {
        crate::function_writer::lemma_close_step(out0, acc, (k + 1) as nat, ""@);
        acc = acc + crate::function_writer::close_text((k + 1) as nat, ""@);
        assert(wr.out@ == out0 + acc);
    }
    wr.close_block("");
    proof {
        crate::function_writer::lemma_close_step(out0, acc, k, ""@);
        acc = acc + crate::function_writer::close_text(k, ""@);
        assert(wr.out@ == out0 + acc);
        assert(spec_codec_head(prog_name@, k) == acc);
    }
}

/// Emit the second half of one program's codec scaffolding.
#[verifier::rlimit(100)]
fn write_codec_tail(prog_name: &String, wr: &mut CodeWriter)
    requires
        old(wr).indent + 3 < crate::code_writer::MAX_DEPTH,
    ensures
        final(wr).out@ == old(wr).out@ + spec_codec_tail(prog_name@, old(wr).indent as nat),
        final(wr).indent == old(wr).indent,
{
    let ghost k = old(wr).indent as nat;
    let ghost out0 = old(wr).out@;
    let prog = rustify(prog_name);
    let ac = crate::strutil::replace(prog.as_str(), "Prog", "AppCodec");
    let cd = crate::strutil::replace(prog.as_str(), "Prog", "Codec");
    let pr = crate::strutil::replace(prog.as_str(), "Prog", "Protocol");
    let areq = crate::strutil::replace(prog.as_str(), "Prog", "ProgRequest");
    let ares = crate::strutil::replace(prog.as_str(), "Prog", "ProgResponse");
    let ghost mut acc: Seq<char> = Seq::empty();
    proof {
        assert(out0 + acc =~= out0);
    }
    let mut xc = String::new();
    xc.append("XdrCodec<");
    xc.append(ac.as_str());
    xc.append(">");
    wr.pub_alias(cd.as_str(), xc.as_str());
    proof {
        assert(xc@ =~= "XdrCodec<"@ + ac@ + ">"@);
        let t = crate::code_writer::alias_text(k, "pub "@, cd@, "XdrCodec<"@ + ac@ + ">"@);
        acc = t;
        assert(wr.out@ =~= out0 + acc);
    }
    wr.pub_struct(pr.as_str());
    proof {
        let t = crate::code_writer::pub_struct_text(k, pr@);
        crate::function_writer::lemma_chunk_step(out0, acc, t);
        acc = acc + t;
        assert(wr.out@ == out0 + acc);
    }
    wr.close_block("");
    proof {
        crate::function_writer::lemma_close_step(out0, acc, k, ""@);
        acc = acc + crate::function_writer::close_text(k, ""@);
        assert(wr.out@ == out0 + acc);
    }
    wr.impl_("<T: Io + 'static>", "ServerProto<T>", pr.as_str());
    proof {
        acc = acc + crate::code_writer::ind_text(k) + "impl"@ + "<T: Io + 'static>"@ + " "@
            + "ServerProto<T>"@ + " for "@ + pr@ + " {\n"@;
        assert(wr.out@ =~= out0 + acc);
    }
    let mut a1 = String::new();
    a1.append("xdr_rpc::XdrRequest<");
    a1.append(areq.as_str());
    a1.append(">");
    wr.alias("Request", a1.as_str());
    proof {
        assert(a1@ =~= "xdr_rpc::XdrRequest<"@ + areq@ + ">"@);
        let t = crate::code_writer::alias_text(
            (k + 1) as nat,
            ""@,
            "Request"@,
            "xdr_rpc::XdrRequest<"@ + areq@ + ">"@,
        );
        crate::function_writer::lemma_chunk_step(out0, acc, t);
        acc = acc + t;
        assert(wr.out@ == out0 + acc);
    }
    let mut a2 = String::new();
    a2.append("xdr_rpc::XdrResponse<");
    a2.append(ares.as_str());
    a2.append(">");
    wr.alias("Response", a2.as_str());
    proof {
        assert(a2@ =~= "xdr_rpc::XdrResponse<"@ + ares@ + ">"@);
        let t = crate::code_writer::alias_text(
            (k + 1) as nat,
            ""@,
            "Response"@,
            "xdr_rpc::XdrResponse<"@ + ares@ + ">"@,
        );
        crate::function_writer::lemma_chunk_step(out0, acc, t);
        acc = acc + t;
        assert(wr.out@ == out0 + acc);
    }
    let mut a3 = String::new();
    a3.append("Framed<T, ");
    a3.append(cd.as_str());
    a3.append(">");
    wr.alias("Transport", a3.as_str());
    proof {
        assert(a3@ =~= "Framed<T, "@ + cd@ + ">"@);
        let t = crate::code_writer::alias_text(
            (k + 1) as nat,
            ""@,
            "Transport"@,
            "Framed<T, "@ + cd@ + ">"@,
        );
        crate::function_writer::lemma_chunk_step(out0, acc, t);
        acc = acc + t;
        assert(wr.out@ == out0 + acc);
    }
    wr.alias("BindTransport", "io::Result<Self::Transport>");
    proof {
        let t = crate::code_writer::alias_text(
            (k + 1) as nat,
            ""@,
            "BindTransport"@,
            "io::Result<Self::Transport>"@,
        );
        crate::function_writer::lemma_chunk_step(out0, acc, t);
        acc = acc + t;
        assert(wr.out@ == out0 + acc);
    }
    wr.expr_block("fn bind_transport(&self, io: T) -> Self::BindTransport");
    proof {
        let t = crate::code_writer::open_block_text(
            (k + 1) as nat,
            "fn bind_transport(&self, io: T) -> Self::BindTransport"@,
        );
        crate::function_writer::lemma_chunk_step(out0, acc, t);
        acc = acc + t;
        assert(wr.out@ == out0 + acc);
    }
    let mut bt = String::new();
    bt.append("Ok(io.framed(");
    bt.append(cd.as_str());
    bt.append("::new(");
    bt.append(ac.as_str());
    bt.append(" {})))");
    wr.write_line(bt.as_str());
    proof {
        assert(bt@ =~= "Ok(io.framed("@ + cd@ + "::new("@ + ac@ + " {})))"@);
        let t = crate::code_writer::line_text(
            (k + 2) as nat,
            "Ok(io.framed("@ + cd@ + "::new("@ + ac@ + " {})))"@,
        );
        crate::function_writer::lemma_chunk_step(out0, acc, t);
        acc = acc + t;
        assert(wr.out@ == out0 + acc);
    }
    wr.close_block("");
    proof {
        crate::function_writer::lemma_close_step(out0, acc, (k + 1) as nat, ""@);
        acc = acc + crate::function_writer::close_text((k + 1) as nat, ""@);
        assert(wr.out@ == out0 + acc);
    }
    wr.close_block("");
    proof {
        crate::function_writer::lemma_close_step(out0, acc, k, ""@);
        acc = acc + crate::function_writer::close_text(k, ""@);
        assert(wr.out@ == out0 + acc);
        assert(spec_codec_tail(prog_name@, k) == acc);
    }
}

/// Emit one program's codec scaffolding into the codec stream.
pub fn write_codec(prog_name: &String, versions: &Vec<Token>, wr: &mut CodeWriter) -> (r: bool)
    requires
        old(wr).indent + 3 < crate::code_writer::MAX_DEPTH,
    ensures
        r,
        final(wr).out@ == old(wr).out@ + spec_write_codec(prog_name@, old(wr).indent as nat),
        final(wr).indent == old(wr).indent,
{
    let _ = versions;
    let ghost k = old(wr).indent as nat;
    write_codec_head(prog_name, wr);
    write_codec_tail(prog_name, wr);
    proof {
        crate::function_writer::lemma_chunk_step(
            old(wr).out@,
            spec_codec_head(prog_name@, k),
            spec_codec_tail(prog_name@, k),
        );
    }
    true
}

// ---------------------------------------------------------------------------
// Hoisted definitions and the whole compilation
// ---------------------------------------------------------------------------
/// A hoisted definition is never larger than the field it came from.
proof fn lemma_field_hoists(f: &Token, k: nat, is_pub: bool)
    ensures
        field_gen(tok_view(f), k, is_pub) matches Ok(p) ==> forall|j: int|
            0 <= j < p.1.len() ==> crate::ast::tok_size(#[trigger] p.1[j]) <= crate::ast::tok_size(
                tok_view(f),
            ),
{
    match f {
        Token::Decl { ty, id } => {
            if let Ok(p) = field_gen(tok_view(f), k, is_pub) {
                assert forall|j: int| 0 <= j < p.1.len() implies crate::ast::tok_size(
                    #[trigger] p.1[j],
                ) <= crate::ast::tok_size(tok_view(f)) by {
                    assert(crate::ast::toks_size(Seq::<TokenV>::empty()) == 0);
                    assert(one(tok_view(&**ty)).drop_first() =~= Seq::<TokenV>::empty());
                    assert(one(tok_view(&**id)).drop_first() =~= Seq::<TokenV>::empty());
                    assert(crate::ast::toks_size(one(tok_view(&**ty))) == crate::ast::tok_size(
                        tok_view(&**ty),
                    ));
                    assert(crate::ast::toks_size(one(tok_view(&**id))) == crate::ast::tok_size(
                        tok_view(&**id),
                    ));
                    if let Ok(p2) = field_gen(tok_view(f), k, is_pub) {
                        if p2.1.len() > 0 {
                            assert(p2.1[0] == p2.1[j] || j != 0);
                        }
                    }
                }
            }
        },
        _ => {},
    }
}

/// Hoisted definitions of a field list are bounded by the list's size.
proof fn lemma_fields_hoists(fs: Seq<Token>, k: nat, is_pub: bool)
    ensures
        fields_gen(toks_view(fs), k, is_pub) matches Ok(p) ==> forall|j: int|
            0 <= j < p.1.len() ==> crate::ast::tok_size(#[trigger] p.1[j])
                <= crate::ast::toks_size(toks_view(fs)),
    decreases fs.len(),
{
    if fs.len() > 0 {
        lemma_toks_view_len(fs);
        lemma_toks_view_index(fs, 0);
        assert(toks_view(fs)[0] == tok_view(&fs[0]));
        assert(toks_view(fs).drop_first() =~= toks_view(fs.drop_first()));
        lemma_field_hoists(&fs[0], k, is_pub);
        lemma_fields_hoists(fs.drop_first(), k, is_pub);
        assert(crate::ast::toks_size(toks_view(fs)) == crate::ast::tok_size(toks_view(fs)[0])
            + crate::ast::toks_size(toks_view(fs.drop_first())));
    }
}

/// Hoisted definitions of a case arm's labels are bounded by the shared
/// declaration's size.
proof fn lemma_labels_hoists(
    vals: Seq<Token>,
    decl: &Token,
    k: nat,
    ns: TokenV,
    table: Seq<(TokenV, TokenV, TokenV)>,
)
    ensures
        labels_gen(toks_view(vals), tok_view(decl), k, ns, table) matches Ok(p) ==> forall|j: int|
            0 <= j < p.1.len() ==> crate::ast::tok_size(#[trigger] p.1[j]) <= crate::ast::tok_size(
                tok_view(decl),
            ),
    decreases vals.len(),
{
    if vals.len() > 0 {
        lemma_toks_view_len(vals);
        lemma_toks_view_index(vals, 0);
        assert(toks_view(vals).drop_first() =~= toks_view(vals.drop_first()));
        lemma_field_hoists(decl, (k + 1) as nat, false);
        lemma_labels_hoists(vals.drop_first(), decl, k, ns, table);
    }
}

/// Hoisted definitions of a union's case arms are bounded by the arms'
/// total size.
proof fn lemma_cases_hoists(
    cs: Seq<Token>,
    k: nat,
    ns: TokenV,
    table: Seq<(TokenV, TokenV, TokenV)>,
)
    ensures
        cases_gen(toks_view(cs), k, ns, table) matches Ok(p) ==> forall|j: int|
            0 <= j < p.1.len() ==> crate::ast::tok_size(#[trigger] p.1[j])
                <= crate::ast::toks_size(toks_view(cs)),
    decreases cs.len(),
{
    if cs.len() > 0 {
        lemma_toks_view_len(cs);
        lemma_toks_view_index(cs, 0);
        assert(toks_view(cs).drop_first() =~= toks_view(cs.drop_first()));
        match &cs[0] {
            Token::UnionCase { vals, decl } => {
                lemma_labels_hoists(vals@, decl, k, ns, table);
                assert(crate::ast::toks_size(Seq::<TokenV>::empty()) == 0);
                assert(one(tok_view(&**decl)).drop_first() =~= Seq::<TokenV>::empty());
                assert(crate::ast::toks_size(one(tok_view(&**decl))) == crate::ast::tok_size(
                    tok_view(&**decl),
                ));
            },
            _ => {
                crate::ast::lemma_tok_view_kind(&cs[0]);
            },
        }
        lemma_cases_hoists(cs.drop_first(), k, ns, table);
        assert(crate::ast::toks_size(toks_view(cs)) == crate::ast::tok_size(toks_view(cs)[0])
            + crate::ast::toks_size(toks_view(cs.drop_first())));
    }
}

/// Emission of one hoisted (or top-level) struct or union definition,
/// followed immediately by whatever it hoists in turn.
pub open spec fn spec_emit_def(h: TokenV, k: nat, table: Seq<(TokenV, TokenV, TokenV)>) -> Result<
    Seq<char>,
    CompileError,
>
    decreases crate::ast::tok_size(h), 1nat, 0nat,
{
    match h {
        TokenV::StructDef { id, decl } => match decl[0] {
            TokenV::Struct(fs) => match spec_write_struct(id[0], fs, k) {
                Ok((txt, hs)) => match spec_emit_defs(hs, k, table, crate::ast::tok_size(h)) {
                    Ok(more) => Ok(txt + more),
                    Err(e) => Err(e),
                },
                Err(e) => Err(e),
            },
            _ => Err(CompileError::UnsupportedNode),
        },
        TokenV::UnionDef { id, decl } => match decl[0] {
            TokenV::Union { decl: d, cases, default } => match spec_write_union(
                id[0],
                d[0],
                cases,
                default,
                k,
                table,
            ) {
                Ok((txt, hs)) => match spec_emit_defs(hs, k, table, crate::ast::tok_size(h)) {
                    Ok(more) => Ok(txt + more),
                    Err(e) => Err(e),
                },
                Err(e) => Err(e),
            },
            _ => Err(CompileError::UnsupportedNode),
        },
        _ => Err(CompileError::UnsupportedNode),
    }
}

/// Emission of a queue of hoisted definitions, each strictly smaller than
/// `cap`.
pub open spec fn spec_emit_defs(
    hs: Seq<TokenV>,
    k: nat,
    table: Seq<(TokenV, TokenV, TokenV)>,
    cap: nat,
) -> Result<Seq<char>, CompileError>
    decreases cap, 0nat, hs.len(),
{
    if hs.len() == 0 {
        Ok(Seq::empty())
    } else if crate::ast::tok_size(hs[0]) < cap {
        match spec_emit_def(hs[0], k, table) {
            Ok(t) => match spec_emit_defs(hs.drop_first(), k, table, cap) {
                Ok(rest) => Ok(t + rest),
                Err(e) => Err(e),
            },
            Err(e) => Err(e),
        }
    } else {
        Err(CompileError::UnsupportedNode)
    }
}

impl CodegenState {
    /// Remove and return all queued definitions, leaving the queue empty.
    pub fn take_hoisted(&mut self) -> (r: Vec<Token>)
        ensures
            r@ == old(self).hoister@,
            final(self).hoister@ == Seq::<Token>::empty(),
            final(self).table == old(self).table,
    {
        let r = self.hoister.split_off(0);
        proof {
            assert(r@ =~= old(self).hoister@);
            assert(self.hoister@ =~= Seq::<Token>::empty());
        }
        r
    }
}

/// Emit one struct or union definition and, recursively, every inline
/// definition hoisted out of it.
#[verifier::rlimit(100)]
pub fn emit_def(h: &Token, tab: &mut CodegenState, wr: &mut CodeWriter) -> (r: Result<
    (),
    CompileError,
>)
    requires
        old(wr).indent + 4 < crate::code_writer::MAX_DEPTH,
        toks_view(old(tab).hoister@) == Seq::<TokenV>::empty(),
        old(tab).hoister@.len() == 0,
    ensures
        match spec_emit_def(tok_view(h), old(wr).indent as nat, table_view(old(tab).table@)) {
            Ok(t) => r == Ok::<(), CompileError>(()) && final(wr).out@ == old(wr).out@ + t
                && final(wr).indent == old(wr).indent && final(tab).table == old(tab).table
                && final(tab).hoister@.len() == 0 && toks_view(final(tab).hoister@)
                == Seq::<TokenV>::empty(),
            Err(e) => r == Err::<(), CompileError>(e),
        },
    decreases crate::ast::tok_size(tok_view(h)),
{
    let ghost k = old(wr).indent as nat;
    let ghost out0 = old(wr).out@;
    let ghost tbl = table_view(old(tab).table@);
    let ghost hv = tok_view(h);
    proof {
        crate::ast::lemma_tok_view_kind(h);
    }
    let step = (match h {
        Token::StructDef { id, decl } => {
            proof {
                crate::ast::lemma_tok_view_kind(&**decl);
                if let TokenV::StructDef { id: sid, decl: sdv } = hv {
                    assert(sdv[0] == tok_view(&**decl));
                    assert(sid[0] == tok_view(&**id));
                }
            }
            match &**decl {
                Token::Struct(fields) => {
                    proof {
                        lemma_fields_hoists(fields@, (k + 1) as nat, true);
                    }
                    write_struct(id, fields, tab, wr)
                },
                _ => {
                    return Err(CompileError::UnsupportedNode);
                },
            }
        },
        Token::UnionDef { id, decl } => {
            proof {
                crate::ast::lemma_tok_view_kind(&**decl);
                if let TokenV::UnionDef { id: uid, decl: udv } = hv {
                    assert(udv[0] == tok_view(&**decl));
                    assert(uid[0] == tok_view(&**id));
                }
            }
            match &**decl {
                Token::Union { decl: d, cases, default } => {
                    proof {
                        lemma_cases_hoists(cases@, (k + 1) as nat, tok_view(&**d)->Decl_ty[0], tbl);
                    }
                    write_union(id, d, cases, default, tab, wr)
                },
                _ => {
                    return Err(CompileError::UnsupportedNode);
                },
            }
        },
        _ => {
            return Err(CompileError::UnsupportedNode);
        },
    });
    let ghost mut stxt: Seq<char> = Seq::empty();
    match step {
        Ok(()) => {
            proof {
                match hv {
                    TokenV::StructDef { id: sid, decl: sdv } => {
                        if let TokenV::Struct(fs) = sdv[0] {
                            stxt = spec_write_struct(sid[0], fs, k)->Ok_0.0;
                        }
                    },
                    TokenV::UnionDef { id: uid, decl: udv } => {
                        if let TokenV::Union { decl: d2, cases: c2, default: df2 } = udv[0] {
                            stxt = spec_write_union(uid[0], d2[0], c2, df2, k, tbl)->Ok_0.0;
                        }
                    },
                    _ => {},
                }
                assert(wr.out@ == out0 + stxt);
            }
        },
        Err(e) => {
            return Err(e);
        },
    }
    let hs = tab.take_hoisted();
    let ghost hsv = toks_view(hs@);
    proof {
        assert(Seq::<TokenV>::empty() + hsv =~= hsv);
        match h {
            Token::StructDef { id: sid, decl: sdecl } => {
                if let Token::Struct(sfields) = &**sdecl {
                    lemma_fields_hoists(sfields@, (k + 1) as nat, true);
                    assert(crate::ast::toks_size(Seq::<TokenV>::empty()) == 0);
                    assert(one(tok_view(&**sdecl)).drop_first() =~= Seq::<TokenV>::empty());
                    assert(one(tok_view(&**sid)).drop_first() =~= Seq::<TokenV>::empty());
                    assert(crate::ast::toks_size(one(tok_view(&**sdecl))) == crate::ast::tok_size(
                        tok_view(&**sdecl),
                    ));
                }
            },
            Token::UnionDef { id: uid, decl: udecl } => {
                if let Token::Union { decl: ud, cases: ucases, default: _ } = &**udecl {
                    lemma_cases_hoists(
                        ucases@,
                        (k + 1) as nat,
                        tok_view(&**ud)->Decl_ty[0],
                        tbl,
                    );
                    assert(crate::ast::toks_size(Seq::<TokenV>::empty()) == 0);
                    assert(one(tok_view(&**udecl)).drop_first() =~= Seq::<TokenV>::empty());
                    assert(crate::ast::toks_size(one(tok_view(&**udecl))) == crate::ast::tok_size(
                        tok_view(&**udecl),
                    ));
                }
            },
            _ => {},
        }
        assert(forall|j: int|
            0 <= j < hsv.len() ==> crate::ast::tok_size(#[trigger] hsv[j]) < crate::ast::tok_size(
                hv,
            ));
    }
    let ghost base_out = wr.out@;
    let mut j: usize = 0;
    let ghost mut done_txt: Seq<char> = Seq::empty();
    proof {
        lemma_toks_view_len(hs@);
        assert(hsv.skip(0) =~= hsv);
        assert(base_out + done_txt =~= base_out);
        assert(out0 + stxt =~= base_out);
    }
    while j < hs.len()
        invariant
            j <= hs@.len(),
            hsv.len() == hs@.len(),
            hsv == toks_view(hs@),
            hv == tok_view(h),
            forall|j2: int|
                0 <= j2 < hsv.len() ==> crate::ast::tok_size(#[trigger] hsv[j2])
                    < crate::ast::tok_size(hv),
            out0 + stxt == base_out,
            spec_emit_def(hv, k, tbl) == (match spec_emit_defs(
                hsv,
                k,
                tbl,
                crate::ast::tok_size(hv),
            ) {
                Ok(more) => Ok::<Seq<char>, CompileError>(stxt + more),
                Err(e) => Err(e),
            }),
            k == old(wr).indent as nat,
            old(wr).indent + 4 < crate::code_writer::MAX_DEPTH,
            tbl == table_view(tab.table@),
            tab.table == old(tab).table,
            tab.hoister@.len() == 0,
            toks_view(tab.hoister@) == Seq::<TokenV>::empty(),
            wr.indent == k,
            wr.out@ == base_out + done_txt,
            spec_emit_defs(hsv, k, tbl, crate::ast::tok_size(hv)) == (match spec_emit_defs(
                hsv.skip(j as int),
                k,
                tbl,
                crate::ast::tok_size(hv),
            ) {
                Ok(rest) => Ok::<Seq<char>, CompileError>(done_txt + rest),
                Err(e) => Err(e),
            }),
        decreases hs@.len() - j,
    {
        proof {
            lemma_toks_view_index(hs@, j as int);
            assert(hsv.skip(j as int)[0] == hsv[j as int]);
            assert(hsv.skip(j as int).drop_first() =~= hsv.skip(j + 1));
        }
        let res = emit_def(&hs[j], tab, wr);
        match res {
            Ok(()) => {
                proof {
                    let t0 = spec_emit_def(hsv[j as int], k, tbl)->Ok_0;
                    match spec_emit_defs(hsv.skip(j + 1), k, tbl, crate::ast::tok_size(hv)) {
                        Ok(rest) => {
                            assert(done_txt + (t0 + rest) =~= (done_txt + t0) + rest);
                        },
                        Err(_) => {},
                    }
                    done_txt = done_txt + t0;
                    assert(wr.out@ =~= base_out + done_txt);
                }
            },
            Err(e) => {
                return Err(e);
            },
        }
        j += 1;
    }
    proof {
        assert(hsv.skip(hs@.len() as int) =~= Seq::<TokenV>::empty());
        assert(done_txt + Seq::<char>::empty() =~= done_txt);
        if let Ok(txt) = spec_emit_def(hv, k, tbl) {
            assert(txt == stxt + done_txt);
            assert(wr.out@ =~= out0 + txt);
        }
    }
    Ok(())
}

/// Hoisting completeness: when a struct's field declares an inline struct
/// or union, the emission of the field list hoists a top-level definition
/// keyed by that field's identifier, and the field's declared type text is
/// the CamelCase image of the same identifier, so the field's type name
/// resolves to the hoisted definition's synthesized name.
pub proof fn lemma_hoisting_completeness(fs: Seq<TokenV>, i: int, k: nat)
    requires
        0 <= i < fs.len(),
        fs[i] matches TokenV::Decl { ty, id } && (ty[0] is Struct || ty[0] is Union) && id[0]
            matches TokenV::Ident(_),
        fields_gen(fs, k, true) is Ok,
    ensures
        ({
            let hs = fields_gen(fs, k, true)->Ok_0.1;
            let ty = fs[i]->Decl_ty;
            let id = fs[i]->Decl_id;
            let hoisted = (if ty[0] is Union {
                TokenV::UnionDef { id: id, decl: ty }
            } else {
                TokenV::StructDef { id: id, decl: ty }
            });
            &&& exists|j: int| 0 <= j < hs.len() && hs[j] == hoisted
            &&& field_gen(fs[i], k, true) == Ok::<(Seq<char>, Seq<TokenV>), CompileError>(
                (
                    field_text(k, true, id[0]->Ident_0, spec_rustify(id[0]->Ident_0)),
                    seq![hoisted],
                ),
            )
        }),
    decreases fs.len(),
{
    let hs = fields_gen(fs, k, true)->Ok_0.1;
    let h0 = field_gen(fs[0], k, true)->Ok_0.1;
    let rest = fields_gen(fs.drop_first(), k, true)->Ok_0.1;
    assert(hs == h0 + rest);
    if i == 0 {
        let ty = fs[0]->Decl_ty;
        let id = fs[0]->Decl_id;
        let hoisted = (if ty[0] is Union {
            TokenV::UnionDef { id: id, decl: ty }
        } else {
            TokenV::StructDef { id: id, decl: ty }
        });
        assert(h0 == seq![hoisted]);
        assert(hs[0] == hoisted);
        assert(0 < hs.len());
    } else {
        lemma_hoisting_completeness(fs.drop_first(), i - 1, k);
        let ty = fs[i]->Decl_ty;
        let id = fs[i]->Decl_id;
        let hoisted = (if ty[0] is Union {
            TokenV::UnionDef { id: id, decl: ty }
        } else {
            TokenV::StructDef { id: id, decl: ty }
        });
        let j0 = choose|j: int|
            0 <= j < rest.len() && rest[j] == hoisted;
        assert(hs[h0.len() + j0] == hoisted);
        assert(0 <= h0.len() + j0 < hs.len());
    }
}

/// The emission of a drained queue contains each queued definition's own
/// emission, as one contiguous piece; the returned pair is the surrounding
/// text.
proof fn lemma_emit_defs_item(
    hs: Seq<TokenV>,
    j: int,
    k: nat,
    table: Seq<(TokenV, TokenV, TokenV)>,
    cap: nat,
) -> (r: (Seq<char>, Seq<char>))
    requires
        spec_emit_defs(hs, k, table, cap) is Ok,
        0 <= j < hs.len(),
    ensures
        spec_emit_def(hs[j], k, table) is Ok,
        spec_emit_defs(hs, k, table, cap)->Ok_0 == r.0 + spec_emit_def(hs[j], k, table)->Ok_0
            + r.1,
    decreases j,
{
    let t = spec_emit_def(hs[0], k, table)->Ok_0;
    let rest = spec_emit_defs(hs.drop_first(), k, table, cap)->Ok_0;
    if j == 0 {
        let r = (Seq::<char>::empty(), rest);
        assert(t + rest =~= (r.0 + t) + r.1);
        r
    } else {
        let sub = lemma_emit_defs_item(hs.drop_first(), j - 1, k, table, cap);
        assert(hs.drop_first()[j - 1] == hs[j]);
        let item = spec_emit_def(hs[j], k, table)->Ok_0;
        let r = (t + sub.0, sub.1);
        assert(t + ((sub.0 + item) + sub.1) =~= ((t + sub.0) + item) + sub.1);
        r
    }
}

/// The emission of a hoisted struct or union definition opens with the
/// type header carrying its synthesized CamelCase name; the returned text
/// is everything after that header.
proof fn lemma_hoisted_emission_named(
    hoisted: TokenV,
    nm: Seq<char>,
    k: nat,
    table: Seq<(TokenV, TokenV, TokenV)>,
) -> (r: Seq<char>)
    requires
        spec_emit_def(hoisted, k, table) is Ok,
        hoisted matches TokenV::StructDef { id, decl: _ } ==> id[0] == TokenV::Ident(nm),
        hoisted matches TokenV::UnionDef { id, decl: _ } ==> id[0] == TokenV::Ident(nm),
        hoisted is StructDef || hoisted is UnionDef,
    ensures
        hoisted is StructDef ==> spec_emit_def(hoisted, k, table)->Ok_0
            == crate::code_writer::pub_struct_text(k, spec_rustify(nm)) + r,
        hoisted is UnionDef ==> spec_emit_def(hoisted, k, table)->Ok_0
            == crate::code_writer::pub_union_enum_text(k, spec_rustify(nm)) + r,
{
    match hoisted {
        TokenV::StructDef { id, decl } => {
            let fs = decl[0]->Struct_0;
            let p = spec_write_struct(id[0], fs, k);
            let ftxt = fields_gen(fs, (k + 1) as nat, true)->Ok_0.0;
            let more = spec_emit_defs(p->Ok_0.1, k, table, crate::ast::tok_size(hoisted))->Ok_0;
            let hdr = crate::code_writer::pub_struct_text(k, spec_rustify(nm));
            let r = (ftxt + crate::function_writer::close_text(k, ""@)) + more;
            assert(((hdr + ftxt + crate::function_writer::close_text(k, ""@))) + more =~= hdr + r);
            r
        },
        TokenV::UnionDef { id, decl } => {
            let u = decl[0];
            let p = spec_write_union(id[0], u->Union_decl[0], u->Union_cases, u->Union_default, k, table);
            let ctxt = cases_gen(u->Union_cases, (k + 1) as nat, u->Union_decl[0]->Decl_ty[0], table)->Ok_0.0;
            let dtxt = default_gen(u->Union_default, (k + 1) as nat)->Ok_0;
            let more = spec_emit_defs(p->Ok_0.1, k, table, crate::ast::tok_size(hoisted))->Ok_0;
            let hdr = crate::code_writer::pub_union_enum_text(k, spec_rustify(nm));
            let r = ((ctxt + dtxt) + crate::function_writer::close_text(k, ""@)) + more;
            assert(((hdr + ctxt + dtxt + crate::function_writer::close_text(k, ""@))) + more =~= hdr
                + r);
            r
        },
        _ => {
            Seq::empty()
        },
    }
}

/// Hoisting completeness over a whole definition's emission: when a named
/// struct declares a field with an inline struct or union body, the emitted
/// text contains, as one contiguous top-level piece, the full emission of
/// the hoisted definition, and that piece opens with a type header named by
/// the CamelCase image of the field's identifier — the same name the field
/// line itself declares as its type. The returned triple is the text before
/// the hoisted definition, its body after the header, and the text after
/// it. Since the contained emission is again a whole definition's emission,
/// the law re-applies to inline types nested deeper.
#[verifier::rlimit(100)]
pub proof fn lemma_hoisting_completeness_emitted(
    h: TokenV,
    i: int,
    k: nat,
    table: Seq<(TokenV, TokenV, TokenV)>,
) -> (r: (Seq<char>, Seq<char>, Seq<char>))
    requires
        h matches TokenV::StructDef { id: _, decl } && decl[0] is Struct,
        spec_emit_def(h, k, table) is Ok,
        ({
            let fs = h->StructDef_decl[0]->Struct_0;
            &&& 0 <= i < fs.len()
            &&& fs[i] matches TokenV::Decl { ty, id } && (ty[0] is Struct || ty[0] is Union)
                && id[0] matches TokenV::Ident(_)
        }),
    ensures
        ({
            let fs = h->StructDef_decl[0]->Struct_0;
            let nm = fs[i]->Decl_id[0]->Ident_0;
            let hdr = (if fs[i]->Decl_ty[0] is Union {
                crate::code_writer::pub_union_enum_text(k, spec_rustify(nm))
            } else {
                crate::code_writer::pub_struct_text(k, spec_rustify(nm))
            });
            &&& spec_emit_def(h, k, table)->Ok_0 == r.0 + (hdr + r.1) + r.2
            &&& field_gen(fs[i], (k + 1) as nat, true)->Ok_0.0 == field_text(
                (k + 1) as nat,
                true,
                nm,
                spec_rustify(nm),
            )
        }),
{
    let fs = h->StructDef_decl[0]->Struct_0;
    let sid = h->StructDef_id[0];
    let p = spec_write_struct(sid, fs, k);
    let txt = p->Ok_0.0;
    let hs = p->Ok_0.1;
    let ty = fs[i]->Decl_ty;
    let fid = fs[i]->Decl_id;
    let nm = fid[0]->Ident_0;
    let hoisted = (if ty[0] is Union {
        TokenV::UnionDef { id: fid, decl: ty }
    } else {
        TokenV::StructDef { id: fid, decl: ty }
    });
    assert(fields_gen(fs, (k + 1) as nat, true) is Ok);
    lemma_hoisting_completeness(fs, i, (k + 1) as nat);
    assert(hs == fields_gen(fs, (k + 1) as nat, true)->Ok_0.1);
    let j = choose|j: int| 0 <= j < hs.len() && hs[j] == hoisted;
    assert(0 <= j < hs.len() && hs[j] == hoisted);
    let around = lemma_emit_defs_item(hs, j, k, table, crate::ast::tok_size(h));
    let item = spec_emit_def(hoisted, k, table)->Ok_0;
    let body = lemma_hoisted_emission_named(hoisted, nm, k, table);
    let r = (txt + around.0, body, around.1);
    let hdr = (if ty[0] is Union {
        crate::code_writer::pub_union_enum_text(k, spec_rustify(nm))
    } else {
        crate::code_writer::pub_struct_text(k, spec_rustify(nm))
    });
    assert(item == hdr + body);
    assert(txt + ((around.0 + item) + around.1) =~= (txt + around.0) + (hdr + body) + around.1);
    r
}

/// The three output streams and the symbol table at one point of the walk.
pub struct GenSt {
    /// The types artifact so far.
    pub types: Seq<char>,
    /// The codec artifact so far.
    pub codec: Seq<char>,
    /// The service artifact so far.
    pub service: Seq<char>,
    /// The symbol table so far.
    pub table: Seq<(TokenV, TokenV, TokenV)>,
}

/// Emission of one top-level node into the three streams.
#[verifier::opaque]
pub open spec fn spec_codegen_one(t: TokenV, st: GenSt) -> Result<GenSt, CompileError> {
    match t {
        TokenV::Blank => Ok(st),
        TokenV::Comment(_) => Ok(st),
        TokenV::CodeSnippet(_) => Ok(st),
        TokenV::StructDef { id: _, decl: _ } => match spec_emit_def(t, 0, st.table) {
            Ok(txt) => Ok(GenSt { types: st.types + txt, ..st }),
            Err(e) => Err(e),
        },
        TokenV::UnionDef { id: _, decl: _ } => match spec_emit_def(t, 0, st.table) {
            Ok(txt) => Ok(GenSt { types: st.types + txt, ..st }),
            Err(e) => Err(e),
        },
        TokenV::EnumDef { id, decl } => match decl[0] {
            TokenV::Enum(fs) => match spec_write_enum(id[0], fs, 0, st.table) {
                Ok((txt, t2)) => Ok(GenSt { types: st.types + txt, table: t2, ..st }),
                Err(e) => Err(e),
            },
            _ => Err(CompileError::UnsupportedNode),
        },
        TokenV::TypeDef(d) => match spec_write_typedef(d[0], 0) {
            Ok(txt) => Ok(GenSt { types: st.types + txt, ..st }),
            Err(e) => Err(e),
        },
        TokenV::Program { name, id, versions } => match name[0] {
            TokenV::Ident(s) => {
                let ctxt = spec_write_codec(s, 0);
                match spec_write_program(s, versions, 0) {
                    Ok(ptxt) => match spec_write_service(s, versions, 0) {
                        Ok(stxt) => match id[0] {
                            TokenV::Constant(n) => match spec_write_decoder(s, n, versions, 0) {
                                Ok(dtxt) => match spec_write_encoder(s, versions, 0) {
                                    Ok(etxt) => Ok(
                                        GenSt {
                                            types: st.types + ptxt + dtxt + etxt,
                                            codec: st.codec + ctxt,
                                            service: st.service + stxt,
                                            table: st.table,
                                        },
                                    ),
                                    Err(e) => Err(e),
                                },
                                Err(e) => Err(e),
                            },
                            _ => Ok(
                                GenSt {
                                    types: st.types + ptxt,
                                    codec: st.codec + ctxt,
                                    service: st.service + stxt,
                                    table: st.table,
                                },
                            ),
                        },
                        Err(e) => Err(e),
                    },
                    Err(e) => Err(e),
                }
            },
            _ => Ok(st),
        },
        _ => Err(CompileError::UnsupportedNode),
    }
}

/// Emission of a whole top-level node sequence.
pub open spec fn spec_codegen_list(ts: Seq<TokenV>, st: GenSt) -> Result<GenSt, CompileError>
    decreases ts.len(),
{
    if ts.len() == 0 {
        Ok(st)
    } else {
        match spec_codegen_one(ts[0], st) {
            Ok(st2) => spec_codegen_list(ts.drop_first(), st2),
            Err(e) => Err(e),
        }
    }
}

/// The streams after the fixed headers, before any node is emitted.
pub open spec fn spec_initial_state() -> GenSt {
    GenSt {
        types: crate::code_writer::comment_text(0, "autogenerated by xdrust"@)
            + crate::code_writer::comment_text(0, "translated XDR->Rust types and functions"@)
            + crate::code_writer::line_text(0, "#[allow(dead_code)]"@) + crate::code_writer::line_text(
            0,
            "use std::{io, fmt};"@,
        ) + crate::code_writer::line_text(0, "use serde_xdr;"@) + crate::code_writer::line_text(
            0,
            "use xdr_rpc;"@,
        ) + crate::code_writer::line_text(0, "use tokio_core::io::EasyBuf;"@) + "\n"@,
        codec: crate::code_writer::comment_text(0, "autogenerated by xdrust"@)
            + crate::code_writer::line_text(0, "#[allow(dead_code)]"@)
            + crate::code_writer::line_text(0, "use std::io;"@) + crate::code_writer::line_text(
            0,
            "use serde_xdr;"@,
        ) + crate::code_writer::line_text(0, "use xdr_rpc;"@) + crate::code_writer::line_text(
            0,
            "use tokio_core::io::{Codec, EasyBuf, Io};"@,
        ) + crate::code_writer::line_text(0, "use tokio_proto::pipeline::ServerProto;"@)
            + crate::code_writer::line_text(0, "use tokio_core::io::Framed;"@) + "\n"@,
        service: crate::code_writer::comment_text(0, "autogenerated by xdrust"@)
            + crate::code_writer::line_text(0, "#[allow(dead_code)]"@)
            + crate::code_writer::line_text(0, "use std::io;"@) + crate::code_writer::line_text(
            0,
            "use futures::{future, BoxFuture, Future};"@,
        ) + crate::code_writer::line_text(0, "use tokio_service::Service;"@)
            + crate::code_writer::line_text(0, "use xdr_rpc;"@) + "\n"@,
        table: Seq::empty(),
    }
}

/// The three artifacts of a whole compilation, as a function of the source
/// text alone: the same schema always yields byte-identical artifacts.
pub open spec fn spec_compile(src: Seq<char>) -> Result<
    (Seq<char>, Seq<char>, Seq<char>),
    CompileError,
> {
    match crate::parser::spec_parse(src) {
        None => Err(CompileError::ParseFailure),
        Some(toks) => match spec_codegen_list(toks, spec_initial_state()) {
            Ok(st) => Ok((st.types, st.codec, st.service)),
            Err(e) => Err(e),
        },
    }
}

/// Idempotent re-emission: the artifacts are a mathematical function of the
/// source text, so two compilations of the same schema in the same process
/// yield byte-identical output, with no ordering left to the symbol table
/// or the hoist queue.
pub proof fn lemma_reemission(
    src: Seq<char>,
    a: (Seq<char>, Seq<char>, Seq<char>),
    b: (Seq<char>, Seq<char>, Seq<char>),
)
    requires
        spec_compile(src) == Ok::<(Seq<char>, Seq<char>, Seq<char>), CompileError>(a),
        spec_compile(src) == Ok::<(Seq<char>, Seq<char>, Seq<char>), CompileError>(b),
    ensures
        a == b,
{
}

/// The compiler: three writers, one per artifact, and the side state of the
/// walk.
pub struct CodeGen {
    /// Receives the types artifact, including the dispatch trees.
    pub types_wr: CodeWriter,
    /// Receives the codec artifact.
    pub codec_wr: CodeWriter,
    /// Receives the service artifact.
    pub service_wr: CodeWriter,
    /// Symbol table and hoist queue.
    pub state: CodegenState,
}

impl CodeGen {
    /// Nothing has been compiled yet.
    pub open spec fn is_fresh(&self) -> bool {
        &&& self.types_wr.out@ == Seq::<char>::empty()
        &&& self.codec_wr.out@ == Seq::<char>::empty()
        &&& self.service_wr.out@ == Seq::<char>::empty()
        &&& self.types_wr.indent == 0
        &&& self.codec_wr.indent == 0
        &&& self.service_wr.indent == 0
        &&& table_view(self.state.table@) == Seq::<(TokenV, TokenV, TokenV)>::empty()
        &&& self.state.hoister@.len() == 0
        &&& toks_view(self.state.hoister@) == Seq::<TokenV>::empty()
    }

    /// A fresh compiler with empty outputs.
    pub fn new() -> (r: CodeGen)
        ensures
            r.is_fresh(),
    {
        CodeGen {
            types_wr: CodeWriter::new(),
            codec_wr: CodeWriter::new(),
            service_wr: CodeWriter::new(),
            state: CodegenState::new(),
        }
    }

    /// Emit one top-level node into the right streams.
    #[verifier::rlimit(100)]
    fn codegen_one(&mut self, t: &Token) -> (r: Result<(), CompileError>)
        requires
            old(self).types_wr.indent == 0,
            old(self).codec_wr.indent == 0,
            old(self).service_wr.indent == 0,
            old(self).state.hoister@.len() == 0,
            toks_view(old(self).state.hoister@) == Seq::<TokenV>::empty(),
        ensures
            ({
                let st0 = GenSt {
                    types: old(self).types_wr.out@,
                    codec: old(self).codec_wr.out@,
                    service: old(self).service_wr.out@,
                    table: table_view(old(self).state.table@),
                };
                match spec_codegen_one(tok_view(t), st0) {
                    Ok(st2) => {
                        &&& r == Ok::<(), CompileError>(())
                        &&& final(self).types_wr.out@ == st2.types
                        &&& final(self).codec_wr.out@ == st2.codec
                        &&& final(self).service_wr.out@ == st2.service
                        &&& table_view(final(self).state.table@) == st2.table
                        &&& final(self).types_wr.indent == 0
                        &&& final(self).codec_wr.indent == 0
                        &&& final(self).service_wr.indent == 0
                        &&& final(self).state.hoister@.len() == 0
                        &&& toks_view(final(self).state.hoister@) == Seq::<TokenV>::empty()
                    },
                    Err(e) => r == Err::<(), CompileError>(e),
                }
            }),
    {
        proof {
            reveal(spec_codegen_one);
            crate::ast::lemma_tok_view_kind(t);
        }
        match t {
            Token::Blank => Ok(()),
            Token::Comment(_) => Ok(()),
            Token::CodeSnippet(_) => Ok(()),
            Token::StructDef { id: _, decl: _ } => emit_def(t, &mut self.state, &mut self.types_wr),
            Token::UnionDef { id: _, decl: _ } => emit_def(t, &mut self.state, &mut self.types_wr),
            Token::EnumDef { id, decl } => {
                proof {
                    crate::ast::lemma_tok_view_kind(&**decl);
                    if let TokenV::EnumDef { id: eid, decl: edv } = tok_view(t) {
                        assert(edv[0] == tok_view(&**decl));
                        assert(eid[0] == tok_view(&**id));
                    }
                }
                match &**decl {
                    Token::Enum(fields) => write_enum(id, fields, &mut self.state, &mut self.types_wr),
                    _ => Err(CompileError::UnsupportedNode),
                }
            },
            Token::TypeDef(d) => {
                proof {
                    if let TokenV::TypeDef(dv) = tok_view(t) {
                        assert(dv[0] == tok_view(&**d));
                    }
                }
                write_typedef(d, &mut self.types_wr)
            },
            Token::Program { name, id, versions } => {
                proof {
                    crate::ast::lemma_tok_view_kind(&**name);
                    crate::ast::lemma_tok_view_kind(&**id);
                    if let TokenV::Program { name: pn, id: pid, versions: pv } = tok_view(t) {
                        assert(pn[0] == tok_view(&**name));
                        assert(pid[0] == tok_view(&**id));
                        assert(pv == toks_view(versions@));
                    }
                }
                match &**name {
                    Token::Ident(s) => {
                        write_codec(s, versions, &mut self.codec_wr);
                        match write_program(s, versions, &mut self.types_wr) {
                            Ok(()) => {},
                            Err(e) => {
                                return Err(e);
                            },
                        }
                        match write_service(s, versions, &mut self.service_wr) {
                            Ok(()) => {},
                            Err(e) => {
                                return Err(e);
                            },
                        }
                        match &**id {
                            Token::Constant(n) => {
                                match write_decoder(s, *n, versions, &mut self.types_wr) {
                                    Ok(()) => {},
                                    Err(e) => {
                                        return Err(e);
                                    },
                                }
                                match write_encoder(s, versions, &mut self.types_wr) {
                                    Ok(()) => {},
                                    Err(e) => {
                                        return Err(e);
                                    },
                                }
                                Ok(())
                            },
                            _ => Ok(()),
                        }
                    },
                    _ => Ok(()),
                }
            },
            _ => Err(CompileError::UnsupportedNode),
        }
    }

    /// Compile one schema text: parse it, then emit the three artifacts. On
    /// any failure the partial output is discarded and the compiler is left
    /// empty.
    pub fn compile(&mut self, source: &str) -> (r: Result<(), CompileError>)
        requires
            old(self).is_fresh(),
        ensures
            match spec_compile(source@) {
                Ok(outs) => r == Ok::<(), CompileError>(()) && final(self).types_wr.out@ == outs.0
                    && final(self).codec_wr.out@ == outs.1 && final(self).service_wr.out@ == outs.2
                    && final(self).state.hoister@.len() == 0,
                Err(e) => r == Err::<(), CompileError>(e) && final(self).is_fresh(),
            },
    {
        let toks = match crate::parser::parse(source) {
            Some(toks) => toks,
            None => {
                self.reset();
                return Err(CompileError::ParseFailure);
            },
        };
        self.codec_wr.write_codec_header();
        self.types_wr.write_proto_header();
        self.service_wr.write_service_header();
        proof {
            let st0 = spec_initial_state();
            assert(self.types_wr.out@ =~= st0.types);
            assert(self.codec_wr.out@ =~= st0.codec);
            assert(self.service_wr.out@ =~= st0.service);
        }
        match self.codegen_all(&toks) {
            Ok(()) => Ok(()),
            Err(e) => {
                self.reset();
                Err(e)
            },
        }
    }

    /// Walk the top-level node sequence once, emitting every node.
    #[verifier::rlimit(100)]
    fn codegen_all(&mut self, toks: &Vec<Token>) -> (r: Result<(), CompileError>)
        requires
            old(self).types_wr.indent == 0,
            old(self).codec_wr.indent == 0,
            old(self).service_wr.indent == 0,
            old(self).state.hoister@.len() == 0,
            toks_view(old(self).state.hoister@) == Seq::<TokenV>::empty(),
        ensures
            ({
                let st0 = GenSt {
                    types: old(self).types_wr.out@,
                    codec: old(self).codec_wr.out@,
                    service: old(self).service_wr.out@,
                    table: table_view(old(self).state.table@),
                };
                match spec_codegen_list(toks_view(toks@), st0) {
                    Ok(st2) => r == Ok::<(), CompileError>(()) && final(self).types_wr.out@
                        == st2.types && final(self).codec_wr.out@ == st2.codec
                        && final(self).service_wr.out@ == st2.service
                        && final(self).state.hoister@.len() == 0,
                    Err(e) => r == Err::<(), CompileError>(e),
                }
            }),
    {
        let ghost all = toks_view(toks@);
        let ghost st0 = GenSt {
            types: old(self).types_wr.out@,
            codec: old(self).codec_wr.out@,
            service: old(self).service_wr.out@,
            table: table_view(old(self).state.table@),
        };
        let mut i: usize = 0;
        proof {
            lemma_toks_view_len(toks@);
            assert(all.skip(0) =~= all);
        }
        while i < toks.len()
            invariant
                i <= toks@.len(),
                all.len() == toks@.len(),
                all == toks_view(toks@),
                st0 == (GenSt {
                    types: old(self).types_wr.out@,
                    codec: old(self).codec_wr.out@,
                    service: old(self).service_wr.out@,
                    table: table_view(old(self).state.table@),
                }),
                self.types_wr.indent == 0,
                self.codec_wr.indent == 0,
                self.service_wr.indent == 0,
                self.state.hoister@.len() == 0,
                toks_view(self.state.hoister@) == Seq::<TokenV>::empty(),
                spec_codegen_list(all, st0) == spec_codegen_list(
                    all.skip(i as int),
                    GenSt {
                        types: self.types_wr.out@,
                        codec: self.codec_wr.out@,
                        service: self.service_wr.out@,
                        table: table_view(self.state.table@),
                    },
                ),
            decreases toks@.len() - i,
        {
            proof {
                lemma_toks_view_index(toks@, i as int);
                assert(all.skip(i as int)[0] == all[i as int]);
                assert(all.skip(i as int).drop_first() =~= all.skip(i + 1));
            }
            let res = self.codegen_one(&toks[i]);
            match res {
                Ok(()) => {},
                Err(e) => {
                    return Err(e);
                },
            }
            i += 1;
        }
        proof {
            assert(all.skip(toks@.len() as int) =~= Seq::<TokenV>::empty());
        }
        Ok(())
    }

    /// Discard all partial output and state.
    fn reset(&mut self)
        ensures
            final(self).is_fresh(),
    {
        self.types_wr = CodeWriter::new();
        self.codec_wr = CodeWriter::new();
        self.service_wr = CodeWriter::new();
        self.state = CodegenState::new();
    }
}

} // verus!

