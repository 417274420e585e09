//! Abstract syntax tree for the XDR schema language, together with its
//! mathematical model.
//!
//! `Token` is the executable tree produced by the parser; `TokenV` is the
//! ghost mirror that contracts speak of. In `TokenV`, a child slot is a
//! `Seq<TokenV>`: a required child is a sequence of length one, an optional
//! child is empty or of length one. This keeps the ghost type free of heap
//! indirection while preserving the shape of the tree.

use vstd::prelude::*;

verus! {

/// Primitive wire types of the schema language.
#[derive(Clone, Copy, Debug, PartialEq, Eq, Structural)]
pub enum Type {
    Bool,
    Int,
    Uint,
    Hyper,
    Uhyper,
    Float,
    Double,
    Quadruple,
}

/// One node of the schema syntax tree.
#[derive(Debug, PartialEq, Eq)]
pub enum Token {
    Constant(i64),
    Type(Type),
    Enum(Vec<(Token, Token)>),
    Struct(Vec<Token>),
    Ident(String),
    Blank,
    VoidDecl,
    Decl { ty: Box<Token>, id: Box<Token> },
    PointerDecl { ty: Box<Token>, id: Box<Token> },
    OpaqueDecl { id: Box<Token>, size: Box<Token> },
    StringDecl { id: Box<Token>, size: Box<Option<Token>> },
    VarOpaqueDecl { id: Box<Token>, size: Box<Option<Token>> },
    ArrayDecl { ty: Box<Token>, id: Box<Token>, size: Box<Token> },
    VarArrayDecl { ty: Box<Token>, id: Box<Token>, size: Box<Option<Token>> },
    ConstantDef(Box<Token>),
    TypeDef(Box<Token>),
    EnumDef { id: Box<Token>, decl: Box<Token> },
    StructDef { id: Box<Token>, decl: Box<Token> },
    UnionDef { id: Box<Token>, decl: Box<Token> },
    UnionCase { vals: Vec<Token>, decl: Box<Token> },
    Union { decl: Box<Token>, cases: Vec<Token>, default: Box<Option<Token>> },
    Comment(String),
    CodeSnippet(String),
    Namespace { name: Box<Token>, progs: Vec<Token> },
    Program { name: Box<Token>, id: Box<Token>, versions: Vec<Token> },
    Version { name: Box<Token>, id: Box<Token>, procs: Vec<Token> },
    Proc { return_type: Box<Token>, name: Box<Token>, arg_types: Vec<Token>, id: Box<Token> },
}

/// Ghost mirror of `Token`. Child slots are sequences; see the module note.
pub enum TokenV {
    Constant(int),
    Type(Type),
    Enum(Seq<(TokenV, TokenV)>),
    Struct(Seq<TokenV>),
    Ident(Seq<char>),
    Blank,
    VoidDecl,
    Decl { ty: Seq<TokenV>, id: Seq<TokenV> },
    PointerDecl { ty: Seq<TokenV>, id: Seq<TokenV> },
    OpaqueDecl { id: Seq<TokenV>, size: Seq<TokenV> },
    StringDecl { id: Seq<TokenV>, size: Seq<TokenV> },
    VarOpaqueDecl { id: Seq<TokenV>, size: Seq<TokenV> },
    ArrayDecl { ty: Seq<TokenV>, id: Seq<TokenV>, size: Seq<TokenV> },
    VarArrayDecl { ty: Seq<TokenV>, id: Seq<TokenV>, size: Seq<TokenV> },
    ConstantDef(Seq<TokenV>),
    TypeDef(Seq<TokenV>),
    EnumDef { id: Seq<TokenV>, decl: Seq<TokenV> },
    StructDef { id: Seq<TokenV>, decl: Seq<TokenV> },
    UnionDef { id: Seq<TokenV>, decl: Seq<TokenV> },
    UnionCase { vals: Seq<TokenV>, decl: Seq<TokenV> },
    Union { decl: Seq<TokenV>, cases: Seq<TokenV>, default: Seq<TokenV> },
    Comment(Seq<char>),
    CodeSnippet(Seq<char>),
    Namespace { name: Seq<TokenV>, progs: Seq<TokenV> },
    Program { name: Seq<TokenV>, id: Seq<TokenV>, versions: Seq<TokenV> },
    Version { name: Seq<TokenV>, id: Seq<TokenV>, procs: Seq<TokenV> },
    Proc { return_type: Seq<TokenV>, name: Seq<TokenV>, arg_types: Seq<TokenV>, id: Seq<TokenV> },
}

/// A required child slot holding exactly one node.
pub open spec fn one(t: TokenV) -> Seq<TokenV> {
    seq![t]
}

/// Model of one syntax tree node.
pub open spec fn tok_view(t: &Token) -> TokenV
    decreases t,
{
    match t {
        Token::Constant(n) => TokenV::Constant(*n as int),
        Token::Type(ty) => TokenV::Type(*ty),
        Token::Enum(kv) => TokenV::Enum(pairs_view(kv@)),
        Token::Struct(fields) => TokenV::Struct(toks_view(fields@)),
        Token::Ident(s) => TokenV::Ident(s@),
        Token::Blank => TokenV::Blank,
        Token::VoidDecl => TokenV::VoidDecl,
        Token::Decl { ty, id } => TokenV::Decl { ty: one(tok_view(ty)), id: one(tok_view(id)) },
        Token::PointerDecl { ty, id } => TokenV::PointerDecl {
            ty: one(tok_view(ty)),
            id: one(tok_view(id)),
        },
        Token::OpaqueDecl { id, size } => TokenV::OpaqueDecl {
            id: one(tok_view(id)),
            size: one(tok_view(size)),
        },
        Token::StringDecl { id, size } => TokenV::StringDecl {
            id: one(tok_view(id)),
            size: opt_view(&**size),
        },
        Token::VarOpaqueDecl { id, size } => TokenV::VarOpaqueDecl {
            id: one(tok_view(id)),
            size: opt_view(&**size),
        },
        Token::ArrayDecl { ty, id, size } => TokenV::ArrayDecl {
            ty: one(tok_view(ty)),
            id: one(tok_view(id)),
            size: one(tok_view(size)),
        },
        Token::VarArrayDecl { ty, id, size } => TokenV::VarArrayDecl {
            ty: one(tok_view(ty)),
            id: one(tok_view(id)),
            size: opt_view(&**size),
        },
        Token::ConstantDef(c) => TokenV::ConstantDef(one(tok_view(c))),
        Token::TypeDef(d) => TokenV::TypeDef(one(tok_view(d))),
        Token::EnumDef { id, decl } => TokenV::EnumDef {
            id: one(tok_view(id)),
            decl: one(tok_view(decl)),
        },
        Token::StructDef { id, decl } => TokenV::StructDef {
            id: one(tok_view(id)),
            decl: one(tok_view(decl)),
        },
        Token::UnionDef { id, decl } => TokenV::UnionDef {
            id: one(tok_view(id)),
            decl: one(tok_view(decl)),
        },
        Token::UnionCase { vals, decl } => TokenV::UnionCase {
            vals: toks_view(vals@),
            decl: one(tok_view(decl)),
        },
        Token::Union { decl, cases, default } => TokenV::Union {
            decl: one(tok_view(decl)),
            cases: toks_view(cases@),
            default: opt_view(&**default),
        },
        Token::Comment(s) => TokenV::Comment(s@),
        Token::CodeSnippet(s) => TokenV::CodeSnippet(s@),
        Token::Namespace { name, progs } => TokenV::Namespace {
            name: one(tok_view(name)),
            progs: toks_view(progs@),
        },
        Token::Program { name, id, versions } => TokenV::Program {
            name: one(tok_view(name)),
            id: one(tok_view(id)),
            versions: toks_view(versions@),
        },
        Token::Version { name, id, procs } => TokenV::Version {
            name: one(tok_view(name)),
            id: one(tok_view(id)),
            procs: toks_view(procs@),
        },
        Token::Proc { return_type, name, arg_types, id } => TokenV::Proc {
            return_type: one(tok_view(return_type)),
            name: one(tok_view(name)),
            arg_types: toks_view(arg_types@),
            id: one(tok_view(id)),
        },
    }
}

/// Model of a list of nodes.
pub open spec fn toks_view(s: Seq<Token>) -> Seq<TokenV>
    decreases s,
{
    if s.len() == 0 {
        Seq::empty()
    } else {
        seq![tok_view(&s[0])] + toks_view(s.drop_first())
    }
}

/// Model of an optional child slot.
pub open spec fn opt_view(o: &Option<Token>) -> Seq<TokenV>
    decreases o,
{
    match o {
        Some(t) => seq![tok_view(t)],
        None => Seq::empty(),
    }
}

/// Model of a list of `(identifier, value)` pairs from an enum body.
pub open spec fn pairs_view(s: Seq<(Token, Token)>) -> Seq<(TokenV, TokenV)>
    decreases s,
{
    if s.len() == 0 {
        Seq::empty()
    } else {
        seq![(tok_view(&s[0].0), tok_view(&s[0].1))] + pairs_view(s.drop_first())
    }
}

/// Structural copy of one node; the copy has the same model as the original.
pub fn tok_clone(t: &Token) -> (r: Token)
    ensures
        tok_view(&r) == tok_view(t),
    decreases t,
{
    match t {
        Token::Constant(n) => Token::Constant(*n),
        Token::Type(ty) => Token::Type(*ty),
        Token::Enum(kv) => Token::Enum(pairs_clone(kv)),
        Token::Struct(fields) => Token::Struct(toks_clone(fields)),
        Token::Ident(s) => Token::Ident(s.clone()),
        Token::Blank => Token::Blank,
        Token::VoidDecl => Token::VoidDecl,
        Token::Decl { ty, id } => Token::Decl {
            ty: Box::new(tok_clone(ty)),
            id: Box::new(tok_clone(id)),
        },
        Token::PointerDecl { ty, id } => Token::PointerDecl {
            ty: Box::new(tok_clone(ty)),
            id: Box::new(tok_clone(id)),
        },
        Token::OpaqueDecl { id, size } => Token::OpaqueDecl {
            id: Box::new(tok_clone(id)),
            size: Box::new(tok_clone(size)),
        },
        Token::StringDecl { id, size } => Token::StringDecl {
            id: Box::new(tok_clone(id)),
            size: Box::new(opt_clone(size)),
        },
        Token::VarOpaqueDecl { id, size } => Token::VarOpaqueDecl {
            id: Box::new(tok_clone(id)),
            size: Box::new(opt_clone(size)),
        },
        Token::ArrayDecl { ty, id, size } => Token::ArrayDecl {
            ty: Box::new(tok_clone(ty)),
            id: Box::new(tok_clone(id)),
            size: Box::new(tok_clone(size)),
        },
        Token::VarArrayDecl { ty, id, size } => Token::VarArrayDecl {
            ty: Box::new(tok_clone(ty)),
            id: Box::new(tok_clone(id)),
            size: Box::new(opt_clone(size)),
        },
        Token::ConstantDef(c) => Token::ConstantDef(Box::new(tok_clone(c))),
        Token::TypeDef(d) => Token::TypeDef(Box::new(tok_clone(d))),
        Token::EnumDef { id, decl } => Token::EnumDef {
            id: Box::new(tok_clone(id)),
            decl: Box::new(tok_clone(decl)),
        },
        Token::StructDef { id, decl } => Token::StructDef {
            id: Box::new(tok_clone(id)),
            decl: Box::new(tok_clone(decl)),
        },
        Token::UnionDef { id, decl } => Token::UnionDef {
            id: Box::new(tok_clone(id)),
            decl: Box::new(tok_clone(decl)),
        },
        Token::UnionCase { vals, decl } => Token::UnionCase {
            vals: toks_clone(vals),
            decl: Box::new(tok_clone(decl)),
        },
        Token::Union { decl, cases, default } => Token::Union {
            decl: Box::new(tok_clone(decl)),
            cases: toks_clone(cases),
            default: Box::new(opt_clone(default)),
        },
        Token::Comment(s) => Token::Comment(s.clone()),
        Token::CodeSnippet(s) => Token::CodeSnippet(s.clone()),
        Token::Namespace { name, progs } => Token::Namespace {
            name: Box::new(tok_clone(name)),
            progs: toks_clone(progs),
        },
        Token::Program { name, id, versions } => Token::Program {
            name: Box::new(tok_clone(name)),
            id: Box::new(tok_clone(id)),
            versions: toks_clone(versions),
        },
        Token::Version { name, id, procs } => Token::Version {
            name: Box::new(tok_clone(name)),
            id: Box::new(tok_clone(id)),
            procs: toks_clone(procs),
        },
        Token::Proc { return_type, name, arg_types, id } => Token::Proc {
            return_type: Box::new(tok_clone(return_type)),
            name: Box::new(tok_clone(name)),
            arg_types: toks_clone(arg_types),
            id: Box::new(tok_clone(id)),
        },
    }
}

/// Structural copy of a node list, preserving its model.
pub fn toks_clone(v: &Vec<Token>) -> (r: Vec<Token>)
    ensures
        toks_view(r@) == toks_view(v@),
    decreases v,
{
    let mut r: Vec<Token> = Vec::new();
    let mut i: usize = 0;
    while i < v.len()
        invariant
            i <= v.len(),
            r@.len() == i,
            toks_view(r@) =~= toks_view(v@).subrange(0, i as int),
        decreases v@.len() - i,
    {
        proof {
            lemma_toks_view_index(v@, i as int);
        }
        let c = tok_clone(&v[i]);
        proof {
            lemma_toks_view_push(r@, c);
        }
        r.push(c);
        i += 1;
        proof {
            lemma_toks_view_len(v@);
            assert(toks_view(r@) =~= toks_view(v@).subrange(0, i as int));
        }
    }
    proof {
        lemma_toks_view_len(v@);
        assert(toks_view(v@).subrange(0, v@.len() as int) =~= toks_view(v@));
    }
    r
}

/// Structural copy of an optional child, preserving its model.
pub fn opt_clone(o: &Option<Token>) -> (r: Option<Token>)
    ensures
        opt_view(&r) == opt_view(o),
    decreases o,
{
    match o {
        Some(t) => Some(tok_clone(t)),
        None => None,
    }
}

/// Structural copy of an enum body's pair list, preserving its model.
pub fn pairs_clone(v: &Vec<(Token, Token)>) -> (r: Vec<(Token, Token)>)
    ensures
        pairs_view(r@) == pairs_view(v@),
    decreases v,
{
    let mut r: Vec<(Token, Token)> = Vec::new();
    let mut i: usize = 0;
    while i < v.len()
        invariant
            i <= v.len(),
            r@.len() == i,
            pairs_view(r@) =~= pairs_view(v@).subrange(0, i as int),
        decreases v@.len() - i,
    {
        proof {
            lemma_pairs_view_index(v@, i as int);
        }
        let k = tok_clone(&v[i].0);
        let val = tok_clone(&v[i].1);
        proof {
            lemma_pairs_view_push(r@, (k, val));
        }
        r.push((k, val));
        i += 1;
        proof {
            lemma_pairs_view_len(v@);
            assert(pairs_view(r@) =~= pairs_view(v@).subrange(0, i as int));
        }
    }
    proof {
        lemma_pairs_view_len(v@);
        assert(pairs_view(v@).subrange(0, v@.len() as int) =~= pairs_view(v@));
    }
    r
}

/// The model of a list indexes pointwise into the models of its elements.
pub proof fn lemma_toks_view_index(s: Seq<Token>, i: int)
    requires
        0 <= i < s.len(),
    ensures
        toks_view(s).len() == s.len(),
        toks_view(s)[i] == tok_view(&s[i]),
    decreases s,
{
    lemma_toks_view_len(s);
    if i > 0 {
        lemma_toks_view_index(s.drop_first(), i - 1);
    }
}

/// The model of a list has the list's length.
pub proof fn lemma_toks_view_len(s: Seq<Token>)
    ensures
        toks_view(s).len() == s.len(),
    decreases s,
{
    if s.len() > 0 {
        lemma_toks_view_len(s.drop_first());
    }
}

/// Appending an element extends the model by that element's model.
pub proof fn lemma_toks_view_push(s: Seq<Token>, t: Token)
    ensures
        toks_view(s.push(t)) =~= toks_view(s).push(tok_view(&t)),
{
    lemma_toks_view_len(s);
    lemma_toks_view_len(s.push(t));
    assert forall|i: int| 0 <= i < s.len() + 1 implies toks_view(s.push(t))[i] == toks_view(
        s,
    ).push(tok_view(&t))[i] by {
        lemma_toks_view_index(s.push(t), i);
        if i < s.len() {
            lemma_toks_view_index(s, i);
        }
    }
}

/// Pairwise form of `lemma_toks_view_index`.
pub proof fn lemma_pairs_view_index(s: Seq<(Token, Token)>, i: int)
    requires
        0 <= i < s.len(),
    ensures
        pairs_view(s).len() == s.len(),
        pairs_view(s)[i] == (tok_view(&s[i].0), tok_view(&s[i].1)),
    decreases s,
{
    lemma_pairs_view_len(s);
    if i > 0 {
        lemma_pairs_view_index(s.drop_first(), i - 1);
    }
}

/// Pairwise form of `lemma_toks_view_len`.
pub proof fn lemma_pairs_view_len(s: Seq<(Token, Token)>)
    ensures
        pairs_view(s).len() == s.len(),
    decreases s,
{
    if s.len() > 0 {
        lemma_pairs_view_len(s.drop_first());
    }
}

/// Pairwise form of `lemma_toks_view_push`.
pub proof fn lemma_pairs_view_push(s: Seq<(Token, Token)>, t: (Token, Token))
    ensures
        pairs_view(s.push(t)) =~= pairs_view(s).push((tok_view(&t.0), tok_view(&t.1))),
{
    lemma_pairs_view_len(s);
    lemma_pairs_view_len(s.push(t));
    assert forall|i: int| 0 <= i < s.len() + 1 implies pairs_view(s.push(t))[i] == pairs_view(
        s,
    ).push((tok_view(&t.0), tok_view(&t.1)))[i] by {
        lemma_pairs_view_index(s.push(t), i);
        if i < s.len() {
            lemma_pairs_view_index(s, i);
        }
    }
}

/// Structural size of one model node; always at least one.
pub open spec fn tok_size(t: TokenV) -> nat
    decreases t,
{
    match t {
        TokenV::Constant(_) => 1,
        TokenV::Type(_) => 1,
        TokenV::Enum(kv) => 1 + pairs_size(kv),
        TokenV::Struct(fields) => 1 + toks_size(fields),
        TokenV::Ident(_) => 1,
        TokenV::Blank => 1,
        TokenV::VoidDecl => 1,
        TokenV::Decl { ty, id } => 1 + toks_size(ty) + toks_size(id),
        TokenV::PointerDecl { ty, id } => 1 + toks_size(ty) + toks_size(id),
        TokenV::OpaqueDecl { id, size } => 1 + toks_size(id) + toks_size(size),
        TokenV::StringDecl { id, size } => 1 + toks_size(id) + toks_size(size),
        TokenV::VarOpaqueDecl { id, size } => 1 + toks_size(id) + toks_size(size),
        TokenV::ArrayDecl { ty, id, size } => 1 + toks_size(ty) + toks_size(id) + toks_size(size),
        TokenV::VarArrayDecl { ty, id, size } => 1 + toks_size(ty) + toks_size(id) + toks_size(
            size,
        ),
        TokenV::ConstantDef(c) => 1 + toks_size(c),
        TokenV::TypeDef(d) => 1 + toks_size(d),
        TokenV::EnumDef { id, decl } => 1 + toks_size(id) + toks_size(decl),
        TokenV::StructDef { id, decl } => 1 + toks_size(id) + toks_size(decl),
        TokenV::UnionDef { id, decl } => 1 + toks_size(id) + toks_size(decl),
        TokenV::UnionCase { vals, decl } => 1 + toks_size(vals) + toks_size(decl),
        TokenV::Union { decl, cases, default } => 1 + toks_size(decl) + toks_size(cases)
            + toks_size(default),
        TokenV::Comment(_) => 1,
        TokenV::CodeSnippet(_) => 1,
        TokenV::Namespace { name, progs } => 1 + toks_size(name) + toks_size(progs),
        TokenV::Program { name, id, versions } => 1 + toks_size(name) + toks_size(id) + toks_size(
            versions,
        ),
        TokenV::Version { name, id, procs } => 1 + toks_size(name) + toks_size(id) + toks_size(
            procs,
        ),
        TokenV::Proc { return_type, name, arg_types, id } => 1 + toks_size(return_type)
            + toks_size(name) + toks_size(arg_types) + toks_size(id),
    }
}

/// Structural size of a list of model nodes.
pub open spec fn toks_size(s: Seq<TokenV>) -> nat
    decreases s,
{
    if s.len() == 0 {
        0
    } else {
        tok_size(s[0]) + toks_size(s.drop_first())
    }
}

/// Structural size of an enum body's pair list.
pub open spec fn pairs_size(s: Seq<(TokenV, TokenV)>) -> nat
    decreases s,
{
    if s.len() == 0 {
        0
    } else {
        tok_size(s[0].0) + tok_size(s[0].1) + pairs_size(s.drop_first())
    }
}

/// The model has the same constructor kind as the node.
pub proof fn lemma_tok_view_kind(t: &Token)
    ensures
        (tok_view(t) is Constant) == (t is Constant),
        (tok_view(t) is Type) == (t is Type),
        (tok_view(t) is Enum) == (t is Enum),
        (tok_view(t) is Struct) == (t is Struct),
        (tok_view(t) is Ident) == (t is Ident),
        (tok_view(t) is Blank) == (t is Blank),
        (tok_view(t) is VoidDecl) == (t is VoidDecl),
        (tok_view(t) is Decl) == (t is Decl),
        (tok_view(t) is PointerDecl) == (t is PointerDecl),
        (tok_view(t) is OpaqueDecl) == (t is OpaqueDecl),
        (tok_view(t) is StringDecl) == (t is StringDecl),
        (tok_view(t) is VarOpaqueDecl) == (t is VarOpaqueDecl),
        (tok_view(t) is ArrayDecl) == (t is ArrayDecl),
        (tok_view(t) is VarArrayDecl) == (t is VarArrayDecl),
        (tok_view(t) is ConstantDef) == (t is ConstantDef),
        (tok_view(t) is TypeDef) == (t is TypeDef),
        (tok_view(t) is EnumDef) == (t is EnumDef),
        (tok_view(t) is StructDef) == (t is StructDef),
        (tok_view(t) is UnionDef) == (t is UnionDef),
        (tok_view(t) is UnionCase) == (t is UnionCase),
        (tok_view(t) is Union) == (t is Union),
        (tok_view(t) is Comment) == (t is Comment),
        (tok_view(t) is CodeSnippet) == (t is CodeSnippet),
        (tok_view(t) is Namespace) == (t is Namespace),
        (tok_view(t) is Program) == (t is Program),
        (tok_view(t) is Version) == (t is Version),
        (tok_view(t) is Proc) == (t is Proc),
{
    match t {
        Token::Constant(_) => {},
        Token::Type(_) => {},
        Token::Enum(_) => {},
        Token::Struct(_) => {},
        Token::Ident(_) => {},
        Token::Blank => {},
        Token::VoidDecl => {},
        Token::Decl { .. } => {},
        Token::PointerDecl { .. } => {},
        Token::OpaqueDecl { .. } => {},
        Token::StringDecl { .. } => {},
        Token::VarOpaqueDecl { .. } => {},
        Token::ArrayDecl { .. } => {},
        Token::VarArrayDecl { .. } => {},
        Token::ConstantDef(_) => {},
        Token::TypeDef(_) => {},
        Token::EnumDef { .. } => {},
        Token::StructDef { .. } => {},
        Token::UnionDef { .. } => {},
        Token::UnionCase { .. } => {},
        Token::Union { .. } => {},
        Token::Comment(_) => {},
        Token::CodeSnippet(_) => {},
        Token::Namespace { .. } => {},
        Token::Program { .. } => {},
        Token::Version { .. } => {},
        Token::Proc { .. } => {},
    }
}

} // verus!
