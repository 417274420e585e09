//! Routing semantics of the generated dispatch trees.
//!
//! The decode tree emitted for a `program` matches the program number, then
//! the version number against the program's versions in declaration order,
//! then the procedure number against that version's procedures, the first
//! matching arm winning; a miss at any level is reported with that level's
//! name. `spec_route` states that routing discipline over the syntax tree
//! the tree was generated from, and `route` computes it; the laws below pin
//! down exactly one reachable path for every declared triple and the miss
//! level for every undeclared one.

use vstd::prelude::*;
use crate::ast::{Token, TokenV, tok_view, toks_view, lemma_toks_view_len, lemma_toks_view_index};
use crate::ast::lemma_tok_view_kind;

verus! {

/// Where a `(program, version, procedure)` triple lands in the decode tree:
/// the chosen version and procedure indices, or the level that missed.
#[derive(Clone, Copy, Debug, PartialEq, Eq, Structural)]
pub enum Route {
    /// The triple selects the procedure at `(version index, procedure
    /// index)` in declaration order.
    Hit(usize, usize),
    /// The program number has no arm.
    UnknownProgram,
    /// The version number has no arm in this program.
    UnknownVersion,
    /// The procedure number has no arm in this version.
    UnknownProcedure,
}

/// Declared id of a version or procedure node, when it has one.
pub open spec fn node_id(t: TokenV) -> Option<int> {
    match t {
        TokenV::Version { name: _, id, procs: _ } => match id[0] {
            TokenV::Constant(n) => Some(n),
            _ => None,
        },
        TokenV::Proc { return_type: _, name: _, arg_types: _, id } => match id[0] {
            TokenV::Constant(n) => Some(n),
            _ => None,
        },
        _ => None,
    }
}

/// Index of the first node declared with id `key`, scanning from `i`.
pub open spec fn find_id(ts: Seq<TokenV>, i: int, key: int) -> Option<int>
    decreases ts.len() - i,
{
    if 0 <= i < ts.len() {
        if node_id(ts[i]) == Some(key) {
            Some(i)
        } else {
            find_id(ts, i + 1, key)
        }
    } else {
        None
    }
}

/// The routing outcome of one triple against one program's dispatch tree.
pub open spec fn spec_route(prog: TokenV, p: int, v: int, pr: int) -> Route {
    match prog {
        TokenV::Program { name: _, id, versions } => {
            if id[0] != TokenV::Constant(p) {
                Route::UnknownProgram
            } else {
                match find_id(versions, 0, v) {
                    None => Route::UnknownVersion,
                    Some(vi) => match versions[vi] {
                        TokenV::Version { name: _, id: _, procs } => {
                            match find_id(procs, 0, pr) {
                                None => Route::UnknownProcedure,
                                Some(pi) => Route::Hit(vi as usize, pi as usize),
                            }
                        },
                        _ => Route::UnknownVersion,
                    },
                }
            }
        },
        _ => Route::UnknownProgram,
    }
}

/// Declared id of one node, when it has one.
fn node_id_exec(t: &Token) -> (r: Option<i64>)
    ensures
        match r {
            Some(n) => node_id(tok_view(t)) == Some(n as int),
            None => node_id(tok_view(t)) is None,
        },
{
    proof {
        lemma_tok_view_kind(t);
    }
    match t {
        Token::Version { name: _, id, procs: _ } => {
            proof {
                lemma_tok_view_kind(&**id);
                if let TokenV::Version { name: _, id: vid, procs: _ } = tok_view(t) {
                    assert(vid[0] == tok_view(&**id));
                }
            }
            match &**id {
                Token::Constant(n) => Some(*n),
                _ => None,
            }
        },
        Token::Proc { return_type: _, name: _, arg_types: _, id } => {
            proof {
                lemma_tok_view_kind(&**id);
                if let TokenV::Proc { return_type: _, name: _, arg_types: _, id: pid } = tok_view(
                    t,
                ) {
                    assert(pid[0] == tok_view(&**id));
                }
            }
            match &**id {
                Token::Constant(n) => Some(*n),
                _ => None,
            }
        },
        _ => None,
    }
}

/// Find the first node declared with the given id.
fn find_id_exec(ts: &Vec<Token>, key: i64) -> (r: Option<usize>)
    ensures
        match r {
            Some(i) => find_id(toks_view(ts@), 0, key as int) == Some(i as int) && i < ts@.len(),
            None => find_id(toks_view(ts@), 0, key as int) is None,
        },
{
    let ghost all = toks_view(ts@);
    let mut i: usize = 0;
    proof {
        lemma_toks_view_len(ts@);
    }
    while i < ts.len()
        invariant
            i <= ts@.len(),
            all == toks_view(ts@),
            all.len() == ts@.len(),
            find_id(all, 0, key as int) == find_id(all, i as int, key as int),
        decreases ts@.len() - i,
    {
        proof {
            lemma_toks_view_index(ts@, i as int);
        }
        match node_id_exec(&ts[i]) {
            Some(n) => {
                if n == key {
                    return Some(i);
                }
            },
            None => {},
        }
        i += 1;
    }
    None
}

/// Route one `(program, version, procedure)` triple through the dispatch
/// tree generated for `prog`.
pub fn route(prog: &Token, p: i64, v: i64, pr: i64) -> (r: Route)
    ensures
        r == spec_route(tok_view(prog), p as int, v as int, pr as int),
{
    proof {
        lemma_tok_view_kind(prog);
    }
    match prog {
        Token::Program { name: _, id, versions } => {
            proof {
                lemma_tok_view_kind(&**id);
                if let TokenV::Program { name: _, id: pid, versions: pv } = tok_view(prog) {
                    assert(pid[0] == tok_view(&**id));
                    assert(pv == toks_view(versions@));
                }
            }
            let id_matches = match &**id {
                Token::Constant(n) => *n == p,
                _ => false,
            };
            if !id_matches {
                return Route::UnknownProgram;
            }
            match find_id_exec(versions, v) {
                None => Route::UnknownVersion,
                Some(vi) => {
                    proof {
                        lemma_toks_view_index(versions@, vi as int);
                        lemma_tok_view_kind(&versions@[vi as int]);
                    }
                    match &versions[vi] {
                        Token::Version { name: _, id: _, procs } => {
                            proof {
                                if let TokenV::Version { name: _, id: _, procs: vp } = toks_view(
                                    versions@,
                                )[vi as int] {
                                    assert(vp == toks_view(procs@));
                                }
                            }
                            match find_id_exec(procs, pr) {
                                None => Route::UnknownProcedure,
                                Some(pi) => Route::Hit(vi, pi),
                            }
                        },
                        _ => Route::UnknownVersion,
                    }
                },
            }
        },
        _ => Route::UnknownProgram,
    }
}

/// Scanning from `i` finds nothing exactly when no node at or after `i`
/// carries the id.
pub proof fn lemma_find_id_none(ts: Seq<TokenV>, i: int, key: int)
    requires
        0 <= i <= ts.len(),
    ensures
        (find_id(ts, i, key) is None) <==> (forall|j: int|
            i <= j < ts.len() ==> node_id(#[trigger] ts[j]) != Some(key)),
    decreases ts.len() - i,
{
    if i < ts.len() {
        lemma_find_id_none(ts, i + 1, key);
    }
}

/// Scanning finds the first declared occurrence: if every earlier node
/// carries a different id, the occurrence itself is found.
pub proof fn lemma_find_id_first(ts: Seq<TokenV>, i: int, at: int, key: int)
    requires
        0 <= i <= at < ts.len(),
        node_id(ts[at]) == Some(key),
        forall|j: int| i <= j < at ==> node_id(#[trigger] ts[j]) != Some(key),
    ensures
        find_id(ts, i, key) == Some(at),
    decreases ts.len() - i,
{
    if i < at {
        lemma_find_id_first(ts, i + 1, at, key);
    }
}

/// Dispatch totality: every triple declared in the schema selects exactly
/// its own procedure, provided no earlier sibling reuses its number (a
/// duplicated number shadows later arms, which are then unreachable).
pub proof fn lemma_dispatch_totality(prog: TokenV, pnum: int, vi: int, pi: int)
    requires
        prog matches TokenV::Program { name: _, id, versions: _ } && id[0] == TokenV::Constant(
            pnum,
        ),
        ({
            let versions = prog->Program_versions;
            &&& 0 <= vi < versions.len()
            &&& node_id(versions[vi]) is Some
            &&& forall|j: int|
                0 <= j < vi ==> node_id(#[trigger] versions[j]) != node_id(versions[vi])
            &&& ({
                let procs = versions[vi]->Version_procs;
                &&& versions[vi] matches TokenV::Version { name: _, id: _, procs: _ }
                &&& 0 <= pi < procs.len()
                &&& node_id(procs[pi]) is Some
                &&& forall|j: int|
                    0 <= j < pi ==> node_id(#[trigger] procs[j]) != node_id(procs[pi])
            })
        }),
    ensures
        spec_route(
            prog,
            pnum,
            node_id(prog->Program_versions[vi])->Some_0,
            node_id(prog->Program_versions[vi]->Version_procs[pi])->Some_0,
        ) == Route::Hit(vi as usize, pi as usize),
{
    let versions = prog->Program_versions;
    let procs = versions[vi]->Version_procs;
    lemma_find_id_first(versions, 0, vi, node_id(versions[vi])->Some_0);
    lemma_find_id_first(procs, 0, pi, node_id(procs[pi])->Some_0);
}

/// Dispatch-miss determinism: an undeclared number yields the error of the
/// first level at which the lookup fails, and nothing else.
pub proof fn lemma_dispatch_miss(prog: TokenV, p: int, v: int, pr: int)
    requires
        prog matches TokenV::Program { name: _, id: _, versions: _ },
        forall|j: int|
            0 <= j < prog->Program_versions.len() ==> (#[trigger] prog->Program_versions[j])
                matches TokenV::Version { name: _, id: _, procs: _ },
    ensures
        (spec_route(prog, p, v, pr) == Route::UnknownProgram) <==> (prog->Program_id[0]
            != TokenV::Constant(p)),
        (spec_route(prog, p, v, pr) == Route::UnknownVersion) <==> (prog->Program_id[0]
            == TokenV::Constant(p) && (forall|j: int|
            0 <= j < prog->Program_versions.len() ==> node_id(
                #[trigger] prog->Program_versions[j],
            ) != Some(v))),
{
    let versions = prog->Program_versions;
    lemma_find_id_none(versions, 0, v);
    if prog->Program_id[0] == TokenV::Constant(p) {
        match find_id(versions, 0, v) {
            Some(vi) => {
                lemma_find_id_at(versions, 0, v);
            },
            None => {},
        }
    }
}

/// A found index carries the id that was searched for.
pub proof fn lemma_find_id_at(ts: Seq<TokenV>, i: int, key: int)
    requires
        0 <= i <= ts.len(),
    ensures
        find_id(ts, i, key) matches Some(at) ==> i <= at < ts.len() && node_id(ts[at]) == Some(
            key,
        ),
    decreases ts.len() - i,
{
    if i < ts.len() {
        lemma_find_id_at(ts, i + 1, key);
    }
}

} // verus!
