//! Routing checks over the dispatch model: every declared triple selects
//! its own procedure, and misses name the level that failed.

use xdrgen::dispatch::{Route, route};
use xdrgen::parser::parse;

#[test]
fn declared_triples_route_to_their_procedures() {
    let toks = parse(
        "program p { version v1 { void noop(void) = 1; my_result get(int) = 2; } = 1; version v2 { void ping(void) = 7; } = 2; } = 100;\n",
    )
    .expect("program should parse");
    let prog = &toks[0];
    assert_eq!(route(prog, 100, 1, 1), Route::Hit(0, 0));
    assert_eq!(route(prog, 100, 1, 2), Route::Hit(0, 1));
    assert_eq!(route(prog, 100, 2, 7), Route::Hit(1, 0));
}

#[test]
fn misses_name_the_level_that_failed() {
    let toks = parse("program p { version v1 { void noop(void) = 1; } = 1; } = 100;\n")
        .expect("program should parse");
    let prog = &toks[0];
    assert_eq!(route(prog, 99, 1, 1), Route::UnknownProgram);
    assert_eq!(route(prog, 100, 2, 1), Route::UnknownVersion);
    assert_eq!(route(prog, 100, 1, 2), Route::UnknownProcedure);
}

#[test]
fn first_declared_version_wins_on_duplicates() {
    let toks = parse(
        "program p { version a { void x(void) = 1; } = 5; version b { void y(void) = 2; } = 5; } = 9;\n",
    )
    .expect("program should parse");
    let prog = &toks[0];
    // The duplicated number routes to the first declaration; the second is
    // unreachable.
    assert_eq!(route(prog, 9, 5, 1), Route::Hit(0, 0));
    assert_eq!(route(prog, 9, 5, 2), Route::UnknownProcedure);
}
