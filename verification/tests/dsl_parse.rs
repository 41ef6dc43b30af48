use colab::dsl::ast::{Action, Command, Item};
use colab::dsl::parser::parse;

fn match_count(command: &Command) -> usize {
    command
        .items
        .iter()
        .filter(|i| matches!(i, Item::Match(_)))
        .count()
}

#[test]
fn parses_full_program_with_single_match() {
    let command =
        parse(r#" refactor "this" { match  go::import "a.b.c" { replace "d.e.f" } } "#)
            .unwrap();

    assert_eq!(command.refactor_name, "this");
    assert_eq!(match_count(&command), 1);
    let Item::Match(m) = &command.items[0] else {
        panic!("expected Match item");
    };
    assert_eq!(m.namespace.lang, "go");
    assert_eq!(m.namespace.module, "import");
    assert_eq!(m.match_string, "a.b.c");
    assert_eq!(m.action, Action::Replace("d.e.f".to_string()));
}

#[test]
fn parses_full_program_with_multiple_matches() {
    let command = parse(
        r#"
        refactor "many" {
            match go::import "a" { replace "b" }
            match go::import "c" { replace "d" }
            match go::import "e" { replace "f" }
        }
        "#,
    )
    .unwrap();

    assert_eq!(match_count(&command), 3);
}

#[test]
fn parses_include_directive() {
    let command = parse(
        r#"
        refactor "with-include" {
            include "shared.codemod"
            match go::import "x" { replace "y" }
        }
        "#,
    )
    .unwrap();
    assert_eq!(command.items.len(), 2);
    assert!(matches!(command.items[0], Item::Include(ref s) if s == "shared.codemod"));
    assert!(matches!(command.items[1], Item::Match(_)));
}

#[test]
fn ignores_line_comments() {
    let command = parse(
        r#"
        // top-level comment
        refactor "with-comments" {
            // before any rule
            match go::import "a" { replace "b" } // trailing comment
            // between rules
            match go::import "c" { replace "d" }
        }
        "#,
    )
    .unwrap();
    assert_eq!(command.refactor_name, "with-comments");
    assert_eq!(match_count(&command), 2);
}

#[test]
fn parses_empty_refactor_block() {
    let command = parse(r#"refactor "noop" { }"#).unwrap();
    assert_eq!(command.refactor_name, "noop");
    assert!(command.items.is_empty());
}

#[test]
fn the_keyword_guard_can_actually_fail() {
    // `refactor` is a keyword that identifiers may not spell, so a module
    // named `refactor` does not parse.
    let script = "refactor \"t\" { match c::refactor \"x\" { delete } }";
    assert!(
        parse(script).is_err(),
        "`refactor` is now spellable as a module name"
    );

    // And the positive control: the escaped keyword `include` parses.
    let ok = "refactor \"t\" { match c::include \"x\" { delete } }";
    assert!(parse(ok).is_ok(), "`c::include` must parse");
}
