use zoxi::transpiler::compiler::lexer::{lex, TokenKind};
use zoxi::transpiler::compiler::parser::parse;
use zoxi::transpiler::compiler::pipeline::compile_source;
use zoxi::transpiler::compiler::semantics::analyze;
use zoxi::transpiler::compiler::generator::items::generate;
use zoxi::transpiler::error::{Span, TranspileError};

fn compiled(source: &str) -> String {
    match compile_source(source, "main.zo") {
        Ok(text) => text,
        Err(error) => panic!("unexpected error: {:?}", error),
    }
}

#[test]
fn lex_splits_words_and_punctuation() {
    let tokens = lex("let x = 1; // note\n").unwrap();
    let kinds: Vec<TokenKind> = tokens.iter().map(|t| t.kind).collect();
    assert_eq!(
        kinds,
        vec![TokenKind::Ident, TokenKind::Ident, TokenKind::Eq, TokenKind::Number, TokenKind::Semi]
    );
    let texts: Vec<String> = tokens.iter().map(|t| t.text.clone()).collect();
    assert_eq!(texts, vec!["let", "x", "=", "1", ";"]);
    assert_eq!(tokens[3].span, Span { start: 8, end: 9 });
}

#[test]
fn lex_reads_strings_arrows_and_lifetimes() {
    let tokens = lex("x => \"a b\" -> 'a").unwrap();
    let kinds: Vec<TokenKind> = tokens.iter().map(|t| t.kind).collect();
    assert_eq!(
        kinds,
        vec![TokenKind::Ident, TokenKind::FatArrow, TokenKind::String, TokenKind::ThinArrow, TokenKind::Lifetime]
    );
    assert_eq!(tokens[2].text, "\"a b\"");
}

#[test]
fn lex_rejects_a_stray_quote() {
    match lex("fn main() { ' }") {
        Err(TranspileError::Diagnostic { message, span }) => {
            assert_eq!(message, "unexpected token `'`");
            assert_eq!(span, Span { start: 12, end: 13 });
        },
        other => panic!("unexpected result: {:?}", other),
    }
}

#[test]
fn parse_error_names_the_first_unparsed_token() {
    let tokens = lex("fn main( {").unwrap();
    match parse(&tokens) {
        Err(TranspileError::Diagnostic { message, span }) => {
            assert_eq!(message, "unexpected token `fn`");
            assert_eq!(span, Span { start: 0, end: 2 });
        },
        other => panic!("unexpected result: {:?}", other),
    }
}

#[test]
fn pipeline_stages_agree_with_compile_source() {
    let source = "fn main() { let x = 1; }";
    let tokens = lex(source).unwrap();
    let module = parse(&tokens).unwrap();
    let analysis = analyze(module).unwrap();
    assert_eq!(generate(&analysis).unwrap(), compiled(source));
}

#[test]
fn return_syntax_string_alias_and_interpolation() {
    assert_eq!(
        compiled("fn greet(name: &str): string {\n    \"Hello, {name}!\"\n}"),
        "fn greet(name: &str) -> String { format!(\"Hello, {}!\", name) }"
    );
}

#[test]
fn plain_string_literal_becomes_owned() {
    assert_eq!(
        compiled("fn main() { let name = \"Zoxi\"; }"),
        "fn main() { let name = String::from(\"Zoxi\"); }"
    );
}

#[test]
fn interpolation_with_nested_expression() {
    assert_eq!(
        compiled("fn main() { let msg = \"sum = {a + b}\"; }"),
        "fn main() { let msg = format!(\"sum = {}\", a + b); }"
    );
}

#[test]
fn interpolation_of_several_values() {
    assert_eq!(
        compiled("fn main() { let full = \"{first} {last} ({age})\"; }"),
        "fn main() { let full = format!(\"{} {} ({})\", first, last, age); }"
    );
}

#[test]
fn unclosed_interpolation_is_reported() {
    match compile_source("fn main() { let s = \"a {b\"; }", "main.zo") {
        Err(TranspileError::Diagnostic { message, span }) => {
            assert_eq!(message, "unclosed string interpolation");
            assert_eq!(span, Span { start: 23, end: 25 });
        },
        other => panic!("unexpected result: {:?}", other),
    }
}

#[test]
fn interpolation_lexer_error_points_into_the_interpolation() {
    match compile_source("fn main() { let s = \"v {a ' b}\"; }", "main.zo") {
        Err(TranspileError::Diagnostic { message, span }) => {
            assert_eq!(message, "unexpected token `'`");
            assert_eq!(span, Span { start: 2, end: 3 });
        },
        other => panic!("unexpected result: {:?}", other),
    }
}

#[test]
fn interpolation_parse_error_points_at_the_source_token() {
    match compile_source("fn main() { let s = \"v {a b}\"; }", "main.zo") {
        Err(TranspileError::Diagnostic { message, span }) => {
            assert_eq!(message, "unexpected token `b`");
            assert_eq!(span, Span { start: 26, end: 27 });
        },
        other => panic!("unexpected result: {:?}", other),
    }
}

#[test]
fn macro_and_call_arguments_keep_literals() {
    assert_eq!(
        compiled("fn main() { println!(\"hello {}\"); foo(\"bar\"); }"),
        "fn main() { println!(\"hello {}\"); foo(\"bar\"); }"
    );
}

#[test]
fn typed_string_binding_is_wrapped() {
    assert_eq!(
        compiled("fn main() { let title: String = \"Hello\"; let a: String = format!(\"x{}\", 1); }"),
        "fn main() { let title: String = String::from(\"Hello\"); let a: String = format!(\"x{}\", 1); }"
    );
}

#[test]
fn view_becomes_as_str() {
    assert_eq!(compiled("fn main() { name.view(); }"), "fn main() { name.as_str(); }");
}

#[test]
fn array_literals_become_vectors() {
    assert_eq!(
        compiled("fn main() { let nums = [1, 2, 3]; let nested = [[1, 2], [3, 4]]; }"),
        "fn main() { let nums = vec![1, 2, 3]; let nested = vec![vec![1, 2], vec![3, 4]]; }"
    );
}

#[test]
fn map_literals_become_hash_maps() {
    assert_eq!(
        compiled("fn main() { let user = { \"name\": \"Zoxi\", \"age\": 2 }; let empty = {}; }"),
        "fn main() { let user = std::collections::HashMap::from([(String::from(\"name\"), String::from(\"Zoxi\")), (String::from(\"age\"), 2)]); let empty = std::collections::HashMap::new(); }"
    );
}

#[test]
fn index_assignment_becomes_insert() {
    assert_eq!(
        compiled("fn main() { scores[\"alice\"] = 10; }"),
        "fn main() { scores.insert(\"alice\", 10); }"
    );
}

#[test]
fn map_helper_iterates_dereferences_and_collects() {
    assert_eq!(
        compiled("fn main() { let doubled: Vec<i32> = nums.map(x => x * 2); }"),
        "fn main() { let doubled: Vec<i32> = nums.iter().map(|x| (*x) * 2).collect(); }"
    );
}

#[test]
fn filter_then_map_chain() {
    assert_eq!(
        compiled("fn main() { let r: Vec<i32> = nums.filter(x => x > 0).map(x => x * 2); }"),
        "fn main() { let r: Vec<i32> = nums.iter().filter(|x| (**x) > 0).map(|x| (*x) * 2).collect(); }"
    );
}

#[test]
fn find_and_find_index_do_not_collect() {
    assert_eq!(
        compiled("fn main() { let first = nums.find(x => x > 5); let idx = nums.findIndex(x => x > 5); }"),
        "fn main() { let first = nums.iter().find(|x| (**x) > 5); let idx = nums.iter().position(|x| (*x) > 5); }"
    );
}

#[test]
fn into_iter_receiver_needs_no_dereference() {
    assert_eq!(
        compiled("fn main() { let d: Vec<i32> = nums.into_iter().map(x => x * 2); }"),
        "fn main() { let d: Vec<i32> = nums.into_iter().map(|x| x * 2).collect(); }"
    );
}

#[test]
fn result_tail_is_wrapped_in_ok() {
    assert_eq!(
        compiled("fn answer(): Result<i32, Error> { 42 }"),
        "fn answer() -> Result<i32, Error> { Ok(42) }"
    );
    assert_eq!(
        compiled("fn answer(): Result<i32, Error> { Err(e) }"),
        "fn answer() -> Result<i32, Error> { Err(e) }"
    );
}

#[test]
fn static_string_becomes_str() {
    assert_eq!(compiled("static APP_NAME: String = \"zoxi\";"), "static APP_NAME: &str = \"zoxi\";");
}

#[test]
fn items_are_joined_by_newlines() {
    assert_eq!(
        compiled("fn a() {}\nfn b() { return 1; }"),
        "fn a() {  }\nfn b() { return 1; }"
    );
}

#[test]
fn only_the_closure_parameter_is_dereferenced() {
    assert_eq!(
        compiled("fn main() { let m = nums.map(x => max(x, 1)); }"),
        "fn main() { let m = nums.iter().map(|x| max((*x), 1)).collect(); }"
    );
}

#[test]
fn rust_operators_and_paths_pass_through() {
    let source = "fn main() { let ok = a >= b && c != d; let s = String::new(); }";
    assert_eq!(compiled(source), source);
}
