use zoxi::transpiler::error::TranspileError;
use zoxi::transpiler::source::bindings::{apply_matches, rewrite_static_strings, rewrite_string_bindings, BindingRule};
use zoxi::transpiler::source::collections::rewrite_hash_map_index_assignments;
use zoxi::transpiler::source::functions::{rewrite_result_functions, rewrite_signature_returns};
use zoxi::transpiler::source::iterators::rewrite_iterator_helpers;
use zoxi::transpiler::source::literals::rewrite_literals;
use zoxi::transpiler::source::pipeline::transpile_source;
use zoxi::transpiler::source::scan::{find_matching, scan_expression_end};

fn chars(s: &str) -> Vec<char> {
    s.chars().collect()
}

fn unclosed(r: Result<String, TranspileError>) -> char {
    match r {
        Err(TranspileError::UnclosedDelimiter(c)) => c,
        Err(e) => panic!("unexpected error {:?}", e),
        Ok(t) => panic!("unexpected success {:?}", t),
    }
}

#[test]
fn matching_brackets_skip_strings_and_comments() {
    let s = chars("(a \")\" /* ) */ (b))c");
    assert_eq!(find_matching(&s, 0, '(', ')'), Ok(19));
    let open = chars("(a");
    assert_eq!(find_matching(&open, 0, '(', ')'), Err('('));
    let e = chars("a + f(x, y), b");
    assert_eq!(scan_expression_end(&e, 0), Ok(11));
}

#[test]
fn string_literals_become_owned_or_formatted() {
    assert_eq!(rewrite_literals("let s = \"hi\";").unwrap(), "let s = String::from(\"hi\");");
    assert_eq!(rewrite_literals("println!(\"x\");").unwrap(), "println!(\"x\");");
    assert_eq!(rewrite_literals("let g = \"hi {name}!\";").unwrap(), "let g = format!(\"hi {}!\", name);");
}

#[test]
fn collections_become_vectors_and_maps() {
    assert_eq!(rewrite_literals("let v = [1, 2];").unwrap(), "let v = vec![1, 2];");
    assert_eq!(
        rewrite_literals("let m = {\"a\": 1};").unwrap(),
        "let m = std::collections::HashMap::from([(String::from(\"a\"), 1)]);"
    );
    assert_eq!(rewrite_literals("let e = {};").unwrap(), "let e = std::collections::HashMap::new();");
    assert_eq!(rewrite_literals("fn f() { x }").unwrap(), "fn f() { x }");
}

#[test]
fn literal_scanning_reports_unclosed_delimiters() {
    assert_eq!(unclosed(rewrite_literals("let s = \"abc")), '"');
    assert_eq!(unclosed(rewrite_literals("let v = [1, 2")), '[');
    assert_eq!(rewrite_literals("// \"x\n").unwrap(), "// \"x\n");
}

#[test]
fn iterator_helpers_become_iterator_chains() {
    assert_eq!(
        rewrite_iterator_helpers("let d = nums.map(x => x * 2);").unwrap(),
        "let d = nums.iter().map(|x| (*x) * 2).collect();"
    );
    assert_eq!(
        rewrite_iterator_helpers("xs.into_iter().filter(v => v > 0)").unwrap(),
        "xs.into_iter().filter(|v| (*v) > 0).collect()"
    );
    assert_eq!(
        rewrite_iterator_helpers("let f = a.iter().find(n => n == 3);").unwrap(),
        "let f = a.iter().find(|n| (**n) == 3);"
    );
}

#[test]
fn map_index_assignments_become_inserts() {
    assert_eq!(
        rewrite_hash_map_index_assignments("scores[\"alice\"] = 10;").unwrap(),
        "scores.insert(\"alice\", 10);"
    );
    assert_eq!(rewrite_hash_map_index_assignments("let a = b[1];").unwrap(), "let a = b[1];");
}

#[test]
fn return_types_get_arrows() {
    assert_eq!(
        rewrite_signature_returns("fn add(a: i32, b: i32): i32 {").unwrap(),
        "fn add(a: i32, b: i32) -> i32 {"
    );
    assert_eq!(rewrite_signature_returns("let f = |x|: i32 { x };").unwrap(), "let f = |x| -> i32 { x };");
}

#[test]
fn result_functions_get_ok_tails() {
    assert_eq!(
        rewrite_result_functions("fn a() -> Result<i32, E> { let x = 1; x }").unwrap(),
        "fn a() -> Result<i32, E> { let x = 1;Ok(x)}"
    );
    assert_eq!(rewrite_result_functions("fn b() { 1 }").unwrap(), "fn b() { 1 }");
    assert_eq!(
        rewrite_result_functions("fn c() -> Result<(), E> { Ok(()) }").unwrap(),
        "fn c() -> Result<(), E> { Ok(())}"
    );
}

#[test]
fn string_bindings_are_wrapped() {
    assert_eq!(rewrite_string_bindings("let s: String = name;").unwrap(), "let s: String = String::from(name);");
    assert_eq!(rewrite_string_bindings("let t: String = format!(\"a\");").unwrap(), "let t: String = format!(\"a\");");
    assert_eq!(rewrite_string_bindings("let mut u: String = x.to_string();").unwrap(), "let mut u: String = x.to_string();");
    assert_eq!(rewrite_string_bindings("let s: String = \"é\";").unwrap(), "let s: String = String::from(\"é\");");
}

#[test]
fn string_statics_become_str() {
    assert_eq!(
        rewrite_static_strings("static NAME: String = String::from(\"zoxi\");").unwrap(),
        "static NAME: &str = \"zoxi\";"
    );
}

#[test]
fn matches_are_replaced_from_their_spans() {
    let spans = vec![vec![Some((0, 18)), Some((0, 16)), Some((16, 17))]];
    assert_eq!(apply_matches(BindingRule::Binding, "let a: String = b;", &spans), "let a: String = String::from(b);");
    assert_eq!(apply_matches(BindingRule::Binding, "let a: String = b;", &vec![]), "let a: String = b;");
}

#[test]
fn source_files_are_transpiled_stage_by_stage() {
    assert_eq!(
        transpile_source("fn main() {\r\n    let name: string = \"Zoxi\";\r\n}\r\n", true).unwrap(),
        "fn main() {\n    let name: String = String::from(\"Zoxi\");\n}\n"
    );
    assert_eq!(
        transpile_source("fn answer(): Result<i32, String> {\n    42\n}\n", false).unwrap(),
        "fn answer() -> Result<i32, String> {Ok(42)}\n"
    );
    assert_eq!(unclosed(transpile_source("let s = \"oops;", true)), '"');
}

#[test]
fn plain_rust_passes_through_unchanged() {
    let source = "let x = 1 + 2;\nfoo(x);\nwhile x > 0 { x -= 1; }\n";
    assert_eq!(transpile_source(source, true).unwrap(), source);
}

#[test]
fn string_literals_stay_str_as_arguments_and_index_keys() {
    let source = "foo(\"bar\"); println!(\"hello {}\"); &\"name\"; arr[\"key\"];";
    assert_eq!(transpile_source(source, true).unwrap(), source);
}

#[test]
fn map_index_assignment_keeps_a_str_key() {
    assert_eq!(transpile_source("scores[\"alice\"] = 10;", true).unwrap(), "scores.insert(\"alice\", 10);");
}

#[test]
fn the_string_alias_leaves_literal_text_alone() {
    assert_eq!(
        transpile_source("let s = \"a string\";", true).unwrap(),
        "let s = String::from(\"a string\");"
    );
}

#[test]
fn a_comparison_is_not_an_index_assignment() {
    assert_eq!(rewrite_hash_map_index_assignments("if a[0] == b {}").unwrap(), "if a[0] == b {}");
}

#[test]
fn a_tuple_pattern_type_is_not_a_return_type() {
    let source = "let (a, b): (i32, i32) = (1, 2);";
    assert_eq!(rewrite_signature_returns(source).unwrap(), source);
}
