//! Source text to Rust text: lex, parse, check, generate.
use crate::transpiler::compiler::generator::items::generate;
use crate::transpiler::compiler::generator::spec::{
    GenError, gen_module, is_error, lex_error, parse_error_of,
};
use crate::transpiler::compiler::lexer::{lex, lex_spec};
use crate::transpiler::compiler::parser::items_spec::parse_module;
use crate::transpiler::compiler::parser::parse;
use crate::transpiler::compiler::semantics::analyze;
use crate::transpiler::error::TranspileError;
use vstd::prelude::*;

verus! {

/// The Rust text of a Zoxi source text, or the error of the first stage that fails: the
/// lexer's, the parser's, or the generator's (an interpolation that does not compile).
pub open spec fn compiled(source: Seq<char>) -> Result<Seq<char>, GenError> {
    match lex_spec(source) {
        Ok(tokens) => match parse_module(tokens) {
            Ok(items) => gen_module(items),
            Err(at) => Err(parse_error_of(tokens, at)),
        },
        Err(at) => Err(lex_error(source, at)),
    }
}

/// Compiles one source file to Rust; the file name does not take part.
pub fn compile_source(source: &str, file_name: &str) -> (r: Result<String, TranspileError>)
    ensures
        r is Ok <==> compiled(source@) is Ok,
        r matches Ok(text) ==> compiled(source@) == Ok::<Seq<char>, GenError>(text@),
        r matches Err(error) ==> compiled(source@) matches Err(err) && is_error(error, err),
{
    let tokens = match lex(source) {
        Ok(tokens) => tokens,
        Err(e) => {
            return Err(e);
        },
    };
    let module = match parse(&tokens) {
        Ok(module) => module,
        Err(e) => {
            return Err(e);
        },
    };
    let analysis = match analyze(module) {
        Ok(analysis) => analysis,
        Err(e) => {
            return Err(e);
        },
    };
    generate(&analysis)
}

} // verus!
