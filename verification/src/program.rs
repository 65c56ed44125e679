//! A whole run: lex a source text, parse it, and evaluate its entry
//! function.

use vstd::prelude::*;
use vstd::string::StringSliceAdditionalSpecFns;
use crate::common::{
    errors_model, names_model, tokens_model, BinaryOp, Error, ErrorKind, ErrorKindModel,
    ErrorModel, Span, Value, ValueModel,
};
use crate::grammar::parse;
use crate::lexer::{lex, lexer};
use crate::numbers::{reads_as, Numbers};
use crate::parser::funcs_parser;
use crate::runner::{described, eval_expr, stack_model};
use crate::semantics::eval;
use crate::wellformed::error_free_programs_are_complete;

verus! {

/// How a run ends: with the entry function's value or the errors that
/// stopped it, and with the lines it printed.
pub struct Outcome {
    pub result: Result<ValueModel, Seq<ErrorModel>>,
    pub printed: Seq<Seq<char>>,
}

/// The span of a whole text of `len` bytes.
pub open spec fn whole(len: nat) -> Span {
    Span { start: 0, end: len as usize }
}

/// The empty span at the end of a text of `len` bytes.
pub open spec fn end_of_input(len: nat) -> Span {
    Span { start: len as usize, end: len as usize }
}

/// How running the function `entry` of the program `bytes` ends.
///
/// All errors of lexing and parsing are reported together, those of
/// lexing first, and nothing is evaluated if there is one. The entry
/// function must be declared, which is reported for the whole text, and
/// must have no parameters, which is reported at its header. An error in
/// evaluation is reported alone, with what was printed before it.
pub open spec fn outcome(n: Numbers, bytes: Seq<u8>, entry: Seq<char>, depth: nat) -> Outcome {
    let lexed = lex(n, bytes);
    let parsed = parse(lexed.tokens, end_of_input(bytes.len()));
    let errors = lexed.errors + parsed.errors;
    if errors.len() > 0 {
        Outcome { result: Err(errors), printed: Seq::empty() }
    } else if !parsed.funcs.contains_key(entry) {
        Outcome {
            result: Err(
                seq![
                    ErrorModel {
                        span: whole(bytes.len()),
                        kind: ErrorKindModel::MissingEntryPoint,
                    },
                ],
            ),
            printed: Seq::empty(),
        }
    } else if parsed.funcs[entry].args.len() != 0 {
        Outcome {
            result: Err(
                seq![
                    ErrorModel {
                        span: parsed.funcs[entry].span,
                        kind: ErrorKindModel::EntryPointHasArguments,
                    },
                ],
            ),
            printed: Seq::empty(),
        }
    } else {
        let run = eval(n, parsed.funcs, Seq::empty(), depth, parsed.funcs[entry].body);
        Outcome {
            result: match run.result {
                Ok(v) => Ok(v),
                Err(e) => Err(seq![e]),
            },
            printed: run.printed,
        }
    }
}

/// The model of how a run ended.
pub open spec fn outcome_model(res: Result<Value, Vec<Error>>) -> Result<
    ValueModel,
    Seq<ErrorModel>,
> {
    match res {
        Ok(v) => Ok(v@),
        Err(errors) => Err(errors_model(errors@)),
    }
}

/// Runs the function `entry` of the program `src`, as [`outcome`] says.
///
/// `depth` bounds how deep calls may nest. `read` turns the text of a
/// numeric literal into a number, `arith` carries out the four arithmetic
/// operators, and `show` writes a number out. Each line that a `print`
/// emits is added to `out`.
pub fn run<R: Fn(&str) -> Option<u64>, A: Fn(BinaryOp, u64, u64) -> u64, S: Fn(u64) -> String>(
    src: &str,
    entry: &str,
    depth: usize,
    read: &R,
    arith: &A,
    show: &S,
    out: &mut Vec<String>,
) -> (res: Result<Value, Vec<Error>>)
    requires
        forall|text: &str| read.requires((text,)),
        forall|op: BinaryOp, a: u64, b: u64| op.is_arithmetic() ==> arith.requires((op, a, b)),
        forall|x: u64| show.requires((x,)),
    ensures
        forall|n: Numbers|
            #![trigger reads_as(read, n), described(arith, show, n)]
            reads_as(read, n) && described(arith, show, n) ==> {
                let end = outcome(n, src.spec_bytes(), entry@, depth as nat);
                &&& outcome_model(res) == end.result
                &&& names_model(final(out)@) == names_model(old(out)@) + end.printed
            },
{
    let len = src.len();
    let (tokens, mut errors) = lexer(src, read);
    let (funcs, mut more) = funcs_parser(&tokens, Span { start: len, end: len });
    let ghost lex_errors = errors@;
    let ghost parse_errors = more@;
    errors.append(&mut more);
    proof {
        assert(errors_model(errors@) =~= errors_model(lex_errors) + errors_model(parse_errors));
        assert(names_model(out@) + Seq::empty() =~= names_model(out@));
    }
    if errors.len() > 0 {
        return Err(errors);
    }
    proof {
        assert(errors_model(parse_errors).len() == 0);
        error_free_programs_are_complete(tokens_model(tokens@), Span { start: len, end: len });
    }
    let main = match funcs.get(entry) {
        Some(main) => main,
        None => {
            let mut errors: Vec<Error> = Vec::new();
            let missing = Error {
                span: Span { start: 0, end: len },
                kind: ErrorKind::MissingEntryPoint,
            };
            errors.push(missing);
            assert(errors_model(errors@) =~= seq![missing@]);
            return Err(errors);
        },
    };
    if main.args.len() != 0 {
        let mut errors: Vec<Error> = Vec::new();
        let unwanted = Error { span: main.span, kind: ErrorKind::EntryPointHasArguments };
        errors.push(unwanted);
        assert(errors_model(errors@) =~= seq![unwanted@]);
        return Err(errors);
    }
    let mut stack: Vec<(String, Value)> = Vec::new();
    assert(stack_model(stack@) =~= Seq::empty());
    match eval_expr(&main.body, &funcs, &mut stack, depth, arith, show, out) {
        Ok(v) => Ok(v),
        Err(e) => {
            let mut errors: Vec<Error> = Vec::new();
            errors.push(e);
            assert(errors_model(errors@) =~= seq![e@]);
            Err(errors)
        },
    }
}

} // verus!
