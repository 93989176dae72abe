//! The decisions of the command-line compiler: which stage it stops after,
//! where it writes, the optimization level, the header directories, and the
//! front end that preprocesses and parses one source text.
use vstd::prelude::*;

use crate::ast::AST;
use crate::parse::error::ParseError;
use crate::parse::Parse;
use crate::parse::lexer::lex_spec;
use crate::parse::syntax::program_parsed;
use crate::preprocess::directives::headers_view;
use crate::preprocess::{preprocess, preprocess_spec, PreprocessError};
use crate::text::{chars_of, string_of};

verus! {

/// The stage after which the compiler stops.
#[derive(Debug, Clone, Copy, PartialEq, Eq, Structural)]
pub enum Stage {
    /// `-E`: write the preprocessed text
    Expand,
    /// `-p`: write the syntax tree
    Parse,
    /// `-b`: write LLVM bitcode
    Bitcode,
    /// `-S`: write assembly
    Compile,
    /// `-c`: write an object file
    Assemble,
    /// link an executable
    Link,
}

/// The stage the flags ask for; the first flag set wins, in the order
/// `-E`, `-p`, `-b`, `-S`, `-c`.
pub open spec fn stage_spec(expand: bool, parse: bool, bitcode: bool, compile: bool, assemble: bool) -> Stage {
    if expand {
        Stage::Expand
    } else if parse {
        Stage::Parse
    } else if bitcode {
        Stage::Bitcode
    } else if compile {
        Stage::Compile
    } else if assemble {
        Stage::Assemble
    } else {
        Stage::Link
    }
}

/// `stage_spec` of the flags.
pub fn stage_of(expand: bool, parse: bool, bitcode: bool, compile: bool, assemble: bool) -> (s: Stage)
    ensures
        s == stage_spec(expand, parse, bitcode, compile, assemble),
{
    if expand {
        Stage::Expand
    } else if parse {
        Stage::Parse
    } else if bitcode {
        Stage::Bitcode
    } else if compile {
        Stage::Compile
    } else if assemble {
        Stage::Assemble
    } else {
        Stage::Link
    }
}

/// The extension the output of a stage gets when no output is named.
pub open spec fn output_suffix(s: Stage) -> Seq<char> {
    match s {
        Stage::Expand => ".expand.c"@,
        Stage::Parse => ".json"@,
        Stage::Bitcode => ".bc"@,
        Stage::Compile => ".s"@,
        Stage::Assemble => ".o"@,
        Stage::Link => ""@,
    }
}

fn suffix_text(s: Stage) -> (r: &'static str)
    ensures
        r@ == output_suffix(s),
{
    match s {
        Stage::Expand => ".expand.c",
        Stage::Parse => ".json",
        Stage::Bitcode => ".bc",
        Stage::Compile => ".s",
        Stage::Assemble => ".o",
        Stage::Link => "",
    }
}

/// The file the compiler writes: the one named with `-o`, else the source's
/// base name with the extension of the stage.
pub fn output_file(output: Option<String>, basename: &str, stage: Stage) -> (r: String)
    ensures
        match output {
            Some(o) => r@ == o@,
            None => r@ == basename@ + output_suffix(stage),
        },
{
    match output {
        Some(o) => o,
        None => {
            let mut r = String::from_str(basename);
            r.append(suffix_text(stage));
            r
        },
    }
}

/// The object file written before linking: the base name with `.o`.
pub fn object_file(basename: &str) -> (r: String)
    ensures
        r@ == basename@ + ".o"@,
{
    let mut r = String::from_str(basename);
    r.append(".o");
    r
}

/// The optimization levels.
#[derive(Debug, Clone, Copy, PartialEq, Eq, Structural)]
pub enum OptLevel {
    /// no optimization
    O0,
    Less,
    Default,
    Aggressive,
}

/// The optimization level `-O n` names, for `n` from 0 to 3.
pub open spec fn opt_level_spec(n: u32) -> Option<OptLevel> {
    if n == 0 {
        Some(OptLevel::O0)
    } else if n == 1 {
        Some(OptLevel::Less)
    } else if n == 2 {
        Some(OptLevel::Default)
    } else if n == 3 {
        Some(OptLevel::Aggressive)
    } else {
        None
    }
}

/// `opt_level_spec(n)`.
pub fn opt_level_of(n: u32) -> (r: Option<OptLevel>)
    ensures
        r == opt_level_spec(n),
{
    match n {
        0 => Some(OptLevel::O0),
        1 => Some(OptLevel::Less),
        2 => Some(OptLevel::Default),
        3 => Some(OptLevel::Aggressive),
        _ => None,
    }
}

/// The pieces of `s` between commas, from `i`, the current piece being `cur`.
pub open spec fn split_commas_from(s: Seq<char>, i: int, cur: Seq<char>) -> Seq<Seq<char>>
    decreases s.len() - i,
{
    if i < 0 || i >= s.len() {
        seq![cur]
    } else if s[i] == ',' {
        seq![cur] + split_commas_from(s, i + 1, Seq::empty())
    } else {
        split_commas_from(s, i + 1, cur.push(s[i]))
    }
}

/// The pieces of `s` between commas (`s.split(',')`).
pub open spec fn split_commas(s: Seq<char>) -> Seq<Seq<char>> {
    split_commas_from(s, 0, Seq::empty())
}

/// The directories `-i` lists, separated by commas.
pub fn include_dirs_of(arg: &str) -> (r: Vec<String>)
    ensures
        r@.map_values(|d: String| d@) == split_commas(arg@),
{
    let s = chars_of(arg);
    let mut out: Vec<String> = Vec::new();
    let mut cur: Vec<char> = Vec::new();
    let mut i: usize = 0;
    while i < s.len()
        invariant
            i <= s@.len(),
            s@ == arg@,
            split_commas(arg@) == out@.map_values(|d: String| d@) + split_commas_from(s@, i as int, cur@),
        decreases s@.len() - i,
    {
        let ghost before = out@.map_values(|d: String| d@);
        if s[i] == ',' {
            let piece = string_of(&cur);
            out.push(piece);
            proof {
                assert(out@.map_values(|d: String| d@) =~= before.push(cur@));
                assert(before + (seq![cur@] + split_commas_from(s@, i + 1, Seq::empty())) =~= before.push(cur@)
                    + split_commas_from(s@, i + 1, Seq::empty()));
            }
            cur = Vec::new();
            assert(cur@ =~= Seq::<char>::empty());
        } else {
            cur.push(s[i]);
        }
        i = i + 1;
    }
    let ghost before = out@.map_values(|d: String| d@);
    let piece = string_of(&cur);
    out.push(piece);
    proof {
        assert(out@.map_values(|d: String| d@) =~= before + seq![cur@]);
    }
    out
}

/// Why the front end refused a source text.
#[derive(Debug, Clone, Copy, PartialEq, Eq, Structural)]
pub enum FrontEndError {
    Preprocess(PreprocessError),
    Parse(ParseError),
}

/// Preprocesses and parses `code`, `headers` supplying the text of the
/// headers it includes: the syntax tree, or the error of the stage that
/// refused it. Preprocessing errors are those of `preprocess_spec`; the
/// text it makes is then parsed, failing with the lexing error exactly when
/// it cannot be split into tokens.
pub fn front_end(code: &str, headers: &Vec<(String, String)>) -> (r: Result<Box<AST>, FrontEndError>)
    ensures
        match preprocess_spec(code@, headers_view(headers@)) {
            Err(e) => r == Err::<Box<AST>, FrontEndError>(FrontEndError::Preprocess(e)),
            Ok(text) => match lex_spec(text) {
                Err(le) => r == Err::<Box<AST>, FrontEndError>(FrontEndError::Parse(ParseError::Lex(le))),
                Ok(_) => match r {
                    Ok(ast) => (*ast matches AST::GlobalDeclaration(ds) && program_parsed(text, ds@)),
                    Err(FrontEndError::Parse(e)) => !(e is Lex),
                    Err(FrontEndError::Preprocess(_)) => false,
                },
            },
        },
{
    let text = match preprocess(code, headers) {
        Ok(t) => t,
        Err(e) => {
            return Err(FrontEndError::Preprocess(e));
        },
    };
    let mut parser = Parse::new();
    match parser.parse(text.as_str()) {
        Ok(ast) => Ok(ast),
        Err(e) => Err(FrontEndError::Parse(e)),
    }
}

} // verus!
