//! Lexing and parsing of C99 source into an abstract syntax tree.
pub mod error;
pub mod grammar;
pub mod lexer;
pub mod declarations;
pub mod literal;
pub mod syntax;

use vstd::prelude::*;

use self::error::ParseError;
use self::grammar::{parse_external, Src};
use self::declarations::{
    combine_spec, declared_in, externals_rel, keyword_state, lemma_declared_in_none, lemma_declared_in_trans,
    lemma_externals_push, lemma_same_toks_program, named_of, plain_declaration, plain_declarators_end,
    plain_program, specifiers_stop, plain_definition_end,
};
use self::lexer::Punct;
use self::syntax::is_punct;
use self::syntax::{all_declared, program_parsed};
use self::lexer::{lemma_lex_from_bounds, lex, lex_spec, LexError, Token};
use crate::ast::{Declaration, AST};
use crate::text::chars_of;

verus! {

/// The parser. It keeps no state between calls.
pub struct Parse {}

impl Parse {
    pub fn new() -> (p: Parse) {
        Parse {  }
    }

    /// Parses a preprocessed translation unit into its global declarations.
    /// When the text cannot be split into tokens it fails with that error,
    /// and a lexing error comes from nowhere else; a parse that fails on the
    /// tokens gives another error. On success the tokens are external
    /// declarations one after another, and the function definitions and
    /// variables of the result are, in order, the ones they define and
    /// declare; each global declaration is one that the tokens declare or
    /// define, with its span: a function definition with its specifiers,
    /// declarator and body, a variable with its type and initializer, or a
    /// named struct or union with its members (`program_parsed`). A text
    /// with no tokens (blanks only) is an empty translation unit, and a text
    /// whose tokens are plain declarations one after another (`plain_program`:
    /// keyword specifiers, then `;` or declarators made of pointers, a name and
    /// perhaps `=` and a lone identifier or integer, separated by commas, then
    /// `;`) is always parsed.
    pub fn parse(&mut self, code: &str) -> (r: Result<Box<AST>, ParseError>)
        ensures
            lex_spec(code@) matches Err(e) ==> r == Err::<Box<AST>, ParseError>(ParseError::Lex(e)),
            r matches Err(ParseError::Lex(e)) ==> lex_spec(code@) == Err::<Seq<Token>, _>(e),
            r matches Ok(ast) ==> (*ast matches AST::GlobalDeclaration(ds) && program_parsed(code@, ds@)),
            lex_spec(code@) matches Ok(ts) && ts.len() == 0 ==> (r matches Ok(ast) && (*ast matches AST::GlobalDeclaration(
                ds,
            ) && ds@.len() == 0)),
            lex_spec(code@) matches Ok(ts) ==> forall|s: Src|
                #![trigger plain_program(s, 0)]
                s.chars@ == code@ && s.toks@ == ts && plain_program(s, 0) ==> r is Ok,
    {
        let chars = chars_of(code);
        let toks = match lex(&chars) {
            Ok(t) => t,
            Err(e) => {
                return Err(ParseError::Lex(e));
            },
        };
        proof {
            lemma_lex_from_bounds(chars@, 0);
        }
        let src = Src { chars, toks };
        let mut ast: Vec<Declaration> = Vec::new();
        let mut k: usize = 0;
        let ghost planned = plain_program(src, 0);
        proof {
            lemma_declared_in_none(src, 0, 0, ast@);
            assert(named_of(ast@) =~= Seq::<Declaration>::empty());
        }
        while k < src.toks.len()
            invariant
                src.wf(),
                k <= src.toks.len(),
                lex_spec(code@) == Ok::<Seq<Token>, LexError>(src.toks@),
                src.chars@ == code@,
                declared_in(src, 0, k as int, Seq::empty(), ast@),
                externals_rel(src, k as int, named_of(ast@)),
                planned == plain_program(src, 0),
                planned ==> plain_program(src, k as int),
            decreases src.toks.len() - k,
        {
            let ghost k0 = k as int;
            let ghost before = ast@;
            let ghost mut gq: int = 0;
            proof {
                if planned {
                    gq = choose|q: int|
                        #![trigger plain_declaration(src, k0, q)]
                        k0 < q <= src.toks@.len() && plain_declaration(src, k0, q) && plain_program(src, q);
                    let kk = choose|kk: int|
                        #![trigger keyword_state(src, k0, kk)]
                        k0 < kk <= src.toks@.len() && (keyword_state(src, k0, kk) matches Some(st) && specifiers_stop(
                            src,
                            kk,
                            st,
                        ) && st.0.len() <= 1 && combine_spec(st.3, st.4) is Some && ((is_punct(src, kk, Punct::Semicolon)
                            && gq == kk + 1) || (plain_declarators_end(src, kk) matches Some(m) && is_punct(
                            src,
                            m,
                            Punct::Semicolon,
                        ) && gq == m + 1) || plain_definition_end(src, kk) == Some(gq)));
                    assert(keyword_state(src, k0, kk) is Some);
                }
            }
            k = match parse_external(&src, k, &mut ast) {
                Ok(n) => n,
                Err(e) => {
                    proof {
                        assert(!planned);
                        assert forall|s: Src| #![trigger plain_program(s, 0)] s.chars@ == src.chars@ && s.toks@ == src.toks@ && plain_program(
                            s,
                            0,
                        ) implies false by {
                            lemma_same_toks_program(s, src, 0);
                        }
                    }
                    return Err(e);
                },
            };
            assert(planned ==> k == gq);
            proof {
                lemma_declared_in_trans(src, 0, k0, k as int, Seq::empty(), before, ast@);
                lemma_externals_push(src, k0, k as int, before, ast@);
            }
        }
        assert(all_declared(src, ast@));
        Ok(Box::new(AST::GlobalDeclaration(ast)))
    }
}

} // verus!
