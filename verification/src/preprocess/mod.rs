//! The preprocessor: line splicing, comments, directives and macros, and
//! the joining of adjacent string literals.
pub mod define;
pub mod directives;
pub mod error;
pub mod expand;
pub mod expand_line;
pub mod macros;
pub mod phase2;
pub mod phase3;
pub mod phase4;
pub mod phase6;
pub mod scan;

pub use error::PreprocessError;
pub use macros::{Macro, MacroTable, Replacement};
pub use phase2::phase2;
pub use phase3::phase3;
pub use phase4::phase4;
pub use phase6::phase6;

use vstd::prelude::*;

use self::phase2::phase2_spec;
use self::phase3::phase3_spec;
use self::directives::{headers_view, process_spec};
use self::phase4::{lines_of, text_only, INCLUDE_DEPTH};
use self::phase6::phase6_spec;

verus! {

/// What preprocessing makes of `code`, with `hs` the headers by path:
/// phase 2, phase 3, phase 4 (`process_spec`, with no macro defined at the
/// start) and phase 6, the first error stopping it.
pub open spec fn preprocess_spec(code: Seq<char>, hs: Seq<(Seq<char>, Seq<char>)>) -> Result<Seq<char>, PreprocessError> {
    match phase3_spec(phase2_spec(code)) {
        Err(e) => Err(e),
        Ok(c) => match process_spec(Map::empty(), c, lines_of(c), 0, lines_of(c).len() as int, false, hs, INCLUDE_DEPTH as nat) {
            Err(e) => Err(e),
            Ok((o, _)) => phase6_spec(o),
        },
    }
}

/// Preprocesses `code`: continued lines joined, comments removed, directives
/// carried out and macros expanded, adjacent string literals joined
/// (`preprocess_spec`). `headers` holds the text of each header that
/// `#include` may name, by its path.
pub fn preprocess(code: &str, headers: &Vec<(String, String)>) -> (r: Result<String, PreprocessError>)
    ensures
        match r {
            Ok(o) => preprocess_spec(code@, headers_view(headers@)) == Ok::<Seq<char>, PreprocessError>(o@),
            Err(e) => preprocess_spec(code@, headers_view(headers@)) == Err::<Seq<char>, PreprocessError>(e),
        },
        match phase3_spec(phase2_spec(code@)) {
            Ok(c) => text_only(c, lines_of(c), 0, lines_of(c).len() as int) ==> match phase6_spec(c) {
                Ok(x) => (r matches Ok(o) && o@ == x),
                Err(e) => r == Err::<String, PreprocessError>(e),
            },
            Err(_) => true,
        },
{
    let code = phase2(code);
    let code = match phase3(code.as_str()) {
        Ok(c) => c,
        Err(e) => {
            return Err(e);
        },
    };
    let mut defined = MacroTable::new();
    let code = match phase4(code.as_str(), &mut defined, headers) {
        Ok(c) => c,
        Err(e) => {
            return Err(e);
        },
    };
    phase6(code.as_str())
}

} // verus!
