use cc99::ast::{BaseType, ExpressionEnum, Span};
use cc99::driver::{
    front_end, include_dirs_of, object_file, opt_level_of, output_file, stage_of, FrontEndError,
    OptLevel, Stage,
};
use cc99::parse::error::ParseError;
use cc99::parse::lexer::{lex, LexError, TokenKind};
use cc99::parse::literal::{build_floating_constant, build_integer_constant};
use cc99::preprocess::phase4::include_paths;
use cc99::preprocess::{phase2, phase3, phase6, PreprocessError};
use cc99::text::chars_of;
use cc99::utils::CompileErr;

#[test]
fn stages_and_outputs() {
    let s = stage_of(false, true, true, false, false);
    assert_eq!(s, Stage::Parse);
    assert_eq!(stage_of(false, false, false, false, false), Stage::Link);
    assert_eq!(output_file(None, "main", Stage::Expand), "main.expand.c");
    assert_eq!(output_file(None, "main", Stage::Compile), "main.s");
    assert_eq!(output_file(None, "main", Stage::Link), "main");
    assert_eq!(output_file(Some("out.o".to_string()), "main", Stage::Bitcode), "out.o");
    assert_eq!(object_file("main"), "main.o");
}

#[test]
fn optimization_levels() {
    assert_eq!(opt_level_of(0), Some(OptLevel::O0));
    assert_eq!(opt_level_of(3), Some(OptLevel::Aggressive));
    assert_eq!(opt_level_of(4), None);
}

#[test]
fn include_directories_split_on_commas() {
    assert_eq!(include_dirs_of("/a,/b"), vec!["/a".to_string(), "/b".to_string()]);
    assert_eq!(include_dirs_of(""), vec!["".to_string()]);
    assert_eq!(include_dirs_of("x,,y"), vec!["x".to_string(), "".to_string(), "y".to_string()]);
}

#[test]
fn front_end_reports_its_stage() {
    let headers: Vec<(String, String)> = vec![];
    assert_eq!(
        front_end("/* open", &headers).unwrap_err(),
        FrontEndError::Preprocess(PreprocessError::UnterminatedComment(0))
    );
    assert_eq!(
        front_end("int x = ;", &headers).unwrap_err(),
        FrontEndError::Parse(ParseError::UnexpectedToken(8))
    );
    assert!(front_end("int main() { return 0; }", &headers).is_ok());
}

#[test]
fn header_paths_are_listed() {
    let paths = include_paths("#include <stdio.h>\nint a;\n  #  include \"my.h\"\n");
    assert_eq!(paths, vec!["stdio.h".to_string(), "my.h".to_string()]);
}

#[test]
fn phases_one_by_one() {
    assert_eq!(phase2("a\\\nb"), "ab\n");
    assert_eq!(phase3("a /* x */ b // c\n").unwrap(), "a   b \n");
    assert_eq!(phase3("\"/* no\"").unwrap(), "\"/* no\"");
    assert_eq!(
        phase3("'a").unwrap_err(),
        PreprocessError::UnterminatedLiteral(0)
    );
    assert_eq!(phase6("\"a\"  \"b\"").unwrap(), "\"ab\"");
    assert_eq!(PreprocessError::MissingHeader(3).message(), "couldn't find such a header file");
}

#[test]
fn second_phase6_pass_changes_nothing() {
    let once = phase6("x = \"a\\\"\"  \"b\" '\"' \"c\";\n").unwrap();
    assert_eq!(once, "x = \"a\\\"b\" '\"' \"c\";\n");
    assert_eq!(phase6(&once).unwrap(), once);
}

#[test]
fn text_without_comments_passes_phase3_unchanged() {
    let code = "int a = b / c; char *s = \"// /*\"; char q = '/';\n";
    assert_eq!(phase3(code).unwrap(), code);
}

#[test]
fn lexer_tokens() {
    let chars = chars_of("int x=0x1F;");
    let toks = lex(&chars).unwrap();
    assert_eq!(toks.len(), 5);
    assert_eq!(toks[1].kind, TokenKind::Identifier);
    assert_eq!((toks[3].start, toks[3].end), (6, 10));
    assert_eq!(toks[3].kind, TokenKind::Integer);
    assert_eq!(lex(&chars_of("a @ b")).unwrap_err(), LexError::UnexpectedCharacter(2));
}

#[test]
fn integer_constants() {
    let c = chars_of("2147483648");
    assert_eq!(build_integer_constant(&c, 0, c.len()).unwrap(), ExpressionEnum::LongConstant(2147483648));
    let h = chars_of("0xFFFFFFFF");
    assert_eq!(
        build_integer_constant(&h, 0, h.len()).unwrap(),
        ExpressionEnum::UnsignedIntegerConstant(0xFFFF_FFFF)
    );
    let u = chars_of("7ull");
    assert_eq!(build_integer_constant(&u, 0, u.len()).unwrap(), ExpressionEnum::UnsignedLongLongConstant(7));
    let b = chars_of("0b101");
    assert_eq!(build_integer_constant(&b, 0, b.len()).unwrap(), ExpressionEnum::IntegerConstant(5));
    let o = chars_of("017");
    assert_eq!(build_integer_constant(&o, 0, o.len()).unwrap(), ExpressionEnum::IntegerConstant(15));
    let big = chars_of("99999999999999999999");
    assert_eq!(build_integer_constant(&big, 0, big.len()).unwrap_err(), ParseError::IntegerOverflow(0));
    let bad = chars_of("12lul");
    assert_eq!(build_integer_constant(&bad, 0, bad.len()).unwrap_err(), ParseError::InvalidConstant(0));
}

#[test]
fn floating_constants() {
    let f = chars_of("1.5e3f");
    assert_eq!(
        build_floating_constant(&f, 0, f.len()).unwrap(),
        ExpressionEnum::FloatConstant("1.5e3".to_string())
    );
    let d = chars_of("2.");
    assert_eq!(
        build_floating_constant(&d, 0, d.len()).unwrap(),
        ExpressionEnum::DoubleConstant("2.".to_string())
    );
    let h = chars_of("0x1p3");
    assert_eq!(build_floating_constant(&h, 0, h.len()).unwrap_err(), ParseError::UnsupportedFloat(0));
}

#[test]
fn compile_error_text() {
    let e = CompileErr::missing_variable("y".to_string(), Span::new(1, 2));
    assert_eq!(e.to_string(), "missing variable `y`");
    assert_eq!(e.code, "E010");
    assert_eq!(BaseType::Pointer(Box::new(cc99::ast::BasicType { qualifier: vec![], base_type: BaseType::Bool })).to_string(), "_Bool*");
}
