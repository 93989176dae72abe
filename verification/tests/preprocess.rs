use cc99::preprocess::{preprocess, PreprocessError};

fn no_headers() -> Vec<(String, String)> {
    vec![]
}

#[test]
#[should_panic]
fn process_comments_fail() {
    let code = r#"/* "#;
    let include_dirs = no_headers();
    println!("result: {}", preprocess(code, &include_dirs).unwrap());
}

#[test]
fn process_comments() {
    let code = r#"
int main() {
    '"'; "//";
    // This is a comment
    /* This is a comment */
    /** This is a comment
    //
    */
    return 0;
}
"#;
    let expected = r#"
int main() {
    '"'; "//";
    
     
     
    return 0;
}
"#;
    let include_dirs = no_headers();
    assert_eq!(expected, preprocess(code, &include_dirs).unwrap());
}

#[test]
fn process_continued_lines() {
    let code = r#"
int main() { \
}
"#;
    let expected = r#"
int main() { }
"#;
    let include_dirs = no_headers();
    assert_eq!(expected, preprocess(code, &include_dirs).unwrap());
}

#[test]
fn process_continued_lines_and_comments() {
    let code = r#"
int main() {
    // This is a comment \
    This is a comment, too
    return 0;
}
"#;
    let expected = r#"
int main() {
    
    return 0;
}
"#;
    let include_dirs = no_headers();
    assert_eq!(expected, preprocess(code, &include_dirs).unwrap());
}

#[test]
fn combine_adjacent_strings() {
    let code = r#"
int main() {
    char *x = "x" "y""z";
}
"#;
    let expected = r#"
int main() {
    char *x = "xyz";
}
"#;
    let include_dirs = no_headers();
    assert_eq!(expected, preprocess(code, &include_dirs).unwrap());
}

#[test]
fn process_object_define() {
    let code = r#"
#define b 0
#define x b
int main() {
    return x;
}
"#;
    let expected = r#"
int main() {
    return 0;
}
"#;
    let include_dirs = no_headers();
    assert_eq!(expected, preprocess(code, &include_dirs).unwrap());
}

#[test]
fn process_conditional_macro() {
    let code = r#"
        #define x
        #ifndef x
        #define x 1
        #else
        #if defined(y)
        #elif defined(x)
        #define x 0
        #endif
        #endif
        int main() { return x; }
"#;
    let expected = r#"
                        int main() { return 0; }
"#;
    let include_dirs = no_headers();
    assert_eq!(expected, preprocess(code, &include_dirs).unwrap());
}

#[test]
fn process_function_define() {
    let code = r#"
#define x(a) a
#define m_1(a, b) a##b
#define m_2(a) #a
#define m_3(a, ...) #__VA_ARGS__
#define m_4() 0
int main() {
    m_1(i, j);
    m_2(sadf);
    m_3(1, 2, -(3*4, 7), " ,");
    return x(0)m_4();
}
"#;
    let expected = r#"
int main() {
    ij;
    "sadf";
    2,-(3*4,7)," ,";
    return 00;
}
"#;
    let include_dirs = no_headers();
    assert_eq!(expected, preprocess(code, &include_dirs).unwrap());
}

#[test]
fn include_supplied_header() {
    let headers = vec![(
        "defs.h".to_string(),
        "#define ANSWER 42\nint answer(void);\n".to_string(),
    )];
    let code = "#include \"defs.h\"\nint x = ANSWER;\n";
    // the header's macros stay in the header
    assert_eq!(
        "int answer(void);\nint x = ANSWER;\n",
        preprocess(code, &headers).unwrap()
    );
}

#[test]
fn include_missing_header() {
    let code = "#include <nowhere.h>\n";
    assert_eq!(
        Err(PreprocessError::MissingHeader(0)),
        preprocess(code, &no_headers())
    );
}

#[test]
fn pragma_is_refused() {
    let code = "int a;\n#pragma once\n";
    assert_eq!(
        Err(PreprocessError::UnsupportedPragma(7)),
        preprocess(code, &no_headers())
    );
}

#[test]
fn stringizing_unknown_parameter() {
    let code = "#define s(a) #b\n";
    assert_eq!(
        Err(PreprocessError::UnknownParameter(0)),
        preprocess(code, &no_headers())
    );
}

#[test]
fn va_args_needs_variadic_macro() {
    let code = "#define s(a) #__VA_ARGS__\n";
    assert_eq!(
        Err(PreprocessError::VaArgsNotAllowed(0)),
        preprocess(code, &no_headers())
    );
}

#[test]
fn call_with_wrong_argument_count() {
    let code = "#define f(a, b) a b\nf(1);\n";
    assert_eq!(
        Err(PreprocessError::ArgumentCountMismatch(0)),
        preprocess(code, &no_headers())
    );
}

#[test]
fn call_without_parentheses() {
    let code = "#define f(a) a\nint f;\n";
    assert_eq!(
        Err(PreprocessError::MacroCallExpected(4)),
        preprocess(code, &no_headers())
    );
}

#[test]
fn call_running_past_the_line() {
    let code = "#define f(a) a\nf(1,\n2);\n";
    assert_eq!(
        Err(PreprocessError::UnexpectedEnd(0)),
        preprocess(code, &no_headers())
    );
}

#[test]
fn endif_without_if() {
    let code = "#endif\n";
    assert_eq!(
        Err(PreprocessError::UnbalancedConditional(0)),
        preprocess(code, &no_headers())
    );
}

#[test]
fn if_without_endif() {
    let code = "#ifdef A\nint a;\n";
    assert_eq!(
        Err(PreprocessError::UnbalancedConditional(0)),
        preprocess(code, &no_headers())
    );
}

#[test]
fn self_referencing_macro_is_refused() {
    let code = "#define x x\nx\n";
    assert_eq!(
        Err(PreprocessError::ExpansionTooDeep(0)),
        preprocess(code, &no_headers())
    );
}

#[test]
fn undef_removes_macro() {
    let code = "#define A 1\n#undef A\nA\n";
    assert_eq!("A\n", preprocess(code, &no_headers()).unwrap());
}

#[test]
fn else_branch_taken() {
    let code = "#ifdef A\nint a;\n#elif defined B\nint b;\n#else\nint c;\n#endif\n";
    assert_eq!("int c;\n", preprocess(code, &no_headers()).unwrap());
}

#[test]
fn keywords_are_not_expanded() {
    let code = "#define int long\nint a;\n";
    assert_eq!("int a;\n", preprocess(code, &no_headers()).unwrap());
}

#[test]
fn paste_escapes_argument() {
    let code = "#define p(a, b) a ## b\np(x y, z)\n";
    assert_eq!("xyz\n", preprocess(code, &no_headers()).unwrap());
}

#[test]
fn elif_branch_taken() {
    let code = "#define B\n#ifdef A\nint a;\n#elif defined B\nint b;\n#else\nint c;\n#endif\n";
    assert_eq!("int b;\n", preprocess(code, &no_headers()).unwrap());
}

#[test]
fn ifndef_takes_group_of_unbound_name() {
    let code = "#ifndef GUARD\n#define GUARD\nint g;\n#endif\n#ifndef GUARD\nint h;\n#endif\n";
    assert_eq!("int g;\n", preprocess(code, &no_headers()).unwrap());
}

#[test]
fn nested_conditional_in_skipped_group() {
    let code = "#ifdef A\n#ifdef B\nint ab;\n#endif\nint a;\n#else\nint n;\n#endif\n";
    assert_eq!("int n;\n", preprocess(code, &no_headers()).unwrap());
}

#[test]
fn header_including_itself_is_refused() {
    let headers = vec![("self.h".to_string(), "#include \"self.h\"\n".to_string())];
    let code = "#include \"self.h\"\n";
    assert_eq!(
        Err(PreprocessError::IncludeTooDeep(0)),
        preprocess(code, &headers)
    );
}

#[test]
fn blanks_before_outer_directive_are_kept() {
    let code = "  #define A 1\nA\n";
    assert_eq!("  1\n", preprocess(code, &no_headers()).unwrap());
}

#[test]
fn second_define_replaces_the_first() {
    let code = "#define A 1\n#define A 2\nA\n";
    assert_eq!("2\n", preprocess(code, &no_headers()).unwrap());
}
