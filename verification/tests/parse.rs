use cc99::ast::{
    BaseType, BasicType, Declaration, DeclarationEnum, Expression, ExpressionEnum, FunctionSpecifier,
    IntegerType, Span, Statement, StatementEnum, StorageClassSpecifier, StructMember, Type,
    TypeQualifier, AST,
};
use cc99::parse::error::ParseError;
use cc99::parse::grammar::{build_constant, build_declaration_specifiers, build_function_definition, build_raw_declarator, Src};
use cc99::parse::Parse;

#[test]
fn variable_declaration() {
    let code = r#"static int const *const x, y;"#;
    assert_eq!(
        Parse::new().parse(code).unwrap(),
        Box::new(AST::GlobalDeclaration(vec![
            Declaration {
                node: DeclarationEnum::Declaration(
                    Type {
                        function_specifier: vec![],
                        storage_class_specifier: StorageClassSpecifier::Static,
                        basic_type: BasicType {
                            qualifier: vec![TypeQualifier::Const],
                            base_type: BaseType::Pointer(Box::new(BasicType {
                                qualifier: vec![TypeQualifier::Const],
                                base_type: Default::default(),
                            })),
                        },
                    },
                    Some("x".to_string()),
                    None,
                ),
                span: Span::new(17, 25)
            },
            Declaration {
                node: DeclarationEnum::Declaration(
                    Type {
                        function_specifier: vec![],
                        storage_class_specifier: StorageClassSpecifier::Static,
                        basic_type: BasicType {
                            qualifier: vec![TypeQualifier::Const],
                            base_type: Default::default(),
                        },
                    },
                    Some("y".to_string()),
                    None,
                ),
                span: Span::new(27, 28)
            },
        ]))
    );
}

#[test]
fn function_declaration() {
    let code = r#"inline static const int foo(const int x, float *, ...);"#;
    assert_eq!(
        Parse::new().parse(code).unwrap(),
        Box::new(AST::GlobalDeclaration(vec![Declaration {
            node: DeclarationEnum::Declaration(
                Type {
                    function_specifier: vec!(FunctionSpecifier::Inline),
                    storage_class_specifier: StorageClassSpecifier::Static,
                    basic_type: BasicType {
                        qualifier: vec![],
                        base_type: BaseType::Function(
                            Box::new(BasicType {
                                qualifier: vec![TypeQualifier::Const],
                                base_type: Default::default(),
                            }),
                            vec![
                                BasicType {
                                    qualifier: vec![TypeQualifier::Const],
                                    base_type: Default::default(),
                                },
                                BasicType {
                                    qualifier: vec![],
                                    base_type: BaseType::Pointer(Box::new(BasicType {
                                        qualifier: vec![],
                                        base_type: BaseType::Float,
                                    })),
                                },
                            ],
                            true
                        ),
                    },
                },
                Some("foo".to_string()),
                None
            ),
            span: Span::new(24, 54)
        },]))
    );
}

#[test]
fn typedef_struct_declaration() {
    let code = r#"typedef struct Xxx{const int y; float z;} x;"#;
    assert_eq!(
        Parse::new().parse(code).unwrap(),
        Box::new(AST::GlobalDeclaration(vec![
            Declaration {
                node: DeclarationEnum::Declaration(
                    Type {
                        function_specifier: vec!(),
                        storage_class_specifier: StorageClassSpecifier::Auto,
                        basic_type: BasicType {
                            qualifier: vec![],
                            base_type: BaseType::Struct(
                                Some("Xxx".to_string()),
                                Some(vec![
                                    StructMember {
                                        member_name: "y".to_string(),
                                        member_type: BasicType {
                                            qualifier: vec![TypeQualifier::Const],
                                            base_type: Default::default(),
                                        },
                                    },
                                    StructMember {
                                        member_name: "z".to_string(),
                                        member_type: BasicType {
                                            qualifier: vec![],
                                            base_type: BaseType::Float,
                                        },
                                    },
                                ]),
                            ),
                        }
                    },
                    None,
                    None
                ),
                span: Span::new(8, 41)
            },
            Declaration {
                node: DeclarationEnum::Declaration(
                    Type {
                        function_specifier: vec!(),
                        storage_class_specifier: StorageClassSpecifier::Typedef,
                        basic_type: BasicType {
                            qualifier: vec![],
                            base_type: BaseType::Struct(Some("Xxx".to_string()), None),
                        }
                    },
                    Some("x".to_string()),
                    None
                ),
                span: Span::new(42, 43)
            }
        ]))
    );
}

#[test]
fn function_definition() {
    let code = r#"inline int *const bar(int x, float) {}"#;
    assert_eq!(
        Parse::new().parse(code).unwrap(),
        Box::new(AST::GlobalDeclaration(vec![Declaration {
            node: DeclarationEnum::FunctionDefinition(
                vec![FunctionSpecifier::Inline],
                StorageClassSpecifier::Auto,
                Box::new(BasicType {
                    qualifier: vec![TypeQualifier::Const],
                    base_type: BaseType::Pointer(Box::new(BasicType {
                        qualifier: vec![],
                        base_type: BaseType::SignedInteger(IntegerType::Int),
                    })),
                }),
                "bar".to_string(),
                vec![
                    (
                        BasicType {
                            qualifier: vec![],
                            base_type: Default::default(),
                        },
                        Some("x".to_string())
                    ),
                    (
                        BasicType {
                            qualifier: vec![],
                            base_type: BaseType::Float,
                        },
                        None
                    ),
                ],
                false,
                Statement {
                    node: StatementEnum::Compound(vec![]),
                    span: Span::new(36, 38)
                },
            ),
            span: Span::new(0, 38)
        },]))
    );
}

#[test]
fn array() {
    let code = r#"const int x[10][9][8];"#;
    assert_eq!(
        Parse::new().parse(code).unwrap(),
        Box::new(AST::GlobalDeclaration(vec![Declaration {
            node: DeclarationEnum::Declaration(
                Type {
                    function_specifier: vec![],
                    storage_class_specifier: StorageClassSpecifier::Auto,
                    basic_type: BasicType {
                        qualifier: vec![],
                        base_type: BaseType::Array(
                            Box::new(BasicType {
                                qualifier: vec![TypeQualifier::Const],
                                base_type: BaseType::SignedInteger(IntegerType::Int),
                            }),
                            vec![
                                Expression {
                                    node: ExpressionEnum::IntegerConstant(10),
                                    span: Span::new(12, 14)
                                },
                                Expression {
                                    node: ExpressionEnum::IntegerConstant(9),
                                    span: Span::new(16, 17)
                                },
                                Expression {
                                    node: ExpressionEnum::IntegerConstant(8),
                                    span: Span::new(19, 20)
                                },
                            ],
                        ),
                    },
                },
                Some("x".to_string()),
                None
            ),
            span: Span::new(10, 21)
        },]))
    );
}

#[test]
fn unnamed_struct_keeps_its_members_in_the_type() {
    let code = "struct { int a; } s;";
    let ast = Parse::new().parse(code).unwrap();
    match *ast {
        AST::GlobalDeclaration(ds) => {
            assert_eq!(ds.len(), 1);
            match &ds[0].node {
                DeclarationEnum::Declaration(t, Some(name), None) => {
                    assert_eq!(name, "s");
                    match &t.basic_type.base_type {
                        BaseType::Struct(None, Some(members)) => {
                            assert_eq!(members.len(), 1);
                            assert_eq!(members[0].member_name, "a");
                        }
                        _ => panic!("not an unnamed struct"),
                    }
                }
                _ => panic!("not a variable"),
            }
        }
    }
}

#[test]
fn struct_member_with_initializer_is_refused() {
    let code = "struct P { int a = 1; } p;";
    assert_eq!(Parse::new().parse(code), Err(ParseError::InvalidStructMember(15)));
}

#[test]
fn specifiers_in_any_order() {
    let src = Src::tokenize("static const unsigned x").unwrap();
    let mut ast = Vec::new();
    let (t, n) = build_declaration_specifiers(&src, 0, &mut ast).unwrap();
    assert_eq!(n, 3);
    assert!(ast.is_empty());
    assert_eq!(
        t,
        Type {
            function_specifier: vec![],
            storage_class_specifier: StorageClassSpecifier::Static,
            basic_type: BasicType {
                qualifier: vec![TypeQualifier::Const],
                base_type: BaseType::UnsignedInteger(IntegerType::Int),
            },
        }
    );
}

#[test]
fn declarator_wraps_pointer_in_array() {
    let src = Src::tokenize("*p[3]").unwrap();
    let mut ast = Vec::new();
    let int = BasicType { qualifier: vec![], base_type: BaseType::SignedInteger(IntegerType::Int) };
    let (t, name, n) = build_raw_declarator(&src, 0, int, false, &mut ast).unwrap();
    assert_eq!(n, 5);
    assert_eq!(name, Some("p".to_string()));
    match t.base_type {
        BaseType::Array(elem, dims) => {
            assert_eq!(dims.len(), 1);
            assert_eq!(dims[0].node, ExpressionEnum::IntegerConstant(3));
            assert!(matches!(elem.base_type, BaseType::Pointer(_)));
        }
        _ => panic!("not an array"),
    }
}

#[test]
fn function_definition_or_not() {
    let src = Src::tokenize("int f() { return 0; }").unwrap();
    let mut ast = Vec::new();
    assert_eq!(build_function_definition(&src, 0, &mut ast).unwrap(), Some(src.toks.len()));
    assert_eq!(ast.len(), 1);
    assert!(matches!(ast[0].node, DeclarationEnum::FunctionDefinition(..)));
    assert_eq!(ast[0].span, Span::new(0, 21));
    let src = Src::tokenize("int x;").unwrap();
    let mut ast = Vec::new();
    assert_eq!(build_function_definition(&src, 0, &mut ast).unwrap(), None);
    assert!(ast.is_empty());
}

#[test]
fn character_constant_token() {
    let src = Src::tokenize("'a'").unwrap();
    let e = build_constant(&src, 0).unwrap();
    assert_eq!(e.node, ExpressionEnum::CharacterConstant('a'));
    assert_eq!(e.span, Span::new(0, 3));
}

#[test]
fn unfinished_parameter_list_is_an_error() {
    let src = Src::tokenize("int f(int").unwrap();
    let mut ast = Vec::new();
    assert_eq!(build_function_definition(&src, 0, &mut ast), Err(ParseError::UnexpectedEnd));
    assert_eq!(Parse::new().parse("int f(int"), Err(ParseError::UnexpectedEnd));
}

#[test]
fn blank_text_is_an_empty_unit() {
    assert_eq!(
        Parse::new().parse(" \n\t ").unwrap(),
        Box::new(AST::GlobalDeclaration(vec![]))
    );
}

#[test]
fn plain_declarations_always_parse() {
    let code = "static const int *p, q; unsigned long n = 7, m = n; const char;";
    let AST::GlobalDeclaration(ds) = *Parse::new().parse(code).unwrap();
    assert_eq!(ds.len(), 4);
    assert!(Parse::new().parse("long long long x;").is_err());
    assert!(Parse::new().parse("static extern int x;").is_err());
}

#[test]
fn plain_functions_and_statements_parse() {
    let code = "static int f(int a, char *, ...); int g(int n) { int i = 0; for (i = 0; i; i) { if (n) break; else continue; } while (n) n; do ; while (i); switch (n) { case 1: return n; default: ; } l: return 0; }";
    let AST::GlobalDeclaration(ds) = *Parse::new().parse(code).unwrap();
    assert_eq!(ds.len(), 2);
    let arr = "const int x[10][9][8];";
    assert!(Parse::new().parse(arr).is_ok());
}
