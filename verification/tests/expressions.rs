use cc99::ast::{
    AssignOperation, AssignOperationEnum, BaseType, BasicType, BinaryOperation, BinaryOperationEnum, Expression,
    ExpressionEnum, ForInitClauseEnum, IntegerType, Span, StatementEnum, StatementOrDeclarationEnum, TypeQualifier,
    UnaryOperationEnum,
};
use cc99::parse::error::ParseError;
use cc99::parse::grammar::{build_expression, build_statement, Src};

fn ident(name: &str, start: usize) -> Expression {
    Expression {
        node: ExpressionEnum::Identifier(name.to_string()),
        span: Span::new(start, start + name.len()),
    }
}

fn int_at(v: i32, start: usize, end: usize) -> Expression {
    Expression { node: ExpressionEnum::IntegerConstant(v), span: Span::new(start, end) }
}

#[test]
fn precedence_and_assignment() {
    let src = Src::tokenize("a = b + c * d").unwrap();
    let (e, n) = build_expression(&src, 0).unwrap();
    assert_eq!(n, 7);
    let product = Expression {
        node: ExpressionEnum::Binary(
            BinaryOperation { node: BinaryOperationEnum::Multiplication, span: Span::new(10, 11) },
            Box::new(ident("c", 8)),
            Box::new(ident("d", 12)),
        ),
        span: Span::new(8, 13),
    };
    let sum = Expression {
        node: ExpressionEnum::Binary(
            BinaryOperation { node: BinaryOperationEnum::Addition, span: Span::new(6, 7) },
            Box::new(ident("b", 4)),
            Box::new(product),
        ),
        span: Span::new(4, 13),
    };
    let expected = Expression {
        node: ExpressionEnum::Assignment(
            AssignOperation { node: AssignOperationEnum::Naive, span: Span::new(2, 3) },
            Box::new(ident("a", 0)),
            Box::new(sum),
        ),
        span: Span::new(0, 13),
    };
    assert_eq!(e, expected);
}

#[test]
fn subtraction_groups_from_the_left() {
    let src = Src::tokenize("x - y - z").unwrap();
    let (e, n) = build_expression(&src, 0).unwrap();
    assert_eq!(n, 5);
    match e.node {
        ExpressionEnum::Binary(op, l, r) => {
            assert_eq!(op.node, BinaryOperationEnum::Subtraction);
            assert_eq!(*r, ident("z", 8));
            // every node of the chain spans the whole chain
            assert_eq!(l.span, Span::new(0, 9));
            assert_eq!(e.span, Span::new(0, 9));
        }
        _ => panic!("not a binary expression"),
    }
}

#[test]
fn subscripts_gather_their_indices() {
    let src = Src::tokenize("a[1][2]").unwrap();
    let (e, n) = build_expression(&src, 0).unwrap();
    assert_eq!(n, 7);
    match e.node {
        ExpressionEnum::ArraySubscript(base, idx) => {
            assert_eq!(*base, ident("a", 0));
            assert_eq!(idx, vec![int_at(1, 2, 3), int_at(2, 5, 6)]);
        }
        _ => panic!("not a subscript"),
    }
}

#[test]
fn call_with_arguments() {
    let src = Src::tokenize("f(1, x)").unwrap();
    let (e, n) = build_expression(&src, 0).unwrap();
    assert_eq!(n, 6);
    match e.node {
        ExpressionEnum::FunctionCall(callee, args) => {
            assert_eq!(*callee, ident("f", 0));
            assert_eq!(args, vec![int_at(1, 2, 3), ident("x", 5)]);
            assert_eq!(e.span, Span::new(0, 7));
        }
        _ => panic!("not a call"),
    }
}

#[test]
fn conditional_and_prefix_operators() {
    let src = Src::tokenize("!c ? -1 : 2").unwrap();
    let (e, n) = build_expression(&src, 0).unwrap();
    assert_eq!(n, 7);
    match e.node {
        ExpressionEnum::Conditional(c, t, f) => {
            match c.node {
                ExpressionEnum::Unary(op, x) => {
                    assert_eq!(op.node, UnaryOperationEnum::LogicalNot);
                    assert_eq!(*x, ident("c", 1));
                }
                _ => panic!("not a unary expression"),
            }
            match t.node {
                ExpressionEnum::Unary(op, _) => assert_eq!(op.node, UnaryOperationEnum::UnaryMinus),
                _ => panic!("not a unary expression"),
            }
            assert_eq!(*f, int_at(2, 10, 11));
        }
        _ => panic!("not a conditional"),
    }
}

#[test]
fn parentheses_stand_for_the_inner_expression() {
    let src = Src::tokenize("(a)").unwrap();
    let (e, n) = build_expression(&src, 0).unwrap();
    assert_eq!(n, 3);
    assert_eq!(e, ident("a", 1));
}

#[test]
fn missing_operand_is_refused() {
    let src = Src::tokenize("a +").unwrap();
    assert!(build_expression(&src, 0).is_err());
}

#[test]
fn if_takes_the_following_else() {
    let src = Src::tokenize("if (a) if (b) x; else y;").unwrap();
    let (s, n) = build_statement(&src, 0).unwrap();
    assert_eq!(n, src.toks.len());
    match s.node {
        StatementEnum::If(_, inner, outer_else) => {
            assert!(outer_else.is_none());
            match inner.node {
                StatementEnum::If(_, _, inner_else) => assert!(inner_else.is_some()),
                _ => panic!("not an if statement"),
            }
        }
        _ => panic!("not an if statement"),
    }
}

#[test]
fn for_with_empty_clauses() {
    let src = Src::tokenize("for (;;) break;").unwrap();
    let (s, n) = build_statement(&src, 0).unwrap();
    assert_eq!(n, 7);
    match s.node {
        StatementEnum::For(init, cond, iter, body) => {
            assert!(init.is_none() && cond.is_none() && iter.is_none());
            assert_eq!(body.node, StatementEnum::Break);
        }
        _ => panic!("not a for statement"),
    }
}

#[test]
fn sizeof_names_the_type_in_parentheses() {
    let src = Src::tokenize("sizeof(unsigned long *)").unwrap();
    let (e, n) = build_expression(&src, 0).unwrap();
    assert_eq!(n, 6);
    let pointee = BasicType { qualifier: vec![], base_type: BaseType::UnsignedInteger(IntegerType::Long) };
    let expected = Expression {
        node: ExpressionEnum::SizeofType(BasicType {
            qualifier: vec![],
            base_type: BaseType::Pointer(Box::new(pointee)),
        }),
        span: Span::new(0, 23),
    };
    assert_eq!(e, expected);
}

#[test]
fn cast_names_the_type_after_as() {
    let src = Src::tokenize("x as const char").unwrap();
    let (e, n) = build_expression(&src, 0).unwrap();
    assert_eq!(n, 4);
    let expected = Expression {
        node: ExpressionEnum::TypeCast(
            BasicType { qualifier: vec![TypeQualifier::Const], base_type: BaseType::SignedInteger(IntegerType::Char) },
            Box::new(ident("x", 0)),
        ),
        span: Span::new(0, 15),
    };
    assert_eq!(e, expected);
}

#[test]
fn storage_class_in_cast_is_refused() {
    let src = Src::tokenize("x as static int").unwrap();
    assert_eq!(build_expression(&src, 0), Err(ParseError::StorageClassInTypeName(5)));
}

#[test]
fn block_keeps_declarations_and_statements_in_order() {
    let src = Src::tokenize("{ int a, b; a = b; }").unwrap();
    let (s, n) = build_statement(&src, 0).unwrap();
    assert_eq!(n, src.toks.len());
    match s.node {
        StatementEnum::Compound(items) => {
            assert_eq!(items.len(), 3);
            assert_eq!(items[0].span, Span::new(2, 11));
            assert_eq!(items[1].span, Span::new(2, 11));
            assert_eq!(items[2].span, Span::new(12, 18));
            assert!(matches!(items[2].node, StatementOrDeclarationEnum::Statement(_)));
        }
        _ => panic!("not a compound statement"),
    }
}

#[test]
fn for_declares_each_variable() {
    let src = Src::tokenize("for (int i = 0, j; ;) ;").unwrap();
    let (s, _) = build_statement(&src, 0).unwrap();
    match s.node {
        StatementEnum::For(Some(init), None, None, _) => match init.node {
            ForInitClauseEnum::ForDeclaration(ds) => assert_eq!(ds.len(), 2),
            _ => panic!("not a declaration"),
        },
        _ => panic!("not a for statement"),
    }
}

#[test]
fn a_lone_operand_is_read_up_to_the_closing_token() {
    let src = Src::tokenize("count ; 42 )").unwrap();
    let (e, n) = build_expression(&src, 0).unwrap();
    assert_eq!(n, 1);
    assert!(matches!(e.node, ExpressionEnum::Identifier(_)));
    let (e, n) = build_expression(&src, 2).unwrap();
    assert_eq!(n, 3);
    assert!(matches!(e.node, ExpressionEnum::IntegerConstant(42)));
}

#[test]
fn operator_chains_over_postfix_operands_are_read_whole() {
    let src = Src::tokenize("x = f(a, 2) + b[1] * c as float - d.e ; )").unwrap();
    let (e, n) = build_expression(&src, 0).unwrap();
    assert_eq!(n, 21);
    assert!(matches!(e.node, ExpressionEnum::Assignment(..)));
    let src = Src::tokenize("1 - 2 - 3 ;").unwrap();
    let (e, n) = build_expression(&src, 0).unwrap();
    assert_eq!(n, 5);
    match e.node {
        ExpressionEnum::Binary(op, l, _) => {
            assert_eq!(op.node, BinaryOperationEnum::Subtraction);
            assert!(matches!(l.node, ExpressionEnum::Binary(..)));
        }
        _ => panic!("expected a binary expression"),
    }
}
