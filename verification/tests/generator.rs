use cc99::ast::typedefs::TypedefMap;
use cc99::ast::{
    AssignOperationEnum, BaseType, BasicType, BinaryOperationEnum, Expression, ExpressionEnum,
    IntegerType, Span, StorageClassSpecifier, StructMember, TypeQualifier, UnaryOperation,
    UnaryOperationEnum,
};
use cc99::generator::access::{
    call_argument_target, call_result_type,    check_arity, check_generated, compound_operator_exec, constant_plan, llvm_type_of,
    subscript_type, LlvmType,
};
use cc99::generator::cast_inst::{gen_cast_llvm_instruction, CastOpcode};
use cc99::generator::order::{generation_order, GenStep};
use cc99::ast::AST;
use cc99::parse::Parse;
use cc99::generator::plan::{
    binary_plan, cast_value_plan, unary_result_type, conditional_plan, size_type, type_cast_plan, unary_plan, BinaryPlan,
    FloatInstruction, FloatPredicateKind,
    IntInstruction, IntPredicateKind, UnaryPlan,
};
use cc99::generator::symbols::{Linkage, LoopTargets, Symbols};

fn int_t() -> BaseType {
    BaseType::SignedInteger(IntegerType::Int)
}

fn plain(t: BaseType) -> BasicType {
    BasicType {
        qualifier: vec![],
        base_type: t,
    }
}

fn sp(a: usize, b: usize) -> Span {
    Span::new(a, b)
}

#[test]
fn unary_minus_on_float_negates_float() {
    let op = UnaryOperation {
        node: UnaryOperationEnum::UnaryMinus,
        span: sp(0, 1),
    };
    assert_eq!(unary_plan(&op, &BaseType::Double, sp(0, 3)).unwrap(), UnaryPlan::FloatNeg);
    assert_eq!(unary_plan(&op, &int_t(), sp(0, 3)).unwrap(), UnaryPlan::IntNeg);
}

#[test]
fn logical_not_takes_signed_integers_only() {
    let op = UnaryOperation {
        node: UnaryOperationEnum::LogicalNot,
        span: sp(0, 1),
    };
    assert_eq!(unary_plan(&op, &int_t(), sp(0, 2)).unwrap(), UnaryPlan::LogicalNot);
    let e = unary_plan(&op, &BaseType::UnsignedInteger(IntegerType::Int), sp(0, 2)).unwrap_err();
    assert_eq!(e.code, "E006");
    assert_eq!(e.span, sp(0, 2));
}

#[test]
fn increments_assign_with_one() {
    let post = UnaryOperation {
        node: UnaryOperationEnum::PostfixIncrement,
        span: sp(1, 3),
    };
    assert_eq!(
        unary_plan(&post, &int_t(), sp(0, 3)).unwrap(),
        UnaryPlan::Update {
            op: AssignOperationEnum::Addition,
            postfix: true
        }
    );
    let pre = UnaryOperation {
        node: UnaryOperationEnum::PrefixIncrement,
        span: sp(0, 2),
    };
    assert_eq!(
        unary_plan(&pre, &int_t(), sp(0, 3)).unwrap(),
        UnaryPlan::Update {
            op: AssignOperationEnum::Addition,
            postfix: false
        }
    );
    let dec = UnaryOperation {
        node: UnaryOperationEnum::PrefixDecrement,
        span: sp(0, 2),
    };
    assert_eq!(
        unary_plan(&dec, &int_t(), sp(0, 3)).unwrap(),
        UnaryPlan::Update {
            op: AssignOperationEnum::Subtraction,
            postfix: false
        }
    );
    let size = UnaryOperation {
        node: UnaryOperationEnum::SizeofExpr,
        span: sp(0, 6),
    };
    assert_eq!(unary_plan(&size, &BaseType::Double, sp(0, 9)).unwrap(), UnaryPlan::Sizeof);
}

#[test]
fn dereference_needs_a_pointer() {
    let op = UnaryOperation {
        node: UnaryOperationEnum::Dereference,
        span: sp(0, 1),
    };
    let p = BaseType::Pointer(Box::new(plain(int_t())));
    assert_eq!(unary_plan(&op, &p, sp(0, 2)).unwrap(), UnaryPlan::Dereference);
    assert!(unary_plan(&op, &int_t(), sp(0, 2)).is_err());
}

#[test]
fn int_addition_widens_to_long() {
    let m = TypedefMap::new();
    let long = BaseType::SignedInteger(IntegerType::Long);
    let plan = binary_plan(
        BinaryOperationEnum::Addition,
        sp(2, 3),
        &int_t(),
        &long,
        sp(0, 1),
        sp(0, 5),
        &m,
    )
    .unwrap();
    match plan {
        BinaryPlan::Int {
            operand,
            lhs_cast,
            rhs_cast,
            int_inst,
            result,
        } => {
            assert_eq!(operand, BaseType::SignedInteger(IntegerType::Long));
            assert_eq!(lhs_cast, Some(CastOpcode::SExt));
            assert_eq!(rhs_cast, None);
            assert_eq!(int_inst, IntInstruction::Add);
            assert_eq!(result, BaseType::SignedInteger(IntegerType::Long));
        }
        other => panic!("unexpected plan {:?}", other),
    }
}

#[test]
fn comparison_gives_bool() {
    let m = TypedefMap::new();
    let plan = binary_plan(
        BinaryOperationEnum::LessThan,
        sp(2, 3),
        &int_t(),
        &int_t(),
        sp(0, 1),
        sp(0, 5),
        &m,
    )
    .unwrap();
    match plan {
        BinaryPlan::Int { int_inst, result, .. } => {
            assert_eq!(int_inst, IntInstruction::Compare(IntPredicateKind::SignedLess));
            assert_eq!(result, BaseType::Bool);
        }
        other => panic!("unexpected plan {:?}", other),
    }
}

#[test]
fn float_logical_and_converts_first() {
    let m = TypedefMap::new();
    let plan = binary_plan(
        BinaryOperationEnum::LogicalAnd,
        sp(2, 4),
        &BaseType::Double,
        &BaseType::Float,
        sp(0, 1),
        sp(0, 6),
        &m,
    )
    .unwrap();
    match plan {
        BinaryPlan::Float {
            float_inst,
            rhs_cast,
            result,
            ..
        } => {
            assert_eq!(float_inst, FloatInstruction::LogicalAnd(CastOpcode::FPToSI));
            assert_eq!(rhs_cast, Some(CastOpcode::FPExt));
            assert_eq!(result, BaseType::Bool);
        }
        other => panic!("unexpected plan {:?}", other),
    }
    let cmp = binary_plan(
        BinaryOperationEnum::NotEqual,
        sp(2, 4),
        &BaseType::Double,
        &BaseType::Double,
        sp(0, 1),
        sp(0, 6),
        &m,
    )
    .unwrap();
    match cmp {
        BinaryPlan::Float { float_inst, .. } => {
            assert_eq!(
                float_inst,
                FloatInstruction::Compare(FloatPredicateKind::OrderedNotEqual)
            )
        }
        other => panic!("unexpected plan {:?}", other),
    }
}

#[test]
fn float_shift_is_invalid_at_the_operator() {
    let m = TypedefMap::new();
    let e = binary_plan(
        BinaryOperationEnum::LeftShift,
        sp(2, 4),
        &BaseType::Double,
        &BaseType::Double,
        sp(0, 1),
        sp(0, 6),
        &m,
    )
    .unwrap_err();
    assert_eq!(e.code, "E007");
    assert_eq!(e.span, sp(2, 4));
}

#[test]
fn void_operands_are_refused() {
    let m = TypedefMap::new();
    let e = binary_plan(
        BinaryOperationEnum::Addition,
        sp(2, 3),
        &BaseType::Void,
        &BaseType::Void,
        sp(0, 1),
        sp(0, 5),
        &m,
    )
    .unwrap_err();
    assert_eq!(e.code, "E000");
    assert_eq!(e.message, "Invalid void type for binary operation");
}

#[test]
fn pointer_plus_integer_offsets_the_pointer() {
    let m = TypedefMap::new();
    let p = BaseType::Pointer(Box::new(plain(int_t())));
    let plan = binary_plan(
        BinaryOperationEnum::Subtraction,
        sp(2, 3),
        &p,
        &int_t(),
        sp(0, 1),
        sp(0, 5),
        &m,
    )
    .unwrap();
    match plan {
        BinaryPlan::Pointer {
            pointer_left,
            decay,
            negate,
            result,
        } => {
            assert!(pointer_left);
            assert!(!decay);
            assert!(negate);
            assert_eq!(result, p);
        }
        other => panic!("unexpected plan {:?}", other),
    }
}

#[test]
fn two_dimensional_array_arithmetic_is_refused() {
    let m = TypedefMap::new();
    let dims = vec![
        Expression {
            node: ExpressionEnum::IntegerConstant(2),
            span: sp(6, 7),
        },
        Expression {
            node: ExpressionEnum::IntegerConstant(3),
            span: sp(9, 10),
        },
    ];
    let arr = BaseType::Array(Box::new(plain(int_t())), dims);
    let e = binary_plan(
        BinaryOperationEnum::Addition,
        sp(2, 3),
        &int_t(),
        &arr,
        sp(0, 1),
        sp(0, 5),
        &m,
    )
    .unwrap_err();
    assert_eq!(e.code, "E013");
    assert_eq!(
        e.notes,
        Some("array has `1` dimension, but found `2` subscript".to_string())
    );
}

#[test]
fn cast_between_same_types_needs_no_instruction() {
    let m = TypedefMap::new();
    assert_eq!(cast_value_plan(&int_t(), &int_t(), sp(0, 1), &m).unwrap(), None);
    assert_eq!(
        cast_value_plan(&BaseType::Float, &int_t(), sp(0, 1), &m).unwrap(),
        Some(CastOpcode::FPToSI)
    );
    assert_eq!(
        gen_cast_llvm_instruction(&BaseType::Bool, &BaseType::Double, sp(0, 1)).unwrap(),
        CastOpcode::UIToFP
    );
}

#[test]
fn subscripts_of_arrays_and_pointers() {
    let m = TypedefMap::new();
    let dims = vec![
        Expression {
            node: ExpressionEnum::IntegerConstant(2),
            span: sp(6, 7),
        },
        Expression {
            node: ExpressionEnum::IntegerConstant(3),
            span: sp(9, 10),
        },
    ];
    let arr = BasicType {
        qualifier: vec![TypeQualifier::Const],
        base_type: BaseType::Array(Box::new(plain(int_t())), dims),
    };
    let one = subscript_type(&arr, 1, sp(0, 4), &m).unwrap();
    assert_eq!(one.qualifier, vec![TypeQualifier::Const]);
    match one.base_type {
        BaseType::Array(elem, d) => {
            assert_eq!(*elem, plain(int_t()));
            assert_eq!(d.len(), 1);
            assert_eq!(d[0].node, ExpressionEnum::IntegerConstant(3));
        }
        other => panic!("unexpected type {:?}", other),
    }
    let two = subscript_type(&arr, 2, sp(0, 4), &m).unwrap();
    assert_eq!(two.base_type, int_t());
    let e = subscript_type(&arr, 3, sp(0, 4), &m).unwrap_err();
    assert_eq!(e.code, "E013");
    let pp = plain(BaseType::Pointer(Box::new(plain(BaseType::Pointer(Box::new(plain(
        BaseType::Float,
    )))))));
    assert_eq!(subscript_type(&pp, 2, sp(0, 4), &m).unwrap().base_type, BaseType::Float);
    let e = subscript_type(&pp, 3, sp(0, 4), &m).unwrap_err();
    assert_eq!(e.code, "E014");
    assert_eq!(
        e.notes,
        Some("pointer dimension mismatch, expect 0, found 3".to_string())
    );
}

#[test]
fn call_arity() {
    let name = "printf".to_string();
    assert!(check_arity(&name, 1, true, 3, sp(0, 6)).is_ok());
    assert!(check_arity(&name, 1, true, 1, sp(0, 6)).is_ok());
    let e = check_arity(&name, 2, false, 1, sp(0, 6)).unwrap_err();
    assert_eq!(e.code, "E017");
    assert_eq!(
        e.notes,
        Some("parameter count of function `printf` is incorrect, expect 2, found 1".to_string())
    );
}

#[test]
fn unknown_expressions() {
    let e = Expression {
        node: ExpressionEnum::MemberOfPointer(Box::new(Expression { node: ExpressionEnum::Identifier("p".to_string()), span: sp(0, 1) }), "x".to_string()),
        span: sp(0, 4),
    };
    assert_eq!(check_generated(&e).unwrap_err().code, "E003");
    let ok = Expression {
        node: ExpressionEnum::IntegerConstant(1),
        span: sp(0, 1),
    };
    assert!(check_generated(&ok).is_ok());
}

#[test]
fn constants_and_their_types() {
    let c = constant_plan(&ExpressionEnum::IntegerConstant(-1)).unwrap();
    assert_eq!(c.t, int_t());
    assert_eq!(c.bits, 32);
    assert_eq!(c.value, u64::MAX);
    let d = constant_plan(&ExpressionEnum::DoubleConstant("1.5".to_string())).unwrap();
    assert_eq!(d.t, BaseType::Float);
    assert_eq!(d.bits, 64);
    assert!(constant_plan(&ExpressionEnum::Empty).is_none());
    assert_eq!(
        compound_operator_exec(AssignOperationEnum::LeftShift),
        Some(BinaryOperationEnum::LeftShift)
    );
    assert_eq!(compound_operator_exec(AssignOperationEnum::Naive), None);
}

#[test]
fn machine_types() {
    let dims = vec![
        Expression {
            node: ExpressionEnum::IntegerConstant(2),
            span: sp(6, 7),
        },
        Expression {
            node: ExpressionEnum::IntegerConstant(3),
            span: sp(9, 10),
        },
    ];
    let arr = BaseType::Array(Box::new(plain(BaseType::Bool)), dims);
    assert_eq!(
        llvm_type_of(&arr),
        LlvmType::Array(Box::new(LlvmType::Array(Box::new(LlvmType::Int(1)), 3)), 2)
    );
    let st = BaseType::Struct(
        Some("s".to_string()),
        Some(vec![
            StructMember {
                member_name: "a".to_string(),
                member_type: plain(BaseType::SignedInteger(IntegerType::Short)),
            },
            StructMember {
                member_name: "b".to_string(),
                member_type: plain(BaseType::Pointer(Box::new(plain(BaseType::Double)))),
            },
        ]),
    );
    assert_eq!(
        llvm_type_of(&st),
        LlvmType::Struct(vec![
            LlvmType::Int(16),
            LlvmType::Pointer(Box::new(LlvmType::Double))
        ])
    );
}

#[test]
fn innermost_scope_wins() {
    let mut s = Symbols::new();
    let x = "x".to_string();
    s.insert_local(&x, &plain(int_t()), 1, sp(0, 1)).unwrap();
    s.push_scope();
    s.insert_local(&x, &plain(BaseType::Double), 2, sp(5, 6)).unwrap();
    let (t, h) = s.get_variable(&x, sp(9, 10)).unwrap();
    assert_eq!(h, 2);
    assert_eq!(t, plain(BaseType::Double));
    s.pop_scope();
    let (t, h) = s.get_variable(&x, sp(9, 10)).unwrap();
    assert_eq!(h, 1);
    assert_eq!(t, plain(int_t()));
    let e = s.insert_local(&x, &plain(int_t()), 3, sp(0, 1)).unwrap_err();
    assert_eq!(e.code, "E011");
}

#[test]
fn globals_and_functions_share_names() {
    let mut s = Symbols::new();
    let f = "f".to_string();
    let g = "g".to_string();
    assert_eq!(
        s.declare_function(StorageClassSpecifier::Static, &plain(int_t()), &f, &vec![], false, sp(0, 1))
            .unwrap(),
        Linkage::Internal
    );
    assert_eq!(
        s.declare_function(StorageClassSpecifier::Auto, &plain(int_t()), &f, &vec![], false, sp(0, 1))
            .unwrap_err()
            .code,
        "E008"
    );
    assert_eq!(s.declare_global(&f, &plain(int_t()), 7, sp(2, 3)).unwrap_err().code, "E002");
    s.declare_global(&g, &plain(BaseType::Float), 7, sp(2, 3)).unwrap();
    assert_eq!(s.declare_global(&g, &plain(int_t()), 8, sp(4, 5)).unwrap_err().code, "E001");
    assert_eq!(
        s.declare_function(StorageClassSpecifier::Extern, &plain(int_t()), &g, &vec![], false, sp(0, 1))
            .unwrap_err()
            .code,
        "E009"
    );
    let (t, h) = s.get_variable(&g, sp(0, 1)).unwrap();
    assert_eq!((t, h), (plain(BaseType::Float), 7));
    assert_eq!(s.get_variable(&"h".to_string(), sp(0, 1)).unwrap_err().code, "E010");
    assert!(s.function(&f).is_some());
    assert!(s.function(&g).is_none());
}

#[test]
fn break_outside_loops() {
    let mut l = LoopTargets::new();
    let e = l.break_target(sp(3, 8)).unwrap_err();
    assert_eq!(e.code, "E012");
    l.enter(10, 11);
    l.enter(20, 21);
    assert_eq!(l.break_target(sp(0, 1)).unwrap(), 20);
    assert_eq!(l.continue_target(sp(0, 1)).unwrap(), 21);
    l.leave();
    assert_eq!(l.continue_target(sp(0, 1)).unwrap(), 11);
    l.leave();
    assert!(l.continue_target(sp(0, 1)).is_err());
}

#[test]
fn cast_gives_the_target_type() {
    let m = TypedefMap::new();
    let (t, conv) = type_cast_plan(&int_t(), &plain(BaseType::Float), sp(0, 10), &m).unwrap();
    assert_eq!(t, BaseType::Float);
    assert_eq!(conv, Some(CastOpcode::SIToFP));
    let (t, conv) = type_cast_plan(&int_t(), &plain(int_t()), sp(0, 8), &m).unwrap();
    assert_eq!(t, int_t());
    assert_eq!(conv, None);
    let p = BaseType::Pointer(Box::new(plain(int_t())));
    let (t, conv) = type_cast_plan(&int_t(), &plain(BaseType::Pointer(Box::new(plain(int_t())))), sp(0, 8), &m).unwrap();
    assert_eq!(t, p);
    assert_eq!(conv, Some(CastOpcode::IntToPtr));
    assert!(type_cast_plan(&BaseType::Void, &plain(int_t()), sp(0, 8), &m).is_err());
}

#[test]
fn conditional_takes_the_common_type() {
    let m = TypedefMap::new();
    let (t, ca, cb) = conditional_plan(&int_t(), &BaseType::Double, sp(0, 9), &m).unwrap();
    assert_eq!(t, BaseType::Double);
    assert_eq!(ca, Some(CastOpcode::SIToFP));
    assert_eq!(cb, None);
    let p = BaseType::Pointer(Box::new(plain(int_t())));
    assert_eq!(conditional_plan(&p, &int_t(), sp(0, 9), &m).unwrap_err().span, sp(0, 9));
}

#[test]
fn comma_gives_the_right_operand() {
    let m = TypedefMap::new();
    let plan = binary_plan(BinaryOperationEnum::Comma, sp(1, 2), &int_t(), &BaseType::Double, sp(0, 1), sp(0, 3), &m)
        .unwrap();
    match plan {
        BinaryPlan::Comma { result } => assert_eq!(result, BaseType::Double),
        _ => panic!("not a comma"),
    }
}

#[test]
fn casts_conditionals_and_sizeof_are_generated() {
    let x = Expression { node: ExpressionEnum::Identifier("a".to_string()), span: sp(0, 1) };
    let cast = Expression { node: ExpressionEnum::TypeCast(plain(BaseType::Float), Box::new(x)), span: sp(0, 10) };
    assert!(check_generated(&cast).is_ok());
    let size = Expression { node: ExpressionEnum::SizeofType(plain(int_t())), span: sp(0, 11) };
    assert!(check_generated(&size).is_ok());
    assert_eq!(size_type(), BaseType::UnsignedInteger(IntegerType::Long));
}

#[test]
fn globals_come_before_bodies() {
    let code = "int f(int a) { return g(a); } int x; int g(int b) { return b; } int h();";
    let AST::GlobalDeclaration(ds) = *Parse::new().parse(code).unwrap();
    assert_eq!(
        generation_order(&ds),
        vec![
            GenStep::Global(0),
            GenStep::Global(1),
            GenStep::Global(2),
            GenStep::Global(3),
            GenStep::Body(0),
            GenStep::Body(2),
        ]
    );
}

#[test]
fn unary_results_have_their_types() {
    let int_t = BaseType::SignedInteger(IntegerType::Int);
    let ptr = BaseType::Pointer(Box::new(BasicType { qualifier: vec![], base_type: BaseType::Double }));
    assert_eq!(unary_result_type(UnaryPlan::IntNeg, &int_t), Some(BaseType::SignedInteger(IntegerType::Int)));
    assert_eq!(unary_result_type(UnaryPlan::LogicalNot, &int_t), Some(BaseType::Bool));
    assert_eq!(unary_result_type(UnaryPlan::Dereference, &ptr), Some(BaseType::Double));
    assert_eq!(unary_result_type(UnaryPlan::Sizeof, &int_t), Some(BaseType::UnsignedInteger(IntegerType::Long)));
    assert_eq!(unary_result_type(UnaryPlan::Reference, &int_t), None);
}

#[test]
fn call_arguments_take_the_parameter_types() {
    let m = TypedefMap::new();
    let params = vec![BasicType { qualifier: vec![], base_type: BaseType::Double }];
    let int_t = BaseType::SignedInteger(IntegerType::Int);
    let sp = Span::new(0, 1);
    assert_eq!(call_argument_target(&params, 0, &int_t, sp, &m).unwrap(), Some(BaseType::Double));
    assert_eq!(call_argument_target(&params, 1, &int_t, sp, &m).unwrap(), None);
    let ptr = BaseType::Pointer(Box::new(BasicType { qualifier: vec![], base_type: BaseType::Double }));
    assert!(call_argument_target(&params, 0, &ptr, sp, &m).is_err());
    let ret = BasicType { qualifier: vec![TypeQualifier::Const], base_type: BaseType::Float };
    assert_eq!(call_result_type(&ret), BaseType::Float);
}
