use inkwell::context::Context;
use inkwell::targets::TargetTriple;
use mini::ast::{Expr, Program, Stmt};
use mini::codegen::{checked, constant_name, made, produced, Codegen, CodegenError};
use mini::compile::{compile, CompileError};
use mini::parser::{ParseError, ParseErrorKind};
use mini::expr::BinOp;
use mini::ir::{Inst, Op};
use mini::llvm::host_triple;
use mini::lower::{expect_string_literal, infer_expr_kind, lower_program, SemanticError};
use mini::parser::Parser;
use mini::symbols::{Binding, ExprKind, SymbolTable};

fn lowered(src: &str) -> Result<Vec<Inst>, SemanticError> {
    lower_program(&Parser::parse(src).unwrap())
}

fn module_text(src: &str) -> String {
    let ctx = Context::create();
    let triple = host_triple();
    let cg = Codegen::new(&ctx, &triple).unwrap();
    cg.emit_program(&Parser::parse(src).unwrap()).unwrap();
    cg.module().print_to_string().to_string()
}

fn object_of(src: &str) -> Result<Vec<u8>, CodegenError> {
    let ctx = Context::create();
    let triple = host_triple();
    let cg = Codegen::new(&ctx, &triple)?;
    cg.emit_program(&Parser::parse(src).unwrap())?;
    cg.write_object(&triple)
}

fn bind_int(name: &str, code: Vec<Op>) -> Inst {
    Inst::BindInt { name: name.to_string(), code }
}

fn bind_str(name: &str, text: &str, label: usize) -> Inst {
    Inst::BindStr { name: name.to_string(), text: text.to_string(), label }
}

#[test]
fn precedence_example_lowers_to_operations_in_order() {
    assert_eq!(
        lowered("let x = 2 + 3 * 4; \nprint x;"),
        Ok(vec![
            bind_int(
                "x",
                vec![
                    Op::Const(2),
                    Op::Const(3),
                    Op::Const(4),
                    Op::Binary(BinOp::Mul, 1, 2),
                    Op::Binary(BinOp::Add, 0, 3),
                ]
            ),
            Inst::PrintInt { slot: 0 },
        ])
    );
}

#[test]
fn precedence_example_computes_14() {
    let text = module_text("let x = 2 + 3 * 4;\nprint x;");
    assert!(text.contains("store i32 14, i32* %x"), "{}", text);
    assert!(text.contains("@printf(i8* getelementptr inbounds ([4 x i8], [4 x i8]* @.fmt_int"));
}

#[test]
fn left_associative_subtraction_computes_minus_5() {
    assert_eq!(
        lowered("let x = 2 - 3 - 4;\nprint x;").unwrap()[0],
        bind_int(
            "x",
            vec![
                Op::Const(2),
                Op::Const(3),
                Op::Binary(BinOp::Sub, 0, 1),
                Op::Const(4),
                Op::Binary(BinOp::Sub, 2, 3),
            ]
        )
    );
    let text = module_text("let x = 2 - 3 - 4;\nprint x;");
    assert!(text.contains("store i32 -5, i32* %x"), "{}", text);
}

#[test]
fn unary_minus_example_computes_minus_6() {
    assert_eq!(
        lowered("let x = -2 * 3;\nprint x;").unwrap()[0],
        bind_int(
            "x",
            vec![Op::Const(2), Op::Neg(0), Op::Const(3), Op::Binary(BinOp::Mul, 1, 2)]
        )
    );
    let text = module_text("let x = -2 * 3;\nprint x;");
    assert!(text.contains("store i32 -6, i32* %x"), "{}", text);
}

#[test]
fn parentheses_example_computes_20() {
    assert_eq!(
        lowered("let x = (2 + 3) * 4;\nprint x;").unwrap()[0],
        bind_int(
            "x",
            vec![
                Op::Const(2),
                Op::Const(3),
                Op::Binary(BinOp::Add, 0, 1),
                Op::Const(4),
                Op::Binary(BinOp::Mul, 2, 3),
            ]
        )
    );
    let text = module_text("let x = (2 + 3) * 4;\nprint x;");
    assert!(text.contains("store i32 20, i32* %x"), "{}", text);
}

#[test]
fn division_is_signed_and_truncates() {
    let text = module_text("let x = -7 / 2;\nprint x;");
    assert!(text.contains("store i32 -3, i32* %x"), "{}", text);
    let text = module_text("let a = 7;\nlet x = a / 2;\nprint x;");
    assert!(text.contains("sdiv i32 %loadi, 2"), "{}", text);
}

#[test]
fn string_round_trip_with_escapes() {
    let src = "let s = \"hi\\n\";\nprint s;";
    assert_eq!(lowered(src), Ok(vec![bind_str("s", "hi\n", 0), Inst::PrintStr { slot: 0 }]));
    let text = module_text(src);
    assert!(text.contains("@.str0 = private unnamed_addr constant [4 x i8] c\"hi\\0A\\00\""), "{}", text);
    assert!(text.contains("%s = alloca i8*"), "{}", text);
    assert!(text.contains("%sval = load i8*, i8** %s"), "{}", text);
    assert!(text.contains("@.fmt_str, i32 0, i32 0), i8* %sval)"), "{}", text);
}

#[test]
fn names_are_loaded_from_their_slots() {
    let src = "let x = 1;\nlet y = x + 2;\nprint y;\nprint x;";
    assert_eq!(
        lowered(src),
        Ok(vec![
            bind_int("x", vec![Op::Const(1)]),
            bind_int("y", vec![Op::Load(0), Op::Const(2), Op::Binary(BinOp::Add, 0, 1)]),
            Inst::PrintInt { slot: 1 },
            Inst::PrintInt { slot: 0 },
        ])
    );
    let text = module_text(src);
    assert!(text.contains("%loadi = load i32, i32* %x"), "{}", text);
    assert!(text.contains("%add = add i32 %loadi, 2"), "{}", text);
    assert!(text.contains("store i32 %add, i32* %y"), "{}", text);
    assert!(text.contains("ret i32 0"), "{}", text);
}

#[test]
fn binding_again_takes_a_fresh_slot() {
    assert_eq!(
        lowered("let x = 1;\nlet x = x + 1;\nprint x;"),
        Ok(vec![
            bind_int("x", vec![Op::Const(1)]),
            bind_int("x", vec![Op::Load(0), Op::Const(1), Op::Binary(BinOp::Add, 0, 1)]),
            Inst::PrintInt { slot: 1 },
        ])
    );
    assert_eq!(
        lowered("let s = \"a\";\nlet t = \"b\";\nlet s = \"c\";\nprint s;"),
        Ok(vec![
            bind_str("s", "a", 0),
            bind_str("t", "b", 1),
            bind_str("s", "c", 2),
            Inst::PrintStr { slot: 2 },
        ])
    );
}

#[test]
fn constants_are_numbered_by_the_names_bound_before() {
    assert_eq!(
        lowered("let a = 1;\nlet b = 2;\nlet s = \"x\";\nlet s = \"y\";"),
        Ok(vec![
            bind_int("a", vec![Op::Const(1)]),
            bind_int("b", vec![Op::Const(2)]),
            bind_str("s", "x", 2),
            bind_str("s", "y", 3),
        ])
    );
}

#[test]
fn undefined_name_in_print_is_a_semantic_error() {
    assert_eq!(
        lowered("let x = 1;\nprint y;"),
        Err(SemanticError::UndefinedVariable("y".to_string()))
    );
    assert_eq!(
        object_of("print y;"),
        Err(CodegenError::Semantic(SemanticError::UndefinedVariable("y".to_string())))
    );
}

#[test]
fn undefined_name_in_expression_is_a_semantic_error() {
    assert_eq!(
        lowered("let x = 1 + (2 * y);"),
        Err(SemanticError::UndefinedVariable("y".to_string()))
    );
    assert_eq!(lowered("let x = x;"), Err(SemanticError::UndefinedVariable("x".to_string())));
    assert_eq!(
        object_of("let x = -y;\nprint x;"),
        Err(CodegenError::Semantic(SemanticError::UndefinedVariable("y".to_string())))
    );
}

#[test]
fn string_in_arithmetic_is_a_semantic_error() {
    assert_eq!(
        lowered("let s = \"a\";\nlet x = 1 + s;"),
        Err(SemanticError::StringInArithmetic("s".to_string()))
    );
    assert_eq!(
        lowered("let s = \"a\";\nlet x = s;"),
        Err(SemanticError::StringInArithmetic("s".to_string()))
    );
}

#[test]
fn a_name_keeps_its_kind() {
    assert_eq!(
        lowered("let x = 1;\nlet x = \"one\";"),
        Err(SemanticError::KindMismatch { name: "x".to_string(), bound: ExprKind::Int })
    );
    assert_eq!(
        lowered("let s = \"one\";\nprint s;\nlet s = 1 + 2;"),
        Err(SemanticError::KindMismatch { name: "s".to_string(), bound: ExprKind::Str })
    );
    assert_eq!(
        object_of("let x = 1;\nlet x = \"one\";\nprint x;"),
        Err(CodegenError::Semantic(
            SemanticError::KindMismatch { name: "x".to_string(), bound: ExprKind::Int }
        ))
    );
}

#[test]
fn first_semantic_error_is_reported() {
    assert_eq!(
        lowered("let s = \"a\";\nlet s = u + s;\nprint v;"),
        Err(SemanticError::UndefinedVariable("u".to_string()))
    );
    assert_eq!(
        lowered("let s = \"a\";\nlet s = s + u;\nprint v;"),
        Err(SemanticError::StringInArithmetic("s".to_string()))
    );
}

#[test]
fn string_literal_inside_arithmetic_is_a_semantic_error() {
    let program = Program {
        stmts: vec![Stmt::Let {
            name: "x".to_string(),
            expr: Expr::Add(Box::new(Expr::Int(1)), Box::new(Expr::Str("a".to_string()))),
        }],
    };
    assert_eq!(lower_program(&program), Err(SemanticError::LiteralInArithmetic));
}

#[test]
fn kinds_of_expressions() {
    assert_eq!(infer_expr_kind(&Expr::Str("a".to_string())), ExprKind::Str);
    assert_eq!(infer_expr_kind(&Expr::Int(1)), ExprKind::Int);
    assert_eq!(infer_expr_kind(&Expr::Var("s".to_string())), ExprKind::Int);
    assert_eq!(
        infer_expr_kind(&Expr::UnaryNeg(Box::new(Expr::Str("a".to_string())))),
        ExprKind::Int
    );
    assert_eq!(expect_string_literal(&Expr::Str("a".to_string())), Ok("a".to_string()));
    assert_eq!(expect_string_literal(&Expr::Int(1)), Err(SemanticError::ExpectedStringLiteral));
}

#[test]
fn semantic_error_messages() {
    assert_eq!(
        SemanticError::UndefinedVariable("y".to_string()).message(),
        "undefined variable `y`"
    );
    assert_eq!(
        SemanticError::StringInArithmetic("s".to_string()).message(),
        "type error: `s` is a string, expected integer"
    );
    assert_eq!(
        SemanticError::LiteralInArithmetic.message(),
        "type error: string literal not allowed in integer expression"
    );
    assert_eq!(
        SemanticError::KindMismatch { name: "x".to_string(), bound: ExprKind::Int }.message(),
        "type error: `x` is bound to an integer and keeps its kind"
    );
    assert_eq!(SemanticError::ExpectedStringLiteral.message(), "expected string literal");
    assert_eq!(
        CodegenError::Semantic(SemanticError::UndefinedVariable("y".to_string())).message(),
        "undefined variable `y`"
    );
    assert_eq!(CodegenError::Toolchain("no target".to_string()).message(), "no target");
}

#[test]
fn symbol_table_binds_and_finds() {
    let mut table = SymbolTable::new();
    assert_eq!(table.len(), 0);
    assert_eq!(table.get(&"x".to_string()), None);
    table.set("x".to_string(), Binding { kind: ExprKind::Int, slot: 0 });
    table.set("s".to_string(), Binding { kind: ExprKind::Str, slot: 1 });
    table.set("x".to_string(), Binding { kind: ExprKind::Int, slot: 2 });
    assert_eq!(table.len(), 2);
    assert_eq!(table.get(&"x".to_string()), Some(Binding { kind: ExprKind::Int, slot: 2 }));
    assert_eq!(table.get(&"s".to_string()), Some(Binding { kind: ExprKind::Str, slot: 1 }));
    assert_eq!(table.get(&"y".to_string()), None);
}

#[test]
fn object_file_is_produced() {
    let bytes = object_of("let x = 2 + 3 * 4;\nprint x;\nlet s = \"hi\\n\";\nprint s;").unwrap();
    assert!(bytes.len() > 64);
    let needle = b"printf";
    assert!(bytes.windows(needle.len()).any(|w| w == needle));
}

#[test]
fn identical_source_gives_identical_object_bytes() {
    let src = "let a = 7;\nlet b = a * a - 1;\nprint b;\nlet s = \"done\";\nprint s;";
    let first = object_of(src).unwrap();
    let second = object_of(src).unwrap();
    assert_eq!(first, second);
    let other = object_of("let a = 8;\nprint a;").unwrap();
    assert_ne!(first, other);
}

#[test]
fn empty_program_has_an_entry_point() {
    let text = module_text("");
    assert!(text.contains("define i32 @main()"), "{}", text);
    assert!(text.contains("define void @__mini_init()"), "{}", text);
    assert!(text.contains("declare i32 @printf(i8*, ...)"), "{}", text);
    assert!(text.contains("@.fmt_int = private unnamed_addr constant [4 x i8] c\"%d\\0A\\00\""));
    assert!(text.contains("@.fmt_str = private unnamed_addr constant [4 x i8] c\"%s\\0A\\00\""));
    assert!(object_of("").is_ok());
}

#[test]
fn module_is_made_for_the_target() {
    let ctx = Context::create();
    let triple = host_triple();
    let cg = Codegen::new(&ctx, &triple).unwrap();
    assert_eq!(cg.module().get_triple(), triple);
    assert_eq!(cg.module().get_name().to_str(), Ok("mini"));
}

#[test]
fn code_is_emitted_as_given() {
    let ctx = Context::create();
    let triple = host_triple();
    let cg = Codegen::new(&ctx, &triple).unwrap();
    let code = vec![
        bind_int("n", vec![Op::Const(40), Op::Const(2), Op::Binary(BinOp::Add, 0, 1)]),
        bind_str("t", "x", 7),
        Inst::PrintStr { slot: 1 },
        Inst::PrintInt { slot: 0 },
    ];
    assert_eq!(cg.emit_code(&code), Ok(()));
    let text = cg.module().print_to_string().to_string();
    assert!(text.contains("store i32 42, i32* %n"), "{}", text);
    assert!(text.contains("@.str7 = "), "{}", text);
    assert_eq!(cg.module().verify().is_ok(), true);
}

fn compiled(src: &str) -> Result<Vec<u8>, CompileError> {
    let ctx = Context::create();
    compile(&ctx, &host_triple(), src)
}

#[test]
fn compiling_gives_the_object_file() {
    let src = "let x = 2 + 3 * 4;\nprint x;";
    let bytes = compiled(src).unwrap();
    assert_eq!(Ok(bytes), object_of(src));
}

#[test]
fn compiling_reports_the_first_error() {
    assert_eq!(
        compiled("print y;\nlet x = ;\n"),
        Err(CompileError::Parse(ParseError {
            line: 2,
            kind: ParseErrorKind::BadExpression {
                text: String::new(),
                error: mini::expr::ExprError::ExpectedExpression,
            },
        }))
    );
    assert_eq!(
        compiled("let x = 1;\nprint y;\nlet x = \"s\";"),
        Err(CompileError::Codegen(CodegenError::Semantic(SemanticError::UndefinedVariable(
            "y".to_string()
        ))))
    );
    assert_eq!(
        compiled("let x = 1;\nprint y;").unwrap_err().message(),
        "undefined variable `y`"
    );
    assert_eq!(
        compiled("what").unwrap_err().message(),
        "line 1: unrecognized syntax `what`"
    );
}

#[test]
fn unknown_target_is_a_toolchain_error() {
    let ctx = Context::create();
    let triple = TargetTriple::create("nowhere-unknown-none");
    let cg = Codegen::new(&ctx, &triple).unwrap();
    cg.emit_program(&Parser::parse("let x = 1;\nprint x;").unwrap()).unwrap();
    match cg.write_object(&triple) {
        Err(CodegenError::Toolchain(text)) => assert!(!text.is_empty()),
        other => panic!("{:?}", other),
    }
}

#[test]
fn ill_formed_module_is_a_verification_error() {
    let ctx = Context::create();
    let triple = host_triple();
    let cg = Codegen::new(&ctx, &triple).unwrap();
    cg.emit_program(&Parser::parse("let x = 1;\nprint x;").unwrap()).unwrap();
    let unfinished = cg.module().add_function("unfinished", ctx.void_type().fn_type(&[], false), None);
    ctx.append_basic_block(unfinished, "entry");
    match cg.write_object(&triple) {
        Err(CodegenError::Verification(text)) => assert!(text.contains("unfinished"), "{}", text),
        other => panic!("{:?}", other),
    }
}

#[test]
fn outcomes_of_the_backend_become_errors_of_their_kind() {
    assert_eq!(checked(Ok(())), Ok(()));
    assert_eq!(
        checked(Err("no terminator".to_string())),
        Err(CodegenError::Verification("no terminator".to_string()))
    );
    assert_eq!(produced(Ok(vec![1u8, 2, 3])), Ok(vec![1u8, 2, 3]));
    assert_eq!(
        produced::<Vec<u8>>(Err("no such target".to_string())),
        Err(CodegenError::Toolchain("no such target".to_string()))
    );
    assert_eq!(made(Some(7)), Ok(7));
    assert_eq!(
        made::<i32>(None),
        Err(CodegenError::Toolchain("create target machine failed".to_string()))
    );
}

#[test]
fn constants_are_named_by_their_number() {
    assert_eq!(constant_name(0), ".str0");
    assert_eq!(constant_name(7), ".str7");
    assert_eq!(constant_name(120), ".str120");
}
