use shadelang::allocate_globals;
use shadelang::generate_expr;
use shadelang::generate_function;
use shadelang::generate_statement;
use shadelang::BinaryOperator;
use shadelang::CompileError;
use shadelang::Expr;
use shadelang::FuncMeta;
use shadelang::Function;
use shadelang::Literal;
use shadelang::MemoryCell;
use shadelang::OpCode;
use shadelang::ParamDecl;
use shadelang::Program;
use shadelang::ProgramData;
use shadelang::Statement;
use shadelang::SymbolMeta;
use shadelang::TypeKind;
use shadelang::UnaryOperator;
use shadelang::VMProgram;

fn no_ast() -> Program {
    Program { in_parameters: vec![], out_parameters: vec![], functions: vec![] }
}

fn decimal(value: f32) -> Expr {
    Expr::Literal(Literal::DecimalLiteral(value.to_bits()))
}

fn symbol(name: &str) -> Expr {
    Expr::Symbol(name.to_string())
}

fn binary(op: BinaryOperator, left: Expr, right: Expr) -> Expr {
    Expr::BinaryOp(op, Box::new(left), Box::new(right))
}

fn words(p: &VMProgram) -> Vec<u32> {
    p.code.iter().map(|c| c.data).collect()
}

fn inst(op: OpCode, imm: u16) -> u32 {
    MemoryCell::with_data(op, imm).data
}

fn slot(offset: usize, is_static: bool) -> SymbolMeta {
    SymbolMeta { offset, is_static, type_kind: TypeKind::F32 }
}

/// A program that already holds two instructions, the parameter `g` at 12
/// and the function `callee` at 7.
fn program_in_progress() -> VMProgram {
    let mut p = VMProgram::new();
    p.code.push(MemoryCell::plain_inst(OpCode::Void));
    p.code.push(MemoryCell::with_data(OpCode::Ret, 0));
    p.data.global_symbols.insert("g".to_string(), slot(12, true));
    p.data.functions.insert("callee".to_string(), FuncMeta::new(7));
    p
}

#[test]
fn new_tables_are_empty() {
    let f = FuncMeta::new(42);
    assert_eq!(f.address, 42);
    assert_eq!(f.symbols.len(), 0);
    let d = ProgramData::new();
    assert_eq!(d.functions.len(), 0);
    assert_eq!(d.global_symbols.len(), 0);
    assert_eq!(d.min_stack_size, 0);
    assert_eq!(d.static_section_size, 0);
    let p = VMProgram::new();
    assert!(p.code.is_empty());
    assert_eq!(p.data.functions.len(), 0);
    assert_eq!(p.data.global_symbols.len(), 0);
    assert_eq!(p.data.min_stack_size, 0);
    assert_eq!(p.data.static_section_size, 0);
}

#[test]
fn generate_expr_appends_to_what_is_there() {
    let mut p = program_in_progress();
    let f = FuncMeta::new(2);
    assert_eq!(generate_expr(&mut p, &no_ast(), &f, &decimal(3.5)), Ok(()));
    assert_eq!(
        words(&p),
        vec![inst(OpCode::Void, 0), inst(OpCode::Ret, 0), inst(OpCode::ConstF32, 0), 0x4060_0000]
    );
    assert_eq!(p.data.global_symbols.len(), 1);
    assert_eq!(p.data.functions.len(), 1);
}

#[test]
fn generate_expr_resolves_locals_before_parameters() {
    let mut p = program_in_progress();
    let mut f = FuncMeta::new(2);
    f.symbols.insert("g".to_string(), slot(8, false));
    f.symbols.insert("x".to_string(), slot(0, false));
    let expr = binary(BinaryOperator::Div, symbol("g"), symbol("x"));
    assert_eq!(generate_expr(&mut p, &no_ast(), &f, &expr), Ok(()));
    assert_eq!(
        words(&p)[2..].to_vec(),
        vec![inst(OpCode::Load4, 8), inst(OpCode::Load4, 0), inst(OpCode::DivF32, 0)]
    );
    let mut q = program_in_progress();
    let empty = FuncMeta::new(2);
    assert_eq!(generate_expr(&mut q, &no_ast(), &empty, &symbol("g")), Ok(()));
    assert_eq!(words(&q)[2..].to_vec(), vec![inst(OpCode::Load4Global, 12)]);
}

#[test]
fn generate_expr_calls_by_table() {
    let mut p = program_in_progress();
    let f = FuncMeta::new(2);
    let expr = Expr::FuncCall("callee".to_string(), vec![symbol("unknown")]);
    assert_eq!(generate_expr(&mut p, &no_ast(), &f, &expr), Ok(()));
    assert_eq!(words(&p)[2..].to_vec(), vec![inst(OpCode::Call, 7)]);
}

#[test]
fn generate_expr_leaves_the_program_alone_on_failure() {
    let f = FuncMeta::new(2);
    let failing = vec![
        (symbol("nope"), CompileError::UnresolvedSymbol("nope".to_string())),
        (
            Expr::FuncCall("nope".to_string(), vec![]),
            CompileError::UnresolvedFunction("nope".to_string()),
        ),
        (Expr::Literal(Literal::IntegerLiteral(1)), CompileError::UnsupportedExpression),
        (
            Expr::UnaryOp(UnaryOperator::Not, Box::new(decimal(1.0))),
            CompileError::UnsupportedExpression,
        ),
        (
            binary(BinaryOperator::Add, decimal(1.0), symbol("late")),
            CompileError::UnresolvedSymbol("late".to_string()),
        ),
        (
            binary(
                BinaryOperator::Add,
                binary(BinaryOperator::Mul, symbol("g"), decimal(2.0)),
                Expr::UnaryOp(
                    UnaryOperator::Sub,
                    Box::new(binary(BinaryOperator::Sub, decimal(1.0), symbol("deep"))),
                ),
            ),
            CompileError::UnresolvedSymbol("deep".to_string()),
        ),
    ];
    for (expr, expected) in failing {
        let mut p = program_in_progress();
        assert_eq!(generate_expr(&mut p, &no_ast(), &f, &expr), Err(expected));
        assert_eq!(words(&p), vec![inst(OpCode::Void, 0), inst(OpCode::Ret, 0)]);
        assert_eq!(p.data.global_symbols.len(), 1);
        assert_eq!(p.data.functions.len(), 1);
    }
}

#[test]
fn generate_statement_allocates_the_next_slot() {
    let mut p = program_in_progress();
    let mut f = FuncMeta::new(2);
    let mut frame = 8usize;
    let s = Statement::Assignment("x".to_string(), decimal(1.0));
    assert_eq!(generate_statement(&mut p, &no_ast(), &mut f, &mut frame, &s), Ok(()));
    assert_eq!(frame, 12);
    assert_eq!(f.symbols.get("x"), Some(&slot(8, false)));
    assert_eq!(f.address, 2);
    assert_eq!(words(&p)[2..].to_vec(), vec![inst(OpCode::ConstF32, 0), 1.0f32.to_bits()]);
}

#[test]
fn generate_statement_allocates_a_name_once() {
    let mut p = program_in_progress();
    let mut f = FuncMeta::new(2);
    let mut frame = 0usize;
    let first = Statement::Assignment("x".to_string(), decimal(1.0));
    let second = Statement::Assignment("x".to_string(), decimal(2.0));
    assert_eq!(generate_statement(&mut p, &no_ast(), &mut f, &mut frame, &first), Ok(()));
    assert_eq!(frame, 4);
    assert_eq!(f.symbols.get("x"), Some(&slot(0, false)));
    assert_eq!(generate_statement(&mut p, &no_ast(), &mut f, &mut frame, &second), Ok(()));
    assert_eq!(frame, 4);
    assert_eq!(f.symbols.get("x"), Some(&slot(0, false)));
    assert_eq!(f.symbols.len(), 1);
    assert_eq!(
        words(&p)[2..].to_vec(),
        vec![
            inst(OpCode::ConstF32, 0),
            1.0f32.to_bits(),
            inst(OpCode::ConstF32, 0),
            2.0f32.to_bits(),
        ]
    );
}

#[test]
fn generate_statement_stores_to_a_parameter() {
    let mut p = program_in_progress();
    let mut f = FuncMeta::new(2);
    let mut frame = 8usize;
    let s = Statement::Assignment("g".to_string(), decimal(1.0));
    assert_eq!(generate_statement(&mut p, &no_ast(), &mut f, &mut frame, &s), Ok(()));
    assert_eq!(frame, 8);
    assert_eq!(f.symbols.len(), 0);
    assert_eq!(
        words(&p)[2..].to_vec(),
        vec![inst(OpCode::ConstF32, 0), 1.0f32.to_bits(), inst(OpCode::Mov4Global, 12)]
    );
}

#[test]
fn generate_statement_returns_with_the_frame_size() {
    let mut p = program_in_progress();
    let mut f = FuncMeta::new(2);
    let mut frame = 20usize;
    let s = Statement::Return(symbol("g"));
    assert_eq!(generate_statement(&mut p, &no_ast(), &mut f, &mut frame, &s), Ok(()));
    assert_eq!(frame, 20);
    assert_eq!(
        words(&p)[2..].to_vec(),
        vec![inst(OpCode::Load4Global, 12), inst(OpCode::Ret, 20)]
    );
}

#[test]
fn generate_statement_changes_nothing_on_failure() {
    let mut p = program_in_progress();
    let mut f = FuncMeta::new(2);
    let mut frame = 8usize;
    let s = Statement::Assignment(
        "x".to_string(),
        binary(BinaryOperator::Add, decimal(1.0), symbol("missing")),
    );
    assert_eq!(
        generate_statement(&mut p, &no_ast(), &mut f, &mut frame, &s),
        Err(CompileError::UnresolvedSymbol("missing".to_string()))
    );
    assert_eq!(frame, 8);
    assert_eq!(f.symbols.len(), 0);
    assert_eq!(p.code.len(), 2);
}

#[test]
fn generate_function_enters_the_function_in_the_table() {
    let mut p = program_in_progress();
    let f = Function {
        ident: "f".to_string(),
        statements: vec![
            Statement::Assignment("x".to_string(), Expr::FuncCall("callee".to_string(), vec![])),
            Statement::Assignment("g".to_string(), symbol("x")),
        ],
    };
    assert_eq!(generate_function(&mut p, &no_ast(), &f), Ok(()));
    assert_eq!(
        words(&p)[2..].to_vec(),
        vec![
            inst(OpCode::Call, 7),
            inst(OpCode::Load4, 0),
            inst(OpCode::Mov4Global, 12),
            inst(OpCode::Void, 0),
            inst(OpCode::Ret, 4),
        ]
    );
    let meta = p.data.functions.get("f").unwrap();
    assert_eq!(meta.address, 2);
    assert_eq!(meta.symbols.len(), 1);
    assert_eq!(meta.symbols.get("x"), Some(&slot(0, false)));
    assert_eq!(p.data.functions.len(), 2);
    assert_eq!(p.data.functions.get("callee").unwrap().address, 7);
}

#[test]
fn generate_function_leaves_the_program_alone_on_failure() {
    let mut p = program_in_progress();
    let f = Function {
        ident: "f".to_string(),
        statements: vec![
            Statement::Assignment("x".to_string(), decimal(1.0)),
            Statement::Assignment("g".to_string(), symbol("x")),
            Statement::Return(symbol("undeclared")),
            Statement::Return(symbol("x")),
        ],
    };
    assert_eq!(
        generate_function(&mut p, &no_ast(), &f),
        Err(CompileError::UnresolvedSymbol("undeclared".to_string()))
    );
    assert_eq!(words(&p), vec![inst(OpCode::Void, 0), inst(OpCode::Ret, 0)]);
    assert_eq!(p.data.functions.len(), 1);
    assert!(!p.data.functions.contains_key("f"));
}

#[test]
fn allocate_globals_lays_out_inputs_then_outputs() {
    let ast = Program {
        in_parameters: vec![
            ParamDecl { ident: "u".to_string(), type_kind: TypeKind::F32 },
            ParamDecl { ident: "v".to_string(), type_kind: TypeKind::Vec3 },
        ],
        out_parameters: vec![ParamDecl { ident: "w".to_string(), type_kind: TypeKind::Vec3 }],
        functions: vec![],
    };
    let (table, size) = allocate_globals(&ast);
    assert_eq!(size, 12);
    assert_eq!(table.len(), 3);
    assert_eq!(table.get("u"), Some(&SymbolMeta { offset: 0, is_static: true, type_kind: TypeKind::F32 }));
    assert_eq!(table.get("v"), Some(&SymbolMeta { offset: 4, is_static: true, type_kind: TypeKind::Vec3 }));
    assert_eq!(table.get("w"), Some(&SymbolMeta { offset: 8, is_static: true, type_kind: TypeKind::Vec3 }));
}
