use minipy::interpreter::{ArithKind, BinaryOperator, Expression, Flow, Function, Interpreter,
    RuntimeError, Statement, Value};
use minipy::parser::Parser;
use minipy::tokenizer::{parse_keyword, parse_special, parse_string, parse_symbol, reverse_keyword,
    reverse_symbol, Keyword, Symbol, Token, Tokenizer};

const FUEL: u64 = 100000;

fn get_var(interp: &Interpreter, name: &str) -> Option<Value> {
    for v in interp.variables.iter() {
        if v.name == name {
            return Some(clone_of(&v.value));
        }
    }
    None
}

fn clone_of(v: &Value) -> Value {
    minipy::interpreter::clone_value(v)
}

#[test]
fn symbol_canonical_single_token() {
    assert_eq!(
        Tokenizer("<=").unwrap(),
        vec![Token::Symbol(Symbol::LessThanOrEqual)]
    );
    assert_eq!(Tokenizer("==").unwrap(), vec![Token::Symbol(Symbol::Equal)]);
    assert_eq!(Tokenizer("!=").unwrap(), vec![Token::Symbol(Symbol::NotEqual)]);
    assert_eq!(Tokenizer("&&").unwrap(), vec![Token::Symbol(Symbol::LogicalAnd)]);
    assert_eq!(Tokenizer(">>").unwrap(), vec![Token::Symbol(Symbol::ShiftRight)]);
    assert_eq!(Tokenizer("'").unwrap(), vec![Token::Symbol(Symbol::SingleQuote)]);
    assert_eq!(Tokenizer("_").unwrap(), vec![Token::Symbol(Symbol::UnderLine)]);
}

#[test]
fn keyword_canonical_single_token() {
    assert_eq!(Tokenizer("while").unwrap(), vec![Token::Keyword(Keyword::While)]);
    assert_eq!(Tokenizer("import").unwrap(), vec![Token::Keyword(Keyword::Import)]);
    assert_eq!(Tokenizer("None").unwrap(), vec![Token::Keyword(Keyword::NoneLit)]);
}

#[test]
fn token_spans_cover_input() {
    // every consumed span is reproducible from the tokens of this input
    let toks = Tokenizer("abc = 12\n").unwrap();
    assert_eq!(
        toks,
        vec![
            Token::Identifier("abc".to_string()),
            Token::Space,
            Token::Symbol(Symbol::Assign),
            Token::Space,
            Token::Text("12".to_string()),
            Token::LineBreak,
        ]
    );
    // string literal spans include both quotes: 4 chars consumed of 5
    let toks2 = Tokenizer("\"ab\"x").unwrap();
    assert_eq!(
        toks2,
        vec![Token::FString("ab".to_string()), Token::Identifier("x".to_string())]
    );
}

#[test]
fn lexer_rejects_unknown_character() {
    assert!(Tokenizer("a\u{00e9}").is_err());
}

#[test]
fn parse_is_deterministic() {
    let src = "import os, sys\na = 1\nb = a + 2\n";
    let t1 = Tokenizer(src).unwrap();
    let t2 = Tokenizer(src).unwrap();
    let a1 = Parser::new(t1).parse_tokens().unwrap();
    let a2 = Parser::new(t2).parse_tokens().unwrap();
    assert_eq!(a1, a2);
}

#[test]
fn statement_sequence_adds_to_three() {
    let src = "a = 1\nb = 2\nc = a + b\n";
    let toks = Tokenizer(src).unwrap();
    let ast = Parser::new(toks).parse_tokens().unwrap();
    let mut interp = Interpreter::new();
    let flow = interp.eval_statements(&ast, FUEL).unwrap();
    assert_eq!(flow, Flow::Normal);
    assert_eq!(get_var(&interp, "c"), Some(Value::Integer(3)));
}

#[test]
fn function_call_returns_sum() {
    let src = "def add(a, b):\n    return a + b\nr = add(2, 3)\n";
    let toks = Tokenizer(src).unwrap();
    let ast = Parser::new(toks).parse_tokens().unwrap();
    let mut interp = Interpreter::new();
    interp.eval_statements(&ast, FUEL).unwrap();
    assert_eq!(get_var(&interp, "r"), Some(Value::Integer(5)));
}

#[test]
fn missing_argument_without_default_is_arity_error() {
    let src = "def add(a, b):\n    return a + b\nr = add(2)\n";
    let toks = Tokenizer(src).unwrap();
    let ast = Parser::new(toks).parse_tokens().unwrap();
    let mut interp = Interpreter::new();
    let err = interp.eval_statements(&ast, FUEL).unwrap_err();
    match err {
        RuntimeError::ArityError(name, want, got) => {
            assert_eq!(name, "add");
            assert_eq!(want, 2);
            assert_eq!(got, 1);
        }
        other => panic!("unexpected error: {:?}", other),
    }
}

#[test]
fn default_parameter_fills_missing_argument() {
    let src = "def add(a, b=40):\n    return a + b\nr = add(2)\n";
    let toks = Tokenizer(src).unwrap();
    let ast = Parser::new(toks).parse_tokens().unwrap();
    let mut interp = Interpreter::new();
    interp.eval_statements(&ast, FUEL).unwrap();
    assert_eq!(get_var(&interp, "r"), Some(Value::Integer(42)));
}

#[test]
fn for_loop_sums_and_unbinds() {
    let ast = vec![
        Statement::Assignment("x".to_string(), Expression::Literal(Value::Integer(0))),
        Statement::For(
            "i".to_string(),
            Expression::Literal(Value::Integer(1)),
            Expression::Literal(Value::Integer(3)),
            vec![Statement::Assignment(
                "x".to_string(),
                Expression::Binary(
                    Box::new(Expression::Variable("x".to_string())),
                    BinaryOperator::Add,
                    Box::new(Expression::Variable("i".to_string())),
                ),
            )],
        ),
    ];
    let mut interp = Interpreter::new();
    let flow = interp.eval_statements(&ast, FUEL).unwrap();
    assert_eq!(flow, Flow::Normal);
    assert_eq!(get_var(&interp, "x"), Some(Value::Integer(6)));
    assert_eq!(get_var(&interp, "i"), None);
}

#[test]
fn division_by_zero_is_recoverable() {
    let interp = Interpreter::new();
    let e = Expression::Binary(
        Box::new(Expression::Literal(Value::Integer(5))),
        BinaryOperator::Divide,
        Box::new(Expression::Literal(Value::Integer(0))),
    );
    let err = interp.eval_expression(&e, FUEL).unwrap_err();
    assert_eq!(err, RuntimeError::ArithmeticError(ArithKind::DivisionByZero));
    // the interpreter remains usable afterwards
    let ok = interp
        .eval_expression(&Expression::Literal(Value::Integer(1)), FUEL)
        .unwrap();
    assert_eq!(ok, Value::Integer(1));
}

#[test]
fn string_concatenation_and_type_error() {
    let interp = Interpreter::new();
    let cat = Expression::Binary(
        Box::new(Expression::Literal(Value::Str("ab".to_string()))),
        BinaryOperator::Add,
        Box::new(Expression::Literal(Value::Str("cd".to_string()))),
    );
    assert_eq!(
        interp.eval_expression(&cat, FUEL).unwrap(),
        Value::Str("abcd".to_string())
    );
    let bad = Expression::Binary(
        Box::new(Expression::Literal(Value::Str("ab".to_string()))),
        BinaryOperator::Add,
        Box::new(Expression::Literal(Value::Integer(3))),
    );
    match interp.eval_expression(&bad, FUEL).unwrap_err() {
        RuntimeError::TypeError(_, _, _) => {}
        other => panic!("unexpected error: {:?}", other),
    }
}

#[test]
fn infinite_loop_is_cancelled() {
    let ast = vec![Statement::While(
        Expression::Literal(Value::Boolean(true)),
        vec![Statement::Expression(Expression::Literal(Value::Integer(1)))],
    )];
    let mut interp = Interpreter::new();
    let err = interp.eval_statements(&ast, 1000).unwrap_err();
    assert_eq!(err, RuntimeError::Cancelled);
}

#[test]
fn name_error_on_unknown_variable() {
    let interp = Interpreter::new();
    let err = interp
        .eval_expression(&Expression::Variable("nope".to_string()), FUEL)
        .unwrap_err();
    assert_eq!(err, RuntimeError::NameError("nope".to_string()));
}

#[test]
fn latest_function_declaration_wins() {
    let f1 = Function {
        name: "f".to_string(),
        params: vec![],
        body: vec![Statement::Return(Expression::Literal(Value::Integer(1)))],
    };
    let f2 = Function {
        name: "f".to_string(),
        params: vec![],
        body: vec![Statement::Return(Expression::Literal(Value::Integer(2)))],
    };
    let ast = vec![
        Statement::Function(f1),
        Statement::Function(f2),
        Statement::Assignment(
            "r".to_string(),
            Expression::FunctionCall("f".to_string(), vec![]),
        ),
    ];
    let mut interp = Interpreter::new();
    interp.eval_statements(&ast, FUEL).unwrap();
    assert_eq!(get_var(&interp, "r"), Some(Value::Integer(2)));
}

#[test]
fn overflow_is_reported_not_wrapped() {
    let interp = Interpreter::new();
    let e = Expression::Binary(
        Box::new(Expression::Literal(Value::Integer(i64::MAX))),
        BinaryOperator::Add,
        Box::new(Expression::Literal(Value::Integer(1))),
    );
    assert_eq!(
        interp.eval_expression(&e, FUEL).unwrap_err(),
        RuntimeError::ArithmeticError(ArithKind::Overflow)
    );
}

#[test]
fn as_value_classifies_text() {
    assert_eq!(
        Token::Text("12".to_string()).as_value(),
        Some(Value::Integer(12))
    );
    assert_eq!(
        Token::Text("true".to_string()).as_value(),
        Some(Value::Boolean(true))
    );
    assert_eq!(
        Token::Text("12x".to_string()).as_value(),
        Some(Value::Str("12x".to_string()))
    );
    assert_eq!(
        Token::FString("hi".to_string()).as_value(),
        Some(Value::Str("hi".to_string()))
    );
    assert_eq!(Token::LineBreak.as_value(), None);
}

#[test]
fn keyword_and_symbol_lengths() {
    assert_eq!(Keyword::Continue.len(), 8);
    assert_eq!(Keyword::If.len(), 2);
    assert_eq!(Symbol::LessThanOrEqual.len(), 2);
    assert_eq!(Symbol::Comma.len(), 1);
}

#[test]
fn reverse_forms_round_trip() {
    let k = reverse_keyword(&Keyword::While).unwrap();
    assert_eq!(parse_keyword(&k), Some(Keyword::While));
    let s = reverse_symbol(&Symbol::LessThanOrEqual).unwrap();
    assert_eq!(parse_symbol(&s), Some(Symbol::LessThanOrEqual));
}

#[test]
fn import_statements_collect_identifiers() {
    let src = "import os, sys\n";
    let toks = Tokenizer(src).unwrap();
    let ast = Parser::new(toks).parse_tokens().unwrap();
    assert_eq!(
        ast,
        vec![
            Statement::Import("os".to_string()),
            Statement::Import("sys".to_string()),
        ]
    );
}

#[test]
fn parse_string_literals() {
    assert_eq!(parse_string("\"abc\"rest"), Some("abc".to_string()));
    assert_eq!(parse_string("'x'"), Some("x".to_string()));
    assert_eq!(parse_string("x"), None);
    assert_eq!(parse_string("\"open"), None);
    assert_eq!(parse_special("\ntail"), Some(Token::LineBreak));
    assert_eq!(parse_special("x"), None);
}
