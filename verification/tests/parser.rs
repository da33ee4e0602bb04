use runicscript::parser::parse;
use runicscript::parser::ASTNode;
use runicscript::tokenize;

fn toks(s: &str) -> Vec<String> {
    tokenize(s)
}

#[test]
fn empty_input_is_a_parse_error() {
    assert_eq!(parse(Vec::new()), Err("No tokens to parse".to_string()));
}

#[test]
fn generic_command_with_variable_args() {
    // `cast fireball` goes down the generic-command path: the argument
    // token becomes a bare variable reference, never a literal.
    let ast = parse(toks("cast fireball")).unwrap();
    assert_eq!(
        ast,
        ASTNode::Command("cast".to_string(), vec![ASTNode::Variable("fireball".to_string())])
    );
}

#[test]
fn command_without_args() {
    assert_eq!(parse(toks("dance")).unwrap(), ASTNode::Command("dance".to_string(), vec![]));
}

#[test]
fn assignment_stores_unevaluated_expression() {
    let ast = parse(toks("inscribe x as 5")).unwrap();
    assert_eq!(
        ast,
        ASTNode::Assignment("x".to_string(), Box::new(ASTNode::Number("5".to_string())))
    );
}

#[test]
fn assignment_requires_as_keyword() {
    assert_eq!(parse(toks("inscribe x to 5")), Err("Invalid assignment syntax".to_string()));
    assert_eq!(parse(toks("inscribe x")), Err("Invalid assignment syntax".to_string()));
}

#[test]
fn expression_literals() {
    assert_eq!(
        parse(toks("inscribe x as true")).unwrap(),
        ASTNode::Assignment("x".to_string(), Box::new(ASTNode::Boolean(true)))
    );
    assert_eq!(
        parse(toks("inscribe x as false")).unwrap(),
        ASTNode::Assignment("x".to_string(), Box::new(ASTNode::Boolean(false)))
    );
    assert_eq!(
        parse(toks("inscribe x as \"hi\"")).unwrap(),
        ASTNode::Assignment("x".to_string(), Box::new(ASTNode::String("hi".to_string())))
    );
    assert_eq!(
        parse(toks("inscribe x as 3.5")).unwrap(),
        ASTNode::Assignment("x".to_string(), Box::new(ASTNode::Number("3.5".to_string())))
    );
    assert_eq!(
        parse(toks("inscribe x as -2.5e3")).unwrap(),
        ASTNode::Assignment("x".to_string(), Box::new(ASTNode::Number("-2.5e3".to_string())))
    );
    assert_eq!(
        parse(toks("inscribe x as inf")).unwrap(),
        ASTNode::Assignment("x".to_string(), Box::new(ASTNode::Number("inf".to_string())))
    );
    assert_eq!(
        parse(toks("inscribe x as 1e")).unwrap(),
        ASTNode::Assignment("x".to_string(), Box::new(ASTNode::Variable("1e".to_string())))
    );
    assert_eq!(
        parse(toks("inscribe x as foo")).unwrap(),
        ASTNode::Assignment("x".to_string(), Box::new(ASTNode::Variable("foo".to_string())))
    );
}

#[test]
fn if_without_else() {
    let ast = parse(toks("wyrd true begin dance end")).unwrap();
    assert_eq!(
        ast,
        ASTNode::IfElse(
            Box::new(ASTNode::Boolean(true)),
            vec![ASTNode::Command("dance".to_string(), vec![])],
            None
        )
    );
}

#[test]
fn if_with_else() {
    let ast = parse(toks("wyrd maybe begin dance end otherwise begin sing end")).unwrap();
    assert_eq!(
        ast,
        ASTNode::IfElse(
            Box::new(ASTNode::Variable("maybe".to_string())),
            vec![ASTNode::Command("dance".to_string(), vec![])],
            Some(vec![ASTNode::Command("sing".to_string(), vec![])])
        )
    );
}

#[test]
fn if_errors() {
    assert_eq!(parse(toks("wyrd true")), Err("Invalid if structure".to_string()));
    assert_eq!(parse(toks("wyrd true dance end")), Err("Invalid block structure".to_string()));
}

#[test]
fn loop_parses() {
    let ast = parse(toks("circle go begin dance end")).unwrap();
    assert_eq!(
        ast,
        ASTNode::Loop(
            Box::new(ASTNode::Variable("go".to_string())),
            vec![ASTNode::Command("dance".to_string(), vec![])]
        )
    );
}

#[test]
fn loop_errors() {
    assert_eq!(parse(toks("circle")), Err("Invalid loop structure".to_string()));
    assert_eq!(parse(toks("circle go dance")), Err("Invalid block structure".to_string()));
}

#[test]
fn spell_definition_splits_params_on_commas() {
    let ast = parse(toks("spell greet with a,b begin summon a end")).unwrap();
    assert_eq!(
        ast,
        ASTNode::Spell(
            "greet".to_string(),
            vec!["a".to_string(), "b".to_string()],
            vec![ASTNode::Command(
                "summon".to_string(),
                vec![ASTNode::Variable("a".to_string())]
            )]
        )
    );
}

#[test]
fn spell_definition_errors() {
    assert_eq!(parse(toks("spell greet begin end")), Err("Invalid spell definition".to_string()));
    assert_eq!(parse(toks("spell greet with a")), Err("Invalid spell definition".to_string()));
}

#[test]
fn invocation_args_are_bare_names() {
    let ast = parse(toks("invoke greet dragon 5")).unwrap();
    assert_eq!(
        ast,
        ASTNode::SpellInvocation(
            "greet".to_string(),
            vec![
                ASTNode::Variable("dragon".to_string()),
                ASTNode::Variable("5".to_string())
            ]
        )
    );
}

#[test]
fn invocation_needs_a_name() {
    assert_eq!(parse(toks("invoke")), Err("Invalid spell invocation".to_string()));
}

#[test]
fn block_statements_split_on_semicolons() {
    let ast = parse(toks("wyrd true begin dance ; sing end")).unwrap();
    assert_eq!(
        ast,
        ASTNode::IfElse(
            Box::new(ASTNode::Boolean(true)),
            vec![
                ASTNode::Command("dance".to_string(), vec![]),
                ASTNode::Command("sing".to_string(), vec![])
            ],
            None
        )
    );
}

#[test]
fn block_allows_one_trailing_semicolon() {
    let ast = parse(toks("wyrd true begin dance ; sing ; end")).unwrap();
    assert_eq!(
        ast,
        ASTNode::IfElse(
            Box::new(ASTNode::Boolean(true)),
            vec![
                ASTNode::Command("dance".to_string(), vec![]),
                ASTNode::Command("sing".to_string(), vec![])
            ],
            None
        )
    );
}

#[test]
fn empty_block_is_an_error() {
    assert_eq!(parse(toks("wyrd true begin end")), Err("No tokens to parse".to_string()));
}

#[test]
fn glued_semicolon_is_not_a_separator() {
    let ast = parse(toks("wyrd true begin dance; sing end"));
    // `dance;` is one token, so the whole interior is one statement:
    // a command named `dance;` with argument `sing`.
    assert_eq!(
        ast.unwrap(),
        ASTNode::IfElse(
            Box::new(ASTNode::Boolean(true)),
            vec![ASTNode::Command(
                "dance;".to_string(),
                vec![ASTNode::Variable("sing".to_string())]
            )],
            None
        )
    );
}
