use runicscript::parser::parse;
use runicscript::parser::ASTNode;
use runicscript::tokenize;
use runicscript::Interpreter;

fn run(interp: &mut Interpreter, line: &str) -> String {
    interp.interpret(parse(tokenize(line)).unwrap())
}

#[test]
fn unknown_verb_is_unfamiliar() {
    let mut i = Interpreter::new();
    assert_eq!(run(&mut i, "dance"), "The runes for 'dance' are unfamiliar.");
    assert_eq!(run(&mut i, "sing loud"), "The runes for 'sing' are unfamiliar.");
}

#[test]
fn cast_without_args_errors() {
    let mut i = Interpreter::new();
    assert_eq!(run(&mut i, "cast"), "Error: No spell runes provided");
}

#[test]
fn cast_known_spells() {
    let mut i = Interpreter::new();
    let fireball = ASTNode::Command(
        "cast".to_string(),
        vec![ASTNode::String("fireball".to_string())],
    );
    assert_eq!(i.interpret(fireball), "A sphere of flame erupts from your fingertips!");
    let frostbolt = ASTNode::Command(
        "cast".to_string(),
        vec![ASTNode::String("frostbolt".to_string())],
    );
    assert_eq!(i.interpret(frostbolt), "Crystals of ice form and launch from your palm!");
    let heal = ASTNode::Command("cast".to_string(), vec![ASTNode::String("heal".to_string())]);
    assert_eq!(i.interpret(heal), "Soothing energies flow from your hands, mending wounds.");
}

#[test]
fn cast_unknown_spell_fizzles() {
    let mut i = Interpreter::new();
    let node = ASTNode::Command(
        "cast".to_string(),
        vec![ASTNode::String("levitate".to_string())],
    );
    let out = i.interpret(node);
    assert!(out.contains("levitate"));
    assert!(out.ends_with("fizzles."));
    assert_eq!(out, "You trace the runes for levitate, but the magic fizzles.");
}

#[test]
fn cast_end_to_end_on_unbound_name() {
    // `cast fireball` parses as a generic command whose argument is a
    // bare variable reference; unbound, it renders the missing-runes
    // message, which is then what `cast` matches on.
    let mut i = Interpreter::new();
    assert_eq!(
        run(&mut i, "cast fireball"),
        "You trace the runes for The runes for fireball have not been inscribed., \
         but the magic fizzles."
    );
}

#[test]
fn summon_and_enchant_and_scry() {
    let mut i = Interpreter::new();
    assert_eq!(run(&mut i, "summon"), "Error: No creature specified in the summoning circle");
    let summon = ASTNode::Command(
        "summon".to_string(),
        vec![ASTNode::String("dragon".to_string())],
    );
    assert_eq!(i.interpret(summon), "A mystical portal opens, and a dragon steps forth!");
    assert_eq!(
        run(&mut i, "enchant sword"),
        "Error: Enchantment requires both an item and a magical property"
    );
    let enchant = ASTNode::Command(
        "enchant".to_string(),
        vec![
            ASTNode::String("sword".to_string()),
            ASTNode::String("fire".to_string()),
        ],
    );
    assert_eq!(
        i.interpret(enchant),
        "Arcane energies swirl around the sword, imbuing it with the power of fire."
    );
    assert_eq!(
        run(&mut i, "scry"),
        "You gaze into your crystal ball, but see only swirling mists."
    );
    let scry = ASTNode::Command(
        "scry".to_string(),
        vec![
            ASTNode::String("ships".to_string()),
            ASTNode::String("storms".to_string()),
        ],
    );
    assert_eq!(
        i.interpret(scry),
        "As you focus, visions of ships storms begin to form in your mind's eye."
    );
}

#[test]
fn assignment_confirms_and_keeps_spelling() {
    let mut i = Interpreter::new();
    assert_eq!(
        run(&mut i, "inscribe x as 5"),
        "Variable x has been inscribed with arcane power: 5"
    );
    assert_eq!(
        run(&mut i, "inscribe y as 3.50"),
        "Variable y has been inscribed with arcane power: 3.50"
    );
}

#[test]
fn variable_read_is_structural_and_last_write_wins() {
    let mut i = Interpreter::new();
    run(&mut i, "inscribe x as 5");
    assert_eq!(i.interpret(ASTNode::Variable("x".to_string())), "Number(5)");
    run(&mut i, "inscribe x as 7");
    assert_eq!(i.interpret(ASTNode::Variable("x".to_string())), "Number(7)");
    run(&mut i, "inscribe x as \"hi\"");
    assert_eq!(i.interpret(ASTNode::Variable("x".to_string())), "String(\"hi\")");
}

#[test]
fn unbound_variable_read_is_not_fatal() {
    let mut i = Interpreter::new();
    assert_eq!(
        i.interpret(ASTNode::Variable("y".to_string())),
        "The runes for y have not been inscribed."
    );
}

#[test]
fn if_runs_then_branch_on_exactly_true() {
    let mut i = Interpreter::new();
    assert_eq!(
        run(&mut i, "wyrd true begin dance end"),
        "The runes for 'dance' are unfamiliar."
    );
    assert_eq!(
        run(&mut i, "wyrd true begin dance ; sing end"),
        "The runes for 'dance' are unfamiliar.\nThe runes for 'sing' are unfamiliar."
    );
}

#[test]
fn if_runs_else_branch_on_anything_else() {
    let mut i = Interpreter::new();
    // `false`
    assert_eq!(
        run(&mut i, "wyrd false begin dance end otherwise begin sing end"),
        "The runes for 'sing' are unfamiliar."
    );
    // a number rendering `1`
    assert_eq!(
        run(&mut i, "wyrd 1 begin dance end otherwise begin sing end"),
        "The runes for 'sing' are unfamiliar."
    );
    // an unbound variable rendering an error message
    assert_eq!(
        run(&mut i, "wyrd maybe begin dance end otherwise begin sing end"),
        "The runes for 'sing' are unfamiliar."
    );
    // a bound variable renders structurally, so even a stored `true`
    // literal does not satisfy the condition
    run(&mut i, "inscribe flag as true");
    assert_eq!(
        run(&mut i, "wyrd flag begin dance end otherwise begin sing end"),
        "The runes for 'sing' are unfamiliar."
    );
}

#[test]
fn if_without_else_produces_empty_result() {
    let mut i = Interpreter::new();
    assert_eq!(run(&mut i, "wyrd false begin dance end"), "");
}

#[test]
fn loop_with_false_condition_runs_zero_times() {
    let mut i = Interpreter::new();
    assert_eq!(run(&mut i, "circle false begin dance end"), "");
}

#[test]
fn loop_with_true_condition_stops_at_the_fuel_ceiling() {
    let mut i = Interpreter::new();
    let ast = parse(tokenize("circle true begin dance end")).unwrap();
    let out = i.interpret_with_limit(&ast, 5);
    // each pass spends fuel: condition at one less unit, body at one
    // less; four passes fit before the condition check runs dry
    let line = "The runes for 'dance' are unfamiliar.";
    assert_eq!(out, vec![line; 4].join("\n"));
}

#[test]
fn exhausted_budget_yields_the_narrative_message() {
    let mut i = Interpreter::new();
    let ast = parse(tokenize("dance")).unwrap();
    assert_eq!(
        i.interpret_with_limit(&ast, 0),
        "The weave of magic frays: the evaluation limit is reached."
    );
}

#[test]
fn spell_definition_confirms() {
    let mut i = Interpreter::new();
    assert_eq!(
        run(&mut i, "spell greet with name begin summon name end"),
        "Spell 'greet' has been inscribed in the grimoire."
    );
}

#[test]
fn invoking_an_unknown_spell_reports_it() {
    let mut i = Interpreter::new();
    run(&mut i, "spell greet with name begin summon name end");
    assert_eq!(
        run(&mut i, "invoke mystery"),
        "The spell 'mystery' is not found in the grimoire."
    );
}

#[test]
fn invoking_binds_parameters_positionally() {
    let mut i = Interpreter::new();
    run(&mut i, "spell greet with name begin summon name end");
    // the argument is bound as an unevaluated variable-reference node,
    // so the body's lookup renders it structurally
    assert_eq!(
        run(&mut i, "invoke greet dragon"),
        "A mystical portal opens, and a Variable(\"dragon\") steps forth!"
    );
}

#[test]
fn surplus_invocation_arguments_are_dropped() {
    let mut i = Interpreter::new();
    run(&mut i, "spell greet with name begin summon name end");
    assert_eq!(
        run(&mut i, "invoke greet dragon extra more"),
        "A mystical portal opens, and a Variable(\"dragon\") steps forth!"
    );
}

#[test]
fn missing_invocation_arguments_leave_parameters_unbound() {
    let mut i = Interpreter::new();
    run(&mut i, "spell greet with name begin summon name end");
    assert_eq!(
        run(&mut i, "invoke greet"),
        "A mystical portal opens, and a The runes for name have not been inscribed. steps forth!"
    );
}

#[test]
fn spell_call_restores_the_callers_environment() {
    let mut i = Interpreter::new();
    run(&mut i, "inscribe gold as 5");
    run(&mut i, "spell rob with loot begin inscribe gold as 0 ; end");
    // inside the call the body rebinds `gold` in its own environment
    run(&mut i, "invoke rob gold");
    // afterwards the caller sees its own binding, untouched
    assert_eq!(i.interpret(ASTNode::Variable("gold".to_string())), "Number(5)");
}

#[test]
fn spell_body_cannot_see_caller_variables() {
    let mut i = Interpreter::new();
    run(&mut i, "inscribe gold as 5");
    run(&mut i, "spell peek with x begin summon gold end");
    assert_eq!(
        run(&mut i, "invoke peek"),
        "A mystical portal opens, and a The runes for gold have not been inscribed. steps forth!"
    );
}

#[test]
fn spells_defined_inside_a_call_persist() {
    let mut i = Interpreter::new();
    run(&mut i, "spell outer with x begin spell inner with y begin dance end ; end");
    run(&mut i, "invoke outer");
    assert_eq!(run(&mut i, "invoke inner"), "The runes for 'dance' are unfamiliar.");
}

#[test]
fn block_round_trip_matches_sequential_evaluation() {
    // evaluating `begin A ; B ; end` inside a conditional equals
    // evaluating A then B independently in the same state
    let mut block = Interpreter::new();
    let joined = run(&mut block, "wyrd true begin summon dwarf ; cast fireball ; end");
    let mut seq = Interpreter::new();
    let a = run(&mut seq, "summon dwarf");
    let b = run(&mut seq, "cast fireball");
    assert_eq!(joined, format!("{}\n{}", a, b));
}
