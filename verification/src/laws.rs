//! The laws of the language, stated over the evaluation and parsing
//! models and proved once and for all.

use vstd::prelude::*;
use crate::interpreter::SpecState;
use crate::interpreter::bind_params;
use crate::interpreter::eval;
use crate::interpreter::eval_stmts;
use crate::interpreter::render;
use crate::interpreter::spec_cast_flavor;
use crate::parser::SpecNode;
use crate::parser::lemma_first_idx_is;
use crate::parser::spec_parse;
use crate::parser::spec_parse_block;
use crate::parser::spec_parse_stmts;
use crate::text::spec_join;

verus! {

/// A command with a verb outside the four built-ins leaves the state
/// unchanged and reports exactly that the runes are unfamiliar,
/// whatever its arguments.
pub proof fn lemma_unknown_verb(st: SpecState, verb: Seq<char>, args: Seq<SpecNode>, fuel: nat)
    requires
        fuel >= 1,
        verb != "cast"@,
        verb != "summon"@,
        verb != "enchant"@,
        verb != "scry"@,
    ensures
        eval(st, SpecNode::Command(verb, args), fuel) == (
            st,
            "The runes for '"@ + verb + "' are unfamiliar."@,
        ),
{
}

/// `cast` with no arguments reports exactly the missing runes, and the
/// state is unchanged.
pub proof fn lemma_cast_no_args(st: SpecState, fuel: nat)
    requires
        fuel >= 1,
    ensures
        eval(st, SpecNode::Command("cast"@, Seq::empty()), fuel) == (
            st,
            "Error: No spell runes provided"@,
        ),
{
}

/// `cast` with an argument evaluates it once and answers with the
/// flavor of the rendering: the three known spells have fixed texts.
pub proof fn lemma_cast_flavor(st: SpecState, args: Seq<SpecNode>, fuel: nat)
    requires
        fuel >= 1,
        args.len() >= 1,
    ensures
        ({
            let (st1, s) = eval(st, args[0], (fuel - 1) as nat);
            eval(st, SpecNode::Command("cast"@, args), fuel) == (st1, spec_cast_flavor(s))
        }),
{
}

/// A rendering that names no known spell fizzles, naming what was
/// traced.
pub proof fn lemma_cast_fizzles(s: Seq<char>)
    requires
        s != "fireball"@,
        s != "frostbolt"@,
        s != "heal"@,
    ensures
        spec_cast_flavor(s) == "You trace the runes for "@ + s + ", but the magic fizzles."@,
{
}

/// Reading a variable right after assigning it yields the structural
/// rendering of the node just stored, whatever was bound before.
pub proof fn lemma_assign_then_read(st: SpecState, name: Seq<char>, v: SpecNode, f1: nat, f2: nat)
    requires
        f1 >= 1,
        f2 >= 1,
    ensures
        ({
            let st1 = eval(st, SpecNode::Assignment(name, Box::new(v)), f1).0;
            eval(st1, SpecNode::Variable(name), f2) == (st1, render(v))
        }),
{
}

/// Two assignments to one name: the later one wins the read.
pub proof fn lemma_last_write_wins(
    st: SpecState,
    name: Seq<char>,
    v1: SpecNode,
    v2: SpecNode,
    f1: nat,
    f2: nat,
    f3: nat,
)
    requires
        f1 >= 1,
        f2 >= 1,
        f3 >= 1,
    ensures
        ({
            let st1 = eval(st, SpecNode::Assignment(name, Box::new(v1)), f1).0;
            let st2 = eval(st1, SpecNode::Assignment(name, Box::new(v2)), f2).0;
            eval(st2, SpecNode::Variable(name), f3) == (st2, render(v2))
        }),
{
}

/// Reading a never-assigned name is not fatal: it reports that the
/// runes have not been inscribed, and the state is unchanged.
pub proof fn lemma_unbound_variable(st: SpecState, name: Seq<char>, fuel: nat)
    requires
        fuel >= 1,
        !st.vars.contains_key(name),
    ensures
        eval(st, SpecNode::Variable(name), fuel) == (
            st,
            "The runes for "@ + name + " have not been inscribed."@,
        ),
{
}

/// Defining a spell under one name makes no other name invocable:
/// invoking a name still absent from the grimoire reports it missing.
pub proof fn lemma_invoke_unrelated(
    st: SpecState,
    s_name: Seq<char>,
    params: Seq<Seq<char>>,
    body: Seq<SpecNode>,
    t_name: Seq<char>,
    args: Seq<SpecNode>,
    f1: nat,
    f2: nat,
)
    requires
        f1 >= 1,
        f2 >= 1,
        s_name != t_name,
        !st.spells.contains_key(t_name),
    ensures
        ({
            let st1 = eval(st, SpecNode::Spell(s_name, params, body), f1).0;
            eval(st1, SpecNode::SpellInvocation(t_name, args), f2) == (
                st1,
                "The spell '"@ + t_name + "' is not found in the grimoire."@,
            )
        }),
{
}

/// Invoking a defined spell runs its body under a fresh environment of
/// positionally bound parameters; the narrative is the body's statement
/// results joined by line breaks, and the grimoire keeps what the body
/// defined.
pub proof fn lemma_invoke_runs_body(
    st: SpecState,
    name: Seq<char>,
    args: Seq<SpecNode>,
    fuel: nat,
)
    requires
        fuel >= 1,
        st.spells.contains_key(name),
    ensures
        ({
            let (params, body) = st.spells[name];
            let callee = SpecState { vars: bind_params(params, args), spells: st.spells };
            let (st2, rs) = eval_stmts(callee, body, fuel);
            eval(st, SpecNode::SpellInvocation(name, args), fuel) == (
                SpecState { vars: st.vars, spells: st2.spells },
                spec_join(rs, "\n"@),
            )
        }),
{
}

/// After a spell invocation returns — spell found or not, fuel left or
/// not — the caller's variable environment is exactly what it was,
/// whatever same-named variables the body bound inside.
pub proof fn lemma_invocation_restores_env(
    st: SpecState,
    name: Seq<char>,
    args: Seq<SpecNode>,
    fuel: nat,
)
    ensures
        eval(st, SpecNode::SpellInvocation(name, args), fuel).0.vars == st.vars,
{
}

/// Whenever the condition renders anything but exactly `true` — other
/// text, `false`, `1`, an error message — the else-branch runs.
pub proof fn lemma_ifelse_not_true(
    st: SpecState,
    cond: SpecNode,
    then_body: Seq<SpecNode>,
    else_body: Option<Seq<SpecNode>>,
    fuel: nat,
)
    requires
        fuel >= 1,
        eval(st, cond, (fuel - 1) as nat).1 != "true"@,
    ensures
        ({
            let st1 = eval(st, cond, (fuel - 1) as nat).0;
            let body = match else_body {
                Some(b) => b,
                None => Seq::<SpecNode>::empty(),
            };
            let (st2, rs) = eval_stmts(st1, body, fuel);
            eval(st, SpecNode::IfElse(Box::new(cond), then_body, else_body), fuel) == (
                st2,
                spec_join(rs, "\n"@),
            )
        }),
{
}

/// Without an else-part, a condition that does not render `true`
/// produces an empty result.
pub proof fn lemma_ifelse_no_else(
    st: SpecState,
    cond: SpecNode,
    then_body: Seq<SpecNode>,
    fuel: nat,
)
    requires
        fuel >= 1,
        eval(st, cond, (fuel - 1) as nat).1 != "true"@,
    ensures
        eval(st, SpecNode::IfElse(Box::new(cond), then_body, None), fuel) == (
            eval(st, cond, (fuel - 1) as nat).0,
            Seq::<char>::empty(),
        ),
{
    let st1 = eval(st, cond, (fuel - 1) as nat).0;
    let r = eval_stmts(st1, Seq::<SpecNode>::empty(), fuel);
    assert(r.0 == st1 && r.1 == Seq::<Seq<char>>::empty());
    assert(spec_join(r.1, "\n"@) == Seq::<char>::empty());
}

/// Round trip: a block `begin A ; B ; end` parses to the parses of `A`
/// and `B`, and evaluating it threads the state of the first statement
/// into the second — the same results as evaluating `A` then `B`
/// one after the other in the same environment.
pub proof fn lemma_block_round_trip(
    ta: Seq<Seq<char>>,
    tb: Seq<Seq<char>>,
    a: SpecNode,
    b: SpecNode,
    st: SpecState,
    fuel: nat,
)
    requires
        !ta.contains(";"@),
        !tb.contains(";"@),
        spec_parse(ta) == Ok::<SpecNode, Seq<char>>(a),
        spec_parse(tb) == Ok::<SpecNode, Seq<char>>(b),
        fuel >= 1,
    ensures
        spec_parse_block(seq!["begin"@] + ta + seq![";"@] + tb + seq![";"@, "end"@])
            == Ok::<Seq<SpecNode>, Seq<char>>(seq![a, b]),
        ({
            let (st1, ra) = eval(st, a, (fuel - 1) as nat);
            let (st2, rb) = eval(st1, b, (fuel - 1) as nat);
            eval_stmts(st, seq![a, b], fuel) == (st2, seq![ra, rb])
        }),
{
    let blk = seq!["begin"@] + ta + seq![";"@] + tb + seq![";"@, "end"@];
    let n = blk.len() as int;
    assert(ta.len() > 0);
    assert(tb.len() > 0);
    assert(blk[0] == "begin"@);
    assert(blk.last() == "end"@);
    let interior = blk.subrange(1, n - 1);
    assert(interior =~= ta + seq![";"@] + tb + seq![";"@]);
    assert(interior.last() == ";"@);
    let trimmed = interior.drop_last();
    assert(trimmed =~= ta + seq![";"@] + tb);
    assert forall|i: int| 0 <= i < ta.len() implies trimmed[i] != ";"@ by {
        assert(trimmed[i] == ta[i]);
        if ta[i] == ";"@ {
            assert(ta.contains(";"@));
        }
    }
    assert(trimmed[ta.len() as int] == ";"@);
    lemma_first_idx_is(trimmed, ";"@, ta.len() as int);
    assert(trimmed.take(ta.len() as int) =~= ta);
    assert(trimmed.skip(ta.len() as int + 1) =~= tb);
    assert forall|i: int| 0 <= i < tb.len() implies tb[i] != ";"@ by {
        if tb[i] == ";"@ {
            assert(tb.contains(";"@));
        }
    }
    lemma_first_idx_is(tb, ";"@, tb.len() as int);
    assert(tb.take(tb.len() as int) =~= tb);
    assert(spec_parse_stmts(tb) == Ok::<Seq<SpecNode>, Seq<char>>(seq![b]));
    assert(spec_parse_stmts(trimmed) == Ok::<Seq<SpecNode>, Seq<char>>(seq![a] + seq![b]));
    assert(seq![a] + seq![b] =~= seq![a, b]);
    assert(spec_parse_block(blk) == Ok::<Seq<SpecNode>, Seq<char>>(seq![a, b]));
    let l = seq![a, b];
    assert(l.drop_first() =~= seq![b]);
    assert(seq![b].drop_first() =~= Seq::<SpecNode>::empty());
    let (st1, ra) = eval(st, a, (fuel - 1) as nat);
    let (st2, rb) = eval(st1, b, (fuel - 1) as nat);
    assert(eval_stmts(st2, Seq::<SpecNode>::empty(), fuel) == (st2, Seq::<Seq<char>>::empty()));
    let rsb = eval_stmts(st1, seq![b], fuel);
    assert(rsb.0 == st2 && rsb.1 == seq![rb] + Seq::<Seq<char>>::empty());
    let rs = eval_stmts(st, l, fuel);
    assert(rs.0 == st2 && rs.1 == seq![ra] + (seq![rb] + Seq::<Seq<char>>::empty()));
    assert(seq![ra] + (seq![rb] + Seq::<Seq<char>>::empty()) =~= seq![ra, rb]);
}

} // verus!
