//! The RunicScript evaluator.
//!
//! Evaluation walks the tree and produces narrative text. Two pieces of
//! state persist across top-level invocations: the variable environment
//! (name to the unevaluated node last assigned) and the spell table
//! (name to parameter list and body). Every error condition of
//! evaluation — a missing argument, an unknown verb, an unbound
//! variable, an unknown spell — yields an ordinary narrative string,
//! never a failure value; only parsing can fail.
//!
//! Evaluation depth is bounded: every nested evaluation step, loop
//! iteration and spell call spends one unit of a fuel budget, and a
//! step attempted with no fuel left yields a narrative exhaustion
//! message instead of running forever.

use vstd::prelude::*;
use vstd::string::StrSliceExecFns;
use vstd::string::StringExecFns;
use crate::parser::ASTNode;
use crate::parser::SpecNode;
use crate::parser::clone_nodes;
use crate::parser::clone_strings;
use crate::parser::lemma_nodes_view;
use crate::parser::node_view;
use crate::parser::nodes_view;
use crate::text::join_with;
use crate::text::spec_join;
use crate::text::str_eq;

verus! {

/// The variable environment as a map: later entries shadow earlier ones.
pub open spec fn map_of_vars(entries: Seq<(String, ASTNode)>) -> Map<Seq<char>, SpecNode>
    decreases entries.len(),
{
    if entries.len() == 0 {
        Map::empty()
    } else {
        map_of_vars(entries.drop_last()).insert(
            entries.last().0@,
            node_view(entries.last().1),
        )
    }
}

/// The spell table as a map: later entries shadow earlier ones.
pub open spec fn map_of_spells(entries: Seq<(String, (Vec<String>, Vec<ASTNode>))>) -> Map<
    Seq<char>,
    (Seq<Seq<char>>, Seq<SpecNode>),
>
    decreases entries.len(),
{
    if entries.len() == 0 {
        Map::empty()
    } else {
        map_of_spells(entries.drop_last()).insert(
            entries.last().0@,
            (entries.last().1.0.deep_view(), nodes_view(entries.last().1.1@)),
        )
    }
}

/// The interpreter state as mathematics: the variable environment and
/// the spell table.
pub struct SpecState {
    pub vars: Map<Seq<char>, SpecNode>,
    pub spells: Map<Seq<char>, (Seq<Seq<char>>, Seq<SpecNode>)>,
}

/// The RunicScript interpreter: owns the variable environment and the
/// spell table for one session.
pub struct Interpreter {
    variables: Vec<(String, ASTNode)>,
    spells: Vec<(String, (Vec<String>, Vec<ASTNode>))>,
}

impl View for Interpreter {
    type V = SpecState;

    closed spec fn view(&self) -> SpecState {
        SpecState { vars: map_of_vars(self.variables@), spells: map_of_spells(self.spells@) }
    }
}

/// The surrounding quote characters of a structural rendering.
pub open spec fn quoted(s: Seq<char>) -> Seq<char> {
    "\""@ + s + "\""@
}

/// The structural rendering of a stored node, as variable lookup echoes
/// it: constructor names with quoted name parts, bracketed node lists,
/// and numerals as written.
pub open spec fn render(n: SpecNode) -> Seq<char>
    decreases n,
{
    match n {
        SpecNode::Command(name, args) => "Command("@ + quoted(name) + ", ["@ + render_list(args)
            + "])"@,
        SpecNode::Variable(name) => "Variable("@ + quoted(name) + ")"@,
        SpecNode::Assignment(name, value) => "Assignment("@ + quoted(name) + ", "@ + render(*value)
            + ")"@,
        SpecNode::Number(text) => "Number("@ + text + ")"@,
        SpecNode::String(text) => "String("@ + quoted(text) + ")"@,
        SpecNode::Boolean(b) => if b {
            "Boolean(true)"@
        } else {
            "Boolean(false)"@
        },
        SpecNode::IfElse(cond, then_body, else_body) => "IfElse("@ + render(*cond) + ", ["@
            + render_list(then_body) + "], "@ + (match else_body {
            Some(body) => "Some(["@ + render_list(body) + "])"@,
            None => "None"@,
        }) + ")"@,
        SpecNode::Loop(cond, body) => "Loop("@ + render(*cond) + ", ["@ + render_list(body)
            + "])"@,
        SpecNode::Spell(name, params, body) => "Spell("@ + quoted(name) + ", ["@ + quoted_list(
            params,
        ) + "], ["@ + render_list(body) + "])"@,
        SpecNode::SpellInvocation(name, args) => "SpellInvocation("@ + quoted(name) + ", ["@
            + render_list(args) + "])"@,
    }
}

/// The renderings of a node list, comma-separated.
pub open spec fn render_list(ns: Seq<SpecNode>) -> Seq<char>
    decreases ns,
{
    if ns.len() == 0 {
        Seq::empty()
    } else if ns.len() == 1 {
        render(ns[0])
    } else {
        render(ns[0]) + ", "@ + render_list(ns.drop_first())
    }
}

/// Quoted strings, comma-separated.
pub open spec fn quoted_list(ps: Seq<Seq<char>>) -> Seq<char>
    decreases ps.len(),
{
    if ps.len() == 0 {
        Seq::empty()
    } else if ps.len() == 1 {
        quoted(ps[0])
    } else {
        quoted(ps[0]) + ", "@ + quoted_list(ps.drop_first())
    }
}

fn quoted_str(s: &str) -> (out: String)
    ensures
        out@ == quoted(s@),
{
    let mut r: String = String::from_str("\"");
    r.append(s);
    r.append("\"");
    r
}

fn quoted_strings(ps: &Vec<String>, i: usize) -> (out: String)
    requires
        i <= ps.len(),
    ensures
        out@ == quoted_list(ps.deep_view().skip(i as int)),
    decreases ps.len() - i,
{
    let ghost tail = ps.deep_view().skip(i as int);
    if i == ps.len() {
        proof {
            assert(tail =~= Seq::<Seq<char>>::empty());
        }
        String::new()
    } else if i + 1 == ps.len() {
        proof {
            assert(tail[0] == ps@[i as int]@);
        }
        quoted_str(ps[i].as_str())
    } else {
        proof {
            assert(tail[0] == ps@[i as int]@);
            assert(tail.drop_first() =~= ps.deep_view().skip(i as int + 1));
        }
        let mut r: String = quoted_str(ps[i].as_str());
        r.append(", ");
        let rest: String = quoted_strings(ps, i + 1);
        r.append(rest.as_str());
        r
    }
}

/// Renders a stored node structurally.
fn render_node(n: &ASTNode) -> (out: String)
    ensures
        out@ == render(node_view(*n)),
    decreases n,
{
    match n {
        ASTNode::Command(name, args) => {
            let mut r: String = String::from_str("Command(");
            let q: String = quoted_str(name.as_str());
            r.append(q.as_str());
            r.append(", [");
            let list: String = render_nodes(args, 0);
            r.append(list.as_str());
            r.append("])");
            proof {
                assert(args@.skip(0) =~= args@);
            }
            r
        },
        ASTNode::Variable(name) => {
            let mut r: String = String::from_str("Variable(");
            let q: String = quoted_str(name.as_str());
            r.append(q.as_str());
            r.append(")");
            r
        },
        ASTNode::Assignment(name, value) => {
            let mut r: String = String::from_str("Assignment(");
            let q: String = quoted_str(name.as_str());
            r.append(q.as_str());
            r.append(", ");
            let v: String = render_node(value);
            r.append(v.as_str());
            r.append(")");
            r
        },
        ASTNode::Number(text) => {
            let mut r: String = String::from_str("Number(");
            r.append(text.as_str());
            r.append(")");
            r
        },
        ASTNode::String(text) => {
            let mut r: String = String::from_str("String(");
            let q: String = quoted_str(text.as_str());
            r.append(q.as_str());
            r.append(")");
            r
        },
        ASTNode::Boolean(b) => {
            if *b {
                String::from_str("Boolean(true)")
            } else {
                String::from_str("Boolean(false)")
            }
        },
        ASTNode::IfElse(cond, then_body, else_body) => {
            let mut r: String = String::from_str("IfElse(");
            let c: String = render_node(cond);
            r.append(c.as_str());
            r.append(", [");
            let list: String = render_nodes(then_body, 0);
            r.append(list.as_str());
            r.append("], ");
            proof {
                assert(then_body@.skip(0) =~= then_body@);
            }
            match else_body {
                Some(body) => {
                    r.append("Some([");
                    let elist: String = render_nodes(body, 0);
                    r.append(elist.as_str());
                    r.append("])");
                    proof {
                        assert(body@.skip(0) =~= body@);
                    }
                },
                None => {
                    r.append("None");
                },
            }
            r.append(")");
            r
        },
        ASTNode::Loop(cond, body) => {
            let mut r: String = String::from_str("Loop(");
            let c: String = render_node(cond);
            r.append(c.as_str());
            r.append(", [");
            let list: String = render_nodes(body, 0);
            r.append(list.as_str());
            r.append("])");
            proof {
                assert(body@.skip(0) =~= body@);
            }
            r
        },
        ASTNode::Spell(name, params, body) => {
            let mut r: String = String::from_str("Spell(");
            let q: String = quoted_str(name.as_str());
            r.append(q.as_str());
            r.append(", [");
            let plist: String = quoted_strings(params, 0);
            r.append(plist.as_str());
            r.append("], [");
            let list: String = render_nodes(body, 0);
            r.append(list.as_str());
            r.append("])");
            proof {
                assert(params.deep_view().skip(0) =~= params.deep_view());
                assert(body@.skip(0) =~= body@);
            }
            r
        },
        ASTNode::SpellInvocation(name, args) => {
            let mut r: String = String::from_str("SpellInvocation(");
            let q: String = quoted_str(name.as_str());
            r.append(q.as_str());
            r.append(", [");
            let list: String = render_nodes(args, 0);
            r.append(list.as_str());
            r.append("])");
            proof {
                assert(args@.skip(0) =~= args@);
            }
            r
        },
    }
}

/// The narrative for the step that found the fuel budget empty.
pub open spec fn exhausted_msg() -> Seq<char> {
    "The weave of magic frays: the evaluation limit is reached."@
}

/// What `cast` answers once its first argument has rendered to `s`.
pub open spec fn spec_cast_flavor(s: Seq<char>) -> Seq<char> {
    if s == "fireball"@ {
        "A sphere of flame erupts from your fingertips!"@
    } else if s == "frostbolt"@ {
        "Crystals of ice form and launch from your palm!"@
    } else if s == "heal"@ {
        "Soothing energies flow from your hands, mending wounds."@
    } else {
        "You trace the runes for "@ + s + ", but the magic fizzles."@
    }
}

/// The fresh environment of a spell call: parameters bound positionally
/// to the first `n` unevaluated argument nodes, in order, so that a
/// repeated parameter name keeps its last binding.
pub open spec fn bind_params_n(
    params: Seq<Seq<char>>,
    args: Seq<SpecNode>,
    n: nat,
) -> Map<Seq<char>, SpecNode>
    decreases n,
{
    if n == 0 {
        Map::empty()
    } else {
        bind_params_n(params, args, (n - 1) as nat).insert(params[n - 1], args[n - 1])
    }
}

/// Parameters bound positionally; surplus parameters or arguments are
/// ignored.
pub open spec fn bind_params(params: Seq<Seq<char>>, args: Seq<SpecNode>) -> Map<
    Seq<char>,
    SpecNode,
> {
    bind_params_n(
        params,
        args,
        if params.len() <= args.len() {
            params.len()
        } else {
            args.len()
        },
    )
}

/// One evaluation step: the state after and the narrative produced.
pub open spec fn eval(st: SpecState, n: SpecNode, fuel: nat) -> (SpecState, Seq<char>)
    decreases fuel, 2nat, 0nat,
{
    if fuel == 0 {
        (st, exhausted_msg())
    } else {
        let f = (fuel - 1) as nat;
        match n {
            SpecNode::Command(name, args) => {
                if name == "cast"@ {
                    if args.len() == 0 {
                        (st, "Error: No spell runes provided"@)
                    } else {
                        let (st1, s) = eval(st, args[0], f);
                        (st1, spec_cast_flavor(s))
                    }
                } else if name == "summon"@ {
                    if args.len() == 0 {
                        (st, "Error: No creature specified in the summoning circle"@)
                    } else {
                        let (st1, s) = eval(st, args[0], f);
                        (st1, "A mystical portal opens, and a "@ + s + " steps forth!"@)
                    }
                } else if name == "enchant"@ {
                    if args.len() < 2 {
                        (st, "Error: Enchantment requires both an item and a magical property"@)
                    } else {
                        let (st1, item) = eval(st, args[0], f);
                        let (st2, prop) = eval(st1, args[1], f);
                        (
                            st2,
                            "Arcane energies swirl around the "@ + item
                                + ", imbuing it with the power of "@ + prop + "."@,
                        )
                    }
                } else if name == "scry"@ {
                    if args.len() == 0 {
                        (st, "You gaze into your crystal ball, but see only swirling mists."@)
                    } else {
                        let (st1, vs) = eval_stmts(st, args, fuel);
                        (
                            st1,
                            "As you focus, visions of "@ + spec_join(vs, " "@)
                                + " begin to form in your mind's eye."@,
                        )
                    }
                } else {
                    (st, "The runes for '"@ + name + "' are unfamiliar."@)
                }
            },
            SpecNode::Variable(name) => (
                st,
                if st.vars.contains_key(name) {
                    render(st.vars[name])
                } else {
                    "The runes for "@ + name + " have not been inscribed."@
                },
            ),
            SpecNode::Assignment(name, value) => {
                let (st1, vs) = eval(st, *value, f);
                (
                    SpecState { vars: st1.vars.insert(name, *value), spells: st1.spells },
                    "Variable "@ + name + " has been inscribed with arcane power: "@ + vs,
                )
            },
            SpecNode::Number(text) => (st, text),
            SpecNode::String(text) => (st, text),
            SpecNode::Boolean(b) => (
                st,
                if b {
                    "true"@
                } else {
                    "false"@
                },
            ),
            SpecNode::IfElse(cond, then_body, else_body) => {
                let (st1, cs) = eval(st, *cond, f);
                let body = if cs == "true"@ {
                    then_body
                } else {
                    match else_body {
                        Some(b) => b,
                        None => Seq::empty(),
                    }
                };
                let (st2, rs) = eval_stmts(st1, body, fuel);
                (st2, spec_join(rs, "\n"@))
            },
            SpecNode::Loop(cond, body) => {
                let (st1, rs) = eval_loop(st, *cond, body, fuel);
                (st1, spec_join(rs, "\n"@))
            },
            SpecNode::Spell(name, params, body) => (
                SpecState { vars: st.vars, spells: st.spells.insert(name, (params, body)) },
                "Spell '"@ + name + "' has been inscribed in the grimoire."@,
            ),
            SpecNode::SpellInvocation(name, args) => {
                if !st.spells.contains_key(name) {
                    (st, "The spell '"@ + name + "' is not found in the grimoire."@)
                } else {
                    let (params, body) = st.spells[name];
                    let callee = SpecState { vars: bind_params(params, args), spells: st.spells };
                    let (st2, rs) = eval_stmts(callee, body, fuel);
                    (SpecState { vars: st.vars, spells: st2.spells }, spec_join(rs, "\n"@))
                }
            },
        }
    }
}

/// The statements evaluated in order, each with one unit of fuel spent,
/// collecting each narrative.
pub open spec fn eval_stmts(st: SpecState, nodes: Seq<SpecNode>, fuel: nat) -> (
    SpecState,
    Seq<Seq<char>>,
)
    decreases fuel, 0nat, nodes.len(),
{
    if nodes.len() == 0 {
        (st, Seq::empty())
    } else if fuel == 0 {
        (st, seq![exhausted_msg()])
    } else {
        let (st1, r) = eval(st, nodes[0], (fuel - 1) as nat);
        let (st2, rest) = eval_stmts(st1, nodes.drop_first(), fuel);
        (st2, seq![r] + rest)
    }
}

/// The loop: the condition is re-evaluated before every pass, the body
/// runs while it renders exactly `true`, and each pass spends fuel.
pub open spec fn eval_loop(st: SpecState, cond: SpecNode, body: Seq<SpecNode>, fuel: nat) -> (
    SpecState,
    Seq<Seq<char>>,
)
    decreases fuel, 1nat, 0nat,
{
    if fuel == 0 {
        (st, seq![exhausted_msg()])
    } else {
        let f = (fuel - 1) as nat;
        let (st1, cs) = eval(st, cond, f);
        if cs != "true"@ {
            (st1, Seq::empty())
        } else {
            let (st2, rs) = eval_stmts(st1, body, fuel);
            let (st3, rest) = eval_loop(st2, cond, body, f);
            (st3, rs + rest)
        }
    }
}

/// Renders the nodes of `v` from index `i` on, comma-separated.
fn render_nodes(v: &Vec<ASTNode>, i: usize) -> (out: String)
    requires
        i <= v.len(),
    ensures
        out@ == render_list(nodes_view(v@.skip(i as int))),
    decreases v, v.len() - i,
{
    proof {
        lemma_nodes_view(v@.skip(i as int));
    }
    let ghost tail = nodes_view(v@.skip(i as int));
    if i == v.len() {
        proof {
            assert(v@.skip(i as int) =~= Seq::<ASTNode>::empty());
        }
        String::new()
    } else if i + 1 == v.len() {
        proof {
            assert(v@.skip(i as int)[0] == v@[i as int]);
            assert(tail[0] == node_view(v@[i as int]));
        }
        render_node(&v[i])
    } else {
        proof {
            assert(v@.skip(i as int)[0] == v@[i as int]);
            assert(tail[0] == node_view(v@[i as int]));
            lemma_nodes_view(v@.skip(i as int + 1));
            assert(tail.drop_first() =~= nodes_view(v@.skip(i as int + 1)));
        }
        let mut r: String = render_node(&v[i]);
        r.append(", ");
        let rest: String = render_nodes(v, i + 1);
        r.append(rest.as_str());
        r
    }
}

/// How many fuel units a top-level `interpret` call grants: the bound
/// on evaluation depth, loop iterations and spell-call nesting.
pub const EVAL_LIMIT: u64 = 1000;

impl Interpreter {
    /// A fresh session: no variables inscribed, an empty grimoire.
    pub fn new() -> (r: Interpreter)
        ensures
            r@.vars == Map::<Seq<char>, SpecNode>::empty(),
            r@.spells == Map::<Seq<char>, (Seq<Seq<char>>, Seq<SpecNode>)>::empty(),
    {
        Interpreter { variables: Vec::new(), spells: Vec::new() }
    }

    /// The node last assigned to `name`, if any.
    fn get_var(&self, name: &str) -> (r: Option<&ASTNode>)
        ensures
            (match r {
                Some(n) => self@.vars.contains_key(name@) && node_view(*n) == self@.vars[name@],
                None => !self@.vars.contains_key(name@),
            }),
    {
        let mut i: usize = self.variables.len();
        proof {
            assert(self.variables@.take(i as int) =~= self.variables@);
        }
        while i > 0
            invariant
                i <= self.variables.len(),
                map_of_vars(self.variables@).contains_key(name@) == map_of_vars(
                    self.variables@.take(i as int),
                ).contains_key(name@),
                map_of_vars(self.variables@).contains_key(name@) ==> map_of_vars(
                    self.variables@,
                )[name@] == map_of_vars(self.variables@.take(i as int))[name@],
            decreases i,
        {
            proof {
                assert(self.variables@.take(i as int).drop_last() =~= self.variables@.take(
                    i as int - 1,
                ));
                assert(self.variables@.take(i as int).last() == self.variables@[i as int - 1]);
            }
            if str_eq(self.variables[i - 1].0.as_str(), name) {
                return Some(&self.variables[i - 1].1);
            }
            i -= 1;
        }
        proof {
            assert(self.variables@.take(0) =~= Seq::<(String, ASTNode)>::empty());
        }
        None
    }

    /// Binds `name` to the unevaluated `value` node, shadowing any
    /// earlier binding.
    fn set_var(&mut self, name: String, value: ASTNode)
        ensures
            final(self)@.vars == old(self)@.vars.insert(name@, node_view(value)),
            final(self)@.spells == old(self)@.spells,
    {
        self.variables.push((name, value));
        proof {
            assert(self.variables@.drop_last() =~= old(self).variables@);
        }
    }

    /// Enters a spell into the grimoire, shadowing any earlier one.
    fn set_spell(&mut self, name: String, params: Vec<String>, body: Vec<ASTNode>)
        ensures
            final(self)@.spells == old(self)@.spells.insert(
                name@,
                (params.deep_view(), nodes_view(body@)),
            ),
            final(self)@.vars == old(self)@.vars,
    {
        self.spells.push((name, (params, body)));
        proof {
            assert(self.spells@.drop_last() =~= old(self).spells@);
        }
    }

    /// A copy of the spell entered under `name`, if any.
    fn get_spell(&self, name: &str) -> (r: Option<(Vec<String>, Vec<ASTNode>)>)
        ensures
            (match r {
                Some(pb) => self@.spells.contains_key(name@) && (
                    pb.0.deep_view(),
                    nodes_view(pb.1@),
                ) == self@.spells[name@],
                None => !self@.spells.contains_key(name@),
            }),
    {
        let mut i: usize = self.spells.len();
        proof {
            assert(self.spells@.take(i as int) =~= self.spells@);
        }
        while i > 0
            invariant
                i <= self.spells.len(),
                map_of_spells(self.spells@).contains_key(name@) == map_of_spells(
                    self.spells@.take(i as int),
                ).contains_key(name@),
                map_of_spells(self.spells@).contains_key(name@) ==> map_of_spells(
                    self.spells@,
                )[name@] == map_of_spells(self.spells@.take(i as int))[name@],
            decreases i,
        {
            proof {
                assert(self.spells@.take(i as int).drop_last() =~= self.spells@.take(i as int - 1));
                assert(self.spells@.take(i as int).last() == self.spells@[i as int - 1]);
            }
            if str_eq(self.spells[i - 1].0.as_str(), name) {
                let params: Vec<String> = clone_strings(&self.spells[i - 1].1.0);
                let body: Vec<ASTNode> = clone_nodes(&self.spells[i - 1].1.1);
                proof {
                    assert(params.deep_view() =~= self.spells@[i as int - 1].1.0.deep_view());
                }
                return Some((params, body));
            }
            i -= 1;
        }
        proof {
            assert(self.spells@.take(0) =~= Seq::<(String, (Vec<String>, Vec<ASTNode>))>::empty());
        }
        None
    }

    /// One evaluation step of `n`, spending from `fuel`.
    fn eval_node(&mut self, n: &ASTNode, fuel: u64) -> (out: String)
        ensures
            ({
                let r = eval(old(self)@, node_view(*n), fuel as nat);
                final(self)@ == r.0 && out@ == r.1
            }),
        decreases fuel, 2nat, 0nat,
    {
        if fuel == 0 {
            return String::from_str("The weave of magic frays: the evaluation limit is reached.");
        }
        match n {
            ASTNode::Command(name, args) => {
                proof {
                    assert(node_view(*n) == SpecNode::Command(name@, nodes_view(args@)));
                }
                return self.eval_command(name, args, fuel);
            },
            ASTNode::Variable(name) => {
                match self.get_var(name.as_str()) {
                    Some(stored) => {
                        let out: String = render_node(stored);
                        return out;
                    },
                    None => {
                        let mut r: String = String::from_str("The runes for ");
                        r.append(name.as_str());
                        r.append(" have not been inscribed.");
                        return r;
                    },
                }
            },
            ASTNode::Assignment(name, value) => {
                let vs: String = self.eval_node(value, fuel - 1);
                self.set_var(name.clone(), value.duplicate());
                let mut r: String = String::from_str("Variable ");
                r.append(name.as_str());
                r.append(" has been inscribed with arcane power: ");
                r.append(vs.as_str());
                return r;
            },
            ASTNode::Number(text) => {
                return text.clone();
            },
            ASTNode::String(text) => {
                return text.clone();
            },
            ASTNode::Boolean(b) => {
                if *b {
                    return String::from_str("true");
                } else {
                    return String::from_str("false");
                }
            },
            ASTNode::IfElse(cond, then_body, else_body) => {
                let ghost st0 = self@;
                let ghost nv = node_view(*n);
                let cs: String = self.eval_node(cond, fuel - 1);
                proof {
                    let rc = eval(st0, node_view(**cond), (fuel - 1) as nat);
                    assert(self@ == rc.0 && cs@ == rc.1);
                    let sbody = if cs@ == "true"@ {
                        nodes_view(then_body@)
                    } else {
                        match else_body {
                            Some(b) => nodes_view(b@),
                            None => Seq::<SpecNode>::empty(),
                        }
                    };
                    let rr = eval_stmts(rc.0, sbody, fuel as nat);
                    let rtop = eval(st0, nv, fuel as nat);
                    assert(rtop.0 == rr.0);
                    assert(rtop.1 == spec_join(rr.1, "\n"@));
                }
                let outs: Vec<String> = if str_eq(cs.as_str(), "true") {
                    proof {
                        assert(then_body@.skip(0) =~= then_body@);
                    }
                    self.eval_stmts_exec(then_body, 0, fuel)
                } else {
                    match else_body {
                        Some(body) => {
                            proof {
                                assert(body@.skip(0) =~= body@);
                            }
                            self.eval_stmts_exec(body, 0, fuel)
                        },
                        None => {
                            let empty_outs: Vec<String> = Vec::new();
                            proof {
                                assert(empty_outs.deep_view() =~= Seq::<Seq<char>>::empty());
                            }
                            empty_outs
                        },
                    }
                };
                return join_with(&outs, "\n");
            },
            ASTNode::Loop(cond, body) => {
                let outs: Vec<String> = self.run_loop(cond, body, fuel);
                return join_with(&outs, "\n");
            },
            ASTNode::Spell(name, params, body) => {
                self.set_spell(name.clone(), clone_strings(params), clone_nodes(body));
                let mut r: String = String::from_str("Spell '");
                r.append(name.as_str());
                r.append("' has been inscribed in the grimoire.");
                return r;
            },
            ASTNode::SpellInvocation(name, args) => {
                return self.invoke_spell(name, args, fuel);
            },
        }
    }

    /// A built-in or unknown verb, applied to its argument nodes.
    fn eval_command(&mut self, name: &String, args: &Vec<ASTNode>, fuel: u64) -> (out: String)
        requires
            fuel >= 1,
        ensures
            ({
                let r = eval(old(self)@, SpecNode::Command(name@, nodes_view(args@)), fuel as nat);
                final(self)@ == r.0 && out@ == r.1
            }),
        decreases fuel, 1nat, 1nat,
    {
        proof {
            lemma_nodes_view(args@);
        }
        if str_eq(name.as_str(), "cast") {
            if args.len() == 0 {
                String::from_str("Error: No spell runes provided")
            } else {
                let s: String = self.eval_node(&args[0], fuel - 1);
                if str_eq(s.as_str(), "fireball") {
                    String::from_str("A sphere of flame erupts from your fingertips!")
                } else if str_eq(s.as_str(), "frostbolt") {
                    String::from_str("Crystals of ice form and launch from your palm!")
                } else if str_eq(s.as_str(), "heal") {
                    String::from_str("Soothing energies flow from your hands, mending wounds.")
                } else {
                    let mut r: String = String::from_str("You trace the runes for ");
                    r.append(s.as_str());
                    r.append(", but the magic fizzles.");
                    r
                }
            }
        } else if str_eq(name.as_str(), "summon") {
            if args.len() == 0 {
                String::from_str("Error: No creature specified in the summoning circle")
            } else {
                let s: String = self.eval_node(&args[0], fuel - 1);
                let mut r: String = String::from_str("A mystical portal opens, and a ");
                r.append(s.as_str());
                r.append(" steps forth!");
                r
            }
        } else if str_eq(name.as_str(), "enchant") {
            if args.len() < 2 {
                String::from_str("Error: Enchantment requires both an item and a magical property")
            } else {
                let item: String = self.eval_node(&args[0], fuel - 1);
                let prop: String = self.eval_node(&args[1], fuel - 1);
                let mut r: String = String::from_str("Arcane energies swirl around the ");
                r.append(item.as_str());
                r.append(", imbuing it with the power of ");
                r.append(prop.as_str());
                r.append(".");
                r
            }
        } else if str_eq(name.as_str(), "scry") {
            if args.len() == 0 {
                String::from_str("You gaze into your crystal ball, but see only swirling mists.")
            } else {
                proof {
                    assert(args@.skip(0) =~= args@);
                }
                let outs: Vec<String> = self.eval_stmts_exec(args, 0, fuel);
                let vision: String = join_with(&outs, " ");
                let mut r: String = String::from_str("As you focus, visions of ");
                r.append(vision.as_str());
                r.append(" begin to form in your mind's eye.");
                r
            }
        } else {
            let mut r: String = String::from_str("The runes for '");
            r.append(name.as_str());
            r.append("' are unfamiliar.");
            r
        }
    }

    /// The statements of `stmts` from index `i` on, evaluated in order.
    fn eval_stmts_exec(&mut self, stmts: &Vec<ASTNode>, i: usize, fuel: u64) -> (outs: Vec<String>)
        requires
            fuel >= 1,
            i <= stmts.len(),
        ensures
            ({
                let r = eval_stmts(old(self)@, nodes_view(stmts@.skip(i as int)), fuel as nat);
                final(self)@ == r.0 && outs.deep_view() == r.1
            }),
        decreases fuel, 0nat, stmts.len() - i,
    {
        proof {
            lemma_nodes_view(stmts@.skip(i as int));
        }
        let ghost tail = nodes_view(stmts@.skip(i as int));
        if i == stmts.len() {
            proof {
                assert(stmts@.skip(i as int) =~= Seq::<ASTNode>::empty());
            }
            let outs: Vec<String> = Vec::new();
            proof {
                assert(outs.deep_view() =~= Seq::<Seq<char>>::empty());
            }
            outs
        } else {
            proof {
                assert(stmts@.skip(i as int)[0] == stmts@[i as int]);
                assert(tail[0] == node_view(stmts@[i as int]));
                lemma_nodes_view(stmts@.skip(i as int + 1));
                assert(tail.drop_first() =~= nodes_view(stmts@.skip(i as int + 1)));
            }
            let out: String = self.eval_node(&stmts[i], fuel - 1);
            let ghost ov = out@;
            let mut rest: Vec<String> = self.eval_stmts_exec(stmts, i + 1, fuel);
            let ghost pre = rest.deep_view();
            let ghost pre_seq = rest@;
            rest.insert(0, out);
            proof {
                assert forall|j: int| 0 <= j < rest.deep_view().len() implies rest.deep_view()[j]
                    == (seq![ov] + pre)[j] by {
                    if j > 0 {
                        assert(rest@[j] == pre_seq[j - 1]);
                    }
                }
                assert(rest.deep_view() =~= seq![ov] + pre);
            }
            rest
        }
    }

    /// The loop body, run while the condition renders exactly `true`.
    fn run_loop(&mut self, cond: &ASTNode, body: &Vec<ASTNode>, fuel: u64) -> (outs: Vec<String>)
        ensures
            ({
                let r = eval_loop(old(self)@, node_view(*cond), nodes_view(body@), fuel as nat);
                final(self)@ == r.0 && outs.deep_view() == r.1
            }),
        decreases fuel, 1nat, 0nat,
    {
        if fuel == 0 {
            let mut outs: Vec<String> = Vec::new();
            outs.push(
                String::from_str("The weave of magic frays: the evaluation limit is reached."),
            );
            proof {
                assert(outs.deep_view() =~= seq![exhausted_msg()]);
            }
            return outs;
        }
        let cs: String = self.eval_node(cond, fuel - 1);
        if !str_eq(cs.as_str(), "true") {
            let outs: Vec<String> = Vec::new();
            proof {
                assert(outs.deep_view() =~= Seq::<Seq<char>>::empty());
            }
            outs
        } else {
            proof {
                assert(body@.skip(0) =~= body@);
            }
            let mut outs: Vec<String> = self.eval_stmts_exec(body, 0, fuel);
            let ghost pre = outs.deep_view();
            let mut rest: Vec<String> = self.run_loop(cond, body, fuel - 1);
            let ghost rest_dv = rest.deep_view();
            let ghost pre_seq = outs@;
            let ghost rest_seq = rest@;
            outs.append(&mut rest);
            proof {
                assert forall|j: int| 0 <= j < outs.deep_view().len() implies outs.deep_view()[j]
                    == (pre + rest_dv)[j] by {
                    if j < pre_seq.len() {
                        assert(outs@[j] == pre_seq[j]);
                    } else {
                        assert(outs@[j] == rest_seq[j - pre_seq.len()]);
                    }
                }
                assert(outs.deep_view() =~= pre + rest_dv);
            }
            outs
        }
    }

    /// Looks the spell up, binds parameters positionally into a fresh
    /// environment, runs the body under it, and restores the caller's
    /// environment afterwards.
    fn invoke_spell(&mut self, name: &String, args: &Vec<ASTNode>, fuel: u64) -> (out: String)
        requires
            fuel >= 1,
        ensures
            ({
                let r = eval(
                    old(self)@,
                    SpecNode::SpellInvocation(name@, nodes_view(args@)),
                    fuel as nat,
                );
                final(self)@ == r.0 && out@ == r.1
            }),
        decreases fuel, 1nat, 1nat,
    {
        proof {
            lemma_nodes_view(args@);
        }
        match self.get_spell(name.as_str()) {
            None => {
                let mut r: String = String::from_str("The spell '");
                r.append(name.as_str());
                r.append("' is not found in the grimoire.");
                r
            },
            Some((params, body)) => {
                let n: usize = if params.len() < args.len() {
                    params.len()
                } else {
                    args.len()
                };
                let mut fresh: Vec<(String, ASTNode)> = Vec::new();
                let mut i: usize = 0;
                while i < n
                    invariant
                        i <= n,
                        n <= params.len(),
                        n <= args.len(),
                        map_of_vars(fresh@) == bind_params_n(
                            params.deep_view(),
                            nodes_view(args@),
                            i as nat,
                        ),
                    decreases n - i,
                {
                    proof {
                        lemma_nodes_view(args@);
                        assert(params.deep_view()[i as int] == params@[i as int]@);
                    }
                    let ghost pre = fresh@;
                    fresh.push((params[i].clone(), args[i].duplicate()));
                    proof {
                        assert(fresh@.drop_last() =~= pre);
                    }
                    i += 1;
                }
                proof {
                    assert(params.deep_view().len() == params@.len());
                    assert(nodes_view(args@).len() == args@.len());
                }
                let mut saved: Vec<(String, ASTNode)> = fresh;
                core::mem::swap(&mut self.variables, &mut saved);
                proof {
                    assert(body@.skip(0) =~= body@);
                }
                let outs: Vec<String> = self.eval_stmts_exec(&body, 0, fuel);
                self.variables = saved;
                join_with(&outs, "\n")
            },
        }
    }

    /// Evaluates one node with an explicit fuel budget.
    pub fn interpret_with_limit(&mut self, ast: &ASTNode, limit: u64) -> (out: String)
        ensures
            ({
                let r = eval(old(self)@, node_view(*ast), limit as nat);
                final(self)@ == r.0 && out@ == r.1
            }),
    {
        self.eval_node(ast, limit)
    }

    /// Evaluates one parsed incantation, with the session's default
    /// fuel budget, mutating the environment and the grimoire.
    pub fn interpret(&mut self, ast: ASTNode) -> (out: String)
        ensures
            ({
                let r = eval(old(self)@, node_view(ast), EVAL_LIMIT as nat);
                final(self)@ == r.0 && out@ == r.1
            }),
    {
        self.eval_node(&ast, EVAL_LIMIT)
    }
}

} // verus!

