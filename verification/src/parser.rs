//! The RunicScript abstract syntax tree and its parser.
//!
//! The first token of an incantation selects the grammar rule:
//! `inscribe` (assignment), `wyrd` (conditional), `circle` (loop),
//! `spell` (definition), `invoke` (call); any other leading token is a
//! generic command whose remaining tokens are bare variable references.
//! A block runs from a literal `begin` token to a literal `end` token;
//! its interior is split on literal `;` tokens into statements, and a
//! single trailing `;` before `end` is permitted.

use vstd::prelude::*;
use vstd::string::StrSliceExecFns;
use vstd::string::StringExecFns;
use crate::numeral::is_numeral;
use crate::numeral::is_numeral_token;
use crate::text::push_char;
use crate::text::str_eq;

verus! {

/// A parsed RunicScript program node.
#[derive(Debug, PartialEq)]
pub enum ASTNode {
    Command(String, Vec<ASTNode>),
    Variable(String),
    Assignment(String, Box<ASTNode>),
    Number(String),
    String(String),
    Boolean(bool),
    IfElse(Box<ASTNode>, Vec<ASTNode>, Option<Vec<ASTNode>>),
    Loop(Box<ASTNode>, Vec<ASTNode>),
    Spell(String, Vec<String>, Vec<ASTNode>),
    SpellInvocation(String, Vec<ASTNode>),
}

/// The mathematical model of an AST node: names and literal texts are
/// character sequences, node lists are sequences.
pub enum SpecNode {
    Command(Seq<char>, Seq<SpecNode>),
    Variable(Seq<char>),
    Assignment(Seq<char>, Box<SpecNode>),
    Number(Seq<char>),
    String(Seq<char>),
    Boolean(bool),
    IfElse(Box<SpecNode>, Seq<SpecNode>, Option<Seq<SpecNode>>),
    Loop(Box<SpecNode>, Seq<SpecNode>),
    Spell(Seq<char>, Seq<Seq<char>>, Seq<SpecNode>),
    SpellInvocation(Seq<char>, Seq<SpecNode>),
}

/// The model of one AST node.
pub open spec fn node_view(n: ASTNode) -> SpecNode
    decreases n,
{
    match n {
        ASTNode::Command(name, args) => SpecNode::Command(name@, nodes_view(args@)),
        ASTNode::Variable(name) => SpecNode::Variable(name@),
        ASTNode::Assignment(name, value) => SpecNode::Assignment(
            name@,
            Box::new(node_view(*value)),
        ),
        ASTNode::Number(text) => SpecNode::Number(text@),
        ASTNode::String(text) => SpecNode::String(text@),
        ASTNode::Boolean(b) => SpecNode::Boolean(b),
        ASTNode::IfElse(cond, then_body, else_body) => SpecNode::IfElse(
            Box::new(node_view(*cond)),
            nodes_view(then_body@),
            match else_body {
                Some(body) => Some(nodes_view(body@)),
                None => None,
            },
        ),
        ASTNode::Loop(cond, body) => SpecNode::Loop(Box::new(node_view(*cond)), nodes_view(body@)),
        ASTNode::Spell(name, params, body) => SpecNode::Spell(
            name@,
            params.deep_view(),
            nodes_view(body@),
        ),
        ASTNode::SpellInvocation(name, args) => SpecNode::SpellInvocation(
            name@,
            nodes_view(args@),
        ),
    }
}

/// The model of a list of AST nodes.
pub open spec fn nodes_view(nodes: Seq<ASTNode>) -> Seq<SpecNode>
    decreases nodes,
{
    if nodes.len() == 0 {
        Seq::empty()
    } else {
        seq![node_view(nodes[0])] + nodes_view(nodes.drop_first())
    }
}

impl View for ASTNode {
    type V = SpecNode;

    open spec fn view(&self) -> SpecNode {
        node_view(*self)
    }
}

impl ASTNode {
    /// A structurally equal copy of this node.
    pub fn duplicate(&self) -> (r: ASTNode)
        ensures
            node_view(r) == node_view(*self),
        decreases self,
    {
        match self {
            ASTNode::Command(name, args) => ASTNode::Command(name.clone(), clone_nodes(args)),
            ASTNode::Variable(name) => ASTNode::Variable(name.clone()),
            ASTNode::Assignment(name, value) => ASTNode::Assignment(
                name.clone(),
                Box::new(value.duplicate()),
            ),
            ASTNode::Number(text) => ASTNode::Number(text.clone()),
            ASTNode::String(text) => ASTNode::String(text.clone()),
            ASTNode::Boolean(b) => ASTNode::Boolean(*b),
            ASTNode::IfElse(cond, then_body, else_body) => ASTNode::IfElse(
                Box::new(cond.duplicate()),
                clone_nodes(then_body),
                match else_body {
                    Some(body) => Some(clone_nodes(body)),
                    None => None,
                },
            ),
            ASTNode::Loop(cond, body) => ASTNode::Loop(
                Box::new(cond.duplicate()),
                clone_nodes(body),
            ),
            ASTNode::Spell(name, params, body) => ASTNode::Spell(
                name.clone(),
                clone_strings(params),
                clone_nodes(body),
            ),
            ASTNode::SpellInvocation(name, args) => ASTNode::SpellInvocation(
                name.clone(),
                clone_nodes(args),
            ),
        }
    }
}

/// A copy of a node list, structurally equal element by element.
pub(crate) fn clone_nodes(v: &Vec<ASTNode>) -> (r: Vec<ASTNode>)
    ensures
        nodes_view(r@) == nodes_view(v@),
    decreases v,
{
    let mut r: Vec<ASTNode> = Vec::new();
    let mut i: usize = 0;
    while i < v.len()
        invariant
            i <= v.len(),
            r@.len() == i,
            forall|j: int| 0 <= j < i ==> node_view(r@[j]) == node_view(v@[j]),
        decreases v@, v.len() - i,
    {
        r.push(v[i].duplicate());
        i += 1;
    }
    proof {
        lemma_nodes_view(r@);
        lemma_nodes_view(v@);
        assert(nodes_view(r@) =~= nodes_view(v@));
    }
    r
}

/// A copy of a list of strings.
pub(crate) fn clone_strings(v: &Vec<String>) -> (r: Vec<String>)
    ensures
        r@ == v@,
{
    let mut r: Vec<String> = Vec::new();
    let mut i: usize = 0;
    while i < v.len()
        invariant
            i <= v.len(),
            r@ =~= v@.take(i as int),
        decreases v.len() - i,
    {
        r.push(v[i].clone());
        i += 1;
    }
    proof {
        assert(r@ =~= v@);
    }
    r
}

pub proof fn lemma_nodes_view(s: Seq<ASTNode>)
    ensures
        nodes_view(s).len() == s.len(),
        forall|i: int| 0 <= i < s.len() ==> nodes_view(s)[i] == node_view(s[i]),
    decreases s.len(),
{
    if s.len() > 0 {
        lemma_nodes_view(s.drop_first());
        assert forall|i: int| 0 <= i < s.len() implies nodes_view(s)[i] == node_view(s[i]) by {
            if i > 0 {
                assert(nodes_view(s)[i] == nodes_view(s.drop_first())[i - 1]);
                assert(s.drop_first()[i - 1] == s[i]);
            }
        }
    }
}

/// One token read as an expression: `true` and `false` are booleans, a
/// token wrapped in quote characters is a string literal (quotes
/// stripped, no escapes), a numeral is a number, and anything else is a
/// variable reference.
pub open spec fn spec_parse_expression(t: Seq<char>) -> SpecNode {
    if t == "true"@ {
        SpecNode::Boolean(true)
    } else if t == "false"@ {
        SpecNode::Boolean(false)
    } else if t.len() >= 2 && t[0] == '"' && t[t.len() - 1] == '"' {
        SpecNode::String(t.subrange(1, t.len() - 1))
    } else if is_numeral(t) {
        SpecNode::Number(t)
    } else {
        SpecNode::Variable(t)
    }
}

/// The comma-separated pieces of `s`, given that the characters of
/// `cur` have been read already and start the current piece.
pub open spec fn comma_split_acc(s: Seq<char>, cur: Seq<char>) -> Seq<Seq<char>>
    decreases s.len(),
{
    if s.len() == 0 {
        seq![cur]
    } else if s[0] == ',' {
        seq![cur] + comma_split_acc(s.drop_first(), Seq::empty())
    } else {
        comma_split_acc(s.drop_first(), cur.push(s[0]))
    }
}

/// The comma-separated pieces of `s`; empty pieces are kept.
pub open spec fn comma_split(s: Seq<char>) -> Seq<Seq<char>> {
    comma_split_acc(s, Seq::empty())
}

/// The index of the first occurrence of `w` in `ts`, or `ts.len()`.
pub open spec fn first_idx(ts: Seq<Seq<char>>, w: Seq<char>) -> int
    decreases ts.len(),
{
    if ts.len() == 0 {
        0
    } else if ts[0] == w {
        0
    } else {
        1 + first_idx(ts.drop_first(), w)
    }
}

pub proof fn lemma_first_idx(ts: Seq<Seq<char>>, w: Seq<char>)
    ensures
        0 <= first_idx(ts, w) <= ts.len(),
        forall|i: int| 0 <= i < first_idx(ts, w) ==> ts[i] != w,
        first_idx(ts, w) < ts.len() ==> ts[first_idx(ts, w)] == w,
    decreases ts.len(),
{
    if ts.len() > 0 && ts[0] != w {
        lemma_first_idx(ts.drop_first(), w);
        let k = first_idx(ts.drop_first(), w);
        assert forall|i: int| 0 <= i < 1 + k implies ts[i] != w by {
            if i > 0 {
                assert(ts.drop_first()[i - 1] != w);
                assert(ts[i] == ts.drop_first()[i - 1]);
            }
        }
    }
}

pub proof fn lemma_first_idx_is(ts: Seq<Seq<char>>, w: Seq<char>, j: int)
    requires
        0 <= j <= ts.len(),
        forall|i: int| 0 <= i < j ==> ts[i] != w,
        j == ts.len() || ts[j] == w,
    ensures
        first_idx(ts, w) == j,
    decreases j,
{
    if ts.len() > 0 && j > 0 {
        assert(ts[0] != w);
        assert forall|i: int| 0 <= i < j - 1 implies ts.drop_first()[i] != w by {
            assert(ts.drop_first()[i] == ts[i + 1]);
        }
        if j < ts.len() {
            assert(ts.drop_first()[j - 1] == ts[j]);
        }
        lemma_first_idx_is(ts.drop_first(), w, j - 1);
    }
}

/// Each remaining token as a bare variable reference.
pub open spec fn var_args(ts: Seq<Seq<char>>) -> Seq<SpecNode> {
    Seq::new(ts.len(), |i: int| SpecNode::Variable(ts[i]))
}

/// The parse of one incantation, dispatching on the leading token.
pub open spec fn spec_parse(ts: Seq<Seq<char>>) -> Result<SpecNode, Seq<char>>
    decreases ts.len(), 1nat,
{
    if ts.len() == 0 {
        Err("No tokens to parse"@)
    } else if ts[0] == "inscribe"@ {
        spec_parse_assignment(ts.drop_first())
    } else if ts[0] == "wyrd"@ {
        spec_parse_if_else(ts.drop_first())
    } else if ts[0] == "circle"@ {
        spec_parse_loop(ts.drop_first())
    } else if ts[0] == "spell"@ {
        spec_parse_spell_definition(ts.drop_first())
    } else if ts[0] == "invoke"@ {
        spec_parse_spell_invocation(ts.drop_first())
    } else {
        Ok(SpecNode::Command(ts[0], var_args(ts.drop_first())))
    }
}

/// `<name> as <expr>`, binding the name to the unevaluated expression.
pub open spec fn spec_parse_assignment(ts: Seq<Seq<char>>) -> Result<SpecNode, Seq<char>> {
    if ts.len() < 3 || ts[1] != "as"@ {
        Err("Invalid assignment syntax"@)
    } else {
        Ok(SpecNode::Assignment(ts[0], Box::new(spec_parse_expression(ts[2]))))
    }
}

/// `<expr> begin .. end [otherwise begin .. end]`; the tokens are split
/// on the first `otherwise`, and the else-part reaches to the next
/// `otherwise` or to the end.
pub open spec fn spec_parse_if_else(ts: Seq<Seq<char>>) -> Result<SpecNode, Seq<char>>
    decreases ts.len(), 0nat,
    via spec_parse_if_else_decreases
{
    let k1 = first_idx(ts, "otherwise"@);
    if k1 < 2 {
        Err("Invalid if structure"@)
    } else {
        let if_part = ts.take(k1);
        let cond = spec_parse_expression(if_part[0]);
        match spec_parse_block(if_part.skip(1)) {
            Err(e) => Err(e),
            Ok(then_body) => {
                if k1 == ts.len() {
                    Ok(SpecNode::IfElse(Box::new(cond), then_body, None))
                } else {
                    let rest = ts.skip(k1 + 1);
                    let k2 = first_idx(rest, "otherwise"@);
                    match spec_parse_block(rest.take(k2)) {
                        Err(e) => Err(e),
                        Ok(else_body) => Ok(
                            SpecNode::IfElse(Box::new(cond), then_body, Some(else_body)),
                        ),
                    }
                }
            },
        }
    }
}

#[via_fn]
proof fn spec_parse_if_else_decreases(ts: Seq<Seq<char>>) {
    lemma_first_idx(ts, "otherwise"@);
    let k1 = first_idx(ts, "otherwise"@);
    if 2 <= k1 && k1 < ts.len() {
        lemma_first_idx(ts.skip(k1 + 1), "otherwise"@);
    }
}

/// `<expr> begin .. end`: a condition and a loop body.
pub open spec fn spec_parse_loop(ts: Seq<Seq<char>>) -> Result<SpecNode, Seq<char>>
    decreases ts.len(), 0nat,
{
    if ts.len() < 2 {
        Err("Invalid loop structure"@)
    } else {
        match spec_parse_block(ts.skip(1)) {
            Err(e) => Err(e),
            Ok(body) => Ok(SpecNode::Loop(Box::new(spec_parse_expression(ts[0])), body)),
        }
    }
}

/// `<name> with <csv-params> begin .. end`: parameters are comma-split
/// from the single token after `with`.
pub open spec fn spec_parse_spell_definition(ts: Seq<Seq<char>>) -> Result<SpecNode, Seq<char>>
    decreases ts.len(), 0nat,
{
    if ts.len() < 4 || ts[1] != "with"@ {
        Err("Invalid spell definition"@)
    } else {
        match spec_parse_block(ts.skip(3)) {
            Err(e) => Err(e),
            Ok(body) => Ok(SpecNode::Spell(ts[0], comma_split(ts[2]), body)),
        }
    }
}

/// `<name> <arg>..`: every remaining token is a bare variable reference.
pub open spec fn spec_parse_spell_invocation(ts: Seq<Seq<char>>) -> Result<SpecNode, Seq<char>> {
    if ts.len() == 0 {
        Err("Invalid spell invocation"@)
    } else {
        Ok(SpecNode::SpellInvocation(ts[0], var_args(ts.drop_first())))
    }
}

/// `begin <stmts> end`; one trailing `;` before `end` is permitted.
pub open spec fn spec_parse_block(ts: Seq<Seq<char>>) -> Result<Seq<SpecNode>, Seq<char>>
    decreases ts.len(), 3nat,
{
    if ts.len() < 2 || ts[0] != "begin"@ || ts.last() != "end"@ {
        Err("Invalid block structure"@)
    } else {
        let interior = ts.subrange(1, ts.len() - 1);
        let trimmed = if interior.len() > 0 && interior.last() == ";"@ {
            interior.drop_last()
        } else {
            interior
        };
        spec_parse_stmts(trimmed)
    }
}

/// The statements of a block interior, split on `;` tokens; every
/// statement group must itself parse.
pub open spec fn spec_parse_stmts(ss: Seq<Seq<char>>) -> Result<Seq<SpecNode>, Seq<char>>
    decreases ss.len(), 2nat,
    via spec_parse_stmts_decreases
{
    let k = first_idx(ss, ";"@);
    match spec_parse(ss.take(k)) {
        Err(e) => Err(e),
        Ok(node) => {
            if k == ss.len() {
                Ok(seq![node])
            } else {
                match spec_parse_stmts(ss.skip(k + 1)) {
                    Err(e) => Err(e),
                    Ok(rest) => Ok(seq![node] + rest),
                }
            }
        },
    }
}

#[via_fn]
proof fn spec_parse_stmts_decreases(ss: Seq<Seq<char>>) {
    lemma_first_idx(ss, ";"@);
}

/// Whether the parser's answer and the model's answer agree.
pub open spec fn parse_result_matches(
    r: Result<ASTNode, String>,
    s: Result<SpecNode, Seq<char>>,
) -> bool {
    match (r, s) {
        (Ok(n), Ok(sn)) => node_view(n) == sn,
        (Err(m), Err(e)) => m@ == e,
        _ => false,
    }
}

/// Whether a parsed statement list and the model's answer agree.
pub open spec fn stmts_result_matches(
    r: Result<Vec<ASTNode>, String>,
    s: Result<Seq<SpecNode>, Seq<char>>,
) -> bool {
    match (r, s) {
        (Ok(v), Ok(sn)) => nodes_view(v@) == sn,
        (Err(m), Err(e)) => m@ == e,
        _ => false,
    }
}

/// The index of the first token in `[lo, hi)` equal to `w`, or `hi`.
fn find_token(tokens: &Vec<String>, lo: usize, hi: usize, w: &str) -> (j: usize)
    requires
        lo <= hi <= tokens.len(),
    ensures
        lo <= j <= hi,
        forall|i: int| lo <= i < j ==> tokens@[i]@ != w@,
        j < hi ==> tokens@[j as int]@ == w@,
{
    let mut j: usize = lo;
    while j < hi && !str_eq(tokens[j].as_str(), w)
        invariant
            lo <= j <= hi,
            hi <= tokens.len(),
            forall|i: int| lo <= i < j ==> tokens@[i]@ != w@,
        decreases hi - j,
    {
        j += 1;
    }
    j
}

/// One token read as an expression.
fn parse_expression_token(t: &String) -> (n: ASTNode)
    ensures
        node_view(n) == spec_parse_expression(t@),
{
    if str_eq(t.as_str(), "true") {
        ASTNode::Boolean(true)
    } else if str_eq(t.as_str(), "false") {
        ASTNode::Boolean(false)
    } else {
        let len: usize = t.as_str().unicode_len();
        if len >= 2 && t.as_str().get_char(0) == '"' && t.as_str().get_char(len - 1) == '"' {
            let inner: String = t.as_str().substring_char(1, len - 1).to_owned();
            ASTNode::String(inner)
        } else if is_numeral_token(t.as_str()) {
            ASTNode::Number(t.clone())
        } else {
            ASTNode::Variable(t.clone())
        }
    }
}

/// The comma-separated pieces of a parameter token.
fn split_commas(s: &str) -> (r: Vec<String>)
    ensures
        r.deep_view() == comma_split(s@),
{
    let len: usize = s.unicode_len();
    let mut acc: Vec<String> = Vec::new();
    let mut cur: String = String::new();
    let mut i: usize = 0;
    proof {
        assert(s@.skip(0) =~= s@);
    }
    while i < len
        invariant
            i <= len,
            len == s@.len(),
            comma_split(s@) == acc.deep_view() + comma_split_acc(s@.skip(i as int), cur@),
        decreases len - i,
    {
        let c: char = s.get_char(i);
        proof {
            assert(s@.skip(i as int)[0] == s@[i as int]);
            assert(s@.skip(i as int).drop_first() =~= s@.skip(i as int + 1));
        }
        if c == ',' {
            let ghost pre = acc.deep_view();
            let ghost cv = cur@;
            let ghost rest = comma_split_acc(s@.skip(i as int + 1), Seq::empty());
            acc.push(cur);
            cur = String::new();
            proof {
                assert(acc.deep_view() =~= pre.push(cv));
                assert((pre + (seq![cv] + rest)) =~= (pre.push(cv) + rest));
            }
        } else {
            push_char(&mut cur, c);
        }
        i += 1;
    }
    proof {
        assert(s@.skip(len as int) =~= Seq::<char>::empty());
    }
    let ghost pre = acc.deep_view();
    let ghost cv = cur@;
    acc.push(cur);
    proof {
        assert(acc.deep_view() =~= pre.push(cv));
        assert(pre + seq![cv] =~= pre.push(cv));
    }
    acc
}

/// The remaining tokens, each as a bare variable reference.
fn variable_args(tokens: &Vec<String>, lo: usize, hi: usize) -> (args: Vec<ASTNode>)
    requires
        lo <= hi <= tokens.len(),
    ensures
        nodes_view(args@) == var_args(tokens.deep_view().subrange(lo as int, hi as int)),
{
    let mut args: Vec<ASTNode> = Vec::new();
    let mut i: usize = lo;
    while i < hi
        invariant
            lo <= i <= hi <= tokens.len(),
            args@.len() == i - lo,
            forall|j: int|
                0 <= j < args@.len() ==> args@[j] == ASTNode::Variable(tokens@[lo + j]),
        decreases hi - i,
    {
        args.push(ASTNode::Variable(tokens[i].clone()));
        i += 1;
    }
    proof {
        lemma_nodes_view(args@);
        assert(nodes_view(args@) =~= var_args(tokens.deep_view().subrange(lo as int, hi as int)));
    }
    args
}

/// Parses the token range `[lo, hi)` as one incantation.
fn parse_range(tokens: &Vec<String>, lo: usize, hi: usize) -> (r: Result<ASTNode, String>)
    requires
        lo <= hi <= tokens.len(),
    ensures
        parse_result_matches(r, spec_parse(tokens.deep_view().subrange(lo as int, hi as int))),
    decreases hi - lo, 1nat,
{
    let ghost ts = tokens.deep_view().subrange(lo as int, hi as int);
    if lo == hi {
        return Err(String::from_str("No tokens to parse"));
    }
    proof {
        assert(ts[0] == tokens@[lo as int]@);
        assert(ts.drop_first() =~= tokens.deep_view().subrange(lo as int + 1, hi as int));
    }
    let t0: &String = &tokens[lo];
    if str_eq(t0.as_str(), "inscribe") {
        parse_assignment_range(tokens, lo + 1, hi)
    } else if str_eq(t0.as_str(), "wyrd") {
        parse_if_else_range(tokens, lo + 1, hi)
    } else if str_eq(t0.as_str(), "circle") {
        parse_loop_range(tokens, lo + 1, hi)
    } else if str_eq(t0.as_str(), "spell") {
        parse_spell_definition_range(tokens, lo + 1, hi)
    } else if str_eq(t0.as_str(), "invoke") {
        parse_spell_invocation_range(tokens, lo + 1, hi)
    } else {
        let name: String = tokens[lo].clone();
        let args: Vec<ASTNode> = variable_args(tokens, lo + 1, hi);
        Ok(ASTNode::Command(name, args))
    }
}

fn parse_assignment_range(tokens: &Vec<String>, lo: usize, hi: usize) -> (r: Result<
    ASTNode,
    String,
>)
    requires
        lo <= hi <= tokens.len(),
    ensures
        parse_result_matches(
            r,
            spec_parse_assignment(tokens.deep_view().subrange(lo as int, hi as int)),
        ),
{
    let ghost ts = tokens.deep_view().subrange(lo as int, hi as int);
    if hi - lo < 3 || !str_eq(tokens[lo + 1].as_str(), "as") {
        proof {
            if hi - lo >= 3 {
                assert(ts[1] == tokens@[lo as int + 1]@);
            }
        }
        return Err(String::from_str("Invalid assignment syntax"));
    }
    proof {
        assert(ts[0] == tokens@[lo as int]@);
        assert(ts[1] == tokens@[lo as int + 1]@);
        assert(ts[2] == tokens@[lo as int + 2]@);
    }
    let name: String = tokens[lo].clone();
    let value: ASTNode = parse_expression_token(&tokens[lo + 2]);
    Ok(ASTNode::Assignment(name, Box::new(value)))
}

fn parse_if_else_range(tokens: &Vec<String>, lo: usize, hi: usize) -> (r: Result<ASTNode, String>)
    requires
        lo <= hi <= tokens.len(),
    ensures
        parse_result_matches(
            r,
            spec_parse_if_else(tokens.deep_view().subrange(lo as int, hi as int)),
        ),
    decreases hi - lo, 0nat,
{
    let ghost ts = tokens.deep_view().subrange(lo as int, hi as int);
    let k1: usize = find_token(tokens, lo, hi, "otherwise");
    proof {
        assert(forall|i: int| 0 <= i < k1 - lo ==> ts[i] == tokens@[lo + i]@);
        if k1 < hi {
            assert(ts[k1 - lo] == tokens@[k1 as int]@);
        }
        lemma_first_idx_is(ts, "otherwise"@, k1 - lo as int);
    }
    if k1 - lo < 2 {
        return Err(String::from_str("Invalid if structure"));
    }
    proof {
        assert(ts.take(k1 - lo as int)[0] == ts[0]);
        assert(ts[0] == tokens@[lo as int]@);
        assert(ts.take(k1 - lo as int).skip(1) =~= tokens.deep_view().subrange(
            lo as int + 1,
            k1 as int,
        ));
    }
    let cond: ASTNode = parse_expression_token(&tokens[lo]);
    let then_body: Vec<ASTNode> = match parse_block_range(tokens, lo + 1, k1) {
        Err(e) => { return Err(e) },
        Ok(b) => b,
    };
    if k1 == hi {
        Ok(ASTNode::IfElse(Box::new(cond), then_body, None))
    } else {
        let ghost rest = ts.skip(k1 - lo as int + 1);
        proof {
            assert(rest =~= tokens.deep_view().subrange(k1 as int + 1, hi as int));
        }
        let k2: usize = find_token(tokens, k1 + 1, hi, "otherwise");
        proof {
            assert(forall|i: int| 0 <= i < k2 - (k1 + 1) ==> rest[i] == tokens@[k1 + 1 + i]@);
            if k2 < hi {
                assert(rest[k2 - (k1 + 1) as int] == tokens@[k2 as int]@);
            }
            lemma_first_idx_is(rest, "otherwise"@, k2 - (k1 + 1) as int);
            assert(rest.take(k2 - (k1 + 1) as int) =~= tokens.deep_view().subrange(
                k1 as int + 1,
                k2 as int,
            ));
        }
        let else_body: Vec<ASTNode> = match parse_block_range(tokens, k1 + 1, k2) {
            Err(e) => { return Err(e) },
            Ok(b) => b,
        };
        Ok(ASTNode::IfElse(Box::new(cond), then_body, Some(else_body)))
    }
}

fn parse_loop_range(tokens: &Vec<String>, lo: usize, hi: usize) -> (r: Result<ASTNode, String>)
    requires
        lo <= hi <= tokens.len(),
    ensures
        parse_result_matches(r, spec_parse_loop(tokens.deep_view().subrange(lo as int, hi as int))),
    decreases hi - lo, 0nat,
{
    let ghost ts = tokens.deep_view().subrange(lo as int, hi as int);
    if hi - lo < 2 {
        return Err(String::from_str("Invalid loop structure"));
    }
    proof {
        assert(ts[0] == tokens@[lo as int]@);
        assert(ts.skip(1) =~= tokens.deep_view().subrange(lo as int + 1, hi as int));
    }
    let cond: ASTNode = parse_expression_token(&tokens[lo]);
    match parse_block_range(tokens, lo + 1, hi) {
        Err(e) => Err(e),
        Ok(body) => Ok(ASTNode::Loop(Box::new(cond), body)),
    }
}

fn parse_spell_definition_range(tokens: &Vec<String>, lo: usize, hi: usize) -> (r: Result<
    ASTNode,
    String,
>)
    requires
        lo <= hi <= tokens.len(),
    ensures
        parse_result_matches(
            r,
            spec_parse_spell_definition(tokens.deep_view().subrange(lo as int, hi as int)),
        ),
    decreases hi - lo, 0nat,
{
    let ghost ts = tokens.deep_view().subrange(lo as int, hi as int);
    if hi - lo < 4 || !str_eq(tokens[lo + 1].as_str(), "with") {
        proof {
            if hi - lo >= 4 {
                assert(ts[1] == tokens@[lo as int + 1]@);
            }
        }
        return Err(String::from_str("Invalid spell definition"));
    }
    proof {
        assert(ts[0] == tokens@[lo as int]@);
        assert(ts[1] == tokens@[lo as int + 1]@);
        assert(ts[2] == tokens@[lo as int + 2]@);
        assert(ts.skip(3) =~= tokens.deep_view().subrange(lo as int + 3, hi as int));
    }
    let name: String = tokens[lo].clone();
    let params: Vec<String> = split_commas(tokens[lo + 2].as_str());
    match parse_block_range(tokens, lo + 3, hi) {
        Err(e) => Err(e),
        Ok(body) => Ok(ASTNode::Spell(name, params, body)),
    }
}

fn parse_spell_invocation_range(tokens: &Vec<String>, lo: usize, hi: usize) -> (r: Result<
    ASTNode,
    String,
>)
    requires
        lo <= hi <= tokens.len(),
    ensures
        parse_result_matches(
            r,
            spec_parse_spell_invocation(tokens.deep_view().subrange(lo as int, hi as int)),
        ),
{
    let ghost ts = tokens.deep_view().subrange(lo as int, hi as int);
    if lo == hi {
        return Err(String::from_str("Invalid spell invocation"));
    }
    proof {
        assert(ts[0] == tokens@[lo as int]@);
        assert(ts.drop_first() =~= tokens.deep_view().subrange(lo as int + 1, hi as int));
    }
    let name: String = tokens[lo].clone();
    let args: Vec<ASTNode> = variable_args(tokens, lo + 1, hi);
    Ok(ASTNode::SpellInvocation(name, args))
}

fn parse_block_range(tokens: &Vec<String>, lo: usize, hi: usize) -> (r: Result<
    Vec<ASTNode>,
    String,
>)
    requires
        lo <= hi <= tokens.len(),
    ensures
        stmts_result_matches(
            r,
            spec_parse_block(tokens.deep_view().subrange(lo as int, hi as int)),
        ),
    decreases hi - lo, 3nat,
{
    let ghost ts = tokens.deep_view().subrange(lo as int, hi as int);
    proof {
        if hi - lo >= 1 {
            assert(ts[0] == tokens@[lo as int]@);
            assert(ts.last() == tokens@[hi - 1]@);
        }
    }
    if hi - lo < 2 || !str_eq(tokens[lo].as_str(), "begin") || !str_eq(
        tokens[hi - 1].as_str(),
        "end",
    ) {
        return Err(String::from_str("Invalid block structure"));
    }
    let ghost interior = ts.subrange(1, ts.len() - 1);
    proof {
        assert(interior =~= tokens.deep_view().subrange(lo as int + 1, hi as int - 1));
        if interior.len() > 0 {
            assert(interior.last() == tokens@[hi - 2]@);
        }
    }
    let interior_hi: usize = if hi - 1 > lo + 1 && str_eq(tokens[hi - 2].as_str(), ";") {
        proof {
            assert(interior.drop_last() =~= tokens.deep_view().subrange(
                lo as int + 1,
                hi as int - 2,
            ));
        }
        hi - 2
    } else {
        hi - 1
    };
    parse_stmts_range(tokens, lo + 1, interior_hi)
}

fn parse_stmts_range(tokens: &Vec<String>, lo: usize, hi: usize) -> (r: Result<
    Vec<ASTNode>,
    String,
>)
    requires
        lo <= hi <= tokens.len(),
    ensures
        stmts_result_matches(
            r,
            spec_parse_stmts(tokens.deep_view().subrange(lo as int, hi as int)),
        ),
    decreases hi - lo, 2nat,
{
    let ghost ss = tokens.deep_view().subrange(lo as int, hi as int);
    let k: usize = find_token(tokens, lo, hi, ";");
    proof {
        assert(forall|i: int| 0 <= i < k - lo ==> ss[i] == tokens@[lo + i]@);
        if k < hi {
            assert(ss[k - lo as int] == tokens@[k as int]@);
        }
        lemma_first_idx_is(ss, ";"@, k - lo as int);
        assert(ss.take(k - lo as int) =~= tokens.deep_view().subrange(lo as int, k as int));
    }
    let node: ASTNode = match parse_range(tokens, lo, k) {
        Err(e) => { return Err(e) },
        Ok(n) => n,
    };
    if k == hi {
        let mut v: Vec<ASTNode> = Vec::new();
        v.push(node);
        proof {
            lemma_nodes_view(v@);
            assert(nodes_view(v@) =~= seq![node_view(node)]);
        }
        Ok(v)
    } else {
        proof {
            assert(ss.skip(k - lo as int + 1) =~= tokens.deep_view().subrange(
                k as int + 1,
                hi as int,
            ));
        }
        let mut rest: Vec<ASTNode> = match parse_stmts_range(tokens, k + 1, hi) {
            Err(e) => { return Err(e) },
            Ok(v) => v,
        };
        let ghost rest_view = rest@;
        rest.insert(0, node);
        proof {
            lemma_nodes_view(rest@);
            lemma_nodes_view(rest_view);
            assert(rest@ =~= seq![node] + rest_view);
            assert forall|i: int| 0 <= i < rest@.len() implies nodes_view(rest@)[i] == (
            seq![node_view(node)] + nodes_view(rest_view))[i] by {
                if i > 0 {
                    assert(rest@[i] == rest_view[i - 1]);
                }
            }
            assert(nodes_view(rest@) =~= seq![node_view(node)] + nodes_view(rest_view));
        }
        Ok(rest)
    }
}

/// Parses a whole incantation from its tokens. Evaluation never sees
/// malformed input: a parse failure is reported here, as a message.
pub fn parse(tokens: Vec<String>) -> (r: Result<ASTNode, String>)
    ensures
        parse_result_matches(r, spec_parse(tokens.deep_view())),
{
    let n: usize = tokens.len();
    let r = parse_range(&tokens, 0, n);
    proof {
        assert(tokens.deep_view().subrange(0, n as int) =~= tokens.deep_view());
    }
    r
}

} // verus!
