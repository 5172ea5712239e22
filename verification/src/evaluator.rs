//! Evaluator: a recursive tree-walker over the AST producing runtime
//! values, with environment chaining, truthiness rules, return-sentinel
//! propagation and function application.
//!
//! The model is the step-indexed operational semantics [`eval_s`]: a total
//! function from a node, an environment, a scope and a fuel bound to the
//! environment and optional value left behind. Source programs can recurse
//! without bound, so no terminating function can evaluate them exactly;
//! [`eval`] runs with a fuel of `u64::MAX` — beyond any number of steps a
//! machine performs — and is proved to follow the semantics at that fuel
//! exactly. Exhausted fuel, like every evaluation error, yields no value.
//!
//! A function value captures the scope current at its literal
//! (see [`eval_s`] on `Func` nodes), and a call extends that captured
//! scope, not the caller's: lexical scoping.

use vstd::prelude::*;
use crate::ast::{
    CallExpression, FunctionLiteral, Identifier, IfExpression, InfixExpression, LetStatement,
    Node, NodeV, PrefixExpression, ReturnStatement, clone_nodes, lemma_nodes_view, node_view,
    nodes_view,
};
use crate::environment::{Environment, ScopeV, env_lookup, env_wf};
use crate::object::{
    BooleanObject, FunctionLiteralObject, IntegerObject, ObjV, Object, ReturnObject,
};
use crate::text::str_eq;

verus! {

/// The fuel evaluation runs with: more steps than any machine performs.
pub const EVAL_FUEL: u64 = u64::MAX;

/// What one evaluation step leaves behind: the environment and the
/// optional result value. Absence means "no expressible result".
pub ghost struct EvalR {
    pub env: Seq<ScopeV>,
    pub value: Option<ObjV>,
}

/// What parameter binding leaves behind: the environment and whether every
/// parameter was bound.
pub ghost struct BindR {
    pub env: Seq<ScopeV>,
    pub ok: bool,
}

/// The model of an optional runtime value.
pub open spec fn opt_view(r: Option<Object>) -> Option<ObjV> {
    match r {
        Some(o) => Some(o@),
        None => None,
    }
}

/// The environment with `name` bound to `v` in scope `scope` only.
pub open spec fn env_insert(
    env: Seq<ScopeV>,
    scope: int,
    name: Seq<char>,
    v: ObjV,
) -> Seq<ScopeV> {
    env.update(
        scope,
        ScopeV { bindings: env[scope].bindings.insert(name, v), outer: env[scope].outer },
    )
}

/// Truthiness: `false` and null are falsy; everything else, zero included,
/// is truthy.
pub open spec fn truthy_s(o: ObjV) -> bool {
    match o {
        ObjV::Bool { value } => value,
        ObjV::Null => false,
        _ => true,
    }
}

/// Integer infix operators: `+ - * /` produce an integer, the comparisons
/// produce a boolean. Overflow, like division by zero, yields no value.
pub open spec fn int_infix_s(op: Seq<char>, a: i32, b: i32) -> Option<ObjV> {
    if op == "+"@ {
        match a.checked_add(b) {
            Some(v) => Some(ObjV::Int { value: v }),
            None => None,
        }
    } else if op == "-"@ {
        match a.checked_sub(b) {
            Some(v) => Some(ObjV::Int { value: v }),
            None => None,
        }
    } else if op == "*"@ {
        match a.checked_mul(b) {
            Some(v) => Some(ObjV::Int { value: v }),
            None => None,
        }
    } else if op == "/"@ {
        match a.checked_div(b) {
            Some(v) => Some(ObjV::Int { value: v }),
            None => None,
        }
    } else if op == "<"@ {
        Some(ObjV::Bool { value: a < b })
    } else if op == ">"@ {
        Some(ObjV::Bool { value: a > b })
    } else if op == "=="@ {
        Some(ObjV::Bool { value: a == b })
    } else if op == "!="@ {
        Some(ObjV::Bool { value: a != b })
    } else {
        Some(ObjV::Null)
    }
}

/// One evaluation step. Dispatch on the node; every recursive descent
/// spends one fuel unit, and spent fuel yields no value.
pub open spec fn eval_s(node: NodeV, env: Seq<ScopeV>, scope: int, fuel: nat) -> EvalR
    decreases fuel, 0nat, 0nat,
{
    if fuel == 0 {
        EvalR { env, value: None }
    } else {
        let f = (fuel - 1) as nat;
        match node {
            NodeV::Program { statements } => eval_stmts_s(statements, 0, None, env, scope, true, f),
            NodeV::Block { statements } => eval_stmts_s(statements, 0, None, env, scope, true, f),
            NodeV::Call { function, arguments } => eval_call_s(*function, arguments, env, scope, f),
            NodeV::Let { name, value } => eval_let_s(name, *value, env, scope, f),
            NodeV::Ret { value } => eval_return_s(*value, env, scope, f),
            NodeV::If { condition, consequence, alternative } => eval_if_s(
                *condition,
                consequence,
                alternative,
                env,
                scope,
                f,
            ),
            NodeV::Prefix { op, right } => eval_prefix_s(op, *right, env, scope, f),
            NodeV::Infix { op, left, right } => eval_infix_s(op, *left, *right, env, scope, f),
            NodeV::Func { parameters, body } => eval_function_literal_s(
                parameters,
                *body,
                env,
                scope,
            ),
            NodeV::Int { value } => EvalR { env, value: Some(ObjV::Int { value }) },
            NodeV::Ident { name } => EvalR { env, value: env_lookup(env, scope, name) },
            NodeV::Bool { value } => EvalR { env, value: Some(ObjV::Bool { value }) },
            _ => EvalR { env, value: None },
        }
    }
}

/// Statements in order, from index `i`, with `acc` the last value so far.
/// A return sentinel stops the walk: unwrapped at a program or function
/// body boundary (`unwrap`), passed through inside a block otherwise.
pub open spec fn eval_stmts_s(
    stmts: Seq<NodeV>,
    i: int,
    acc: Option<ObjV>,
    env: Seq<ScopeV>,
    scope: int,
    unwrap: bool,
    fuel: nat,
) -> EvalR
    decreases fuel, 2nat, stmts.len() - i,
{
    if i < 0 || i >= stmts.len() {
        EvalR { env, value: acc }
    } else {
        let r = eval_s(stmts[i], env, scope, fuel);
        match r.value {
            Some(ObjV::Ret { value }) => if unwrap {
                EvalR { env: r.env, value: Some(*value) }
            } else {
                EvalR { env: r.env, value: Some(ObjV::Ret { value }) }
            },
            _ => eval_stmts_s(stmts, i + 1, r.value, r.env, scope, unwrap, fuel),
        }
    }
}

/// Binds each parameter to the matching argument, evaluated in the
/// caller's scope, inside the callee scope. Fails on a non-identifier
/// parameter, a missing argument, or an argument with no value.
pub open spec fn bind_params_s(
    params: Seq<NodeV>,
    args: Seq<NodeV>,
    i: int,
    env: Seq<ScopeV>,
    caller: int,
    callee: int,
    fuel: nat,
) -> BindR
    decreases fuel, 1nat, params.len() - i,
{
    if i < 0 || i >= params.len() {
        BindR { env, ok: true }
    } else {
        match params[i] {
            NodeV::Ident { name } => if i >= args.len() {
                BindR { env, ok: false }
            } else {
                let r = eval_s(args[i], env, caller, fuel);
                match r.value {
                    Some(v) => bind_params_s(
                        params,
                        args,
                        i + 1,
                        env_insert(r.env, callee, name, v),
                        caller,
                        callee,
                        fuel,
                    ),
                    None => BindR { env: r.env, ok: false },
                }
            },
            _ => BindR { env, ok: false },
        }
    }
}

/// Function application: the function expression must evaluate to a
/// function value; a fresh scope extends the scope that value captured —
/// not the caller's — arguments are bound positionally, and the body runs
/// in the fresh scope, its return sentinel unwrapped at this boundary.
pub open spec fn eval_call_s(
    function: NodeV,
    arguments: Seq<NodeV>,
    env: Seq<ScopeV>,
    scope: int,
    fuel: nat,
) -> EvalR
    decreases fuel, 3nat, 0nat,
{
    let r = eval_s(function, env, scope, fuel);
    match r.value {
        Some(ObjV::Func { parameters, body, env: fenv }) => {
            if 0 <= fenv < r.env.len() {
                let callee = r.env.len() as int;
                let env2 = r.env.push(
                    ScopeV { bindings: Map::empty(), outer: Some(fenv) },
                );
                let b = bind_params_s(parameters, arguments, 0, env2, scope, callee, fuel);
                if b.ok {
                    eval_s(*body, b.env, callee, fuel)
                } else {
                    EvalR { env: b.env, value: None }
                }
            } else {
                EvalR { env: r.env, value: None }
            }
        },
        _ => EvalR { env: r.env, value: None },
    }
}

/// A let statement binds the value in the current scope and yields no
/// value; a value-less right-hand side binds nothing.
pub open spec fn eval_let_s(
    name: Seq<char>,
    value: NodeV,
    env: Seq<ScopeV>,
    scope: int,
    fuel: nat,
) -> EvalR
    decreases fuel, 3nat, 0nat,
{
    let r = eval_s(value, env, scope, fuel);
    match r.value {
        Some(v) => EvalR { env: env_insert(r.env, scope, name, v), value: None },
        None => EvalR { env: r.env, value: None },
    }
}

/// A return statement wraps its value in the return sentinel.
pub open spec fn eval_return_s(value: NodeV, env: Seq<ScopeV>, scope: int, fuel: nat) -> EvalR
    decreases fuel, 3nat, 0nat,
{
    let r = eval_s(value, env, scope, fuel);
    match r.value {
        Some(v) => EvalR { env: r.env, value: Some(ObjV::Ret { value: Box::new(v) }) },
        None => EvalR { env: r.env, value: None },
    }
}

/// An if expression runs the consequence when the condition is truthy,
/// the alternative otherwise; an empty alternative yields no value. The
/// arms are blocks: a return sentinel passes through unchanged.
pub open spec fn eval_if_s(
    condition: NodeV,
    consequence: Seq<NodeV>,
    alternative: Seq<NodeV>,
    env: Seq<ScopeV>,
    scope: int,
    fuel: nat,
) -> EvalR
    decreases fuel, 3nat, 0nat,
{
    let r = eval_s(condition, env, scope, fuel);
    match r.value {
        Some(c) => if truthy_s(c) {
            eval_stmts_s(consequence, 0, None, r.env, scope, false, fuel)
        } else {
            eval_stmts_s(alternative, 0, None, r.env, scope, false, fuel)
        },
        None => EvalR { env: r.env, value: None },
    }
}

/// Prefix `-` negates an integer; prefix `!` negates a boolean, maps null
/// to true and any other value to false. Anything else yields no value.
pub open spec fn eval_prefix_s(
    op: Seq<char>,
    right: NodeV,
    env: Seq<ScopeV>,
    scope: int,
    fuel: nat,
) -> EvalR
    decreases fuel, 3nat, 0nat,
{
    if op == "-"@ {
        let r = eval_s(right, env, scope, fuel);
        match r.value {
            Some(ObjV::Int { value }) => if value == i32::MIN {
                EvalR { env: r.env, value: None }
            } else {
                EvalR { env: r.env, value: Some(ObjV::Int { value: (0 - value as int) as i32 }) }
            },
            Some(_) => EvalR { env: r.env, value: None },
            None => EvalR { env: r.env, value: None },
        }
    } else if op == "!"@ {
        let r = eval_s(right, env, scope, fuel);
        match r.value {
            Some(ObjV::Bool { value }) => EvalR { env: r.env, value: Some(ObjV::Bool { value: !value }) },
            Some(ObjV::Null) => EvalR { env: r.env, value: Some(ObjV::Bool { value: true }) },
            Some(_) => EvalR { env: r.env, value: Some(ObjV::Bool { value: false }) },
            None => EvalR { env: r.env, value: None },
        }
    } else {
        EvalR { env, value: None }
    }
}

/// Infix: left operand first, then right; two integers go to
/// [`int_infix_s`], any other combination yields no value.
pub open spec fn eval_infix_s(
    op: Seq<char>,
    left: NodeV,
    right: NodeV,
    env: Seq<ScopeV>,
    scope: int,
    fuel: nat,
) -> EvalR
    decreases fuel, 3nat, 0nat,
{
    let l = eval_s(left, env, scope, fuel);
    match l.value {
        Some(lv) => {
            let r = eval_s(right, l.env, scope, fuel);
            match r.value {
                Some(rv) => match (lv, rv) {
                    (ObjV::Int { value: a }, ObjV::Int { value: b }) => EvalR {
                        env: r.env,
                        value: int_infix_s(op, a, b),
                    },
                    _ => EvalR { env: r.env, value: None },
                },
                None => EvalR { env: r.env, value: None },
            }
        },
        None => EvalR { env: l.env, value: None },
    }
}

/// A function literal becomes a function value capturing the current
/// scope; its body must be a block.
pub open spec fn eval_function_literal_s(
    parameters: Seq<NodeV>,
    body: NodeV,
    env: Seq<ScopeV>,
    scope: int,
) -> EvalR {
    match body {
        NodeV::Block { statements } => EvalR {
            env,
            value: Some(ObjV::Func { parameters, body: Box::new(body), env: scope }),
        },
        _ => EvalR { env, value: None },
    }
}

/// The relation every evaluator function maintains: the environment after
/// the call and the model of the returned value are what the semantics
/// says.
pub open spec fn eval_match(r: Option<Object>, env_after: Seq<ScopeV>, er: EvalR) -> bool {
    env_after == er.env && opt_view(r) == er.value
}

/// Evaluates `node` in the global scope of `env`. Follows [`eval_s`] at
/// fuel [`EVAL_FUEL`] exactly.
pub fn eval(node: &Node, env: &mut Environment) -> (r: Option<Object>)
    requires
        old(env).wf(),
        old(env)@.len() >= 1,
    ensures
        final(env).wf(),
        final(env)@.len() >= old(env)@.len(),
        eval_match(r, final(env)@, eval_s(node@, old(env)@, 0, EVAL_FUEL as nat)),
{
    eval_at(node, env, 0, EVAL_FUEL)
}

/// Evaluates `node` in scope `scope`, spending at most `fuel` steps.
fn eval_at(node: &Node, env: &mut Environment, scope: usize, fuel: u64) -> (r: Option<Object>)
    requires
        old(env).wf(),
        scope < old(env)@.len(),
    ensures
        final(env).wf(),
        final(env)@.len() >= old(env)@.len(),
        eval_match(r, final(env)@, eval_s(node@, old(env)@, scope as int, fuel as nat)),
    decreases fuel, 0nat, 0nat,
{
    if fuel == 0 {
        return None;
    }
    let f = fuel - 1;
    match node {
        Node::Program(p) => eval_statements(&p.statements, env, scope, f),
        Node::BlockStatement(p) => eval_statements(&p.statements, env, scope, f),
        Node::CallExpression(v) => eval_call(v, env, scope, f),
        Node::LetStatement(v) => eval_let_statement(v, env, scope, f),
        Node::ReturnStatement(v) => eval_return_statement(v, env, scope, f),
        Node::IfExpression(v) => eval_if_expression(v, env, scope, f),
        Node::Prefix(v) => eval_prefix(v, env, scope, f),
        Node::Infix(v) => eval_infix(v, env, scope, f),
        Node::Function(v) => eval_function_literal(v, scope),
        Node::Int(v) => Some(Object::Integer(IntegerObject { value: v.0 })),
        Node::Ident(v) => eval_identifier(v, env, scope, f),
        Node::Boolean(v) => Some(Object::Boolean(to_native_bool(v.0))),
        _ => None,
    }
}

/// Statements of a program or function body: a return sentinel is
/// unwrapped here; otherwise the last statement's value is the result.
#[verifier::loop_isolation(false)]
fn eval_statements(stmts: &Vec<Node>, env: &mut Environment, scope: usize, fuel: u64) -> (r:
    Option<Object>)
    requires
        old(env).wf(),
        scope < old(env)@.len(),
    ensures
        final(env).wf(),
        final(env)@.len() >= old(env)@.len(),
        eval_match(
            r,
            final(env)@,
            eval_stmts_s(nodes_view(stmts@), 0, None, old(env)@, scope as int, true, fuel as nat),
        ),
    decreases fuel, 2nat, 0nat,
{
    broadcast use lemma_nodes_view;

    let ghost whole = nodes_view(stmts@);
    let ghost goal = eval_stmts_s(whole, 0, None, old(env)@, scope as int, true, fuel as nat);
    let mut result: Option<Object> = None;
    let mut i: usize = 0;
    while i < stmts.len()
        invariant
            env.wf(),
            env@.len() >= old(env)@.len(),
            scope < env@.len(),
            i <= stmts.len(),
            eval_stmts_s(whole, i as int, opt_view(result), env@, scope as int, true, fuel as nat)
                == goal,
        decreases stmts.len() - i,
    {
        let r = eval_at(&stmts[i], env, scope, fuel);
        match r {
            Some(Object::Return(v)) => {
                return Some(*v.value);
            },
            _ => {
                result = r;
            },
        }
        i = i + 1;
    }
    result
}

/// Statements of a nested block: a return sentinel propagates upward
/// unchanged, so an outer boundary can unwrap it.
#[verifier::loop_isolation(false)]
fn eval_block_statements(stmts: &Vec<Node>, env: &mut Environment, scope: usize, fuel: u64) -> (r:
    Option<Object>)
    requires
        old(env).wf(),
        scope < old(env)@.len(),
    ensures
        final(env).wf(),
        final(env)@.len() >= old(env)@.len(),
        eval_match(
            r,
            final(env)@,
            eval_stmts_s(nodes_view(stmts@), 0, None, old(env)@, scope as int, false, fuel as nat),
        ),
    decreases fuel, 2nat, 0nat,
{
    broadcast use lemma_nodes_view;

    let ghost whole = nodes_view(stmts@);
    let ghost goal = eval_stmts_s(whole, 0, None, old(env)@, scope as int, false, fuel as nat);
    let mut result: Option<Object> = None;
    let mut i: usize = 0;
    while i < stmts.len()
        invariant
            env.wf(),
            env@.len() >= old(env)@.len(),
            scope < env@.len(),
            i <= stmts.len(),
            eval_stmts_s(whole, i as int, opt_view(result), env@, scope as int, false, fuel as nat)
                == goal,
        decreases stmts.len() - i,
    {
        let r = eval_at(&stmts[i], env, scope, fuel);
        match r {
            Some(Object::Return(v)) => {
                return Some(Object::Return(v));
            },
            _ => {
                result = r;
            },
        }
        i = i + 1;
    }
    result
}

/// Truthiness of a value.
fn is_truthy(obj: &Object) -> (r: bool)
    ensures
        r == truthy_s(obj@),
{
    match obj {
        Object::Boolean(v) => v.value,
        Object::Null => false,
        _ => true,
    }
}

/// Function application; see [`eval_call_s`].
#[verifier::loop_isolation(false)]
fn eval_call(call: &CallExpression, env: &mut Environment, scope: usize, fuel: u64) -> (r: Option<
    Object,
>)
    requires
        old(env).wf(),
        scope < old(env)@.len(),
    ensures
        final(env).wf(),
        final(env)@.len() >= old(env)@.len(),
        eval_match(
            r,
            final(env)@,
            eval_call_s(
                node_view(*call.function),
                nodes_view(call.arguments@),
                old(env)@,
                scope as int,
                fuel as nat,
            ),
        ),
    decreases fuel, 3nat, 0nat,
{
    broadcast use lemma_nodes_view;

    let ghost goal = eval_call_s(
        node_view(*call.function),
        nodes_view(call.arguments@),
        old(env)@,
        scope as int,
        fuel as nat,
    );
    match eval_at(&call.function, env, scope, fuel) {
        Some(Object::Function(f)) => {
            if f.env < env.len() {
                let callee = env.new_extended(f.env);
                let ghost params = nodes_view(f.parameters@);
                let ghost args = nodes_view(call.arguments@);
                let ghost env2 = env@;
                let mut i: usize = 0;
                while i < f.parameters.len()
                    invariant
                        env.wf(),
                        env@.len() >= env2.len(),
                        env2.len() >= old(env)@.len() + 1,
                        scope < env@.len(),
                        callee < env@.len(),
                        i <= f.parameters.len(),
                        bind_params_s(
                            params,
                            args,
                            i as int,
                            env@,
                            scope as int,
                            callee as int,
                            fuel as nat,
                        ) == bind_params_s(
                            params,
                            args,
                            0,
                            env2,
                            scope as int,
                            callee as int,
                            fuel as nat,
                        ),
                    decreases f.parameters.len() - i,
                {
                    match &f.parameters[i] {
                        Node::Ident(ident) => {
                            if i >= call.arguments.len() {
                                proof {
                                    assert(f.parameters@[i as int] == Node::Ident(*ident));
                                }
                                return None;
                            }
                            match eval_at(&call.arguments[i], env, scope, fuel) {
                                Some(value) => {
                                    proof {
                                        assert(f.parameters@[i as int] == Node::Ident(*ident));
                                    }
                                    let _prev = env.insert(callee, ident.0.clone(), value);
                                },
                                None => {
                                    proof {
                                        assert(f.parameters@[i as int] == Node::Ident(*ident));
                                    }
                                    return None;
                                },
                            }
                        },
                        _ => {
                            return None;
                        },
                    }
                    i = i + 1;
                }
                eval_at(&f.body, env, callee, fuel)
            } else {
                None
            }
        },
        Some(_) => None,
        None => None,
    }
}

/// Prefix operators; see [`eval_prefix_s`].
fn eval_prefix(prefix: &PrefixExpression, env: &mut Environment, scope: usize, fuel: u64) -> (r:
    Option<Object>)
    requires
        old(env).wf(),
        scope < old(env)@.len(),
    ensures
        final(env).wf(),
        final(env)@.len() >= old(env)@.len(),
        eval_match(
            r,
            final(env)@,
            eval_prefix_s(
                prefix.op@,
                node_view(*prefix.right),
                old(env)@,
                scope as int,
                fuel as nat,
            ),
        ),
    decreases fuel, 3nat, 0nat,
{
    if str_eq(prefix.op.as_str(), "-") {
        match eval_at(&prefix.right, env, scope, fuel) {
            Some(Object::Integer(right)) => {
                if right.value == i32::MIN {
                    None
                } else {
                    Some(Object::Integer(IntegerObject { value: -right.value }))
                }
            },
            Some(_) => None,
            None => None,
        }
    } else if str_eq(prefix.op.as_str(), "!") {
        match eval_at(&prefix.right, env, scope, fuel) {
            Some(Object::Boolean(b)) => Some(Object::Boolean(to_native_bool(!b.value))),
            Some(Object::Null) => Some(Object::Boolean(to_native_bool(true))),
            Some(_) => Some(Object::Boolean(to_native_bool(false))),
            None => None,
        }
    } else {
        None
    }
}

/// Infix expressions; see [`eval_infix_s`].
fn eval_infix(infix: &InfixExpression, env: &mut Environment, scope: usize, fuel: u64) -> (r:
    Option<Object>)
    requires
        old(env).wf(),
        scope < old(env)@.len(),
    ensures
        final(env).wf(),
        final(env)@.len() >= old(env)@.len(),
        eval_match(
            r,
            final(env)@,
            eval_infix_s(
                infix.op@,
                node_view(*infix.left),
                node_view(*infix.right),
                old(env)@,
                scope as int,
                fuel as nat,
            ),
        ),
    decreases fuel, 3nat, 0nat,
{
    match eval_at(&infix.left, env, scope, fuel) {
        Some(left) => {
            match eval_at(&infix.right, env, scope, fuel) {
                Some(right) => match (left, right) {
                    (Object::Integer(l), Object::Integer(r)) => eval_integer_infix_opr(
                        infix.op.as_str(),
                        l,
                        r,
                    ),
                    _ => None,
                },
                None => None,
            }
        },
        None => None,
    }
}

/// Integer infix operators; see [`int_infix_s`].
fn eval_integer_infix_opr(op: &str, left: IntegerObject, right: IntegerObject) -> (r: Option<
    Object,
>)
    ensures
        opt_view(r) == int_infix_s(op@, left.value, right.value),
{
    if str_eq(op, "+") {
        match left.value.checked_add(right.value) {
            Some(v) => Some(Object::Integer(IntegerObject { value: v })),
            None => None,
        }
    } else if str_eq(op, "-") {
        match left.value.checked_sub(right.value) {
            Some(v) => Some(Object::Integer(IntegerObject { value: v })),
            None => None,
        }
    } else if str_eq(op, "*") {
        match left.value.checked_mul(right.value) {
            Some(v) => Some(Object::Integer(IntegerObject { value: v })),
            None => None,
        }
    } else if str_eq(op, "/") {
        match left.value.checked_div(right.value) {
            Some(v) => Some(Object::Integer(IntegerObject { value: v })),
            None => None,
        }
    } else if str_eq(op, "<") {
        Some(Object::Boolean(to_native_bool(left.value < right.value)))
    } else if str_eq(op, ">") {
        Some(Object::Boolean(to_native_bool(left.value > right.value)))
    } else if str_eq(op, "==") {
        Some(Object::Boolean(to_native_bool(left.value == right.value)))
    } else if str_eq(op, "!=") {
        Some(Object::Boolean(to_native_bool(left.value != right.value)))
    } else {
        Some(Object::Null)
    }
}

/// Identifier lookup along the scope chain; a missing name yields no
/// value.
fn eval_identifier(ident: &Identifier, env: &mut Environment, scope: usize, fuel: u64) -> (r:
    Option<Object>)
    requires
        old(env).wf(),
        scope < old(env)@.len(),
    ensures
        final(env).wf(),
        final(env)@ == old(env)@,
        opt_view(r) == env_lookup(old(env)@, scope as int, ident.0@),
    decreases fuel, 3nat, 0nat,
{
    env.get(scope, ident.0.as_str())
}

/// A let statement; see [`eval_let_s`].
fn eval_let_statement(stmt: &LetStatement, env: &mut Environment, scope: usize, fuel: u64) -> (r:
    Option<Object>)
    requires
        old(env).wf(),
        scope < old(env)@.len(),
    ensures
        final(env).wf(),
        final(env)@.len() >= old(env)@.len(),
        eval_match(
            r,
            final(env)@,
            eval_let_s(stmt.name.0@, node_view(*stmt.value), old(env)@, scope as int, fuel as nat),
        ),
    decreases fuel, 3nat, 0nat,
{
    match eval_at(&stmt.value, env, scope, fuel) {
        Some(value) => {
            let _prev = env.insert(scope, stmt.name.0.clone(), value);
            None
        },
        None => None,
    }
}

/// A return statement; see [`eval_return_s`].
fn eval_return_statement(stmt: &ReturnStatement, env: &mut Environment, scope: usize, fuel: u64) -> (r: Option<Object>)
    requires
        old(env).wf(),
        scope < old(env)@.len(),
    ensures
        final(env).wf(),
        final(env)@.len() >= old(env)@.len(),
        eval_match(
            r,
            final(env)@,
            eval_return_s(node_view(*stmt.value), old(env)@, scope as int, fuel as nat),
        ),
    decreases fuel, 3nat, 0nat,
{
    match eval_at(&stmt.value, env, scope, fuel) {
        Some(value) => Some(Object::Return(ReturnObject { value: Box::new(value) })),
        None => None,
    }
}

/// An if expression; see [`eval_if_s`].
fn eval_if_expression(stmt: &IfExpression, env: &mut Environment, scope: usize, fuel: u64) -> (r:
    Option<Object>)
    requires
        old(env).wf(),
        scope < old(env)@.len(),
    ensures
        final(env).wf(),
        final(env)@.len() >= old(env)@.len(),
        eval_match(
            r,
            final(env)@,
            eval_if_s(
                node_view(*stmt.condition),
                nodes_view(stmt.consequence@),
                nodes_view(stmt.alternative@),
                old(env)@,
                scope as int,
                fuel as nat,
            ),
        ),
    decreases fuel, 3nat, 0nat,
{
    match eval_at(&stmt.condition, env, scope, fuel) {
        Some(condition) => {
            if is_truthy(&condition) {
                eval_block_statements(&stmt.consequence, env, scope, fuel)
            } else {
                eval_block_statements(&stmt.alternative, env, scope, fuel)
            }
        },
        None => None,
    }
}

/// A function literal; see [`eval_function_literal_s`].
fn eval_function_literal(stmt: &FunctionLiteral, scope: usize) -> (r: Option<Object>)
    ensures
        ({
            let er = eval_function_literal_s(
                nodes_view(stmt.parameters@),
                node_view(*stmt.body),
                Seq::empty(),
                scope as int,
            );
            opt_view(r) == er.value
        }),
{
    match &*stmt.body {
        Node::BlockStatement(b) => {
            let r = Some(
                Object::Function(
                    FunctionLiteralObject {
                        body: (&*stmt.body).clone(),
                        parameters: clone_nodes(&stmt.parameters),
                        env: scope,
                    },
                ),
            );
            proof {
                assert(*stmt.body == Node::BlockStatement(*b));
            }
            r
        },
        _ => None,
    }
}

/// The boolean object for a native boolean.
fn to_native_bool(v: bool) -> (r: BooleanObject)
    ensures
        r.value == v,
{
    BooleanObject { value: v }
}

/// A let binding writes one scope only: looking any other name up, from
/// any scope, reads the same value before and after the binding. Together
/// with [`env_insert`]'s shape — only the named scope's map changes — this
/// is why a binding overwrites in its own scope and nowhere else.
pub proof fn lemma_insert_preserves_other_names(
    env: Seq<ScopeV>,
    scope: int,
    name: Seq<char>,
    v: ObjV,
    at: int,
    other: Seq<char>,
)
    requires
        env_wf(env),
        0 <= scope < env.len(),
        0 <= at < env.len(),
        other != name,
    ensures
        env_wf(env_insert(env, scope, name, v)),
        env_lookup(env_insert(env, scope, name, v), at, other) == env_lookup(env, at, other),
    decreases at,
{
    let env2 = env_insert(env, scope, name, v);
    assert forall|i: int| 0 <= i < env2.len() implies ((#[trigger] env2[i]).outer matches Some(j)
        ==> 0 <= j < i) by {
        assert(env2[i].outer == env[i].outer);
    }
    assert(env2[at].bindings.dom().contains(other) == env[at].bindings.dom().contains(other));
    if env[at].bindings.dom().contains(other) {
        assert(env2[at].bindings[other] == env[at].bindings[other]);
    } else {
        match env[at].outer {
            Some(j) => {
                lemma_insert_preserves_other_names(env, scope, name, v, j, other);
            },
            None => {
            },
        }
    }
}

/// A function literal closes over its defining environment: evaluating it
/// yields a function value that records exactly the scope the literal was
/// evaluated in, and leaves the environment untouched. Later bindings in
/// that scope are seen through the shared scope, not copied.
pub proof fn lemma_closure_captures_defining_scope(
    parameters: Seq<NodeV>,
    statements: Seq<NodeV>,
    env: Seq<ScopeV>,
    scope: int,
    fuel: nat,
)
    requires
        fuel > 0,
    ensures
        ({
            let body = NodeV::Block { statements };
            let r = eval_s(NodeV::Func { parameters, body: Box::new(body) }, env, scope, fuel);
            r.env == env && r.value == Some(
                ObjV::Func { parameters, body: Box::new(body), env: scope },
            )
        }),
{
}

/// A call creates the scope its body runs in as a child of the scope the
/// function value captured — not of the caller's scope — which realizes
/// lexical scoping; the body's result is unwrapped at this boundary by
/// [`eval_s`] on the block body.
pub proof fn lemma_call_extends_captured_scope(
    function: NodeV,
    arguments: Seq<NodeV>,
    env: Seq<ScopeV>,
    scope: int,
    fuel: nat,
    parameters: Seq<NodeV>,
    body: NodeV,
    fenv: int,
)
    requires
        fuel > 0,
        eval_s(function, env, scope, (fuel - 1) as nat).value == Some(
            ObjV::Func { parameters, body: Box::new(body), env: fenv },
        ),
        0 <= fenv < eval_s(function, env, scope, (fuel - 1) as nat).env.len(),
    ensures
        ({
            let f = (fuel - 1) as nat;
            let r1 = eval_s(function, env, scope, f);
            let callee = r1.env.len() as int;
            let env2 = r1.env.push(
                ScopeV { bindings: Map::<Seq<char>, ObjV>::empty(), outer: Some(fenv) },
            );
            let b = bind_params_s(parameters, arguments, 0, env2, scope, callee, f);
            eval_s(NodeV::Call { function: Box::new(function), arguments }, env, scope, fuel)
                == if b.ok {
                eval_s(body, b.env, callee, f)
            } else {
                EvalR { env: b.env, value: None }
            }
        }),
{
}

} // verus!
