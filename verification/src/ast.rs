//! Abstract syntax tree: a uniform tagged node over statements,
//! expressions and literals, its mathematical model [`NodeV`], a verified
//! deep clone, and the deterministic parenthesized pretty-printer
//! specified by [`render_node`].

use vstd::prelude::*;
use vstd::string::StringExecFns;
use crate::text::{i32_to_string, render_i32};

verus! {

/// An AST node. Child links own their subtrees; nodes are immutable after
/// construction. `Nil` stands for a failed parse and is dropped from
/// statement lists.
#[derive(Debug)]
pub enum Node {
    Program(Program),
    BlockStatement(BlockStatement),
    LetStatement(LetStatement),
    ReturnStatement(ReturnStatement),
    IfExpression(IfExpression),
    Function(FunctionLiteral),
    CallExpression(CallExpression),
    Ident(Identifier),
    Int(Integer),
    Boolean(Boolean),
    Prefix(PrefixExpression),
    Infix(InfixExpression),
    Nil,
}

#[derive(Debug)]
pub struct Program {
    pub statements: Vec<Node>,
}

#[derive(Debug)]
pub struct BlockStatement {
    pub statements: Vec<Node>,
}

#[derive(Debug)]
pub struct FunctionLiteral {
    pub parameters: Vec<Node>,
    pub body: Box<Node>,
}

#[derive(Debug)]
pub struct CallExpression {
    pub function: Box<Node>,
    pub arguments: Vec<Node>,
}

#[derive(Debug)]
pub struct LetStatement {
    pub name: Identifier,
    pub value: Box<Node>,
}

#[derive(Debug)]
pub struct ReturnStatement {
    pub value: Box<Node>,
}

#[derive(Debug)]
pub struct Identifier(pub String);

#[derive(Debug)]
pub struct Integer(pub i32);

#[derive(Debug)]
pub struct Boolean(pub bool);

#[derive(Debug)]
pub struct PrefixExpression {
    pub op: String,
    pub right: Box<Node>,
}

#[derive(Debug)]
pub struct InfixExpression {
    pub op: String,
    pub right: Box<Node>,
    pub left: Box<Node>,
}

#[derive(Debug)]
pub struct IfExpression {
    pub condition: Box<Node>,
    pub consequence: Vec<Node>,
    pub alternative: Vec<Node>,
}

/// Mathematical model of an AST node, over character sequences.
pub ghost enum NodeV {
    Program { statements: Seq<NodeV> },
    Block { statements: Seq<NodeV> },
    Let { name: Seq<char>, value: Box<NodeV> },
    Ret { value: Box<NodeV> },
    If { condition: Box<NodeV>, consequence: Seq<NodeV>, alternative: Seq<NodeV> },
    Func { parameters: Seq<NodeV>, body: Box<NodeV> },
    Call { function: Box<NodeV>, arguments: Seq<NodeV> },
    Ident { name: Seq<char> },
    Int { value: i32 },
    Bool { value: bool },
    Prefix { op: Seq<char>, right: Box<NodeV> },
    Infix { op: Seq<char>, left: Box<NodeV>, right: Box<NodeV> },
    Nil,
}

/// The models of a sequence of nodes, in order.
pub open spec fn nodes_view(s: Seq<Node>) -> Seq<NodeV>
    decreases s,
{
    if s.len() == 0 {
        Seq::empty()
    } else {
        nodes_view(s.subrange(0, s.len() - 1)).push(node_view(s[s.len() - 1]))
    }
}

/// The model of a node.
pub open spec fn node_view(n: Node) -> NodeV
    decreases n,
{
    match n {
        Node::Program(v) => NodeV::Program { statements: nodes_view(v.statements@) },
        Node::BlockStatement(v) => NodeV::Block { statements: nodes_view(v.statements@) },
        Node::LetStatement(v) => NodeV::Let {
            name: v.name.0@,
            value: Box::new(node_view(*v.value)),
        },
        Node::ReturnStatement(v) => NodeV::Ret { value: Box::new(node_view(*v.value)) },
        Node::IfExpression(v) => NodeV::If {
            condition: Box::new(node_view(*v.condition)),
            consequence: nodes_view(v.consequence@),
            alternative: nodes_view(v.alternative@),
        },
        Node::Function(v) => NodeV::Func {
            parameters: nodes_view(v.parameters@),
            body: Box::new(node_view(*v.body)),
        },
        Node::CallExpression(v) => NodeV::Call {
            function: Box::new(node_view(*v.function)),
            arguments: nodes_view(v.arguments@),
        },
        Node::Ident(v) => NodeV::Ident { name: v.0@ },
        Node::Int(v) => NodeV::Int { value: v.0 },
        Node::Boolean(v) => NodeV::Bool { value: v.0 },
        Node::Prefix(v) => NodeV::Prefix { op: v.op@, right: Box::new(node_view(*v.right)) },
        Node::Infix(v) => NodeV::Infix {
            op: v.op@,
            left: Box::new(node_view(*v.left)),
            right: Box::new(node_view(*v.right)),
        },
        Node::Nil => NodeV::Nil,
    }
}

impl View for Node {
    type V = NodeV;

    open spec fn view(&self) -> NodeV {
        node_view(*self)
    }
}

/// `nodes_view` maps the sequence elementwise.
pub broadcast proof fn lemma_nodes_view(s: Seq<Node>)
    ensures
        (#[trigger] nodes_view(s)).len() == s.len(),
        forall|i: int| 0 <= i < s.len() ==> nodes_view(s)[i] == node_view(s[i]),
    decreases s.len(),
{
    if s.len() > 0 {
        lemma_nodes_view(s.subrange(0, s.len() - 1));
    }
}

/// Appending one node appends its model.
pub broadcast proof fn lemma_nodes_view_push(s: Seq<Node>, n: Node)
    ensures
        #[trigger] nodes_view(s.push(n)) == nodes_view(s).push(node_view(n)),
{
    assert(s.push(n).subrange(0, s.len() as int) =~= s);
    assert(s.push(n)[s.len() as int] == n);
}

impl Node {
    /// Whether this node records a failed parse.
    pub fn is_nil(&self) -> (r: bool)
        ensures
            r == (self@ is Nil),
    {
        match self {
            Node::Nil => true,
            _ => false,
        }
    }

    /// The deterministic parenthesized rendering of this node.
    pub fn to_string(&self) -> (r: String)
        ensures
            r@ == render_node(self@),
        decreases self,
    {
        broadcast use lemma_nodes_view;

        match self {
            Node::Program(v) => {
                proof {
                    lemma_full_range(v.statements@);
                }
                Self::to_string_statements(&v.statements, 0, "\n")
            },
            Node::BlockStatement(v) => {
                proof {
                    lemma_full_range(v.statements@);
                }
                Self::to_string_statements(&v.statements, 0, "\n")
            },
            Node::LetStatement(v) => {
                let mut s = String::from_str("let ");
                s.append(v.name.0.as_str());
                s.append(" = ");
                let value = v.value.to_string();
                s.append(value.as_str());
                s.append(";");
                proof {
                    assert(s@ =~= render_node(self@));
                }
                s
            },
            Node::ReturnStatement(v) => {
                let mut s = String::from_str("return ");
                let value = v.value.to_string();
                s.append(value.as_str());
                s.append(";");
                proof {
                    assert(s@ =~= render_node(self@));
                }
                s
            },
            Node::Int(v) => i32_to_string(v.0),
            Node::Boolean(v) => {
                if v.0 {
                    String::from_str("true")
                } else {
                    String::from_str("false")
                }
            },
            Node::Ident(v) => v.0.clone(),
            Node::Prefix(v) => {
                let mut s = String::from_str("(");
                s.append(v.op.as_str());
                let right = v.right.to_string();
                s.append(right.as_str());
                s.append(")");
                proof {
                    assert(s@ =~= render_node(self@));
                }
                s
            },
            Node::Infix(v) => {
                let mut s = String::from_str("(");
                let left = v.left.to_string();
                s.append(left.as_str());
                s.append(" ");
                s.append(v.op.as_str());
                s.append(" ");
                let right = v.right.to_string();
                s.append(right.as_str());
                s.append(")");
                proof {
                    assert(s@ =~= render_node(self@));
                }
                s
            },
            Node::IfExpression(v) => {
                let mut s = String::from_str("if (");
                let condition = v.condition.to_string();
                s.append(condition.as_str());
                s.append(") { ");
                let consequence = Self::to_string_statements(&v.consequence, 0, " ");
                s.append(consequence.as_str());
                s.append(" } ");
                if v.alternative.len() > 0 {
                    s.append("else { ");
                    let alternative = Self::to_string_statements(&v.alternative, 0, " ");
                    s.append(alternative.as_str());
                    s.append(" }");
                }
                proof {
                    lemma_full_range(v.consequence@);
                    lemma_full_range(v.alternative@);
                    assert(s@ =~= render_node(self@));
                }
                s
            },
            Node::Function(v) => {
                match &*v.body {
                    Node::BlockStatement(body) => {
                        let mut s = String::from_str("fn (");
                        let parameters = Self::to_string_statements(&v.parameters, 0, ", ");
                        s.append(parameters.as_str());
                        s.append(") { ");
                        let body_str = Self::to_string_statements(&body.statements, 0, " ");
                        s.append(body_str.as_str());
                        s.append(" }");
                        proof {
                            lemma_full_range(v.parameters@);
                            lemma_full_range(body.statements@);
                            assert(*v.body == Node::BlockStatement(*body));
                            assert(node_view(*v.body) == (NodeV::Block {
                                statements: nodes_view(body.statements@),
                            }));
                            assert(self@ == (NodeV::Func {
                                parameters: nodes_view(v.parameters@),
                                body: Box::new(node_view(*v.body)),
                            }));
                            assert(s@ =~= render_node(self@));
                        }
                        s
                    },
                    _ => String::new(),
                }
            },
            Node::CallExpression(v) => {
                let mut s = v.function.to_string();
                s.append("(");
                let args = Self::to_string_statements(&v.arguments, 0, ", ");
                s.append(args.as_str());
                s.append(")");
                proof {
                    lemma_full_range(v.arguments@);
                    assert(s@ =~= render_node(self@));
                }
                s
            },
            Node::Nil => String::new(),
        }
    }

    /// Renders the statements from index `from` on, joined by `sep`.
    fn to_string_statements(stmts: &Vec<Node>, from: usize, sep: &str) -> (r: String)
        requires
            from <= stmts@.len(),
        ensures
            r@ == render_list(nodes_view(stmts@).subrange(from as int, stmts@.len() as int), sep@),
        decreases stmts, stmts@.len() - from,
    {
        broadcast use lemma_nodes_view;

        let ghost items = nodes_view(stmts@).subrange(from as int, stmts@.len() as int);
        if from >= stmts.len() {
            String::new()
        } else if from == stmts.len() - 1 {
            let r = stmts[from].to_string();
            proof {
                assert(items.len() == 1);
                assert(items[0] == node_view(stmts@[from as int]));
            }
            r
        } else {
            let mut s = stmts[from].to_string();
            s.append(sep);
            let rest = Self::to_string_statements(stmts, from + 1, sep);
            s.append(rest.as_str());
            proof {
                assert(items.subrange(1, items.len() as int) =~= nodes_view(stmts@).subrange(
                    from as int + 1,
                    stmts@.len() as int,
                ));
                assert(s@ =~= render_list(items, sep@));
            }
            s
        }
    }
}

/// The model sequence of a node sequence is its own full subrange.
proof fn lemma_full_range(s: Seq<Node>)
    ensures
        nodes_view(s).subrange(0, s.len() as int) =~= nodes_view(s),
{
    broadcast use lemma_nodes_view;

}

/// The rendering of a node: every infix as `(<left> <op> <right>)`, every
/// prefix as `(<op><right>)`, statements joined by separators, literals in
/// their textual form.
pub open spec fn render_node(n: NodeV) -> Seq<char>
    decreases n,
{
    match n {
        NodeV::Program { statements } => render_list(statements, "\n"@),
        NodeV::Block { statements } => render_list(statements, "\n"@),
        NodeV::Let { name, value } => "let "@ + name + " = "@ + render_node(*value) + ";"@,
        NodeV::Ret { value } => "return "@ + render_node(*value) + ";"@,
        NodeV::Int { value } => render_i32(value),
        NodeV::Bool { value } => if value {
            "true"@
        } else {
            "false"@
        },
        NodeV::Ident { name } => name,
        NodeV::Prefix { op, right } => "("@ + op + render_node(*right) + ")"@,
        NodeV::Infix { op, left, right } => "("@ + render_node(*left) + " "@ + op + " "@
            + render_node(*right) + ")"@,
        NodeV::If { condition, consequence, alternative } => "if ("@ + render_node(*condition)
            + ") { "@ + render_list(consequence, " "@) + " } "@ + if alternative.len() > 0 {
            "else { "@ + render_list(alternative, " "@) + " }"@
        } else {
            Seq::empty()
        },
        NodeV::Func { parameters, body } => match *body {
            NodeV::Block { statements } => "fn ("@ + render_list(parameters, ", "@) + ") { "@
                + render_list(statements, " "@) + " }"@,
            _ => Seq::empty(),
        },
        NodeV::Call { function, arguments } => render_node(*function) + "("@ + render_list(
            arguments,
            ", "@,
        ) + ")"@,
        NodeV::Nil => Seq::empty(),
    }
}

/// The renderings of `items` joined by `sep`.
pub open spec fn render_list(items: Seq<NodeV>, sep: Seq<char>) -> Seq<char>
    decreases items,
{
    if items.len() == 0 {
        Seq::empty()
    } else if items.len() == 1 {
        render_node(items[0])
    } else {
        render_node(items[0]) + sep + render_list(items.subrange(1, items.len() as int), sep)
    }
}

/// Deep copy of a node sequence; the copy has the same model.
pub fn clone_nodes(v: &Vec<Node>) -> (r: Vec<Node>)
    ensures
        nodes_view(r@) == nodes_view(v@),
        r@.len() == v@.len(),
    decreases v,
{
    broadcast use lemma_nodes_view;

    let mut r: Vec<Node> = Vec::new();
    let mut i: usize = 0;
    while i < v.len()
        invariant
            i <= v@.len(),
            r@.len() == i,
            forall|j: int| 0 <= j < i ==> node_view(#[trigger] r@[j]) == node_view(v@[j]),
        decreases v@.len() - i,
    {
        r.push(v[i].clone());
        i = i + 1;
    }
    proof {
        lemma_nodes_view_ext(r@, v@);
    }
    r
}

/// Two node sequences with elementwise equal models have equal models.
proof fn lemma_nodes_view_ext(a: Seq<Node>, b: Seq<Node>)
    requires
        a.len() == b.len(),
        forall|j: int| 0 <= j < a.len() ==> node_view(#[trigger] a[j]) == node_view(b[j]),
    ensures
        nodes_view(a) == nodes_view(b),
{
    broadcast use lemma_nodes_view;

    assert(nodes_view(a) =~= nodes_view(b));
}

impl Clone for Node {
    /// Deep copy; the copy has the same model as the original.
    fn clone(&self) -> (r: Node)
        ensures
            r@ == self@,
        decreases self,
    {
        match self {
            Node::Program(v) => Node::Program(Program { statements: clone_nodes(&v.statements) }),
            Node::BlockStatement(v) => Node::BlockStatement(
                BlockStatement { statements: clone_nodes(&v.statements) },
            ),
            Node::LetStatement(v) => Node::LetStatement(
                LetStatement {
                    name: Identifier(v.name.0.clone()),
                    value: Box::new((&*v.value).clone()),
                },
            ),
            Node::ReturnStatement(v) => Node::ReturnStatement(
                ReturnStatement { value: Box::new((&*v.value).clone()) },
            ),
            Node::IfExpression(v) => Node::IfExpression(
                IfExpression {
                    condition: Box::new((&*v.condition).clone()),
                    consequence: clone_nodes(&v.consequence),
                    alternative: clone_nodes(&v.alternative),
                },
            ),
            Node::Function(v) => Node::Function(
                FunctionLiteral {
                    parameters: clone_nodes(&v.parameters),
                    body: Box::new((&*v.body).clone()),
                },
            ),
            Node::CallExpression(v) => Node::CallExpression(
                CallExpression {
                    function: Box::new((&*v.function).clone()),
                    arguments: clone_nodes(&v.arguments),
                },
            ),
            Node::Ident(v) => Node::Ident(Identifier(v.0.clone())),
            Node::Int(v) => Node::Int(Integer(v.0)),
            Node::Boolean(v) => Node::Boolean(Boolean(v.0)),
            Node::Prefix(v) => Node::Prefix(
                PrefixExpression { op: v.op.clone(), right: Box::new((&*v.right).clone()) },
            ),
            Node::Infix(v) => Node::Infix(
                InfixExpression {
                    op: v.op.clone(),
                    left: Box::new((&*v.left).clone()),
                    right: Box::new((&*v.right).clone()),
                },
            ),
            Node::Nil => Node::Nil,
        }
    }
}

} // verus!
