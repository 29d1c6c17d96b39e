use vstd::prelude::*;
use crate::model::{new_tree, view_kind, TreeKind};

verus! {

/// A location in the expression source, carried for diagnostics.
#[derive(Debug, Clone, Copy, PartialEq, Eq, Structural, Default)]
pub struct Position {
    pub source_pos: usize,
    pub line: usize,
    pub column: usize,
}

/// A structural error found while normalizing a tree.
#[derive(Debug, Clone, Copy, PartialEq, Eq, Structural)]
pub enum Error {
    /// A literal number, boolean or null stands where a path step is expected.
    InvalidStep(Position),
    /// A node that is already grouped is grouped a second time.
    MultipleGroupBy(Position),
    /// A filter follows a grouping clause on the same node.
    InvalidPredicate(Position),
    /// The tree holds a construct that normalization does not handle
    /// (a parent reference, a context bind or a positional bind).
    Unimplemented(Position),
}

/// Object constructor, represented by tuples of (key, value).
pub type Object = Vec<(Node, Node)>;

/// Sort terms: an expression and whether the order is descending.
pub type SortTerms = Vec<(Node, bool)>;

#[derive(Debug, PartialEq)]
pub enum UnaryOp {
    Minus(Box<Node>),
    ArrayConstructor(Vec<Node>),
    ObjectConstructor(Object),
}

#[derive(Debug, Clone, Copy, PartialEq, Eq, Structural)]
pub enum BinaryOp {
    Add,
    Subtract,
    Multiply,
    Divide,
    Modulus,
    Equal,
    NotEqual,
    LessThan,
    GreaterThan,
    LessThanEqual,
    GreaterThanEqual,
    Concat,
    And,
    Or,
    In,
    /// The path navigation operator `.`
    Dot,
    Range,
    ContextBind,
    PositionalBind,
    Predicate,
    Apply,
    Bind,
}

/// The textual symbol of each binary operator.
pub open spec fn op_symbol(op: BinaryOp) -> Seq<char> {
    match op {
        BinaryOp::Add => "+"@,
        BinaryOp::Subtract => "-"@,
        BinaryOp::Multiply => "*"@,
        BinaryOp::Divide => "/"@,
        BinaryOp::Modulus => "%"@,
        BinaryOp::Equal => "="@,
        BinaryOp::NotEqual => "!="@,
        BinaryOp::LessThan => "<"@,
        BinaryOp::GreaterThan => ">"@,
        BinaryOp::LessThanEqual => "<="@,
        BinaryOp::GreaterThanEqual => ">="@,
        BinaryOp::Concat => "&"@,
        BinaryOp::And => "and"@,
        BinaryOp::Or => "or"@,
        BinaryOp::In => "in"@,
        BinaryOp::Dot => "."@,
        BinaryOp::Range => ".."@,
        BinaryOp::ContextBind => "@"@,
        BinaryOp::PositionalBind => "#"@,
        BinaryOp::Predicate => "[]"@,
        BinaryOp::Apply => "~>"@,
        BinaryOp::Bind => ":="@,
    }
}

impl BinaryOp {
    /// The operator's symbol, as it is written in expressions and diagnostics.
    pub fn symbol(&self) -> (r: &'static str)
        ensures
            r@ == op_symbol(*self),
    {
        match *self {
            BinaryOp::Add => "+",
            BinaryOp::Subtract => "-",
            BinaryOp::Multiply => "*",
            BinaryOp::Divide => "/",
            BinaryOp::Modulus => "%",
            BinaryOp::Equal => "=",
            BinaryOp::NotEqual => "!=",
            BinaryOp::LessThan => "<",
            BinaryOp::GreaterThan => ">",
            BinaryOp::LessThanEqual => "<=",
            BinaryOp::GreaterThanEqual => ">=",
            BinaryOp::Concat => "&",
            BinaryOp::And => "and",
            BinaryOp::Or => "or",
            BinaryOp::In => "in",
            BinaryOp::Dot => ".",
            BinaryOp::Range => "..",
            BinaryOp::ContextBind => "@",
            BinaryOp::PositionalBind => "#",
            BinaryOp::Predicate => "[]",
            BinaryOp::Apply => "~>",
            BinaryOp::Bind => ":=",
        }
    }
}

#[derive(Debug, PartialEq)]
pub enum NodeKind {
    Empty,
    Null,
    Bool(bool),
    String(String),
    /// A number literal, held as the bit pattern of an IEEE-754 binary64 value.
    Number(u64),
    Name(String),
    Var(String),
    Unary(UnaryOp),
    Binary(BinaryOp, Box<Node>, Box<Node>),
    GroupBy(Box<Node>, Object),
    OrderBy(Box<Node>, SortTerms),
    Block(Vec<Node>),
    Wildcard,
    Descendent,
    Parent,
    Function { proc: Box<Node>, args: Vec<Node>, is_partial: bool },
    PartialArg,
    Lambda { args: Vec<Node>, body: Box<Node> },
    Ternary { cond: Box<Node>, truthy: Box<Node>, falsy: Option<Box<Node>> },
    Transform { pattern: Box<Node>, update: Box<Node>, delete: Option<Box<Node>> },
    // Generated by normalization only
    Path(Vec<Node>),
    Filter(Box<Node>),
    Sort(SortTerms),
}

#[derive(Debug, PartialEq)]
pub struct Node {
    pub kind: NodeKind,
    pub position: Position,
    pub keep_array: bool,
    pub cons_array: bool,
    pub keep_singleton_array: bool,
    /// An optional group by expression, represented as an object.
    pub group_by: Option<(Position, Object)>,
    /// An optional list of predicates, used on nodes that are not path steps.
    pub predicates: Option<Vec<Node>>,
    /// An optional list of evaluation stages (filters), used on path steps.
    pub stages: Option<Vec<Node>>,
}


impl Node {
    /// A node of the given kind and position, with no flag set and no annotation.
    pub fn new(kind: NodeKind, position: Position) -> (r: Node)
        ensures
            r@ == new_tree(view_kind(kind), position),
    {
        Node {
            kind,
            position,
            keep_array: false,
            cons_array: false,
            keep_singleton_array: false,
            group_by: None,
            predicates: None,
            stages: None,
        }
    }
}

impl Default for Node {
    fn default() -> (r: Node)
        ensures
            r@ == new_tree(TreeKind::Empty, Position { source_pos: 0, line: 0, column: 0 }),
    {
        Node::new(NodeKind::Empty, Position { source_pos: 0, line: 0, column: 0 })
    }
}

} // verus!
