//! The mathematical model of expression trees and of their normalization.
use vstd::prelude::*;
use crate::ast::{BinaryOp, Error, Node, NodeKind, Position, UnaryOp};

verus! {

broadcast use vstd::std_specs::vec::group_vec_axioms, vstd::seq::group_seq_axioms;

pub enum TreeUnary {
    Minus(Box<Tree>),
    ArrayConstructor(Seq<Tree>),
    ObjectConstructor(Seq<(Tree, Tree)>),
}

pub enum TreeKind {
    Empty,
    Null,
    Bool(bool),
    String(Seq<char>),
    Number(u64),
    Name(Seq<char>),
    Var(Seq<char>),
    Unary(TreeUnary),
    Binary(BinaryOp, Box<Tree>, Box<Tree>),
    GroupBy(Box<Tree>, Seq<(Tree, Tree)>),
    OrderBy(Box<Tree>, Seq<(Tree, bool)>),
    Block(Seq<Tree>),
    Wildcard,
    Descendent,
    Parent,
    Function { proc: Box<Tree>, args: Seq<Tree>, is_partial: bool },
    PartialArg,
    Lambda { args: Seq<Tree>, body: Box<Tree> },
    Ternary { cond: Box<Tree>, truthy: Box<Tree>, falsy: Option<Box<Tree>> },
    Transform { pattern: Box<Tree>, update: Box<Tree>, delete: Option<Box<Tree>> },
    Path(Seq<Tree>),
    Filter(Box<Tree>),
    Sort(Seq<(Tree, bool)>),
}

/// The value of a `Node`, with sequences in place of vectors.
pub struct Tree {
    pub kind: TreeKind,
    pub position: Position,
    pub keep_array: bool,
    pub cons_array: bool,
    pub keep_singleton_array: bool,
    pub group_by: Option<(Position, Seq<(Tree, Tree)>)>,
    pub predicates: Option<Seq<Tree>>,
    pub stages: Option<Seq<Tree>>,
}

pub open spec fn view_nodes(s: Seq<Node>) -> Seq<Tree>
    decreases s,
{
    if s.len() == 0 {
        Seq::empty()
    } else {
        view_nodes(s.drop_last()).push(view_node(s.last()))
    }
}

pub open spec fn view_pairs(s: Seq<(Node, Node)>) -> Seq<(Tree, Tree)>
    decreases s,
{
    if s.len() == 0 {
        Seq::empty()
    } else {
        view_pairs(s.drop_last()).push((view_node(s.last().0), view_node(s.last().1)))
    }
}

pub open spec fn view_terms(s: Seq<(Node, bool)>) -> Seq<(Tree, bool)>
    decreases s,
{
    if s.len() == 0 {
        Seq::empty()
    } else {
        view_terms(s.drop_last()).push((view_node(s.last().0), s.last().1))
    }
}

pub open spec fn view_opt_box(o: Option<Box<Node>>) -> Option<Box<Tree>>
    decreases o,
{
    match o {
        Some(b) => Some(Box::new(view_node(*b))),
        None => None,
    }
}

pub open spec fn view_opt_nodes(o: Option<Vec<Node>>) -> Option<Seq<Tree>> {
    match o {
        Some(v) => Some(view_nodes(v@)),
        None => None,
    }
}

pub open spec fn view_kind(k: NodeKind) -> TreeKind
    decreases k,
{
    match k {
        NodeKind::Empty => TreeKind::Empty,
        NodeKind::Null => TreeKind::Null,
        NodeKind::Bool(b) => TreeKind::Bool(b),
        NodeKind::String(s) => TreeKind::String(s@),
        NodeKind::Number(n) => TreeKind::Number(n),
        NodeKind::Name(s) => TreeKind::Name(s@),
        NodeKind::Var(s) => TreeKind::Var(s@),
        NodeKind::Unary(UnaryOp::Minus(b)) => TreeKind::Unary(TreeUnary::Minus(Box::new(view_node(*b)))),
        NodeKind::Unary(UnaryOp::ArrayConstructor(v)) => TreeKind::Unary(TreeUnary::ArrayConstructor(view_nodes(v@))),
        NodeKind::Unary(UnaryOp::ObjectConstructor(v)) => TreeKind::Unary(TreeUnary::ObjectConstructor(view_pairs(v@))),
        NodeKind::Binary(op, l, r) => TreeKind::Binary(op, Box::new(view_node(*l)), Box::new(view_node(*r))),
        NodeKind::GroupBy(l, v) => TreeKind::GroupBy(Box::new(view_node(*l)), view_pairs(v@)),
        NodeKind::OrderBy(l, v) => TreeKind::OrderBy(Box::new(view_node(*l)), view_terms(v@)),
        NodeKind::Block(v) => TreeKind::Block(view_nodes(v@)),
        NodeKind::Wildcard => TreeKind::Wildcard,
        NodeKind::Descendent => TreeKind::Descendent,
        NodeKind::Parent => TreeKind::Parent,
        NodeKind::Function { proc, args, is_partial } => TreeKind::Function {
            proc: Box::new(view_node(*proc)),
            args: view_nodes(args@),
            is_partial,
        },
        NodeKind::PartialArg => TreeKind::PartialArg,
        NodeKind::Lambda { args, body } => TreeKind::Lambda {
            args: view_nodes(args@),
            body: Box::new(view_node(*body)),
        },
        NodeKind::Ternary { cond, truthy, falsy } => TreeKind::Ternary {
            cond: Box::new(view_node(*cond)),
            truthy: Box::new(view_node(*truthy)),
            falsy: view_opt_box(falsy),
        },
        NodeKind::Transform { pattern, update, delete } => TreeKind::Transform {
            pattern: Box::new(view_node(*pattern)),
            update: Box::new(view_node(*update)),
            delete: view_opt_box(delete),
        },
        NodeKind::Path(v) => TreeKind::Path(view_nodes(v@)),
        NodeKind::Filter(b) => TreeKind::Filter(Box::new(view_node(*b))),
        NodeKind::Sort(v) => TreeKind::Sort(view_terms(v@)),
    }
}

pub open spec fn view_node(n: Node) -> Tree
    decreases n,
{
    Tree {
        kind: view_kind(n.kind),
        position: n.position,
        keep_array: n.keep_array,
        cons_array: n.cons_array,
        keep_singleton_array: n.keep_singleton_array,
        group_by: match n.group_by {
            Some((p, v)) => Some((p, view_pairs(v@))),
            None => None,
        },
        predicates: match n.predicates {
            Some(v) => Some(view_nodes(v@)),
            None => None,
        },
        stages: match n.stages {
            Some(v) => Some(view_nodes(v@)),
            None => None,
        },
    }
}

/// The steps of a path node, as nodes; empty for any other node.
pub open spec fn path_steps_of(n: Node) -> Seq<Node> {
    match n.kind {
        NodeKind::Path(v) => v@,
        _ => Seq::empty(),
    }
}

impl View for Node {
    type V = Tree;

    open spec fn view(&self) -> Tree {
        view_node(*self)
    }
}


/// The sign bit of an IEEE-754 binary64 value.
pub const SIGN_BIT: u64 = 0x8000_0000_0000_0000;

pub open spec fn new_tree(kind: TreeKind, position: Position) -> Tree {
    Tree {
        kind,
        position,
        keep_array: false,
        cons_array: false,
        keep_singleton_array: false,
        group_by: None,
        predicates: None,
        stages: None,
    }
}

pub open spec fn view_result(r: Result<Node, Error>) -> Result<Tree, Error> {
    match r {
        Ok(n) => Ok(n@),
        Err(e) => Err(e),
    }
}

/// The steps of a path; empty for any other tree.
pub open spec fn path_steps(t: Tree) -> Seq<Tree> {
    match t.kind {
        TreeKind::Path(s) => s,
        _ => Seq::empty(),
    }
}

/// `t` itself when it is a path, else a new path whose only step is `t`.
pub open spec fn as_path(t: Tree, position: Position) -> Tree {
    if t.kind is Path {
        t
    } else {
        new_tree(TreeKind::Path(seq![t]), position)
    }
}

/// A tree placed as a step of a path: its predicates become its stages.
pub open spec fn as_step(t: Tree) -> Tree {
    Tree { stages: t.predicates, predicates: None, ..t }
}

/// A literal that may not stand as a path step.
pub open spec fn is_literal_step(t: Tree) -> bool {
    t.kind is Number || t.kind is Bool || t.kind is Null
}

pub open spec fn has_literal_step(steps: Seq<Tree>) -> bool {
    exists|i: int| 0 <= i < steps.len() && is_literal_step(#[trigger] steps[i])
}

/// The index of the first literal step.
pub open spec fn first_literal_step(steps: Seq<Tree>) -> int {
    choose|i: int|
        0 <= i < steps.len() && is_literal_step(steps[i]) && forall|j: int|
            0 <= j < i ==> !is_literal_step(#[trigger] steps[j])
}

/// Step `i` of a path of `n` steps, rewritten: a string literal becomes a name, and an
/// array constructor is marked as not to be flattened exactly when it is in first or
/// last place.
pub open spec fn fix_step(t: Tree, i: int, n: int) -> Tree {
    match t.kind {
        TreeKind::String(s) => Tree { kind: TreeKind::Name(s), ..t },
        TreeKind::Unary(TreeUnary::ArrayConstructor(_)) => Tree { cons_array: i == 0 || i == n - 1, ..t },
        _ => t,
    }
}

pub open spec fn fix_steps(steps: Seq<Tree>) -> Seq<Tree> {
    Seq::new(steps.len(), |i: int| fix_step(steps[i], i, steps.len() as int))
}

pub open spec fn any_keep_array(steps: Seq<Tree>) -> bool {
    exists|i: int| 0 <= i < steps.len() && (#[trigger] steps[i]).keep_array
}

/// The path that `left.rest` navigates, from the normalized operands.
pub open spec fn build_path(position: Position, left: Tree, rest: Tree) -> Result<Tree, Error> {
    let seed = as_path(left, position);
    let steps = path_steps(seed) + if rest.kind is Path {
        path_steps(rest)
    } else {
        seq![as_step(rest)]
    };
    if has_literal_step(steps) {
        Err(Error::InvalidStep(steps[first_literal_step(steps)].position))
    } else {
        Ok(
            Tree {
                kind: TreeKind::Path(fix_steps(steps)),
                keep_singleton_array: any_keep_array(steps),
                ..seed
            },
        )
    }
}

/// Whether a filter or a grouping clause on `t` goes to the last step of `t` rather than
/// to `t` itself.
pub open spec fn targets_step(t: Tree) -> bool {
    t.kind is Path && path_steps(t).len() > 0
}

/// The node that a filter or a grouping clause on `t` attaches to.
pub open spec fn filter_target(t: Tree) -> Tree {
    if targets_step(t) {
        path_steps(t).last()
    } else {
        t
    }
}

/// Whether `t` already carries a grouping clause: on the node that a clause on `t`
/// attaches to, or on `t` itself.
pub open spec fn is_grouped(t: Tree) -> bool {
    filter_target(t).group_by is Some || t.group_by is Some
}

/// `t` with the grouping clause `g`: on the last step when `t` is a path, else on `t`.
pub open spec fn attach_group(t: Tree, g: (Position, Seq<(Tree, Tree)>)) -> Tree {
    if targets_step(t) {
        let s = path_steps(t);
        Tree { kind: TreeKind::Path(s.update(s.len() - 1, Tree { group_by: Some(g), ..s.last() })), ..t }
    } else {
        Tree { group_by: Some(g), ..t }
    }
}

pub open spec fn push_opt(o: Option<Seq<Tree>>, x: Tree) -> Seq<Tree> {
    match o {
        Some(s) => s.push(x),
        None => seq![x],
    }
}

/// `t` with `filter` attached: as a stage of its last step when `t` is a path, else as
/// one of its own predicates.
pub open spec fn attach_filter(t: Tree, filter: Tree) -> Tree {
    if targets_step(t) {
        let s = path_steps(t);
        let last = s.last();
        Tree {
            kind: TreeKind::Path(
                s.update(s.len() - 1, Tree { stages: Some(push_opt(last.stages, filter)), ..last }),
            ),
            ..t
        }
    } else {
        Tree { predicates: Some(push_opt(t.predicates, filter)), ..t }
    }
}

/// `t` as a path, with a final sort step over `terms`.
pub open spec fn append_sort(t: Tree, position: Position, terms: Seq<(Tree, bool)>) -> Tree {
    let p = as_path(t, position);
    Tree {
        kind: TreeKind::Path(path_steps(p).push(new_tree(TreeKind::Sort(terms), position))),
        ..p
    }
}

/// The negation of a normalized operand: a number literal has its sign folded in.
pub open spec fn negate(x: Tree, position: Position) -> Tree {
    match x.kind {
        TreeKind::Number(bits) => Tree { kind: TreeKind::Number(bits ^ SIGN_BIT), ..x },
        _ => new_tree(TreeKind::Unary(TreeUnary::Minus(Box::new(x))), position),
    }
}

/// Normalizes each tree of a sequence in order; the first error wins.
pub open spec fn normalize_seq(s: Seq<Tree>) -> Result<Seq<Tree>, Error>
    decreases s, 0int,
{
    if s.len() == 0 {
        Ok(Seq::empty())
    } else {
        match normalize_seq(s.drop_last()) {
            Err(e) => Err(e),
            Ok(w) => match normalize(s.last()) {
                Err(e) => Err(e),
                Ok(x) => Ok(w.push(x)),
            },
        }
    }
}

/// Normalizes each key and value of a sequence of pairs in order.
pub open spec fn normalize_pairs(s: Seq<(Tree, Tree)>) -> Result<Seq<(Tree, Tree)>, Error>
    decreases s, 0int,
{
    if s.len() == 0 {
        Ok(Seq::empty())
    } else {
        match normalize_pairs(s.drop_last()) {
            Err(e) => Err(e),
            Ok(w) => match normalize(s.last().0) {
                Err(e) => Err(e),
                Ok(k) => match normalize(s.last().1) {
                    Err(e) => Err(e),
                    Ok(v) => Ok(w.push((k, v))),
                },
            },
        }
    }
}

/// Normalizes each sort key in order, keeping its direction.
pub open spec fn normalize_terms(s: Seq<(Tree, bool)>) -> Result<Seq<(Tree, bool)>, Error>
    decreases s, 0int,
{
    if s.len() == 0 {
        Ok(Seq::empty())
    } else {
        match normalize_terms(s.drop_last()) {
            Err(e) => Err(e),
            Ok(w) => match normalize(s.last().0) {
                Err(e) => Err(e),
                Ok(k) => Ok(w.push((k, s.last().1))),
            },
        }
    }
}

pub open spec fn normalize_opt(o: Option<Box<Tree>>) -> Result<Option<Box<Tree>>, Error>
    decreases o, 0int,
{
    match o {
        None => Ok(None),
        Some(b) => match normalize(*b) {
            Err(e) => Err(e),
            Ok(x) => Ok(Some(Box::new(x))),
        },
    }
}

/// The rule of a binary node, from its normalized operands where it needs them.
pub open spec fn normalize_binary(t: Tree) -> Result<Tree, Error>
    decreases t, 0int,
{
    match t.kind {
        TreeKind::Binary(op, l, r) => match op {
            BinaryOp::Dot => match normalize(*l) {
                Err(e) => Err(e),
                Ok(a) => match normalize(*r) {
                    Err(e) => Err(e),
                    Ok(b) => build_path(t.position, a, b),
                },
            },
            BinaryOp::Predicate => match normalize(*l) {
                Err(e) => Err(e),
                Ok(a) => if is_grouped(a) {
                    Err(Error::InvalidPredicate(t.position))
                } else {
                    match normalize(*r) {
                        Err(e) => Err(e),
                        Ok(c) => Ok(
                            attach_filter(a, new_tree(TreeKind::Filter(Box::new(c)), t.position)),
                        ),
                    }
                },
            },
            BinaryOp::ContextBind => Err(Error::Unimplemented(t.position)),
            BinaryOp::PositionalBind => Err(Error::Unimplemented(t.position)),
            _ => match normalize(*l) {
                Err(e) => Err(e),
                Ok(a) => match normalize(*r) {
                    Err(e) => Err(e),
                    Ok(b) => Ok(Tree { kind: TreeKind::Binary(op, Box::new(a), Box::new(b)), ..t }),
                },
            },
        },
        _ => Ok(t),
    }
}

/// The rule of each kind of node, applied after its children are normalized.
pub open spec fn normalize_shape(t: Tree) -> Result<Tree, Error>
    decreases t, 1int,
{
    match t.kind {
        TreeKind::Name(_) => Ok(
            Tree {
                keep_singleton_array: t.keep_array,
                ..new_tree(TreeKind::Path(seq![t]), t.position)
            },
        ),
        TreeKind::Block(v) => match normalize_seq(v) {
            Err(e) => Err(e),
            Ok(w) => Ok(Tree { kind: TreeKind::Block(w), ..t }),
        },
        TreeKind::Unary(TreeUnary::Minus(b)) => match normalize(*b) {
            Err(e) => Err(e),
            Ok(x) => Ok(negate(x, t.position)),
        },
        TreeKind::Unary(TreeUnary::ArrayConstructor(v)) => match normalize_seq(v) {
            Err(e) => Err(e),
            Ok(w) => Ok(Tree { kind: TreeKind::Unary(TreeUnary::ArrayConstructor(w)), ..t }),
        },
        TreeKind::Unary(TreeUnary::ObjectConstructor(v)) => match normalize_pairs(v) {
            Err(e) => Err(e),
            Ok(w) => Ok(Tree { kind: TreeKind::Unary(TreeUnary::ObjectConstructor(w)), ..t }),
        },
        TreeKind::Binary(..) => normalize_binary(t),
        TreeKind::GroupBy(l, v) => match normalize(*l) {
            Err(e) => Err(e),
            Ok(a) => if is_grouped(a) {
                Err(Error::MultipleGroupBy(t.position))
            } else {
                match normalize_pairs(v) {
                    Err(e) => Err(e),
                    Ok(w) => Ok(attach_group(a, (t.position, w))),
                }
            },
        },
        TreeKind::OrderBy(l, v) => match normalize(*l) {
            Err(e) => Err(e),
            Ok(a) => match normalize_terms(v) {
                Err(e) => Err(e),
                Ok(w) => Ok(append_sort(a, t.position, w)),
            },
        },
        TreeKind::Function { proc, args, is_partial } => match normalize(*proc) {
            Err(e) => Err(e),
            Ok(p) => match normalize_seq(args) {
                Err(e) => Err(e),
                Ok(w) => Ok(
                    Tree { kind: TreeKind::Function { proc: Box::new(p), args: w, is_partial }, ..t },
                ),
            },
        },
        TreeKind::Lambda { args, body } => match normalize(*body) {
            Err(e) => Err(e),
            Ok(b) => Ok(Tree { kind: TreeKind::Lambda { args, body: Box::new(b) }, ..t }),
        },
        TreeKind::Ternary { cond, truthy, falsy } => match normalize(*cond) {
            Err(e) => Err(e),
            Ok(c) => match normalize(*truthy) {
                Err(e) => Err(e),
                Ok(x) => match normalize_opt(falsy) {
                    Err(e) => Err(e),
                    Ok(y) => Ok(
                        Tree {
                            kind: TreeKind::Ternary { cond: Box::new(c), truthy: Box::new(x), falsy: y },
                            ..t
                        },
                    ),
                },
            },
        },
        TreeKind::Transform { pattern, update, delete } => match normalize(*pattern) {
            Err(e) => Err(e),
            Ok(p) => match normalize(*update) {
                Err(e) => Err(e),
                Ok(u) => match normalize_opt(delete) {
                    Err(e) => Err(e),
                    Ok(d) => Ok(
                        Tree {
                            kind: TreeKind::Transform { pattern: Box::new(p), update: Box::new(u), delete: d },
                            ..t
                        },
                    ),
                },
            },
        },
        TreeKind::Parent => Err(Error::Unimplemented(t.position)),
        _ => Ok(t),
    }
}

/// The normalized form of a tree, or the first structural error in it. A `keep_array`
/// request on the tree is kept on the result.
pub open spec fn normalize(t: Tree) -> Result<Tree, Error>
    decreases t, 2int,
{
    match normalize_shape(t) {
        Err(e) => Err(e),
        Ok(n) => Ok(if t.keep_array { Tree { keep_array: true, ..n } } else { n }),
    }
}


pub proof fn lemma_view_nodes(s: Seq<Node>)
    ensures
        view_nodes(s).len() == s.len(),
        forall|i: int| 0 <= i < s.len() ==> #[trigger] view_nodes(s)[i] == view_node(s[i]),
    decreases s.len(),
{
    if s.len() > 0 {
        lemma_view_nodes(s.drop_last());
    }
}

pub proof fn lemma_view_pairs(s: Seq<(Node, Node)>)
    ensures
        view_pairs(s).len() == s.len(),
        forall|i: int|
            0 <= i < s.len() ==> #[trigger] view_pairs(s)[i] == (view_node(s[i].0), view_node(s[i].1)),
    decreases s.len(),
{
    if s.len() > 0 {
        lemma_view_pairs(s.drop_last());
    }
}

pub proof fn lemma_view_terms(s: Seq<(Node, bool)>)
    ensures
        view_terms(s).len() == s.len(),
        forall|i: int| 0 <= i < s.len() ==> #[trigger] view_terms(s)[i] == (view_node(s[i].0), s[i].1),
    decreases s.len(),
{
    if s.len() > 0 {
        lemma_view_terms(s.drop_last());
    }
}

pub proof fn lemma_view_nodes_push(s: Seq<Node>, x: Node)
    ensures
        view_nodes(s.push(x)) == view_nodes(s).push(view_node(x)),
{
    assert(s.push(x).drop_last() =~= s);
}

pub proof fn lemma_view_pairs_push(s: Seq<(Node, Node)>, x: (Node, Node))
    ensures
        view_pairs(s.push(x)) == view_pairs(s).push((view_node(x.0), view_node(x.1))),
{
    assert(s.push(x).drop_last() =~= s);
}

pub proof fn lemma_view_terms_push(s: Seq<(Node, bool)>, x: (Node, bool))
    ensures
        view_terms(s.push(x)) == view_terms(s).push((view_node(x.0), x.1)),
{
    assert(s.push(x).drop_last() =~= s);
}

/// An error in a prefix of a sequence is the error of the whole sequence.
pub proof fn lemma_seq_error_prefix(s: Seq<Tree>, j: int)
    requires
        0 <= j <= s.len(),
        normalize_seq(s.take(j)) is Err,
    ensures
        normalize_seq(s) == normalize_seq(s.take(j)),
    decreases s.len(),
{
    if j < s.len() {
        assert(s.drop_last().take(j) =~= s.take(j));
        lemma_seq_error_prefix(s.drop_last(), j);
    } else {
        assert(s.take(j) =~= s);
    }
}

pub proof fn lemma_pairs_error_prefix(s: Seq<(Tree, Tree)>, j: int)
    requires
        0 <= j <= s.len(),
        normalize_pairs(s.take(j)) is Err,
    ensures
        normalize_pairs(s) == normalize_pairs(s.take(j)),
    decreases s.len(),
{
    if j < s.len() {
        assert(s.drop_last().take(j) =~= s.take(j));
        lemma_pairs_error_prefix(s.drop_last(), j);
    } else {
        assert(s.take(j) =~= s);
    }
}

pub proof fn lemma_terms_error_prefix(s: Seq<(Tree, bool)>, j: int)
    requires
        0 <= j <= s.len(),
        normalize_terms(s.take(j)) is Err,
    ensures
        normalize_terms(s) == normalize_terms(s.take(j)),
    decreases s.len(),
{
    if j < s.len() {
        assert(s.drop_last().take(j) =~= s.take(j));
        lemma_terms_error_prefix(s.drop_last(), j);
    } else {
        assert(s.take(j) =~= s);
    }
}

} // verus!
