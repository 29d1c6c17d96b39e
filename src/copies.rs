//! Deep copies of trees, proved to keep their value.
use vstd::prelude::*;
use crate::ast::{Node, NodeKind, Object, SortTerms, UnaryOp};
use crate::model::{
    lemma_view_nodes, lemma_view_nodes_push, lemma_view_pairs, lemma_view_pairs_push,
    lemma_view_terms, lemma_view_terms_push, view_kind, view_node, view_nodes, view_opt_box,
    view_pairs, view_terms,
};

verus! {

broadcast use vstd::std_specs::vec::group_vec_axioms, vstd::seq::group_seq_axioms;

fn copy_nodes(v: &Vec<Node>) -> (r: Vec<Node>)
    ensures
        view_nodes(r@) == view_nodes(v@),
    decreases v,
{
    proof {
        lemma_view_nodes(v@);
    }
    let mut out: Vec<Node> = Vec::new();
    let mut i: usize = 0;
    while i < v.len()
        invariant
            0 <= i <= v.len(),
            view_nodes(v@).len() == v@.len(),
            forall|k: int| 0 <= k < v@.len() ==> #[trigger] view_nodes(v@)[k] == view_node(v@[k]),
            view_nodes(out@) == view_nodes(v@).take(i as int),
        decreases v.len() - i,
    {
        assert(decreases_to!(v => v@[i as int]));
        let x = copy_node(&v[i]);
        proof {
            lemma_view_nodes_push(out@, x);
            assert(view_nodes(v@).take(i + 1) =~= view_nodes(v@).take(i as int).push(view_node(x)));
        }
        out.push(x);
        i += 1;
    }
    assert(view_nodes(v@).take(v@.len() as int) =~= view_nodes(v@));
    out
}

fn copy_pairs(v: &Object) -> (r: Object)
    ensures
        view_pairs(r@) == view_pairs(v@),
    decreases v,
{
    proof {
        lemma_view_pairs(v@);
    }
    let mut out: Object = Vec::new();
    let mut i: usize = 0;
    while i < v.len()
        invariant
            0 <= i <= v.len(),
            view_pairs(v@).len() == v@.len(),
            forall|k: int|
                0 <= k < v@.len() ==> #[trigger] view_pairs(v@)[k] == (view_node(v@[k].0), view_node(v@[k].1)),
            view_pairs(out@) == view_pairs(v@).take(i as int),
        decreases v.len() - i,
    {
        assert(decreases_to!(v => v@[i as int]));
        let k = copy_node(&v[i].0);
        let x = copy_node(&v[i].1);
        proof {
            lemma_view_pairs_push(out@, (k, x));
            assert(view_pairs(v@).take(i + 1) =~= view_pairs(v@).take(i as int).push(
                (view_node(k), view_node(x)),
            ));
        }
        out.push((k, x));
        i += 1;
    }
    assert(view_pairs(v@).take(v@.len() as int) =~= view_pairs(v@));
    out
}

fn copy_terms(v: &SortTerms) -> (r: SortTerms)
    ensures
        view_terms(r@) == view_terms(v@),
    decreases v,
{
    proof {
        lemma_view_terms(v@);
    }
    let mut out: SortTerms = Vec::new();
    let mut i: usize = 0;
    while i < v.len()
        invariant
            0 <= i <= v.len(),
            view_terms(v@).len() == v@.len(),
            forall|k: int| 0 <= k < v@.len() ==> #[trigger] view_terms(v@)[k] == (view_node(v@[k].0), v@[k].1),
            view_terms(out@) == view_terms(v@).take(i as int),
        decreases v.len() - i,
    {
        assert(decreases_to!(v => v@[i as int]));
        let k = copy_node(&v[i].0);
        let descending = v[i].1;
        proof {
            lemma_view_terms_push(out@, (k, descending));
            assert(view_terms(v@).take(i + 1) =~= view_terms(v@).take(i as int).push(
                (view_node(k), descending),
            ));
        }
        out.push((k, descending));
        i += 1;
    }
    assert(view_terms(v@).take(v@.len() as int) =~= view_terms(v@));
    out
}

fn copy_opt_box(o: &Option<Box<Node>>) -> (r: Option<Box<Node>>)
    ensures
        view_opt_box(r) == view_opt_box(*o),
    decreases o,
{
    match o {
        Some(b) => Some(Box::new(copy_node(b))),
        None => None,
    }
}

fn copy_opt_nodes(o: &Option<Vec<Node>>) -> (r: Option<Vec<Node>>)
    ensures
        match (r, *o) {
            (Some(a), Some(b)) => view_nodes(a@) == view_nodes(b@),
            (None, None) => true,
            _ => false,
        },
    decreases o,
{
    match o {
        Some(v) => Some(copy_nodes(v)),
        None => None,
    }
}

fn copy_unary(u: &UnaryOp) -> (r: UnaryOp)
    ensures
        view_kind(NodeKind::Unary(r)) == view_kind(NodeKind::Unary(*u)),
    decreases u,
{
    match u {
        UnaryOp::Minus(b) => UnaryOp::Minus(Box::new(copy_node(b))),
        UnaryOp::ArrayConstructor(v) => UnaryOp::ArrayConstructor(copy_nodes(v)),
        UnaryOp::ObjectConstructor(v) => UnaryOp::ObjectConstructor(copy_pairs(v)),
    }
}

fn copy_kind(k: &NodeKind) -> (r: NodeKind)
    ensures
        view_kind(r) == view_kind(*k),
    decreases k,
{
    match k {
        NodeKind::Empty => NodeKind::Empty,
        NodeKind::Null => NodeKind::Null,
        NodeKind::Bool(b) => NodeKind::Bool(*b),
        NodeKind::String(s) => NodeKind::String(s.clone()),
        NodeKind::Number(n) => NodeKind::Number(*n),
        NodeKind::Name(s) => NodeKind::Name(s.clone()),
        NodeKind::Var(s) => NodeKind::Var(s.clone()),
        NodeKind::Unary(u) => NodeKind::Unary(copy_unary(u)),
        NodeKind::Binary(op, l, r) => NodeKind::Binary(*op, Box::new(copy_node(l)), Box::new(copy_node(r))),
        NodeKind::GroupBy(l, v) => NodeKind::GroupBy(Box::new(copy_node(l)), copy_pairs(v)),
        NodeKind::OrderBy(l, v) => NodeKind::OrderBy(Box::new(copy_node(l)), copy_terms(v)),
        NodeKind::Block(v) => NodeKind::Block(copy_nodes(v)),
        NodeKind::Wildcard => NodeKind::Wildcard,
        NodeKind::Descendent => NodeKind::Descendent,
        NodeKind::Parent => NodeKind::Parent,
        NodeKind::Function { proc, args, is_partial } => NodeKind::Function {
            proc: Box::new(copy_node(proc)),
            args: copy_nodes(args),
            is_partial: *is_partial,
        },
        NodeKind::PartialArg => NodeKind::PartialArg,
        NodeKind::Lambda { args, body } => NodeKind::Lambda {
            args: copy_nodes(args),
            body: Box::new(copy_node(body)),
        },
        NodeKind::Ternary { cond, truthy, falsy } => NodeKind::Ternary {
            cond: Box::new(copy_node(cond)),
            truthy: Box::new(copy_node(truthy)),
            falsy: copy_opt_box(falsy),
        },
        NodeKind::Transform { pattern, update, delete } => NodeKind::Transform {
            pattern: Box::new(copy_node(pattern)),
            update: Box::new(copy_node(update)),
            delete: copy_opt_box(delete),
        },
        NodeKind::Path(v) => NodeKind::Path(copy_nodes(v)),
        NodeKind::Filter(b) => NodeKind::Filter(Box::new(copy_node(b))),
        NodeKind::Sort(v) => NodeKind::Sort(copy_terms(v)),
    }
}

fn copy_node(n: &Node) -> (r: Node)
    ensures
        view_node(r) == view_node(*n),
    decreases n,
{
    let group_by = match &n.group_by {
        Some((p, v)) => Some((*p, copy_pairs(v))),
        None => None,
    };
    Node {
        kind: copy_kind(&n.kind),
        position: n.position,
        keep_array: n.keep_array,
        cons_array: n.cons_array,
        keep_singleton_array: n.keep_singleton_array,
        group_by,
        predicates: copy_opt_nodes(&n.predicates),
        stages: copy_opt_nodes(&n.stages),
    }
}

impl Clone for Node {
    /// A deep copy of the tree.
    fn clone(&self) -> (r: Node)
        ensures
            r@ == self@,
    {
        copy_node(self)
    }
}

impl Clone for NodeKind {
    fn clone(&self) -> (r: NodeKind)
        ensures
            view_kind(r) == view_kind(*self),
    {
        copy_kind(self)
    }
}

impl Clone for UnaryOp {
    fn clone(&self) -> (r: UnaryOp)
        ensures
            view_kind(NodeKind::Unary(r)) == view_kind(NodeKind::Unary(*self)),
    {
        copy_unary(self)
    }
}

} // verus!
