//! The normalization pass, proved to compute `normalize` of the model.
use vstd::prelude::*;
use crate::ast::{BinaryOp, Error, Node, NodeKind, Object, Position, SortTerms, UnaryOp};
use crate::model::{
    any_keep_array, as_path, as_step, attach_filter, attach_group, build_path, is_grouped,
    first_literal_step, fix_step, fix_steps, has_literal_step, is_literal_step,
    lemma_pairs_error_prefix, lemma_seq_error_prefix, lemma_terms_error_prefix,
    lemma_view_nodes, lemma_view_nodes_push, lemma_view_pairs, lemma_view_pairs_push,
    lemma_view_terms, lemma_view_terms_push, normalize, normalize_opt, normalize_pairs,
    normalize_seq, normalize_shape, normalize_terms, path_steps, path_steps_of, push_opt, view_node,
    view_nodes, view_opt_box, view_opt_nodes, view_pairs, view_result, view_terms, Tree,
    TreeKind, SIGN_BIT,
};

verus! {

broadcast use vstd::std_specs::vec::group_vec_axioms, vstd::seq::group_seq_axioms;

/// Normalizes a parsed tree: chains of `.` become paths, filters, groupings and sorts are
/// attached where they belong. Returns the first structural error found, if any.
pub fn process_ast(node: Node) -> (r: Result<Node, Error>)
    ensures
        view_result(r) == normalize(node@),
    decreases node, 2int,
{
    let keep_array = node.keep_array;
    let position = node.position;
    let result = match node.kind {
        NodeKind::Name(..) => Ok(process_name(node)),
        NodeKind::Block(..) => process_block(node),
        NodeKind::Unary(..) => process_unary(node),
        NodeKind::Binary(..) => process_binary(node),
        NodeKind::GroupBy(..) => process_group_by(node),
        NodeKind::OrderBy(..) => process_order_by(node),
        NodeKind::Function { .. } => process_function(node),
        NodeKind::Lambda { .. } => process_lambda(node),
        NodeKind::Ternary { .. } => process_ternary(node),
        NodeKind::Transform { .. } => process_transform(node),
        NodeKind::Parent => Err(Error::Unimplemented(position)),
        _ => Ok(node),
    };
    match result {
        Ok(n) => {
            let mut n = n;
            if keep_array {
                n.keep_array = true;
            }
            Ok(n)
        },
        Err(e) => Err(e),
    }
}

/// Normalizes each expression in order.
fn process_exprs(v: Vec<Node>) -> (r: Result<Vec<Node>, Error>)
    ensures
        match r {
            Ok(w) => normalize_seq(view_nodes(v@)) == Ok::<Seq<Tree>, Error>(view_nodes(w@)),
            Err(e) => normalize_seq(view_nodes(v@)) == Err::<Seq<Tree>, Error>(e),
        },
    decreases v, 0int,
{
    let ghost orig = v@;
    let ghost tv = view_nodes(v@);
    proof {
        lemma_view_nodes(orig);
        assert(tv.take(0) =~= Seq::<Tree>::empty());
    }
    let n = v.len();
    let mut src = v;
    let mut out: Vec<Node> = Vec::new();
    let mut i: usize = 0;
    while i < n
        invariant
            n == orig.len(),
            orig == v@,
            tv == view_nodes(orig),
            tv.len() == orig.len(),
            forall|k: int| 0 <= k < orig.len() ==> #[trigger] tv[k] == view_node(orig[k]),
            0 <= i <= n,
            src@ == orig.subrange(i as int, n as int),
            normalize_seq(tv.take(i as int)) == Ok::<Seq<Tree>, Error>(view_nodes(out@)),
        decreases n - i,
    {
        let e = src.remove(0);
        assert(e == orig[i as int]);
        assert(decreases_to!(v => v@[i as int]));
        assert(tv.take(i + 1).drop_last() =~= tv.take(i as int));
        match process_ast(e) {
            Ok(x) => {
                proof {
                    lemma_view_nodes_push(out@, x);
                }
                out.push(x);
            },
            Err(err) => {
                proof {
                    lemma_seq_error_prefix(tv, i + 1);
                }
                return Err(err);
            },
        }
        i += 1;
    }
    assert(tv.take(n as int) =~= tv);
    Ok(out)
}

/// Normalizes each key and value of an object, in order.
fn process_pairs(v: Object) -> (r: Result<Object, Error>)
    ensures
        match r {
            Ok(w) => normalize_pairs(view_pairs(v@)) == Ok::<Seq<(Tree, Tree)>, Error>(view_pairs(w@)),
            Err(e) => normalize_pairs(view_pairs(v@)) == Err::<Seq<(Tree, Tree)>, Error>(e),
        },
    decreases v, 0int,
{
    let ghost orig = v@;
    let ghost tv = view_pairs(v@);
    proof {
        lemma_view_pairs(orig);
        assert(tv.take(0) =~= Seq::<(Tree, Tree)>::empty());
    }
    let n = v.len();
    let mut src = v;
    let mut out: Object = Vec::new();
    let mut i: usize = 0;
    while i < n
        invariant
            n == orig.len(),
            orig == v@,
            tv == view_pairs(orig),
            tv.len() == orig.len(),
            forall|k: int|
                0 <= k < orig.len() ==> #[trigger] tv[k] == (view_node(orig[k].0), view_node(orig[k].1)),
            0 <= i <= n,
            src@ == orig.subrange(i as int, n as int),
            normalize_pairs(tv.take(i as int)) == Ok::<Seq<(Tree, Tree)>, Error>(view_pairs(out@)),
        decreases n - i,
    {
        let pair = src.remove(0);
        assert(pair == orig[i as int]);
        assert(decreases_to!(v => v@[i as int]));
        assert(tv.take(i + 1).drop_last() =~= tv.take(i as int));
        let (key, value) = pair;
        let k = match process_ast(key) {
            Ok(k) => k,
            Err(err) => {
                proof {
                    lemma_pairs_error_prefix(tv, i + 1);
                }
                return Err(err);
            },
        };
        let x = match process_ast(value) {
            Ok(x) => x,
            Err(err) => {
                proof {
                    lemma_pairs_error_prefix(tv, i + 1);
                }
                return Err(err);
            },
        };
        proof {
            lemma_view_pairs_push(out@, (k, x));
        }
        out.push((k, x));
        i += 1;
    }
    assert(tv.take(n as int) =~= tv);
    Ok(out)
}

/// Normalizes each sort key in order, keeping its direction.
fn process_sort_terms(v: SortTerms) -> (r: Result<SortTerms, Error>)
    ensures
        match r {
            Ok(w) => normalize_terms(view_terms(v@)) == Ok::<Seq<(Tree, bool)>, Error>(view_terms(w@)),
            Err(e) => normalize_terms(view_terms(v@)) == Err::<Seq<(Tree, bool)>, Error>(e),
        },
    decreases v, 0int,
{
    let ghost orig = v@;
    let ghost tv = view_terms(v@);
    proof {
        lemma_view_terms(orig);
        assert(tv.take(0) =~= Seq::<(Tree, bool)>::empty());
    }
    let n = v.len();
    let mut src = v;
    let mut out: SortTerms = Vec::new();
    let mut i: usize = 0;
    while i < n
        invariant
            n == orig.len(),
            orig == v@,
            tv == view_terms(orig),
            tv.len() == orig.len(),
            forall|k: int| 0 <= k < orig.len() ==> #[trigger] tv[k] == (view_node(orig[k].0), orig[k].1),
            0 <= i <= n,
            src@ == orig.subrange(i as int, n as int),
            normalize_terms(tv.take(i as int)) == Ok::<Seq<(Tree, bool)>, Error>(view_terms(out@)),
        decreases n - i,
    {
        let term = src.remove(0);
        assert(term == orig[i as int]);
        assert(decreases_to!(v => v@[i as int]));
        assert(tv.take(i + 1).drop_last() =~= tv.take(i as int));
        let (key, descending) = term;
        match process_ast(key) {
            Ok(k) => {
                proof {
                    lemma_view_terms_push(out@, (k, descending));
                }
                out.push((k, descending));
            },
            Err(err) => {
                proof {
                    lemma_terms_error_prefix(tv, i + 1);
                }
                return Err(err);
            },
        }
        i += 1;
    }
    assert(tv.take(n as int) =~= tv);
    Ok(out)
}

/// Turns a name into a path with a single step.
fn process_name(node: Node) -> (r: Node)
    requires
        node.kind is Name,
    ensures
        Ok::<Tree, Error>(r@) == normalize_shape(node@),
{
    let position = node.position;
    let keep_singleton_array = node.keep_array;
    let mut steps: Vec<Node> = Vec::new();
    steps.push(node);
    proof {
        lemma_view_nodes_push(Seq::empty(), node);
        assert(Seq::<Node>::empty().push(node) =~= steps@);
    }
    let mut result = Node::new(NodeKind::Path(steps), position);
    result.keep_singleton_array = keep_singleton_array;
    result
}

/// Normalizes each expression of a block.
fn process_block(node: Node) -> (r: Result<Node, Error>)
    requires
        node.kind is Block,
    ensures
        view_result(r) == normalize_shape(node@),
    decreases node, 0int,
{
    let mut node = node;
    let mut kind = NodeKind::Empty;
    std::mem::swap(&mut kind, &mut node.kind);
    match kind {
        NodeKind::Block(exprs) => match process_exprs(exprs) {
            Ok(w) => {
                node.kind = NodeKind::Block(w);
                Ok(node)
            },
            Err(e) => Err(e),
        },
        _ => Ok(node),
    }
}


/// Normalizes the operand of a negation, folding the sign into a number literal, and the
/// elements of an array or object constructor.
fn process_unary(node: Node) -> (r: Result<Node, Error>)
    requires
        node.kind is Unary,
    ensures
        view_result(r) == normalize_shape(node@),
    decreases node, 0int,
{
    let mut node = node;
    let mut kind = NodeKind::Empty;
    std::mem::swap(&mut kind, &mut node.kind);
    match kind {
        NodeKind::Unary(UnaryOp::Minus(value)) => match process_ast(*value) {
            Ok(result) => {
                let mut result = result;
                match result.kind {
                    NodeKind::Number(bits) => {
                        result.kind = NodeKind::Number(bits ^ SIGN_BIT);
                        Ok(result)
                    },
                    _ => Ok(Node::new(NodeKind::Unary(UnaryOp::Minus(Box::new(result))), node.position)),
                }
            },
            Err(e) => Err(e),
        },
        NodeKind::Unary(UnaryOp::ArrayConstructor(exprs)) => match process_exprs(exprs) {
            Ok(w) => {
                node.kind = NodeKind::Unary(UnaryOp::ArrayConstructor(w));
                Ok(node)
            },
            Err(e) => Err(e),
        },
        NodeKind::Unary(UnaryOp::ObjectConstructor(object)) => match process_pairs(object) {
            Ok(w) => {
                node.kind = NodeKind::Unary(UnaryOp::ObjectConstructor(w));
                Ok(node)
            },
            Err(e) => Err(e),
        },
        _ => Ok(node),
    }
}

/// Routes a binary node: `.` builds a path, `[]` attaches a filter, the bind operators
/// are not handled, and any other operator has both operands normalized.
fn process_binary(node: Node) -> (r: Result<Node, Error>)
    requires
        node.kind is Binary,
    ensures
        view_result(r) == normalize_shape(node@),
    decreases node, 1int,
{
    let position = node.position;
    match node.kind {
        NodeKind::Binary(BinaryOp::Dot, ..) => process_path(node),
        NodeKind::Binary(BinaryOp::Predicate, ..) => process_predicate(node),
        NodeKind::Binary(BinaryOp::ContextBind, ..) => Err(Error::Unimplemented(position)),
        NodeKind::Binary(BinaryOp::PositionalBind, ..) => Err(Error::Unimplemented(position)),
        _ => {
            let mut node = node;
            let mut kind = NodeKind::Empty;
            std::mem::swap(&mut kind, &mut node.kind);
            match kind {
                NodeKind::Binary(op, lhs, rhs) => {
                    let a = match process_ast(*lhs) {
                        Ok(a) => a,
                        Err(e) => return Err(e),
                    };
                    let b = match process_ast(*rhs) {
                        Ok(b) => b,
                        Err(e) => return Err(e),
                    };
                    node.kind = NodeKind::Binary(op, Box::new(a), Box::new(b));
                    Ok(node)
                },
                _ => Ok(node),
            }
        },
    }
}

/// The steps of a path node; empty for any other node.
fn take_steps(node: &mut Node) -> (steps: Vec<Node>)
    ensures
        view_nodes(steps@) == path_steps(old(node)@),
        final(node)@ == (Tree { kind: TreeKind::Empty, ..old(node)@ }),
{
    let mut kind = NodeKind::Empty;
    std::mem::swap(&mut kind, &mut node.kind);
    match kind {
        NodeKind::Path(steps) => steps,
        _ => Vec::new(),
    }
}

/// `node` itself when it is a path, else a new path whose only step is `node`.
fn into_path(node: Node, position: Position) -> (r: Node)
    ensures
        r@ == as_path(node@, position),
{
    if matches!(node.kind, NodeKind::Path(_)) {
        node
    } else {
        let mut steps: Vec<Node> = Vec::new();
        steps.push(node);
        proof {
            lemma_view_nodes_push(Seq::empty(), node);
            assert(Seq::<Node>::empty().push(node) =~= steps@);
        }
        Node::new(NodeKind::Path(steps), position)
    }
}

/// Validates and rewrites the steps of a path: a literal number, boolean or null is
/// rejected, a string becomes a name, and an array constructor is marked as not to be
/// flattened exactly when it is in first or last place. Also tells whether any step
/// asks to keep arrays.
fn rewrite_steps(steps: Vec<Node>) -> (r: Result<(Vec<Node>, bool), Error>)
    ensures
        ({
            let all = view_nodes(steps@);
            match r {
                Ok((w, keep)) => !has_literal_step(all) && view_nodes(w@) == fix_steps(all)
                    && keep == any_keep_array(all),
                Err(e) => has_literal_step(all) && e == Error::InvalidStep(
                    all[first_literal_step(all)].position,
                ),
            }
        }),
{
    let ghost all = view_nodes(steps@);
    let ghost orig_steps = steps@;
    proof {
        lemma_view_nodes(steps@);
        assert(Seq::<Tree>::empty() =~= fix_steps(all).take(0));
    }
    let n = steps.len();
    let mut src = steps;
    let mut out: Vec<Node> = Vec::new();
    let mut keep_singleton_array = false;
    let mut i: usize = 0;
    while i < n
        invariant
            n == all.len(),
            n == orig_steps.len(),
            orig_steps == steps@,
            all == view_nodes(orig_steps),
            forall|k: int| 0 <= k < n ==> #[trigger] all[k] == view_node(orig_steps[k]),
            0 <= i <= n,
            src@ == orig_steps.subrange(i as int, n as int),
            view_nodes(out@) == fix_steps(all).take(i as int),
            forall|j: int| 0 <= j < i ==> !is_literal_step(#[trigger] all[j]),
            keep_singleton_array == exists|j: int| 0 <= j < i && (#[trigger] all[j]).keep_array,
        decreases n - i,
    {
        let mut step = src.remove(0);
        assert(step == orig_steps[i as int]);
        assert(view_node(step) == all[i as int]);
        match step.kind {
            NodeKind::Number(..) | NodeKind::Bool(..) | NodeKind::Null => {
                proof {
                    let ii = i as int;
                    assert(is_literal_step(all[ii]));
                    assert(has_literal_step(all));
                    assert(0 <= ii < all.len() && is_literal_step(all[ii]) && forall|j: int|
                        0 <= j < ii ==> !is_literal_step(#[trigger] all[j]));
                    let k = first_literal_step(all);
                    assert(0 <= k < all.len() && is_literal_step(all[k]) && forall|j: int|
                        0 <= j < k ==> !is_literal_step(#[trigger] all[j]));
                    if k < ii {
                        assert(!is_literal_step(all[k]));
                    }
                    if k > ii {
                        assert(!is_literal_step(all[ii]));
                    }
                    assert(k == ii);
                }
                return Err(Error::InvalidStep(step.position));
            },
            _ => {},
        }
        let mut kind = NodeKind::Empty;
        std::mem::swap(&mut kind, &mut step.kind);
        match kind {
            NodeKind::String(s) => {
                step.kind = NodeKind::Name(s);
            },
            NodeKind::Unary(UnaryOp::ArrayConstructor(exprs)) => {
                step.kind = NodeKind::Unary(UnaryOp::ArrayConstructor(exprs));
                step.cons_array = i == 0 || i + 1 == n;
            },
            other => {
                step.kind = other;
            },
        }
        assert(view_node(step) == fix_step(all[i as int], i as int, n as int));
        keep_singleton_array = keep_singleton_array || step.keep_array;
        proof {
            lemma_view_nodes_push(out@, step);
            assert(fix_steps(all).take(i + 1) =~= fix_steps(all).take(i as int).push(view_node(step)));
        }
        out.push(step);
        i += 1;
    }
    assert(fix_steps(all).take(n as int) =~= fix_steps(all));
    Ok((out, keep_singleton_array))
}

/// The path that `left.rest` navigates, from the normalized operands.
fn join_path(position: Position, left_step: Node, rest: Node) -> (r: Result<Node, Error>)
    ensures
        view_result(r) == build_path(position, left_step@, rest@),
{
    let ghost left_v = left_step@;
    let ghost rest_v = rest@;
    let mut result = into_path(left_step, position);
    let ghost seed = result@;
    let mut steps = take_steps(&mut result);
    let mut rest = rest;
    if matches!(rest.kind, NodeKind::Path(_)) {
        let mut rest_steps = take_steps(&mut rest);
        proof {
            lemma_view_nodes(steps@);
            lemma_view_nodes(rest_steps@);
            lemma_view_nodes(steps@ + rest_steps@);
            assert(view_nodes(steps@ + rest_steps@) =~= view_nodes(steps@) + view_nodes(rest_steps@));
        }
        steps.append(&mut rest_steps);
    } else {
        let mut predicates: Option<Vec<Node>> = None;
        std::mem::swap(&mut predicates, &mut rest.predicates);
        rest.stages = predicates;
        proof {
            lemma_view_nodes_push(steps@, rest);
            assert(seq![as_step(rest_v)] =~= Seq::<Tree>::empty().push(view_node(rest)));
        }
        steps.push(rest);
    }
    let ghost all = view_nodes(steps@);
    assert(all == path_steps(seed) + if rest_v.kind is Path {
        path_steps(rest_v)
    } else {
        seq![as_step(rest_v)]
    });
    let (out, keep_singleton_array) = match rewrite_steps(steps) {
        Ok(r) => r,
        Err(e) => return Err(e),
    };
    result.kind = NodeKind::Path(out);
    result.keep_singleton_array = keep_singleton_array;
    Ok(result)
}

/// Merges a chain of `.` into one path: the left operand's steps (or the operand itself),
/// then the right operand's steps (or the operand itself, its predicates turned into
/// stages). Literal steps are rejected, string steps become names, an array constructor
/// in first or last place is not flattened, and the path keeps singleton arrays when any
/// step asks for it.
fn process_path(node: Node) -> (r: Result<Node, Error>)
    requires
        node.kind matches NodeKind::Binary(op, _, _) && op == BinaryOp::Dot,
    ensures
        view_result(r) == normalize_shape(node@),
    decreases node, 0int,
{
    let position = node.position;
    let (lhs, rhs) = match node.kind {
        NodeKind::Binary(_, lhs, rhs) => (lhs, rhs),
        _ => {
            return Err(Error::Unimplemented(position));
        },
    };
    let left_step = match process_ast(*lhs) {
        Ok(a) => a,
        Err(e) => return Err(e),
    };
    let rest = match process_ast(*rhs) {
        Ok(b) => b,
        Err(e) => return Err(e),
    };
    join_path(position, left_step, rest)
}

/// Appends `filter` to an optional list, creating the list when it is absent.
fn push_filter(list: &mut Option<Vec<Node>>, filter: Node)
    ensures
        view_opt_nodes(*final(list)) == Some(push_opt(view_opt_nodes(*old(list)), filter@)),
{
    let mut current: Option<Vec<Node>> = None;
    std::mem::swap(&mut current, list);
    let mut items = match current {
        Some(items) => items,
        None => Vec::new(),
    };
    proof {
        lemma_view_nodes_push(items@, filter);
        assert(Seq::<Node>::empty().push(filter).drop_last() =~= Seq::<Node>::empty());
    }
    items.push(filter);
    *list = Some(items);
}

/// Whether `node` already carries a grouping clause: on the node that a filter or a
/// clause on `node` attaches to, or on `node` itself.
fn target_is_grouped(node: &Node) -> (r: bool)
    ensures
        r == is_grouped(node@),
{
    proof {
        if node.kind is Path {
            lemma_view_nodes(path_steps_of(*node));
        }
    }
    let own = node.group_by.is_some();
    match &node.kind {
        NodeKind::Path(steps) => {
            if steps.len() > 0 {
                steps[steps.len() - 1].group_by.is_some() || own
            } else {
                own
            }
        },
        _ => own,
    }
}

/// Attaches the grouping clause `group` to `node`: to its last step when it is a path,
/// else to the node itself.
fn attach_group_by(node: Node, group: (Position, Object)) -> (r: Node)
    ensures
        r@ == attach_group(node@, (group.0, view_pairs(group.1@))),
{
    let mut result = node;
    let ghost a = result@;
    let in_path = match &result.kind {
        NodeKind::Path(steps) => steps.len() > 0,
        _ => false,
    };
    proof {
        if result.kind is Path {
            lemma_view_nodes(path_steps_of(result));
        }
    }
    if in_path {
        let mut steps = take_steps(&mut result);
        proof {
            lemma_view_nodes(steps@);
        }
        let mut last = match steps.pop() {
            Some(last) => last,
            None => Node::new(NodeKind::Empty, group.0),
        };
        assert(view_node(last) == path_steps(a).last());
        last.group_by = Some(group);
        proof {
            lemma_view_nodes(steps@);
            lemma_view_nodes_push(steps@, last);
            lemma_view_nodes(steps@.push(last));
            assert(view_nodes(steps@.push(last)) =~= path_steps(a).update(
                path_steps(a).len() - 1,
                view_node(last),
            ));
        }
        steps.push(last);
        result.kind = NodeKind::Path(steps);
        result
    } else {
        result.group_by = Some(group);
        result
    }
}

/// Attaches `filter` to `node`: as a stage of its last step when it is a path, else as
/// one of its own predicates.
fn attach(node: Node, filter: Node) -> (r: Node)
    ensures
        r@ == attach_filter(node@, filter@),
{
    let mut result = node;
    let ghost a = result@;
    let in_path = match &result.kind {
        NodeKind::Path(steps) => steps.len() > 0,
        _ => false,
    };
    proof {
        if result.kind is Path {
            lemma_view_nodes(path_steps_of(result));
        }
    }
    if in_path {
        let mut steps = take_steps(&mut result);
        proof {
            lemma_view_nodes(steps@);
        }
        let mut last = match steps.pop() {
            Some(last) => last,
            None => Node::new(NodeKind::Empty, filter.position),
        };
        assert(view_node(last) == path_steps(a).last());
        push_filter(&mut last.stages, filter);
        proof {
            lemma_view_nodes(steps@);
            lemma_view_nodes_push(steps@, last);
            lemma_view_nodes(steps@.push(last));
            assert(view_nodes(steps@.push(last)) =~= path_steps(a).update(
                path_steps(a).len() - 1,
                view_node(last),
            ));
        }
        steps.push(last);
        result.kind = NodeKind::Path(steps);
        result
    } else {
        push_filter(&mut result.predicates, filter);
        result
    }
}

/// Attaches a filter: to the last step of the normalized operand when that is a path
/// (as a stage), else to the operand itself (as a predicate). A filter may not follow a
/// grouping clause on the same node.
fn process_predicate(node: Node) -> (r: Result<Node, Error>)
    requires
        node.kind matches NodeKind::Binary(op, _, _) && op == BinaryOp::Predicate,
    ensures
        view_result(r) == normalize_shape(node@),
    decreases node, 0int,
{
    let position = node.position;
    let (lhs, rhs) = match node.kind {
        NodeKind::Binary(_, lhs, rhs) => (lhs, rhs),
        _ => {
            return Err(Error::Unimplemented(position));
        },
    };
    let result = match process_ast(*lhs) {
        Ok(a) => a,
        Err(e) => return Err(e),
    };
    if target_is_grouped(&result) {
        return Err(Error::InvalidPredicate(position));
    }
    let cond = match process_ast(*rhs) {
        Ok(c) => c,
        Err(e) => return Err(e),
    };
    let filter = Node::new(NodeKind::Filter(Box::new(cond)), position);
    Ok(attach(result, filter))
}

/// Attaches a grouping clause to the normalized source (to its last step when it is a
/// path); a node is grouped at most once.
fn process_group_by(node: Node) -> (r: Result<Node, Error>)
    requires
        node.kind is GroupBy,
    ensures
        view_result(r) == normalize_shape(node@),
    decreases node, 0int,
{
    let position = node.position;
    let (lhs, object) = match node.kind {
        NodeKind::GroupBy(lhs, object) => (lhs, object),
        _ => {
            return Err(Error::Unimplemented(position));
        },
    };
    let result = match process_ast(*lhs) {
        Ok(a) => a,
        Err(e) => return Err(e),
    };
    if target_is_grouped(&result) {
        return Err(Error::MultipleGroupBy(position));
    }
    let pairs = match process_pairs(object) {
        Ok(w) => w,
        Err(e) => return Err(e),
    };
    Ok(attach_group_by(result, (position, pairs)))
}

/// Makes the normalized source a path, if it is not one, and ends it with a sort step.
fn process_order_by(node: Node) -> (r: Result<Node, Error>)
    requires
        node.kind is OrderBy,
    ensures
        view_result(r) == normalize_shape(node@),
    decreases node, 0int,
{
    let position = node.position;
    let (lhs, terms) = match node.kind {
        NodeKind::OrderBy(lhs, terms) => (lhs, terms),
        _ => {
            return Err(Error::Unimplemented(position));
        },
    };
    let lhs = match process_ast(*lhs) {
        Ok(a) => a,
        Err(e) => return Err(e),
    };
    let mut result = into_path(lhs, position);
    let terms = match process_sort_terms(terms) {
        Ok(w) => w,
        Err(e) => return Err(e),
    };
    let ghost p = result@;
    let mut steps = take_steps(&mut result);
    let sort = Node::new(NodeKind::Sort(terms), position);
    proof {
        lemma_view_nodes_push(steps@, sort);
    }
    steps.push(sort);
    result.kind = NodeKind::Path(steps);
    Ok(result)
}

/// Normalizes the callee and each argument of a function call.
fn process_function(node: Node) -> (r: Result<Node, Error>)
    requires
        node.kind is Function,
    ensures
        view_result(r) == normalize_shape(node@),
    decreases node, 0int,
{
    let mut node = node;
    let mut kind = NodeKind::Empty;
    std::mem::swap(&mut kind, &mut node.kind);
    match kind {
        NodeKind::Function { proc, args, is_partial } => {
            let proc = match process_ast(*proc) {
                Ok(p) => p,
                Err(e) => return Err(e),
            };
            let args = match process_exprs(args) {
                Ok(w) => w,
                Err(e) => return Err(e),
            };
            node.kind = NodeKind::Function { proc: Box::new(proc), args, is_partial };
            Ok(node)
        },
        _ => Ok(node),
    }
}

/// Normalizes the body of a lambda; its parameters are left as they are.
fn process_lambda(node: Node) -> (r: Result<Node, Error>)
    requires
        node.kind is Lambda,
    ensures
        view_result(r) == normalize_shape(node@),
    decreases node, 0int,
{
    let mut node = node;
    let mut kind = NodeKind::Empty;
    std::mem::swap(&mut kind, &mut node.kind);
    match kind {
        NodeKind::Lambda { args, body } => {
            let body = match process_ast(*body) {
                Ok(b) => b,
                Err(e) => return Err(e),
            };
            node.kind = NodeKind::Lambda { args, body: Box::new(body) };
            Ok(node)
        },
        _ => Ok(node),
    }
}

/// Normalizes an optional branch.
fn process_opt(o: Option<Box<Node>>) -> (r: Result<Option<Box<Node>>, Error>)
    ensures
        match r {
            Ok(w) => normalize_opt(view_opt_box(o)) == Ok::<Option<Box<Tree>>, Error>(view_opt_box(w)),
            Err(e) => normalize_opt(view_opt_box(o)) == Err::<Option<Box<Tree>>, Error>(e),
        },
    decreases o, 0int,
{
    match o {
        Some(b) => match process_ast(*b) {
            Ok(x) => Ok(Some(Box::new(x))),
            Err(e) => Err(e),
        },
        None => Ok(None),
    }
}

/// Normalizes the condition and both branches of a conditional.
fn process_ternary(node: Node) -> (r: Result<Node, Error>)
    requires
        node.kind is Ternary,
    ensures
        view_result(r) == normalize_shape(node@),
    decreases node, 0int,
{
    let mut node = node;
    let mut kind = NodeKind::Empty;
    std::mem::swap(&mut kind, &mut node.kind);
    match kind {
        NodeKind::Ternary { cond, truthy, falsy } => {
            let cond = match process_ast(*cond) {
                Ok(c) => c,
                Err(e) => return Err(e),
            };
            let truthy = match process_ast(*truthy) {
                Ok(c) => c,
                Err(e) => return Err(e),
            };
            let falsy = match process_opt(falsy) {
                Ok(c) => c,
                Err(e) => return Err(e),
            };
            node.kind = NodeKind::Ternary { cond: Box::new(cond), truthy: Box::new(truthy), falsy };
            Ok(node)
        },
        _ => Ok(node),
    }
}

/// Normalizes the pattern, the update and the optional deletion of a transform.
fn process_transform(node: Node) -> (r: Result<Node, Error>)
    requires
        node.kind is Transform,
    ensures
        view_result(r) == normalize_shape(node@),
    decreases node, 0int,
{
    let mut node = node;
    let mut kind = NodeKind::Empty;
    std::mem::swap(&mut kind, &mut node.kind);
    match kind {
        NodeKind::Transform { pattern, update, delete } => {
            let pattern = match process_ast(*pattern) {
                Ok(c) => c,
                Err(e) => return Err(e),
            };
            let update = match process_ast(*update) {
                Ok(c) => c,
                Err(e) => return Err(e),
            };
            let delete = match process_opt(delete) {
                Ok(c) => c,
                Err(e) => return Err(e),
            };
            node.kind = NodeKind::Transform {
                pattern: Box::new(pattern),
                update: Box::new(update),
                delete,
            };
            Ok(node)
        },
        _ => Ok(node),
    }
}

} // verus!
