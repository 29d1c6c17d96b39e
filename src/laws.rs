//! Properties of normalization, stated over the model and proved.
use vstd::prelude::*;
use crate::ast::{BinaryOp, Error};
use crate::model::{
    as_step, attach_filter, attach_group, fix_step, fix_steps, has_literal_step, is_grouped,
    is_literal_step, new_tree, normalize, normalize_binary, normalize_pairs, normalize_shape,
    normalize_terms,
    path_steps, push_opt, targets_step, Tree, TreeKind, SIGN_BIT,
};

verus! {

/// A `keep_array` request on a tree is present on the tree that normalization returns,
/// whatever its shape.
pub proof fn law_keep_array_kept(t: Tree)
    requires
        t.keep_array,
        normalize(t) is Ok,
    ensures
        normalize(t)->Ok_0.keep_array,
{
}

/// Grouping an expression that is already grouped fails, at the second grouping clause.
pub proof fn law_group_by_twice(outer: Tree)
    requires
        outer.kind is GroupBy,
        (*outer.kind->GroupBy_0).kind is GroupBy,
        normalize(*outer.kind->GroupBy_0) is Ok,
    ensures
        normalize(outer) == Err::<Tree, Error>(Error::MultipleGroupBy(outer.position)),
{
    let inner = *outer.kind->GroupBy_0;
    lemma_grouped(inner);
    assert(normalize_shape(outer) == Err::<Tree, Error>(Error::MultipleGroupBy(outer.position)));
}

/// A grouping node that normalizes without error carries its clause where a later
/// filter or grouping clause would attach.
proof fn lemma_grouped(inner: Tree)
    requires
        inner.kind is GroupBy,
        normalize(inner) is Ok,
    ensures
        is_grouped(normalize(inner)->Ok_0),
        normalize(*inner.kind->GroupBy_0) is Ok,
        normalize_pairs(inner.kind->GroupBy_1) is Ok,
        normalize(inner)->Ok_0 == ({
            let x = attach_group(
                normalize(*inner.kind->GroupBy_0)->Ok_0,
                (inner.position, normalize_pairs(inner.kind->GroupBy_1)->Ok_0),
            );
            if inner.keep_array {
                Tree { keep_array: true, ..x }
            } else {
                x
            }
        }),
{
    assert(normalize_shape(inner) is Ok);
    let a = normalize(*inner.kind->GroupBy_0)->Ok_0;
    if targets_step(a) {
        let s = path_steps(a);
        let g = (inner.position, normalize_pairs(inner.kind->GroupBy_1)->Ok_0);
        let u = s.update(s.len() - 1, Tree { group_by: Some(g), ..s.last() });
        assert(u.last() == Tree { group_by: Some(g), ..s.last() });
        assert(path_steps(attach_group(a, g)) == u);
    }
}

/// A filter directly after a grouping clause fails, at the filter.
pub proof fn law_filter_after_group_by(outer: Tree)
    requires
        outer.kind matches TreeKind::Binary(op, l, _) && op == BinaryOp::Predicate && l.kind is GroupBy,
        normalize(*outer.kind->Binary_1) is Ok,
    ensures
        normalize(outer) == Err::<Tree, Error>(Error::InvalidPredicate(outer.position)),
{
    let inner = *outer.kind->Binary_1;
    lemma_grouped(inner);
    assert(normalize_binary(outer) == Err::<Tree, Error>(Error::InvalidPredicate(outer.position)));
    assert(normalize_shape(outer) == Err::<Tree, Error>(Error::InvalidPredicate(outer.position)));
}

/// A filter on an expression whose normalized form is not a path joins that form's own
/// predicates. On a path it joins the stages of the last step instead: the other steps
/// and the path's own predicates stay as they were.
pub proof fn law_filter_attachment(outer: Tree)
    requires
        outer.kind matches TreeKind::Binary(op, _, _) && op == BinaryOp::Predicate,
        normalize(outer) is Ok,
    ensures
        ({
            let a = normalize(*outer.kind->Binary_1)->Ok_0;
            let filter = new_tree(
                TreeKind::Filter(Box::new(normalize(*outer.kind->Binary_2)->Ok_0)),
                outer.position,
            );
            let r = normalize(outer)->Ok_0;
            if a.kind is Path && path_steps(a).len() > 0 {
                &&& r.kind is Path
                &&& r.predicates == a.predicates
                &&& path_steps(r).len() == path_steps(a).len()
                &&& path_steps(r).last().stages == Some(push_opt(path_steps(a).last().stages, filter))
                &&& path_steps(r).drop_last() == path_steps(a).drop_last()
            } else {
                &&& r.kind == a.kind
                &&& r.predicates == Some(push_opt(a.predicates, filter))
            }
        }),
{
    assert(normalize_shape(outer) is Ok);
    assert(normalize_binary(outer) is Ok);
    let a = normalize(*outer.kind->Binary_1)->Ok_0;
    let c = normalize(*outer.kind->Binary_2)->Ok_0;
    let filter = new_tree(TreeKind::Filter(Box::new(c)), outer.position);
    assert(normalize_binary(outer) == Ok::<Tree, Error>(attach_filter(a, filter)));
    if a.kind is Path && path_steps(a).len() > 0 {
        let s = path_steps(a);
        let u = s.update(s.len() - 1, Tree { stages: Some(push_opt(s.last().stages, filter)), ..s.last() });
        assert(path_steps(normalize(outer)->Ok_0) == u);
        assert(u.drop_last() =~= s.drop_last());
    }
}

/// A grouping clause on the left operand of `.` stays on the step that the grouped
/// expression ends with, and the path node that `.` builds carries no clause of its own
/// (beyond one the grouped path already had). For a grouped name, as in `a{k:v}.b`, that
/// is the path's first step, and the path carries no clause.
pub proof fn law_group_by_on_step(outer: Tree)
    requires
        outer.kind matches TreeKind::Binary(op, l, _) && op == BinaryOp::Dot && l.kind is GroupBy,
        normalize(outer) is Ok,
        !(normalize(*(*outer.kind->Binary_1).kind->GroupBy_0)->Ok_0.kind is Path)
            || path_steps(normalize(*(*outer.kind->Binary_1).kind->GroupBy_0)->Ok_0).len() > 0,
    ensures
        ({
            let inner = *outer.kind->Binary_1;
            let a = normalize(*inner.kind->GroupBy_0)->Ok_0;
            let g = (inner.position, normalize_pairs(inner.kind->GroupBy_1)->Ok_0);
            let k = operand_steps(a).len() - 1;
            let r = normalize(outer)->Ok_0;
            &&& 0 <= k < path_steps(r).len()
            &&& path_steps(r)[k].group_by == Some(g)
            &&& r.group_by == if a.kind is Path {
                a.group_by
            } else {
                None
            }
            &&& (*inner.kind->GroupBy_0).kind is Name ==> k == 0 && r.group_by is None
        }),
{
    let inner = *outer.kind->Binary_1;
    assert(normalize_shape(outer) is Ok);
    assert(normalize_binary(outer) is Ok);
    assert(normalize(inner) is Ok);
    lemma_grouped(inner);
    let src = *inner.kind->GroupBy_0;
    let a = normalize(src)->Ok_0;
    let g = (inner.position, normalize_pairs(inner.kind->GroupBy_1)->Ok_0);
    let ag = normalize(inner)->Ok_0;
    let steps = path_steps(normalize(outer)->Ok_0);
    let k = operand_steps(a).len() - 1;
    if a.kind is Path {
        let s = path_steps(a);
        assert(path_steps(ag) == s.update(s.len() - 1, Tree { group_by: Some(g), ..s.last() }));
        assert(steps[k] == fix_step(path_steps(ag)[k], k, steps.len() as int));
    } else {
        assert(steps[0] == fix_step(ag, 0, steps.len() as int));
    }
    if src.kind is Name {
        assert(normalize_shape(src) is Ok);
        assert(path_steps(a).len() == 1);
    }
}

/// The leaves of a chain of `.` operators, from left to right.
pub open spec fn chain_leaves(t: Tree) -> Seq<Tree>
    decreases t,
{
    match t.kind {
        TreeKind::Binary(op, l, r) => if op == BinaryOp::Dot {
            chain_leaves(*l) + chain_leaves(*r)
        } else {
            seq![t]
        },
        _ => seq![t],
    }
}

/// A chain of `.` operators whose leaves are names and function calls (calls that
/// normalize without error).
pub open spec fn is_nav_chain(t: Tree) -> bool
    decreases t,
{
    match t.kind {
        TreeKind::Binary(op, l, r) => op == BinaryOp::Dot && is_nav_chain(*l) && is_nav_chain(*r),
        TreeKind::Name(_) => true,
        TreeKind::Function { .. } => normalize(t) is Ok,
        _ => false,
    }
}

/// The kind of the path step that a leaf of a chain becomes.
pub open spec fn leaf_kind(leaf: Tree) -> TreeKind {
    if leaf.kind is Name {
        leaf.kind
    } else {
        normalize(leaf)->Ok_0.kind
    }
}

/// The steps that a normalized operand of `.` contributes.
pub open spec fn operand_steps(x: Tree) -> Seq<Tree> {
    if x.kind is Path {
        path_steps(x)
    } else {
        seq![x]
    }
}

#[verifier::rlimit(40)]
proof fn lemma_chain(t: Tree)
    requires
        is_nav_chain(t),
    ensures
        normalize(t) is Ok,
        t.kind is Function || normalize(t)->Ok_0.kind is Path,
        t.kind is Function ==> normalize(t)->Ok_0.kind is Function,
        operand_steps(normalize(t)->Ok_0).len() == chain_leaves(t).len(),
        forall|i: int|
            0 <= i < chain_leaves(t).len() ==> (#[trigger] operand_steps(normalize(t)->Ok_0)[i]).kind
                == leaf_kind(chain_leaves(t)[i]),
    decreases t,
{
    match t.kind {
        TreeKind::Binary(op, l, r) => {
            lemma_chain(*l);
            lemma_chain(*r);
            lemma_chain_leaves(t);
            let a = normalize(*l)->Ok_0;
            let b = normalize(*r)->Ok_0;
            let right = if b.kind is Path {
                path_steps(b)
            } else {
                seq![as_step(b)]
            };
            let steps = operand_steps(a) + right;
            let ll = chain_leaves(*l);
            let rl = chain_leaves(*r);
            assert(chain_leaves(t) == ll + rl);
            assert forall|i: int| 0 <= i < steps.len() implies (#[trigger] steps[i]).kind == leaf_kind(
                (ll + rl)[i],
            ) by {
                if i >= ll.len() {
                    assert(steps[i] == right[i - ll.len()]);
                }
            }
            assert forall|i: int| 0 <= i < steps.len() implies !is_literal_step(#[trigger] steps[i])
                && fix_step(steps[i], i, steps.len() as int) == steps[i] by {
                assert(steps[i].kind == leaf_kind((ll + rl)[i]));
            }
            assert(!has_literal_step(steps));
            assert(fix_steps(steps) =~= steps);
            assert(normalize_binary(t) is Ok);
            assert(normalize_shape(t) is Ok);
        },
        TreeKind::Name(_) => {},
        _ => {
            assert(normalize_shape(t) is Ok);
        },
    }
}

proof fn lemma_chain_leaves(t: Tree)
    requires
        is_nav_chain(t),
    ensures
        forall|i: int|
            0 <= i < chain_leaves(t).len() ==> leaf_kind(#[trigger] chain_leaves(t)[i]) is Name
                || leaf_kind(chain_leaves(t)[i]) is Function,
    decreases t,
{
    match t.kind {
        TreeKind::Binary(op, l, r) => {
            lemma_chain_leaves(*l);
            lemma_chain_leaves(*r);
            let ll = chain_leaves(*l);
            let rl = chain_leaves(*r);
            assert forall|i: int| 0 <= i < (ll + rl).len() implies leaf_kind(#[trigger] (ll + rl)[i]) is Name
                || leaf_kind((ll + rl)[i]) is Function by {
                if i >= ll.len() {
                    assert((ll + rl)[i] == rl[i - ll.len()]);
                }
            }
        },
        TreeKind::Name(_) => {},
        _ => {
            assert(normalize_shape(t) is Ok);
        },
    }
}

/// A chain of `.` operators over names and function calls, when it is more than a lone
/// call, normalizes to one path whose steps are the chain's leaves from left to right,
/// none of them a path.
pub proof fn law_chain_is_flat_path(t: Tree)
    requires
        is_nav_chain(t),
        !(t.kind is Function),
    ensures
        normalize(t) is Ok,
        normalize(t)->Ok_0.kind is Path,
        path_steps(normalize(t)->Ok_0).len() == chain_leaves(t).len(),
        forall|i: int|
            0 <= i < chain_leaves(t).len() ==> (#[trigger] path_steps(normalize(t)->Ok_0)[i]).kind
                == leaf_kind(chain_leaves(t)[i]),
        forall|i: int|
            0 <= i < chain_leaves(t).len() ==> !((#[trigger] path_steps(normalize(t)->Ok_0)[i]).kind is Path),
{
    lemma_chain(t);
    lemma_chain_leaves(t);
    let steps = path_steps(normalize(t)->Ok_0);
    assert forall|i: int| 0 <= i < chain_leaves(t).len() implies !((#[trigger] steps[i]).kind is Path) by {
        assert(steps[i].kind == leaf_kind(chain_leaves(t)[i]));
    }
}


/// No step of a path that `.` builds is a string literal: each one was turned into a name
/// with the same text.
pub proof fn law_no_string_steps(t: Tree)
    requires
        t.kind matches TreeKind::Binary(op, _, _) && op == BinaryOp::Dot,
        normalize(t) is Ok,
    ensures
        forall|i: int|
            0 <= i < path_steps(normalize(t)->Ok_0).len() ==> !((#[trigger] path_steps(
                normalize(t)->Ok_0,
            )[i]).kind is String),
{
    assert(normalize_shape(t) is Ok);
    assert(normalize_binary(t) is Ok);
}

pub open spec fn is_array_constructor(t: Tree) -> bool {
    t.kind matches TreeKind::Unary(u) && u is ArrayConstructor
}

/// In a path that `.` builds, an array-constructor step is marked as not to be flattened
/// exactly when it is the first or the last step.
pub proof fn law_array_steps_marked_at_ends(t: Tree)
    requires
        t.kind matches TreeKind::Binary(op, _, _) && op == BinaryOp::Dot,
        normalize(t) is Ok,
    ensures
        ({
            let steps = path_steps(normalize(t)->Ok_0);
            forall|i: int|
                0 <= i < steps.len() && is_array_constructor(#[trigger] steps[i]) ==> steps[i].cons_array
                    == (i == 0 || i == steps.len() - 1)
        }),
{
    assert(normalize_shape(t) is Ok);
    assert(normalize_binary(t) is Ok);
}


/// Negating any operand that normalizes to a number literal gives that literal with its
/// sign flipped and every other field kept: no negation node remains.
pub proof fn law_negation_folds(t: Tree)
    requires
        t.kind matches TreeKind::Unary(u) && u is Minus,
        normalize(*t.kind->Unary_0->Minus_0) is Ok,
        normalize(*t.kind->Unary_0->Minus_0)->Ok_0.kind is Number,
    ensures
        ({
            let x = normalize(*t.kind->Unary_0->Minus_0)->Ok_0;
            let folded = Tree { kind: TreeKind::Number(x.kind->Number_0 ^ SIGN_BIT), ..x };
            normalize(t) == Ok::<Tree, Error>(
                if t.keep_array {
                    Tree { keep_array: true, ..folded }
                } else {
                    folded
                },
            )
        }),
{
    assert(normalize_shape(t) is Ok);
}

/// Sorting makes the normalized source a path (when it is not one) and adds exactly one
/// step, a final sort step holding the normalized terms in order.
pub proof fn law_sort_is_terminal(t: Tree)
    requires
        t.kind is OrderBy,
        normalize(t) is Ok,
    ensures
        normalize(*t.kind->OrderBy_0) is Ok,
        normalize_terms(t.kind->OrderBy_1) is Ok,
        normalize(t)->Ok_0.kind is Path,
        path_steps(normalize(t)->Ok_0).len() > 0,
        path_steps(normalize(t)->Ok_0).last() == new_tree(
            TreeKind::Sort(normalize_terms(t.kind->OrderBy_1)->Ok_0),
            t.position,
        ),
        path_steps(normalize(t)->Ok_0).drop_last() == operand_steps(normalize(*t.kind->OrderBy_0)->Ok_0),
{
    assert(normalize_shape(t) is Ok);
    let a = normalize(*t.kind->OrderBy_0)->Ok_0;
    let steps = path_steps(normalize(t)->Ok_0);
    assert(steps.drop_last() =~= operand_steps(a));
}

} // verus!
