use jsonata::{process_ast, BinaryOp, Error, Node, NodeKind, Position, UnaryOp};

fn pos(p: usize) -> Position {
    Position { source_pos: p, line: 1, column: p + 1 }
}

fn node(kind: NodeKind, p: usize) -> Node {
    Node::new(kind, pos(p))
}

fn name(s: &str, p: usize) -> Node {
    node(NodeKind::Name(s.to_string()), p)
}

fn var(s: &str, p: usize) -> Node {
    node(NodeKind::Var(s.to_string()), p)
}

fn string(s: &str, p: usize) -> Node {
    node(NodeKind::String(s.to_string()), p)
}

fn num(x: f64, p: usize) -> Node {
    node(NodeKind::Number(x.to_bits()), p)
}

fn bin(op: BinaryOp, l: Node, r: Node, p: usize) -> Node {
    node(NodeKind::Binary(op, Box::new(l), Box::new(r)), p)
}

fn path(steps: Vec<Node>, p: usize) -> Node {
    node(NodeKind::Path(steps), p)
}

fn array(items: Vec<Node>, p: usize) -> Node {
    node(NodeKind::Unary(UnaryOp::ArrayConstructor(items)), p)
}

fn filter(cond: Node, p: usize) -> Node {
    node(NodeKind::Filter(Box::new(cond)), p)
}

fn steps_of(n: &Node) -> &Vec<Node> {
    match &n.kind {
        NodeKind::Path(steps) => steps,
        other => panic!("expected a path, got {:?}", other),
    }
}

#[test]
fn name_becomes_single_step_path() {
    let r = process_ast(name("a", 0)).unwrap();
    assert_eq!(r, path(vec![name("a", 0)], 0));
}

#[test]
fn map_of_two_names_becomes_two_step_path() {
    let r = process_ast(bin(BinaryOp::Dot, name("a", 0), name("b", 2), 1)).unwrap();
    assert_eq!(r, path(vec![name("a", 0), name("b", 2)], 0));
}

#[test]
fn long_chain_is_one_flat_path() {
    // a.b.c.d, parsed left-associatively, and a.(b.c) parsed right-nested
    let left = bin(
        BinaryOp::Dot,
        bin(BinaryOp::Dot, bin(BinaryOp::Dot, name("a", 0), name("b", 2), 1), name("c", 4), 3),
        name("d", 6),
        5,
    );
    let r = process_ast(left).unwrap();
    assert_eq!(r, path(vec![name("a", 0), name("b", 2), name("c", 4), name("d", 6)], 0));

    let right = bin(BinaryOp::Dot, name("a", 0), bin(BinaryOp::Dot, name("b", 3), name("c", 5), 4), 1);
    let r = process_ast(right).unwrap();
    assert_eq!(r, path(vec![name("a", 0), name("b", 3), name("c", 5)], 0));
}

#[test]
fn chain_with_function_step() {
    let call = node(
        NodeKind::Function { proc: Box::new(var("f", 2)), args: vec![name("x", 5)], is_partial: false },
        2,
    );
    let r = process_ast(bin(BinaryOp::Dot, name("a", 0), call, 1)).unwrap();
    let steps = steps_of(&r);
    assert_eq!(steps.len(), 2);
    assert_eq!(steps[0], name("a", 0));
    match &steps[1].kind {
        NodeKind::Function { proc, args, is_partial } => {
            assert_eq!(**proc, var("f", 2));
            assert_eq!(args, &vec![path(vec![name("x", 5)], 5)]);
            assert!(!is_partial);
        }
        other => panic!("expected a function step, got {:?}", other),
    }
}

#[test]
fn filter_on_path_goes_to_last_step_stages() {
    let expr = bin(
        BinaryOp::Predicate,
        bin(BinaryOp::Dot, name("a", 0), name("b", 2), 1),
        var("cond", 4),
        3,
    );
    let r = process_ast(expr).unwrap();
    let b = Node { stages: Some(vec![filter(var("cond", 4), 3)]), ..name("b", 2) };
    assert_eq!(r, path(vec![name("a", 0), b], 0));
    assert_eq!(r.predicates, None);
}

#[test]
fn filter_on_non_path_goes_to_predicates() {
    let r = process_ast(bin(BinaryOp::Predicate, var("a", 0), var("cond", 3), 2)).unwrap();
    assert_eq!(r, Node { predicates: Some(vec![filter(var("cond", 3), 2)]), ..var("a", 0) });
    assert_eq!(r.stages, None);
}

#[test]
fn filters_accumulate_in_order() {
    let inner = bin(BinaryOp::Predicate, var("a", 0), var("c1", 2), 1);
    let r = process_ast(bin(BinaryOp::Predicate, inner, var("c2", 6), 5)).unwrap();
    assert_eq!(
        r.predicates,
        Some(vec![filter(var("c1", 2), 1), filter(var("c2", 6), 5)])
    );
}

#[test]
fn predicates_of_later_step_become_stages() {
    let b = bin(BinaryOp::Predicate, var("b", 3), var("c", 5), 4);
    let r = process_ast(bin(BinaryOp::Dot, name("a", 0), b, 1)).unwrap();
    let steps = steps_of(&r);
    assert_eq!(steps[1].predicates, None);
    assert_eq!(steps[1].stages, Some(vec![filter(var("c", 5), 4)]));
}

fn pairs() -> Vec<(Node, Node)> {
    vec![(string("k", 10), name("v", 12))]
}

#[test]
fn second_group_by_fails_at_second_clause() {
    let once = node(NodeKind::GroupBy(Box::new(name("a", 0)), pairs()), 1);
    let twice = node(NodeKind::GroupBy(Box::new(once), vec![(string("j", 20), name("w", 22))]), 5);
    assert_eq!(process_ast(twice), Err(Error::MultipleGroupBy(pos(5))));
}

#[test]
fn group_by_twice_on_variable_fails() {
    let once = node(NodeKind::GroupBy(Box::new(var("x", 0)), pairs()), 2);
    let twice = node(NodeKind::GroupBy(Box::new(once), pairs()), 7);
    assert_eq!(process_ast(twice), Err(Error::MultipleGroupBy(pos(7))));
}

#[test]
fn filter_after_group_by_fails_at_filter() {
    let grouped = node(NodeKind::GroupBy(Box::new(var("x", 0)), pairs()), 2);
    let expr = bin(BinaryOp::Predicate, grouped, var("cond", 9), 8);
    assert_eq!(process_ast(expr), Err(Error::InvalidPredicate(pos(8))));
}

#[test]
fn filter_after_grouped_name_fails_at_filter() {
    let grouped = node(NodeKind::GroupBy(Box::new(name("a", 0)), pairs()), 2);
    let expr = bin(BinaryOp::Predicate, grouped, var("cond", 9), 8);
    assert_eq!(process_ast(expr), Err(Error::InvalidPredicate(pos(8))));
}

#[test]
fn filter_after_grouped_chain_fails_at_filter() {
    let chain = bin(BinaryOp::Dot, name("a", 0), name("b", 2), 1);
    let grouped = node(NodeKind::GroupBy(Box::new(chain), pairs()), 3);
    let expr = bin(BinaryOp::Predicate, grouped, var("cond", 9), 8);
    assert_eq!(process_ast(expr), Err(Error::InvalidPredicate(pos(8))));
}

#[test]
fn grouping_a_name_marks_its_step() {
    let r = process_ast(node(NodeKind::GroupBy(Box::new(name("a", 0)), pairs()), 2)).unwrap();
    assert_eq!(r.group_by, None);
    assert_eq!(
        steps_of(&r)[0].group_by,
        Some((pos(2), vec![(string("k", 10), path(vec![name("v", 12)], 12))]))
    );
}

#[test]
fn string_step_becomes_name() {
    let expr = bin(
        BinaryOp::Dot,
        bin(BinaryOp::Dot, name("a", 0), string("lit", 2), 1),
        name("c", 8),
        7,
    );
    let r = process_ast(expr).unwrap();
    assert_eq!(r, path(vec![name("a", 0), name("lit", 2), name("c", 8)], 0));
}

#[test]
fn number_step_is_invalid() {
    let expr = bin(BinaryOp::Dot, bin(BinaryOp::Dot, name("a", 0), num(5.0, 2), 1), name("c", 4), 3);
    assert_eq!(process_ast(expr), Err(Error::InvalidStep(pos(2))));
}

#[test]
fn bool_and_null_steps_are_invalid() {
    let b = bin(BinaryOp::Dot, name("a", 0), node(NodeKind::Bool(true), 2), 1);
    assert_eq!(process_ast(b), Err(Error::InvalidStep(pos(2))));
    let n = bin(BinaryOp::Dot, node(NodeKind::Null, 0), name("a", 5), 4);
    assert_eq!(process_ast(n), Err(Error::InvalidStep(pos(0))));
}

#[test]
fn first_invalid_step_is_reported() {
    let expr = bin(BinaryOp::Dot, bin(BinaryOp::Dot, name("a", 0), num(1.0, 2), 1), num(2.0, 4), 3);
    assert_eq!(process_ast(expr), Err(Error::InvalidStep(pos(2))));
}

#[test]
fn leading_array_constructor_is_not_flattened() {
    let arr = array(vec![name("a", 1), name("b", 3)], 0);
    let r = process_ast(bin(BinaryOp::Dot, arr, name("c", 6), 5)).unwrap();
    let steps = steps_of(&r);
    assert!(steps[0].cons_array);
    assert!(!steps[1].cons_array);
    match &steps[0].kind {
        NodeKind::Unary(UnaryOp::ArrayConstructor(items)) => {
            assert_eq!(items, &vec![path(vec![name("a", 1)], 1), path(vec![name("b", 3)], 3)]);
        }
        other => panic!("expected an array constructor, got {:?}", other),
    }
}

#[test]
fn interior_array_constructor_is_flattened() {
    let arr = array(vec![name("b", 3), name("c", 5)], 2);
    let expr = bin(BinaryOp::Dot, bin(BinaryOp::Dot, name("a", 0), arr, 1), name("d", 8), 7);
    let r = process_ast(expr).unwrap();
    let steps = steps_of(&r);
    assert_eq!(steps.len(), 3);
    assert!(!steps[1].cons_array);
}

#[test]
fn trailing_array_constructor_is_not_flattened() {
    let arr = array(vec![name("b", 3)], 2);
    let r = process_ast(bin(BinaryOp::Dot, name("a", 0), arr, 1)).unwrap();
    assert!(steps_of(&r)[1].cons_array);
}

#[test]
fn negative_literal_is_folded() {
    let minus = node(NodeKind::Unary(UnaryOp::Minus(Box::new(num(5.0, 1)))), 0);
    let r = process_ast(minus).unwrap();
    assert_eq!(r, num(-5.0, 1));
    match r.kind {
        NodeKind::Number(bits) => assert_eq!(f64::from_bits(bits), -5.0),
        other => panic!("expected a number, got {:?}", other),
    }
}

#[test]
fn double_negation_folds_twice() {
    let inner = node(NodeKind::Unary(UnaryOp::Minus(Box::new(num(2.5, 2)))), 1);
    let outer = node(NodeKind::Unary(UnaryOp::Minus(Box::new(inner))), 0);
    assert_eq!(process_ast(outer).unwrap(), num(2.5, 2));
}

#[test]
fn negative_variable_is_not_folded() {
    let minus = node(NodeKind::Unary(UnaryOp::Minus(Box::new(var("x", 1)))), 0);
    let r = process_ast(minus).unwrap();
    assert_eq!(r, node(NodeKind::Unary(UnaryOp::Minus(Box::new(var("x", 1)))), 0));
}

#[test]
fn group_by_attaches_to_first_step() {
    let grouped = node(NodeKind::GroupBy(Box::new(name("a", 0)), pairs()), 2);
    let r = process_ast(bin(BinaryOp::Dot, grouped, name("b", 15), 14)).unwrap();
    assert_eq!(r.group_by, None);
    let steps = steps_of(&r);
    assert_eq!(steps.len(), 2);
    assert_eq!(steps[0].kind, NodeKind::Name("a".to_string()));
    assert_eq!(
        steps[0].group_by,
        Some((pos(2), vec![(string("k", 10), path(vec![name("v", 12)], 12))]))
    );
    assert_eq!(steps[1].group_by, None);
}

#[test]
fn group_by_on_variable_attaches_to_first_step() {
    let grouped = node(NodeKind::GroupBy(Box::new(var("a", 0)), pairs()), 2);
    let r = process_ast(bin(BinaryOp::Dot, grouped, name("b", 15), 14)).unwrap();
    assert_eq!(r.group_by, None);
    let steps = steps_of(&r);
    assert_eq!(
        steps[0].group_by,
        Some((pos(2), vec![(string("k", 10), path(vec![name("v", 12)], 12))]))
    );
    assert_eq!(steps[1].group_by, None);
}

#[test]
fn order_by_appends_terminal_sort() {
    let terms = vec![(name("b", 11), false), (name("c", 14), true)];
    let r = process_ast(node(NodeKind::OrderBy(Box::new(name("a", 0)), terms), 2)).unwrap();
    let sort = node(
        NodeKind::Sort(vec![
            (path(vec![name("b", 11)], 11), false),
            (path(vec![name("c", 14)], 14), true),
        ]),
        2,
    );
    assert_eq!(r, path(vec![name("a", 0), sort], 0));
}

#[test]
fn order_by_single_term() {
    let terms = vec![(name("b", 11), false)];
    let r = process_ast(node(NodeKind::OrderBy(Box::new(name("a", 0)), terms), 2)).unwrap();
    let sort = node(NodeKind::Sort(vec![(path(vec![name("b", 11)], 11), false)]), 2);
    assert_eq!(r, path(vec![name("a", 0), sort], 0));
}

#[test]
fn order_by_wraps_non_path_source() {
    let terms = vec![(var("k", 6), true)];
    let r = process_ast(node(NodeKind::OrderBy(Box::new(var("x", 0)), terms), 3)).unwrap();
    let sort = node(NodeKind::Sort(vec![(var("k", 6), true)]), 3);
    assert_eq!(r, path(vec![var("x", 0), sort], 3));
}

#[test]
fn keep_array_survives_shape_change() {
    let a = Node { keep_array: true, ..name("a", 0) };
    let r = process_ast(a).unwrap();
    assert!(r.keep_array);
    assert!(r.keep_singleton_array);
    assert!(matches!(r.kind, NodeKind::Path(_)));
}

#[test]
fn keep_array_on_step_marks_path() {
    let b = Node { keep_array: true, ..name("b", 2) };
    let r = process_ast(bin(BinaryOp::Dot, name("a", 0), b, 1)).unwrap();
    assert!(r.keep_singleton_array);
    let r = process_ast(bin(BinaryOp::Dot, name("a", 0), name("b", 2), 1)).unwrap();
    assert!(!r.keep_singleton_array);
}

#[test]
fn keep_array_on_map_node_is_kept() {
    let expr = Node { keep_array: true, ..bin(BinaryOp::Dot, name("a", 0), name("b", 2), 1) };
    let r = process_ast(expr).unwrap();
    assert!(r.keep_array);
}

#[test]
fn parent_is_unimplemented() {
    assert_eq!(process_ast(node(NodeKind::Parent, 4)), Err(Error::Unimplemented(pos(4))));
}

#[test]
fn bind_operators_are_unimplemented() {
    let c = bin(BinaryOp::ContextBind, name("a", 0), var("x", 2), 1);
    assert_eq!(process_ast(c), Err(Error::Unimplemented(pos(1))));
    let p = bin(BinaryOp::PositionalBind, name("a", 0), var("i", 2), 1);
    assert_eq!(process_ast(p), Err(Error::Unimplemented(pos(1))));
}

#[test]
fn other_binary_normalizes_both_operands() {
    let r = process_ast(bin(BinaryOp::Add, name("a", 0), num(1.0, 4), 2)).unwrap();
    assert_eq!(r, bin(BinaryOp::Add, path(vec![name("a", 0)], 0), num(1.0, 4), 2));
}

#[test]
fn block_normalizes_in_order_and_first_error_wins() {
    let block = node(NodeKind::Block(vec![name("a", 1), var("x", 3)]), 0);
    let r = process_ast(block).unwrap();
    assert_eq!(r, node(NodeKind::Block(vec![path(vec![name("a", 1)], 1), var("x", 3)]), 0));

    let bad = node(NodeKind::Block(vec![node(NodeKind::Parent, 1), node(NodeKind::Parent, 2)]), 0);
    assert_eq!(process_ast(bad), Err(Error::Unimplemented(pos(1))));
}

#[test]
fn object_constructor_normalizes_keys_and_values() {
    let obj = node(NodeKind::Unary(UnaryOp::ObjectConstructor(vec![(string("k", 1), name("v", 4))])), 0);
    let r = process_ast(obj).unwrap();
    assert_eq!(
        r,
        node(
            NodeKind::Unary(UnaryOp::ObjectConstructor(vec![(string("k", 1), path(vec![name("v", 4)], 4))])),
            0
        )
    );
}

#[test]
fn ternary_and_transform_normalize_children() {
    let t = node(
        NodeKind::Ternary {
            cond: Box::new(name("c", 0)),
            truthy: Box::new(name("t", 4)),
            falsy: Some(Box::new(name("f", 8))),
        },
        2,
    );
    let r = process_ast(t).unwrap();
    match r.kind {
        NodeKind::Ternary { cond, truthy, falsy } => {
            assert_eq!(*cond, path(vec![name("c", 0)], 0));
            assert_eq!(*truthy, path(vec![name("t", 4)], 4));
            assert_eq!(falsy, Some(Box::new(path(vec![name("f", 8)], 8))));
        }
        other => panic!("expected a conditional, got {:?}", other),
    }

    let x = node(
        NodeKind::Transform {
            pattern: Box::new(name("p", 1)),
            update: Box::new(var("u", 3)),
            delete: Some(Box::new(node(NodeKind::Parent, 5))),
        },
        0,
    );
    assert_eq!(process_ast(x), Err(Error::Unimplemented(pos(5))));
}

#[test]
fn lambda_normalizes_body_only() {
    let l = node(NodeKind::Lambda { args: vec![var("x", 1)], body: Box::new(name("a", 6)) }, 0);
    let r = process_ast(l).unwrap();
    assert_eq!(
        r,
        node(NodeKind::Lambda { args: vec![var("x", 1)], body: Box::new(path(vec![name("a", 6)], 6)) }, 0)
    );
}

#[test]
fn partial_arguments_pass_through() {
    let f = node(
        NodeKind::Function {
            proc: Box::new(var("f", 0)),
            args: vec![node(NodeKind::PartialArg, 3), name("a", 5)],
            is_partial: true,
        },
        0,
    );
    let r = process_ast(f).unwrap();
    assert_eq!(
        r,
        node(
            NodeKind::Function {
                proc: Box::new(var("f", 0)),
                args: vec![node(NodeKind::PartialArg, 3), path(vec![name("a", 5)], 5)],
                is_partial: true,
            },
            0
        )
    );
}

#[test]
fn literals_pass_through() {
    assert_eq!(process_ast(num(3.0, 0)).unwrap(), num(3.0, 0));
    assert_eq!(process_ast(string("s", 0)).unwrap(), string("s", 0));
    assert_eq!(process_ast(node(NodeKind::Wildcard, 0)).unwrap(), node(NodeKind::Wildcard, 0));
}

#[test]
fn default_node_is_empty() {
    let d = Node::default();
    let zero = Position { source_pos: 0, line: 0, column: 0 };
    assert_eq!(d, Node::new(NodeKind::Empty, zero));
}

#[test]
fn operator_symbols() {
    let table = [
        (BinaryOp::Add, "+"),
        (BinaryOp::Subtract, "-"),
        (BinaryOp::Multiply, "*"),
        (BinaryOp::Divide, "/"),
        (BinaryOp::Modulus, "%"),
        (BinaryOp::Equal, "="),
        (BinaryOp::NotEqual, "!="),
        (BinaryOp::LessThan, "<"),
        (BinaryOp::GreaterThan, ">"),
        (BinaryOp::LessThanEqual, "<="),
        (BinaryOp::GreaterThanEqual, ">="),
        (BinaryOp::Concat, "&"),
        (BinaryOp::And, "and"),
        (BinaryOp::Or, "or"),
        (BinaryOp::In, "in"),
        (BinaryOp::Dot, "."),
        (BinaryOp::Range, ".."),
        (BinaryOp::ContextBind, "@"),
        (BinaryOp::PositionalBind, "#"),
        (BinaryOp::Predicate, "[]"),
        (BinaryOp::Apply, "~>"),
        (BinaryOp::Bind, ":="),
    ];
    for (op, sym) in table.iter() {
        assert_eq!(op.symbol(), *sym);
    }
}

#[test]
fn clone_is_a_deep_copy() {
    let grouped = node(NodeKind::GroupBy(Box::new(name("a", 0)), pairs()), 2);
    let tree = bin(BinaryOp::Dot, grouped, Node { keep_array: true, ..name("b", 15) }, 14);
    let copy = tree.clone();
    assert_eq!(copy, tree);
    assert_eq!(process_ast(copy), process_ast(tree));
    let kind = NodeKind::Sort(vec![(name("x", 1), true)]);
    assert_eq!(kind.clone(), kind);
    let op = UnaryOp::ObjectConstructor(pairs());
    assert_eq!(op.clone(), op);
}
