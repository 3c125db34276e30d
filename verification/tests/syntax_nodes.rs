use minilang::node::{Node, NodeType};
use minilang::token::{Op, TokStruct, Token};

fn named(name: &str, pos: usize, kind: NodeType) -> Node {
    Node::new().val(TokStruct::new(Token::Var(name.to_string()), pos)).type_(kind)
}

fn name_of(n: &Node) -> String {
    match n.get_val() {
        Token::Var(s) => s,
        other => format!("{:?}", other),
    }
}

#[test]
fn a_new_node_is_blank() {
    let n = Node::new();
    assert!(matches!(n.get_val(), Token::End));
    assert_eq!(n.get_pos(), 0);
    assert_eq!(n.get_type(), NodeType::Empty);
    assert!(n.get_children().is_empty());
}

#[test]
fn the_builders_set_one_thing_each() {
    let n = Node::new().val(TokStruct::new(Token::Operator(Op::Add), 4));
    assert!(matches!(n.get_val(), Token::Operator(Op::Add)));
    assert_eq!(n.get_pos(), 4);
    assert_eq!(n.get_type(), NodeType::Empty);
    let n = n.type_(NodeType::AExpression);
    assert_eq!(n.get_type(), NodeType::AExpression);
    assert_eq!(n.get_pos(), 4);
    let n = n.add_child(named("a", 2, NodeType::Var));
    assert_eq!(n.get_children().len(), 1);
    assert_eq!(n.get_type(), NodeType::AExpression);
    assert!(matches!(n.get_val(), Token::Operator(Op::Add)));
}

#[test]
fn children_are_kept_in_order() {
    let n = Node::new()
        .add_child(named("a", 0, NodeType::Var))
        .add_child(named("b", 1, NodeType::Var))
        .add_child(named("c", 2, NodeType::Var));
    let names: Vec<String> = n.get_children().iter().map(name_of).collect();
    assert_eq!(names, vec!["a", "b", "c"]);
}

#[test]
fn children_replaces_and_add_children_appends() {
    let n = Node::new().add_child(named("old", 0, NodeType::Var));
    let n = n.children(vec![named("x", 0, NodeType::Var), named("y", 1, NodeType::Var)]);
    let names: Vec<String> = n.get_children().iter().map(name_of).collect();
    assert_eq!(names, vec!["x", "y"]);
    let mut more = vec![named("z", 2, NodeType::Var), named("w", 3, NodeType::Var)];
    let n = n.add_children(&mut more);
    assert!(more.is_empty());
    let names: Vec<String> = n.get_children().iter().map(name_of).collect();
    assert_eq!(names, vec!["x", "y", "z", "w"]);
    let n = n.children(Vec::new());
    assert!(n.get_children().is_empty());
}

#[test]
fn a_walk_in_post_order_meets_children_before_their_parent() {
    let left = named("l", 1, NodeType::Number)
        .add_child(named("ll", 2, NodeType::Var))
        .add_child(named("lr", 3, NodeType::Bool));
    let right = named("r", 4, NodeType::FnCall);
    let root = named("root", 0, NodeType::Program).add_child(left).add_child(right);
    let visits = Node::po_(&root);
    let seen: Vec<(String, usize, NodeType)> = visits
        .iter()
        .map(|(t, k)| {
            let name = match t.get_val() {
                Token::Var(s) => s,
                other => format!("{:?}", other),
            };
            (name, t.get_pos(), *k)
        })
        .collect();
    assert_eq!(
        seen,
        vec![
            ("ll".to_string(), 2, NodeType::Var),
            ("lr".to_string(), 3, NodeType::Bool),
            ("l".to_string(), 1, NodeType::Number),
            ("r".to_string(), 4, NodeType::FnCall),
            ("root".to_string(), 0, NodeType::Program),
        ]
    );
    assert_eq!(Node::po_(&Node::new()).len(), 1);
}
