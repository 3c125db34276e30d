use minilang::ast::{Expr, Program, Statement};
use minilang::io::Trie;
use minilang::node::{Node, NodeType};
use minilang::parser::Parser;
use minilang::token::{TokStruct, Token};

fn program_of(text: &str) -> Program {
    let mut p = Parser::new();
    p.input(text.to_string());
    p.eval().unwrap()
}

#[test]
fn a_copy_of_a_program_is_the_same_program() {
    let text = "fn a (x, y, z) { if x == y return z * 2; elif x < y { return f(z, (x + 1)) } else return -z / 2; } \
                fn b () { fn c (q) { q = q ** 2 ** 3; ; } return c(4) }";
    let p = program_of(text);
    let c = p.clone();
    assert_eq!(format!("{:?}", p), format!("{:?}", c));
    let d = p.duplicate();
    assert_eq!(format!("{:?}", p), format!("{:?}", d));
    assert_eq!(c.content.len(), 2);
    let f = p.content[0].clone();
    assert_eq!(format!("{:?}", f), format!("{:?}", p.content[0]));
    assert_eq!(format!("{:?}", f.args.clone()), format!("{:?}", f.args));
    assert_eq!(format!("{:?}", f.body.clone()), format!("{:?}", f.body));
}

#[test]
fn copies_of_statements_and_expressions() {
    let mut p = Parser::new();
    p.input("if f(a, 1) > 2 { x = g() } else { return (1 + 2) * -3 }".to_string());
    p.reset().unwrap();
    let s = p.statement().unwrap();
    assert_eq!(format!("{:?}", s.clone()), format!("{:?}", s));
    match &s {
        Statement::Branch { if_block, else_block, .. } => {
            let c = if_block.clone();
            assert_eq!(format!("{:?}", c), format!("{:?}", if_block));
            let e: Expr = if_block.cond.clone();
            assert_eq!(format!("{:?}", e), format!("{:?}", if_block.cond));
            assert!(else_block.is_some());
            match &if_block.cond {
                Expr::Binary { left, .. } => match &**left {
                    Expr::Factor(f) => {
                        assert_eq!(format!("{:?}", f.clone()), format!("{:?}", f));
                    }
                    other => panic!("left is {:?}", other),
                },
                other => panic!("condition is {:?}", other),
            }
        }
        other => panic!("parsed {:?}", other),
    }
}

#[test]
fn a_copy_of_a_trie_completes_alike() {
    let mut t = Trie::new();
    for w in ["car", "cart", "dog", ""] {
        t.add(&w.to_string());
    }
    let c = t.clone();
    for prefix in ["", "c", "car", "d", "x"] {
        assert_eq!(t.complete(prefix.as_bytes()), c.complete(prefix.as_bytes()));
    }
    assert_eq!(c.complete(b"c"), vec!["car", "cart"]);
    // Adding to the copy leaves the first as it was.
    let mut c = c;
    c.add(&"cat".to_string());
    assert_eq!(t.complete(b"ca"), vec!["car", "cart"]);
    assert_eq!(c.complete(b"ca"), vec!["car", "cart", "cat"]);
}

#[test]
fn adding_is_inserting() {
    let mut a = Trie::new();
    a.add(&"one".to_string());
    a.add(&"only".to_string());
    let b = Trie::insert(Trie::insert(Trie::new(), &"one".to_string()), &"only".to_string());
    assert_eq!(format!("{:?}", a), format!("{:?}", b));
}

#[test]
fn a_copy_of_a_node_is_the_same_tree() {
    let leaf = Node::new().val(TokStruct::new(Token::Var("x".to_string()), 3)).type_(NodeType::Var);
    let root = Node::new().type_(NodeType::Block).add_child(leaf.clone()).add_child(leaf);
    let copy = root.clone();
    assert_eq!(format!("{:?}", root), format!("{:?}", copy));
    assert_eq!(copy.get_children().len(), 2);
    assert_eq!(copy.get_children()[1].get_pos(), 3);
}
