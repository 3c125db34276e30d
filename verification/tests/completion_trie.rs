use minilang::io::{Point, Trie};

fn trie_of(words: &[&str]) -> Trie {
    let mut t = Trie::new();
    for w in words {
        t = Trie::insert(t, &w.to_string());
    }
    t
}

fn complete(t: &Trie, prefix: &str) -> Vec<String> {
    t.complete(prefix.as_bytes())
}

#[test]
fn a_point_holds_its_coordinates() {
    let p = Point::new(3, 9);
    assert_eq!(p.x, 3);
    assert_eq!(p.y, 9);
    let q = Point::new(u16::MAX, 0);
    assert_eq!(q.x, u16::MAX);
    assert_eq!(q.y, 0);
}

#[test]
fn the_empty_trie_completes_nothing() {
    let t = Trie::new();
    assert!(t.descend().is_empty());
    assert!(complete(&t, "").is_empty());
    assert!(complete(&t, "a").is_empty());
}

#[test]
fn a_word_completes_its_prefixes() {
    let t = trie_of(&["hello"]);
    assert_eq!(complete(&t, "h"), vec!["hello"]);
    assert_eq!(complete(&t, "hel"), vec!["hello"]);
    assert_eq!(complete(&t, "hello"), vec!["hello"]);
    assert!(complete(&t, "hellos").is_empty());
    assert!(complete(&t, "x").is_empty());
    assert!(complete(&t, "ha").is_empty());
}

#[test]
fn the_root_has_no_value_and_yields_nothing() {
    let t = trie_of(&["a", "b"]);
    assert!(complete(&t, "").is_empty());
    assert!(t.descend().is_empty());
}

#[test]
fn completions_come_in_the_order_of_their_bytes() {
    let t = trie_of(&["car", "cat", "cab", "cow"]);
    assert_eq!(complete(&t, "ca"), vec!["cab", "car", "cat"]);
    assert_eq!(complete(&t, "c"), vec!["cab", "car", "cat", "cow"]);
    let u = trie_of(&["cow", "cab", "cat", "car"]);
    assert_eq!(complete(&u, "c"), vec!["cab", "car", "cat", "cow"]);
    let v = trie_of(&["bB", "ba", "b0", "bA"]);
    assert_eq!(complete(&v, "b"), vec!["b0", "bA", "bB", "ba"]);
}

#[test]
fn a_word_that_is_a_prefix_of_others_is_repeated_before_each_group() {
    let t = trie_of(&["ab", "abc", "abd"]);
    assert_eq!(complete(&t, "ab"), vec!["ab", "abc", "ab", "abd"]);
    assert_eq!(complete(&t, "a"), vec!["ab", "abc", "ab", "abd"]);
    let u = trie_of(&["ab", "abc"]);
    assert_eq!(complete(&u, "ab"), vec!["ab", "abc"]);
    // A node on the way that is no word itself is not listed.
    let v = trie_of(&["abc", "abd"]);
    assert_eq!(complete(&v, "ab"), vec!["abc", "abd"]);
}

#[test]
fn inserting_a_word_twice_changes_nothing() {
    let t = trie_of(&["go", "gone", "go"]);
    assert_eq!(complete(&t, "g"), vec!["go", "gone"]);
}

#[test]
fn the_empty_word_gives_the_root_a_value() {
    let t = trie_of(&["", "a"]);
    assert_eq!(complete(&t, ""), vec!["", "a"]);
    let u = trie_of(&[""]);
    assert_eq!(complete(&u, ""), vec![""]);
}

#[test]
fn a_node_with_a_value_and_no_children_yields_the_value() {
    let t = Trie::new().val(&"word".to_string());
    assert_eq!(t.descend(), vec!["word"]);
    assert_eq!(t.complete(b""), vec!["word"]);
    assert!(t.complete(b"w").is_empty());
}

#[test]
fn words_are_keyed_by_their_bytes() {
    // "é" is two bytes; both lead down the trie.
    let t = trie_of(&["é", "e"]);
    assert_eq!(t.complete(&[0xc3]), vec!["é"]);
    assert_eq!(t.complete(&[0xc3, 0xa9]), vec!["é"]);
    assert_eq!(t.complete(b"e"), vec!["e"]);
    assert!(t.complete(&[0xa9]).is_empty());
}

#[test]
fn inserting_keeps_what_was_offered_and_adds_only_the_word() {
    let words = ["tree", "trie", "try", "toast", "t", "tr"];
    let mut t = Trie::new();
    let mut before: Vec<Vec<String>> = Vec::new();
    let prefixes = ["t", "tr", "tri", "to", "x"];
    for p in prefixes {
        before.push(complete(&t, p));
    }
    for w in words {
        t = Trie::insert(t, &w.to_string());
        for (i, p) in prefixes.iter().enumerate() {
            let now = complete(&t, p);
            // Nothing that was offered is lost.
            for old in &before[i] {
                assert!(now.contains(old), "{:?} lost {:?} under {:?}", w, old, p);
            }
            // Nothing but the word is new.
            for new in &now {
                assert!(new == w || before[i].contains(new), "{:?} brought {:?}", w, new);
            }
            // The word is offered for each of its prefixes, and for no other.
            assert_eq!(now.contains(&w.to_string()), w.starts_with(p) || before[i].contains(&w.to_string()));
            before[i] = now;
        }
        // A word is the first completion of itself.
        assert_eq!(complete(&t, w)[0], w);
    }
    assert_eq!(complete(&t, "tr"), vec!["tr", "tree", "tr", "trie", "tr", "try"]);
    assert_eq!(complete(&t, "to"), vec!["toast"]);
}

#[test]
fn a_copy_of_a_trie_offers_the_same_words() {
    let t = trie_of(&["car", "cat", "cab", "cow", "c"]);
    let u = t.duplicate();
    assert_eq!(complete(&u, "c"), complete(&t, "c"));
    assert_eq!(complete(&u, "ca"), vec!["cab", "car", "cat"]);
    let v = Trie::insert(u, &"cap".to_string());
    assert_eq!(complete(&v, "ca"), vec!["cab", "cap", "car", "cat"]);
    assert_eq!(complete(&t, "ca"), vec!["cab", "car", "cat"]);
}
