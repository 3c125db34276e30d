//! What the line editor front end keeps between keystrokes: a point on the
//! screen, and the trie of words that it offers as completions.
use std::collections::BTreeMap;
use vstd::prelude::*;
use vstd::slice::slice_subrange;
use vstd::utf8::encode_utf8;
use crate::text::{bytes_text, text_of};

verus! {

broadcast use vstd::std_specs::btree::group_btree_axioms;

/// A position on the terminal grid. The terminal counts from one.
#[derive(Clone, Copy, Debug, PartialEq, Eq, Structural)]
pub struct Point {
    pub x: u16,
    pub y: u16,
}

impl Point {
    /// The point in the column `x` of the row `y`.
    pub fn new(x: u16, y: u16) -> (p: Point)
        ensures
            p.x == x,
            p.y == y,
    {
        Point { x: x, y: y }
    }
}

/// A trie of words, keyed by their bytes.
///
/// The node reached by the bytes of a word holds the text of those bytes as
/// its value, and is marked as an end where the word itself was inserted.
/// The children of a node stand in a map under the bytes that lead to
/// them, and are visited in the rising order of those bytes.
#[derive(Debug)]
pub struct Trie {
    val: Option<String>,
    children: BTreeMap<u8, Trie>,
    end: bool,
}

/// The mathematical value of a [`Trie`].
pub struct SpecTrie {
    pub val: Option<Seq<char>>,
    pub children: Map<u8, SpecTrie>,
    pub end: bool,
}

/// The trie with neither value nor children.
pub open spec fn empty_trie() -> SpecTrie {
    SpecTrie { val: None, children: Map::empty(), end: false }
}

/// Whether `t` has no child at all.
pub open spec fn is_leaf(t: SpecTrie) -> bool {
    forall|key: u8| !t.children.contains_key(key)
}

/// All the words below a node, in the order of their bytes.
///
/// A node without a value yields nothing. A node without children yields
/// its value. Any other node yields, for each child in the rising order of
/// the keys, its own value where it is an end and then what the child
/// yields: so that a word which is the prefix of others is repeated before
/// each group of them.
pub open spec fn descend(t: SpecTrie) -> Seq<Seq<char>>
    decreases t, 257nat,
{
    match t.val {
        None => Seq::empty(),
        Some(v) => if is_leaf(t) {
            seq![v]
        } else {
            descend_from(t, v, 0)
        },
    }
}

/// What `t`, an end or not, puts before the words of each of its children.
pub open spec fn own_word(t: SpecTrie, v: Seq<char>) -> Seq<Seq<char>> {
    if t.end {
        seq![v]
    } else {
        Seq::empty()
    }
}

/// What the children of `t` under the keys from `key` on yield, each after
/// the value `v` of `t` where `t` is an end.
pub open spec fn descend_from(t: SpecTrie, v: Seq<char>, key: nat) -> Seq<Seq<char>>
    decreases t, 256 - key,
{
    if key >= 256 {
        Seq::empty()
    } else if t.children.contains_key(key as u8) {
        own_word(t, v) + descend(t.children[key as u8]) + descend_from(t, v, key + 1)
    } else {
        descend_from(t, v, key + 1)
    }
}

/// The completions of `prefix`: all the words below the node that its
/// bytes lead to, or nothing where they lead to none.
pub open spec fn complete(t: SpecTrie, prefix: Seq<u8>) -> Seq<Seq<char>>
    decreases prefix.len(),
{
    if prefix.len() == 0 {
        descend(t)
    } else if t.children.contains_key(prefix[0]) {
        complete(t.children[prefix[0]], prefix.skip(1))
    } else {
        Seq::empty()
    }
}

/// The node that the first `upto` bytes of `bytes` lead to when it is first
/// made: it holds their text, and nothing else.
pub open spec fn fresh(bytes: Seq<u8>, upto: nat) -> SpecTrie {
    SpecTrie {
        val: Some(bytes_text(bytes.subrange(0, upto as int))),
        children: Map::empty(),
        end: false,
    }
}

/// The trie `t`, which the first `depth` bytes of `bytes` lead to, after
/// the word `word` with the bytes `bytes` has been inserted below it.
///
/// Every node made on the way holds the text of the bytes that lead to it;
/// the last holds the word itself and is marked as an end.
pub open spec fn insert(t: SpecTrie, bytes: Seq<u8>, depth: nat, word: Seq<char>) -> SpecTrie
    decreases bytes.len() - depth,
{
    if depth >= bytes.len() {
        SpecTrie { val: Some(word), children: t.children, end: true }
    } else {
        let key = bytes[depth as int];
        let child = if t.children.contains_key(key) {
            t.children[key]
        } else {
            fresh(bytes, depth + 1)
        };
        SpecTrie { children: t.children.insert(key, insert(child, bytes, depth + 1, word)), ..t }
    }
}

/// A trie as insertions make it, seen at the node that the bytes `path`
/// lead to: a node that is an end holds the word whose bytes are `path`, a
/// node that has a value and no children is an end, every node but the
/// root has a value, and the same holds of every node below.
pub open spec fn built(t: SpecTrie, path: Seq<u8>) -> bool
    decreases t,
{
    &&& t.end ==> t.val is Some && encode_utf8(t.val->0) == path
    &&& t.val is Some && is_leaf(t) ==> t.end
    &&& path.len() > 0 ==> t.val is Some
    &&& forall|key: u8| #[trigger]
        t.children.contains_key(key) ==> built(t.children[key], path.push(key))
}

/// The value of a trie.
pub closed spec fn trie_view(t: Trie) -> SpecTrie
    decreases t,
{
    SpecTrie {
        val: match t.val {
            Some(v) => Some(v@),
            None => None,
        },
        children: Map::new(
            |key: u8| t.children@.contains_key(key),
            |key: u8|
                if t.children@.contains_key(key) {
                    trie_view(t.children@[key])
                } else {
                    empty_trie()
                },
        ),
        end: t.end,
    }
}

impl View for Trie {
    type V = SpecTrie;

    open spec fn view(&self) -> SpecTrie {
        trie_view(*self)
    }
}

/// The values of a vector of strings.
pub open spec fn strings_view(v: Seq<String>) -> Seq<Seq<char>> {
    Seq::new(v.len(), |i: int| v[i]@)
}

impl Trie {
    /// The empty trie.
    pub fn new() -> (t: Trie)
        ensures
            t@ == empty_trie(),
            built(t@, Seq::empty()),
    {
        let t = Trie { val: None, children: BTreeMap::new(), end: false };
        assert(t@.children =~= Map::<u8, SpecTrie>::empty());
        t
    }

    /// This node with the value `v`.
    pub fn val(self, v: &String) -> (t: Trie)
        ensures
            t@ == (SpecTrie { val: Some(v@), ..self@ }),
    {
        let mut t = self;
        t.val = Some(v.clone());
        assert(t@.children =~= self@.children);
        t
    }

    /// All the words below this node. The children are asked for byte by
    /// byte, in rising order.
    pub fn descend(&self) -> (words: Vec<String>)
        ensures
            strings_view(words@) == descend(self@),
        decreases self,
    {
        let mut vd: Vec<String> = Vec::new();
        let v = match &self.val {
            None => {
                assert(strings_view(vd@) =~= Seq::<Seq<char>>::empty());
                return vd;
            },
            Some(v) => v,
        };
        if self.children.len() == 0 {
            vd.push(v.clone());
            assert(strings_view(vd@) =~= seq![v@]);
            assert(self.children@.dom() =~= Set::<u8>::empty());
            return vd;
        }
        proof {
            if is_leaf(self@) {
                assert forall|k: u8| !self.children@.dom().contains(k) by {
                    assert(!self@.children.contains_key(k));
                }
                assert(self.children@.dom() =~= Set::<u8>::empty());
            }
        }
        let mut key: usize = 0;
        assert(strings_view(vd@) =~= Seq::<Seq<char>>::empty());
        while key < 256
            invariant
                key <= 256,
                self.val == Some(*v),
                descend_from(self@, v@, 0) == strings_view(vd@) + descend_from(
                    self@,
                    v@,
                    key as nat,
                ),
            decreases 256 - key,
        {
            let ghost before = strings_view(vd@);
            let ghost later = descend_from(self@, v@, (key + 1) as nat);
            let byte = key as u8;
            match self.children.get(&byte) {
                Some(child) => {
                    assert(self@.children.contains_key(byte) && self@.children[byte] == child@);
                    if self.end {
                        vd.push(v.clone());
                    }
                    let ghost own = strings_view(vd@);
                    let mut below = child.descend();
                    let ghost under = strings_view(below@);
                    vd.append(&mut below);
                    proof {
                        let mine = own_word(self@, v@);
                        assert(strings_view(vd@) =~= own + under);
                        assert(own =~= before + mine);
                        assert(descend_from(self@, v@, key as nat) == mine + under + later);
                        assert(before + (mine + under + later) =~= strings_view(vd@) + later);
                    }
                },
                None => {
                    assert(!self@.children.contains_key(byte));
                    assert(descend_from(self@, v@, key as nat) == later);
                },
            }
            key += 1;
        }
        assert(strings_view(vd@) + Seq::<Seq<char>>::empty() =~= strings_view(vd@));
        vd
    }

    /// The completions of `string`: all the words below the node that its
    /// bytes lead to.
    pub fn complete(&self, string: &[u8]) -> (words: Vec<String>)
        ensures
            strings_view(words@) == complete(self@, string@),
        decreases string@.len(),
    {
        if string.len() == 0 {
            return self.descend();
        }
        match self.children.get(&string[0]) {
            Some(child) => {
                assert(self@.children.contains_key(string[0]) && self@.children[string[0]]
                    == child@);
                let rest = slice_subrange(string, 1, string.len());
                assert(rest@ =~= string@.skip(1));
                child.complete(rest)
            },
            None => {
                assert(!self@.children.contains_key(string[0]));
                let words: Vec<String> = Vec::new();
                assert(strings_view(words@) =~= Seq::<Seq<char>>::empty());
                words
            },
        }
    }

    /// Inserts the word `word`, whose bytes are `bytes`, below this node,
    /// which the first `depth` of them lead to.
    fn insert_at(self, bytes: &Vec<u8>, depth: usize, word: &String) -> (t: Trie)
        requires
            depth <= bytes.len(),
        ensures
            t@ == insert(self@, bytes@, depth as nat, word@),
        decreases bytes.len() - depth,
    {
        let mut t = self;
        if depth >= bytes.len() {
            t.val = Some(word.clone());
            t.end = true;
            assert(t@.children =~= self@.children);
            return t;
        }
        let key = bytes[depth];
        let ghost before = self@.children;
        let child = match t.children.remove(&key) {
            Some(child) => {
                assert(before.contains_key(key) && before[key] == child@);
                child
            },
            None => {
                assert(!before.contains_key(key));
                let made = Trie::new().val(&text_of(bytes, 0, depth + 1));
                assert(made@ == fresh(bytes@, (depth + 1) as nat));
                made
            },
        };
        let node = child.insert_at(bytes, depth + 1, word);
        t.children.insert(key, node);
        assert(t@.children =~= before.insert(
            key,
            insert(child@, bytes@, (depth + 1) as nat, word@),
        ));
        t
    }

    /// Inserts the word `string` into this trie, which stays built where
    /// it was.
    pub fn add(&mut self, string: &String)
        ensures
            final(self)@ == insert(old(self)@, encode_utf8(string@), 0, string@),
            built(old(self)@, Seq::empty()) ==> built(final(self)@, Seq::empty()),
    {
        let mut taken = Trie::new();
        core::mem::swap(self, &mut taken);
        let grown = Trie::insert(taken, string);
        *self = grown;
    }

    /// The trie `trie` with the word `string` inserted. It stays built
    /// where it was.
    pub fn insert(trie: Trie, string: &String) -> (t: Trie)
        ensures
            t@ == insert(trie@, encode_utf8(string@), 0, string@),
            built(trie@, Seq::empty()) ==> built(t@, Seq::empty()),
    {
        let bytes = string.as_str().as_bytes_vec();
        proof {
            assert(bytes@.subrange(0, 0) =~= Seq::<u8>::empty());
            if built(trie@, Seq::empty()) {
                lemma_insert_built(trie@, bytes@, 0, string@);
            }
        }
        trie.insert_at(&bytes, 0, string)
    }
}

impl Trie {
    /// A copy of this trie.
    pub fn duplicate(&self) -> (copy: Trie)
        ensures
            copy@ == self@,
        decreases self,
    {
        let mut children: BTreeMap<u8, Trie> = BTreeMap::new();
        let mut key: usize = 0;
        while key < 256
            invariant
                key <= 256,
                forall|k: u8| #[trigger]
                    children@.contains_key(k) ==> k < key && self.children@.contains_key(k),
                forall|k: u8|
                    k < key && #[trigger] self.children@.contains_key(k) ==> children@.contains_key(
                        k,
                    ),
                forall|k: u8| #[trigger]
                    children@.contains_key(k) ==> children@[k]@ == self.children@[k]@,
            decreases 256 - key,
        {
            let byte = key as u8;
            match self.children.get(&byte) {
                Some(child) => {
                    let node = child.duplicate();
                    children.insert(byte, node);
                },
                None => {},
            }
            key += 1;
        }
        let copy = Trie {
            val: match &self.val {
                Some(v) => Some(v.clone()),
                None => None,
            },
            children,
            end: self.end,
        };
        assert(copy@.children =~= self@.children);
        copy
    }
}

impl Clone for Trie {
    fn clone(&self) -> (copy: Trie)
        ensures
            copy@ == self@,
    {
        self.duplicate()
    }
}

/// Where `t` is an end and has a child under `key`, what its children from
/// an earlier key on yield begins with the value of `t`.
proof fn lemma_own_word_first(t: SpecTrie, v: Seq<char>, from: nat, key: nat)
    requires
        t.end,
        from <= key < 256,
        t.children.contains_key(key as u8),
    ensures
        descend_from(t, v, from).len() > 0,
        descend_from(t, v, from)[0] == v,
    decreases key - from,
{
    if !t.children.contains_key(from as u8) {
        lemma_own_word_first(t, v, from + 1, key);
    }
}

/// A node that is an end yields its own value first.
pub proof fn lemma_end_comes_first(t: SpecTrie)
    requires
        t.end,
        t.val is Some,
    ensures
        descend(t).len() > 0,
        descend(t)[0] == t.val->0,
{
    if !is_leaf(t) {
        let key = choose|key: u8| t.children.contains_key(key);
        lemma_own_word_first(t, t.val->0, 0, key as nat);
    }
}

/// A word that was inserted is the first completion of itself: the bytes
/// of the word lead to a node that holds it and is an end.
pub proof fn law_inserted_word_completes(t: SpecTrie, bytes: Seq<u8>, depth: nat, word: Seq<char>)
    requires
        depth <= bytes.len(),
    ensures
        complete(insert(t, bytes, depth, word), bytes.skip(depth as int)).len() > 0,
        complete(insert(t, bytes, depth, word), bytes.skip(depth as int))[0] == word,
    decreases bytes.len() - depth,
{
    let grown = insert(t, bytes, depth, word);
    let path = bytes.skip(depth as int);
    if depth >= bytes.len() {
        lemma_end_comes_first(grown);
    } else {
        let key = bytes[depth as int];
        let child = if t.children.contains_key(key) {
            t.children[key]
        } else {
            fresh(bytes, depth + 1)
        };
        assert(path[0] == key);
        assert(path.skip(1) =~= bytes.skip(depth as int + 1));
        assert(grown.children[key] == insert(child, bytes, depth + 1, word));
        law_inserted_word_completes(child, bytes, depth + 1, word);
    }
}

/// Insertion keeps a trie built. The node that insertion has just made,
/// which is not yet built, is built once the word stands below it.
pub proof fn lemma_insert_built(t: SpecTrie, bytes: Seq<u8>, depth: nat, word: Seq<char>)
    requires
        depth <= bytes.len(),
        bytes == encode_utf8(word),
        built(t, bytes.subrange(0, depth as int)) || t == fresh(bytes, depth),
    ensures
        built(insert(t, bytes, depth, word), bytes.subrange(0, depth as int)),
    decreases bytes.len() - depth,
{
    let path = bytes.subrange(0, depth as int);
    let grown = insert(t, bytes, depth, word);
    if depth >= bytes.len() {
        assert(path =~= bytes);
    } else {
        let key = bytes[depth as int];
        let child = if t.children.contains_key(key) {
            t.children[key]
        } else {
            fresh(bytes, depth + 1)
        };
        assert(path.push(key) =~= bytes.subrange(0, depth as int + 1));
        lemma_insert_built(child, bytes, depth + 1, word);
        assert(grown.children.contains_key(key));
        assert forall|k: u8| #[trigger] grown.children.contains_key(k) implies built(
            grown.children[k],
            path.push(k),
        ) by {
            if k != key {
                assert(t.children.contains_key(k));
            }
        }
    }
}

/// A word that the children of `t` yield from the key `from` on is yielded
/// by the children of `u` too, where `u` has every child that `t` has, each
/// yielding the word where the child of `t` did, and puts the same value
/// before them where `t` is an end.
proof fn lemma_groups_keep(
    t: SpecTrie,
    v: Seq<char>,
    u: SpecTrie,
    x: Seq<char>,
    from: nat,
    w: Seq<char>,
)
    requires
        descend_from(t, v, from).contains(w),
        t.end ==> u.end && x == v,
        forall|key: u8| #[trigger]
            t.children.contains_key(key) ==> u.children.contains_key(key) && (descend(
                t.children[key],
            ).contains(w) ==> descend(u.children[key]).contains(w)),
    ensures
        descend_from(u, x, from).contains(w),
    decreases 256 - from,
{
    broadcast use vstd::seq_lib::lemma_seq_concat_contains_all_elements;

    if from < 256 {
        let key = from as u8;
        if t.children.contains_key(key) {
            assert(u.children.contains_key(key));
            if descend_from(t, v, from + 1).contains(w) {
                lemma_groups_keep(t, v, u, x, from + 1, w);
            }
        } else {
            lemma_groups_keep(t, v, u, x, from + 1, w);
        }
    }
}

/// Insertion loses no word: what a built trie yields, it yields after
/// another word has been inserted.
pub proof fn law_insert_keeps_words(
    t: SpecTrie,
    bytes: Seq<u8>,
    depth: nat,
    word: Seq<char>,
    w: Seq<char>,
)
    requires
        depth <= bytes.len(),
        bytes == encode_utf8(word),
        built(t, bytes.subrange(0, depth as int)),
        descend(t).contains(w),
    ensures
        descend(insert(t, bytes, depth, word)).contains(w),
    decreases bytes.len() - depth,
{
    let path = bytes.subrange(0, depth as int);
    let grown = insert(t, bytes, depth, word);
    let v = t.val->0;
    if depth >= bytes.len() {
        assert(path =~= bytes);
        if t.end {
            vstd::utf8::encode_utf8_decode_utf8(v);
            vstd::utf8::encode_utf8_decode_utf8(word);
            assert(v == word);
        }
        if is_leaf(t) {
            assert(descend(t)[0] == w);
            assert(descend(grown)[0] == w);
        } else {
            lemma_groups_keep(t, v, grown, word, 0, w);
        }
    } else {
        let key = bytes[depth as int];
        assert(grown.children.contains_key(key));
        if is_leaf(t) {
            assert(descend(t)[0] == w);
            lemma_own_word_first(grown, v, 0, key as nat);
        } else {
            assert forall|k: u8|
                #[trigger] t.children.contains_key(k) && descend(t.children[k]).contains(
                    w,
                ) implies descend(grown.children[k]).contains(w) by {
                if k == key {
                    assert(path.push(key) =~= bytes.subrange(0, depth as int + 1));
                    law_insert_keeps_words(t.children[key], bytes, depth + 1, word, w);
                }
            }
            lemma_groups_keep(t, v, grown, v, 0, w);
        }
    }
}

/// Insertion loses no completion: what a built trie offers for a prefix,
/// it offers after another word has been inserted.
pub proof fn law_insert_keeps_completions(
    t: SpecTrie,
    bytes: Seq<u8>,
    depth: nat,
    word: Seq<char>,
    prefix: Seq<u8>,
    w: Seq<char>,
)
    requires
        depth <= bytes.len(),
        bytes == encode_utf8(word),
        built(t, bytes.subrange(0, depth as int)),
        complete(t, prefix).contains(w),
    ensures
        complete(insert(t, bytes, depth, word), prefix).contains(w),
    decreases prefix.len(),
{
    let path = bytes.subrange(0, depth as int);
    let grown = insert(t, bytes, depth, word);
    if prefix.len() == 0 {
        law_insert_keeps_words(t, bytes, depth, word, w);
    } else if depth < bytes.len() && prefix[0] == bytes[depth as int] {
        let key = prefix[0];
        assert(path.push(key) =~= bytes.subrange(0, depth as int + 1));
        law_insert_keeps_completions(t.children[key], bytes, depth + 1, word, prefix.skip(1), w);
    }
}

/// A word that the children of `t` yield from the key `from` on is the
/// value of `t`, which is then an end, or a word that one of those
/// children yields.
proof fn lemma_groups_member(t: SpecTrie, v: Seq<char>, from: nat, w: Seq<char>) -> (key: u8)
    requires
        descend_from(t, v, from).contains(w),
    ensures
        (t.end && w == v) || (key >= from && t.children.contains_key(key) && descend(
            t.children[key],
        ).contains(w)),
    decreases 256 - from,
{
    broadcast use vstd::seq_lib::lemma_seq_concat_contains_all_elements;

    if from < 256 {
        let here = from as u8;
        if t.children.contains_key(here) && !descend_from(t, v, from + 1).contains(w) {
            if own_word(t, v).contains(w) {
                assert(own_word(t, v)[0] == w);
            }
            here
        } else {
            lemma_groups_member(t, v, from + 1, w)
        }
    } else {
        0
    }
}

/// A word that the child of `t` under `key` yields is among what the
/// children of `t` yield from an earlier key on.
proof fn lemma_member_of_groups(t: SpecTrie, v: Seq<char>, from: nat, key: u8, w: Seq<char>)
    requires
        from <= key,
        t.children.contains_key(key),
        descend(t.children[key]).contains(w),
    ensures
        descend_from(t, v, from).contains(w),
    decreases key - from,
{
    broadcast use vstd::seq_lib::lemma_seq_concat_contains_all_elements;

    if from < key {
        lemma_member_of_groups(t, v, from + 1, key, w);
    }
}

/// Below a node that insertion has just made stands the inserted word and
/// no other.
proof fn lemma_fresh_yields_word(bytes: Seq<u8>, depth: nat, word: Seq<char>, w: Seq<char>)
    requires
        depth <= bytes.len(),
        descend(insert(fresh(bytes, depth), bytes, depth, word)).contains(w),
    ensures
        w == word,
    decreases bytes.len() - depth,
{
    let t = fresh(bytes, depth);
    let grown = insert(t, bytes, depth, word);
    if depth >= bytes.len() {
        assert(is_leaf(grown));
        assert(descend(grown)[0] == w);
    } else {
        let key = bytes[depth as int];
        assert(grown.children.contains_key(key));
        let k = lemma_groups_member(grown, t.val->0, 0, w);
        assert(k == key);
        lemma_fresh_yields_word(bytes, depth + 1, word, w);
    }
}

/// Insertion invents no word: what a built trie yields after a word has
/// been inserted is that word, or was yielded before.
pub proof fn law_insert_adds_one_word(
    t: SpecTrie,
    bytes: Seq<u8>,
    depth: nat,
    word: Seq<char>,
    w: Seq<char>,
)
    requires
        depth <= bytes.len(),
        bytes == encode_utf8(word),
        built(t, bytes.subrange(0, depth as int)),
        t.val is Some,
        descend(insert(t, bytes, depth, word)).contains(w),
    ensures
        w == word || descend(t).contains(w),
    decreases bytes.len() - depth,
{
    let path = bytes.subrange(0, depth as int);
    let grown = insert(t, bytes, depth, word);
    let v = t.val->0;
    if depth >= bytes.len() {
        if is_leaf(t) {
            assert(is_leaf(grown));
            assert(descend(grown)[0] == w);
        } else {
            let k = lemma_groups_member(grown, word, 0, w);
            if w != word {
                lemma_member_of_groups(t, v, 0, k, w);
            }
        }
    } else {
        let key = bytes[depth as int];
        assert(grown.children.contains_key(key));
        let k = lemma_groups_member(grown, v, 0, w);
        if grown.end && w == v {
            lemma_end_comes_first(t);
        } else if k != key {
            assert(t.children.contains_key(k));
            lemma_member_of_groups(t, v, 0, k, w);
        } else if t.children.contains_key(key) {
            assert(path.push(key) =~= bytes.subrange(0, depth as int + 1));
            assert(built(t.children[key], path.push(key)));
            law_insert_adds_one_word(t.children[key], bytes, depth + 1, word, w);
            if w != word {
                lemma_member_of_groups(t, v, 0, key, w);
            }
        } else {
            lemma_fresh_yields_word(bytes, depth + 1, word, w);
        }
    }
}

/// The inserted word stands below every node on its way that has a value.
pub proof fn law_inserted_word_descends(t: SpecTrie, bytes: Seq<u8>, depth: nat, word: Seq<char>)
    requires
        depth <= bytes.len(),
        built(t, bytes.subrange(0, depth as int)) || t == fresh(bytes, depth),
        t.val is Some || depth == bytes.len(),
    ensures
        descend(insert(t, bytes, depth, word)).contains(word),
    decreases bytes.len() - depth,
{
    let path = bytes.subrange(0, depth as int);
    let grown = insert(t, bytes, depth, word);
    if depth >= bytes.len() {
        lemma_end_comes_first(grown);
    } else {
        let key = bytes[depth as int];
        let child = if t.children.contains_key(key) {
            t.children[key]
        } else {
            fresh(bytes, depth + 1)
        };
        assert(path.push(key) =~= bytes.subrange(0, depth as int + 1));
        assert(grown.children.contains_key(key));
        if t.children.contains_key(key) {
            assert(built(child, path.push(key)));
        }
        law_inserted_word_descends(child, bytes, depth + 1, word);
        lemma_member_of_groups(grown, t.val->0, 0, key, word);
    }
}

/// The inserted word is among the completions of each of its prefixes, from
/// a node on its way that has a value.
pub proof fn law_inserted_word_is_offered(
    t: SpecTrie,
    bytes: Seq<u8>,
    depth: nat,
    upto: nat,
    word: Seq<char>,
)
    requires
        depth <= upto <= bytes.len(),
        built(t, bytes.subrange(0, depth as int)) || t == fresh(bytes, depth),
        t.val is Some || depth < upto || depth == bytes.len(),
    ensures
        complete(insert(t, bytes, depth, word), bytes.subrange(depth as int, upto as int)).contains(
            word,
        ),
    decreases bytes.len() - depth,
{
    let path = bytes.subrange(0, depth as int);
    let prefix = bytes.subrange(depth as int, upto as int);
    let grown = insert(t, bytes, depth, word);
    if depth == upto {
        law_inserted_word_descends(t, bytes, depth, word);
    } else {
        let key = bytes[depth as int];
        let child = if t.children.contains_key(key) {
            t.children[key]
        } else {
            fresh(bytes, depth + 1)
        };
        assert(path.push(key) =~= bytes.subrange(0, depth as int + 1));
        assert(prefix[0] == key);
        assert(prefix.skip(1) =~= bytes.subrange(depth as int + 1, upto as int));
        assert(grown.children.contains_key(key));
        if t.children.contains_key(key) {
            assert(built(child, path.push(key)));
        }
        law_inserted_word_is_offered(child, bytes, depth + 1, upto, word);
    }
}

/// From a node that insertion has just made, the inserted word is the only
/// completion.
proof fn lemma_fresh_offers_word(
    bytes: Seq<u8>,
    depth: nat,
    word: Seq<char>,
    prefix: Seq<u8>,
    w: Seq<char>,
)
    requires
        depth <= bytes.len(),
        complete(insert(fresh(bytes, depth), bytes, depth, word), prefix).contains(w),
    ensures
        w == word,
    decreases prefix.len(),
{
    let grown = insert(fresh(bytes, depth), bytes, depth, word);
    if prefix.len() == 0 {
        lemma_fresh_yields_word(bytes, depth, word, w);
    } else if depth < bytes.len() && prefix[0] == bytes[depth as int] {
        lemma_fresh_offers_word(bytes, depth + 1, word, prefix.skip(1), w);
    } else {
        assert(!grown.children.contains_key(prefix[0]));
    }
}

/// Insertion invents no completion: what a built trie offers for a prefix
/// after a word has been inserted is that word, or was offered before.
pub proof fn law_insert_adds_one_completion(
    t: SpecTrie,
    bytes: Seq<u8>,
    depth: nat,
    word: Seq<char>,
    prefix: Seq<u8>,
    w: Seq<char>,
)
    requires
        depth <= bytes.len(),
        bytes == encode_utf8(word),
        built(t, bytes.subrange(0, depth as int)),
        t.val is Some || depth < bytes.len(),
        complete(insert(t, bytes, depth, word), prefix).contains(w),
    ensures
        w == word || complete(t, prefix).contains(w),
    decreases prefix.len(),
{
    let path = bytes.subrange(0, depth as int);
    let grown = insert(t, bytes, depth, word);
    if prefix.len() == 0 {
        if t.val is Some {
            law_insert_adds_one_word(t, bytes, depth, word, w);
        }
    } else if depth < bytes.len() && prefix[0] == bytes[depth as int] {
        let key = prefix[0];
        assert(grown.children.contains_key(key));
        if t.children.contains_key(key) {
            assert(path.push(key) =~= bytes.subrange(0, depth as int + 1));
            assert(built(t.children[key], path.push(key)));
            law_insert_adds_one_completion(
                t.children[key],
                bytes,
                depth + 1,
                word,
                prefix.skip(1),
                w,
            );
        } else {
            lemma_fresh_offers_word(bytes, depth + 1, word, prefix.skip(1), w);
        }
    } else {
        assert(grown.children.contains_key(prefix[0]) == t.children.contains_key(prefix[0]));
    }
}

} // verus!
