//! The line editor: what a readline does with each key, apart from the
//! terminal.
//!
//! A front end reads the keys and shows what the editor tells it to: it
//! calls [`LineEditor::begin`] when it has written the prompt, hands every
//! key to [`LineEditor::press`] and performs the [`Action`] that comes back,
//! and calls [`LineEditor::finish`] when the line is done.
//!
//! What a key does is stated by [`step`], for a line and a history of plain
//! characters and a plain key. On other text the editor goes through the
//! same motions, and nothing is claimed of where they lead.
use vstd::prelude::*;
use vstd::string::StringSliceAdditionalSpecFns;
use vstd::utf8::encode_utf8;
use scribe::buffer::GapBuffer;
use crate::buffer::{
    buffer_delete, buffer_insert, buffer_line, buffer_new, buffer_text, cut, is_plain,
    is_plain_char, spliced,
};
use crate::io::{built, complete, empty_trie, strings_view, Point, SpecTrie, Trie};
use crate::text::{
    char_is_alphanumeric, char_is_numeric, char_is_whitespace, push_char, unicode_alphanumeric,
    unicode_numeric, unicode_whitespace,
};

verus! {

/// A key, as the editor tells keys apart.
#[derive(Clone, Copy, Debug, PartialEq, Eq, Structural)]
pub enum Key {
    /// Return: the line is complete.
    Enter,
    Tab,
    Char(char),
    Alt(char),
    Ctrl(char),
    Left,
    Right,
    Up,
    Down,
    Backspace,
    Delete,
    Insert,
    /// Any other key.
    Other,
}

/// What the front end has to do after a key.
#[derive(Debug)]
pub enum Action {
    /// Nothing at all.
    Skip,
    /// Nothing but to flush the terminal.
    Flush,
    /// The line is complete: no more keys are read for it.
    Done,
    /// The user asked to leave.
    Exit,
    /// Show these completions of the line.
    Completions(Vec<String>),
    /// Go to `at` and write `c`.
    Echo { at: Point, c: char },
    /// Go to `at`, write `c` and the rest of the line, `tail`, after it, and
    /// go to the column after `at`.
    EchoBefore { at: Point, c: char, tail: String },
    /// Go to `at`, write `c`, and go back to `at`.
    Overwrite { at: Point, c: char },
    /// Go to `at`.
    Cursor { at: Point },
    /// Clear the line on the screen, write the prompt and `line` again, and
    /// go to `at`.
    Redraw { line: String, at: Point },
    /// Clear what is after the cursor, write `line` again after the prompt,
    /// and go to `at`.
    RedrawTail { line: String, at: Point },
}

/// The mathematical value of an [`Action`].
pub enum SpecAction {
    Skip,
    Flush,
    Done,
    Exit,
    Completions(Seq<Seq<char>>),
    Echo { at: Point, c: char },
    EchoBefore { at: Point, c: char, tail: Seq<char> },
    Overwrite { at: Point, c: char },
    Cursor { at: Point },
    Redraw { line: Seq<char>, at: Point },
    RedrawTail { line: Seq<char>, at: Point },
}

impl View for Action {
    type V = SpecAction;

    open spec fn view(&self) -> SpecAction {
        match self {
            Action::Skip => SpecAction::Skip,
            Action::Flush => SpecAction::Flush,
            Action::Done => SpecAction::Done,
            Action::Exit => SpecAction::Exit,
            Action::Completions(words) => SpecAction::Completions(strings_view(words@)),
            Action::Echo { at, c } => SpecAction::Echo { at: *at, c: *c },
            Action::EchoBefore { at, c, tail } => SpecAction::EchoBefore {
                at: *at,
                c: *c,
                tail: tail@,
            },
            Action::Overwrite { at, c } => SpecAction::Overwrite { at: *at, c: *c },
            Action::Cursor { at } => SpecAction::Cursor { at: *at },
            Action::Redraw { line, at } => SpecAction::Redraw { line: line@, at: *at },
            Action::RedrawTail { line, at } => SpecAction::RedrawTail { line: line@, at: *at },
        }
    }
}

/// The state of a line editor.
pub struct EditorState {
    /// The words that it offers as completions.
    pub words: SpecTrie,
    /// The lines entered before, oldest first.
    pub history: Seq<Seq<char>>,
    /// Whether a character typed within the line replaces the one under
    /// the cursor.
    pub insert: bool,
    /// The column of the cursor.
    pub x: u16,
    /// The row of the line.
    pub y: u16,
    /// The line under edit.
    pub line: Seq<char>,
    /// The width of the prompt.
    pub prompt_len: u16,
    /// The place in the history that the line under edit was taken from, or
    /// the length of the history where it was typed.
    pub h_index: nat,
}

/// The width of a line on the grid, which is 65535 columns wide.
pub open spec fn width(line: Seq<char>) -> u16 {
    if line.len() > 0xffff {
        0xffff
    } else {
        line.len() as u16
    }
}

/// The column after `x`, or `x` at the edge of the grid.
pub open spec fn raise(x: u16) -> u16 {
    if x < 0xffff {
        (x + 1) as u16
    } else {
        x
    }
}

/// The column `n` after `x`, or the edge of the grid.
pub open spec fn reach(x: u16, n: u16) -> u16 {
    if x + n > 0xffff {
        0xffff
    } else {
        (x + n) as u16
    }
}

/// The column `x` brought within a line of width `n` after a prompt of
/// width `pl`.
pub open spec fn clamped(x: u16, pl: u16, n: u16) -> u16 {
    let least = if x <= pl {
        pl
    } else {
        x
    };
    if least > reach(pl, n) {
        reach(pl, n)
    } else {
        least
    }
}

/// A text of which every line is plain.
pub open spec fn all_plain(lines: Seq<Seq<char>>) -> bool {
    forall|i: int| 0 <= i < lines.len() ==> is_plain(#[trigger] lines[i])
}

/// A state whose line and history are of plain characters.
pub open spec fn plain_state(s: EditorState) -> bool {
    is_plain(s.line) && all_plain(s.history)
}

/// A key that puts nothing but a plain character into a line.
pub open spec fn plain_key(key: Key) -> bool {
    match key {
        Key::Char(c) => is_plain_char(c),
        _ => true,
    }
}

/// `words` without those that repeat the one before them.
pub open spec fn deduped(words: Seq<Seq<char>>) -> Seq<Seq<char>>
    decreases words.len(),
{
    if words.len() == 0 {
        words
    } else if words.len() >= 2 && words[words.len() - 1] == words[words.len() - 2] {
        deduped(words.drop_last())
    } else {
        deduped(words.drop_last()).push(words.last())
    }
}

/// What a key does: the state after it, and what the front end has to do.
///
/// Before anything else the cursor is brought within the line.
pub open spec fn step(s: EditorState, key: Key) -> (EditorState, SpecAction) {
    let n = width(s.line);
    let x = clamped(s.x, s.prompt_len, n);
    let col = x - s.prompt_len;
    let s = EditorState { x: x, ..s };
    match key {
        Key::Enter => (
            EditorState { history: s.history.push(s.line), y: raise(s.y), ..s },
            SpecAction::Done,
        ),
        Key::Tab => (
            s,
            SpecAction::Completions(deduped(complete(s.words, encode_utf8(s.line)))),
        ),
        Key::Char(c) => {
            let at = Point { x: raise(x), y: s.y };
            if col == n {
                (
                    EditorState { x: raise(x), line: spliced(s.line, col, seq![c]), ..s },
                    SpecAction::Echo { at: at, c: c },
                )
            } else if !s.insert {
                (
                    EditorState { x: raise(x), line: spliced(s.line, col, seq![c]), ..s },
                    SpecAction::EchoBefore {
                        at: at,
                        c: c,
                        tail: s.line.subrange(col, s.line.len() as int),
                    },
                )
            } else {
                (
                    EditorState {
                        x: raise(x),
                        line: spliced(cut(s.line, col, col + 1), col, seq![c]),
                        ..s
                    },
                    SpecAction::Overwrite { at: at, c: c },
                )
            }
        },
        Key::Alt(_) => (s, SpecAction::Flush),
        Key::Ctrl(c) => if c == 'c' {
            (s, SpecAction::Exit)
        } else {
            (s, SpecAction::Flush)
        },
        Key::Left => if col > 0 {
            (EditorState { x: (x - 1) as u16, ..s }, SpecAction::Cursor { at: Point { x: x, y: s.y } })
        } else {
            (s, SpecAction::Flush)
        },
        Key::Right => if col < n {
            (
                EditorState { x: raise(x), ..s },
                SpecAction::Cursor { at: Point { x: raise(raise(x)), y: s.y } },
            )
        } else {
            (s, SpecAction::Flush)
        },
        Key::Up => if s.history.len() > 0 {
            let t = if 0 < s.h_index <= s.history.len() {
                EditorState {
                    history: if s.h_index == s.history.len() && s.line.len() > 0 {
                        s.history.push(s.line)
                    } else {
                        s.history
                    },
                    line: s.history[s.h_index - 1],
                    h_index: (s.h_index - 1) as nat,
                    ..s
                }
            } else {
                s
            };
            let x1 = reach(s.prompt_len, width(t.line));
            (
                EditorState { x: x1, ..t },
                SpecAction::Redraw { line: t.line, at: Point { x: raise(x1), y: s.y } },
            )
        } else {
            (s, SpecAction::Flush)
        },
        Key::Down => if s.history.len() > 0 {
            let t = if s.h_index < s.history.len() {
                if s.h_index + 1 < s.history.len() {
                    EditorState {
                        line: s.history[s.h_index as int + 1],
                        h_index: s.h_index + 1,
                        ..s
                    }
                } else {
                    EditorState { line: Seq::empty(), h_index: s.history.len(), ..s }
                }
            } else {
                s
            };
            let x1 = reach(s.prompt_len, width(t.line));
            (
                EditorState { x: x1, ..t },
                SpecAction::Redraw { line: t.line, at: Point { x: raise(x1), y: s.y } },
            )
        } else {
            (s, SpecAction::Flush)
        },
        Key::Backspace => if s.line.len() > 0 && col > 0 {
            let line = cut(s.line, col - 1, col as int);
            (
                EditorState { x: (x - 1) as u16, line: line, ..s },
                SpecAction::Redraw { line: line, at: Point { x: x, y: s.y } },
            )
        } else {
            (s, SpecAction::Flush)
        },
        Key::Delete => if s.line.len() > 0 && col < n {
            let line = cut(s.line, col as int, col + 1);
            (
                EditorState { line: line, ..s },
                SpecAction::RedrawTail { line: line, at: Point { x: raise(x), y: s.y } },
            )
        } else {
            (s, SpecAction::Flush)
        },
        Key::Insert => (EditorState { insert: !s.insert, ..s }, SpecAction::Flush),
        Key::Other => (s, SpecAction::Skip),
    }
}

/// A state in which the place in the history is within it, and the cursor
/// within the line.
pub open spec fn in_bounds(s: EditorState) -> bool {
    &&& s.h_index <= s.history.len()
    &&& s.prompt_len <= s.x <= reach(s.prompt_len, width(s.line))
}

/// After every key the place in the history is within the history, if it
/// was before, and the cursor is within the line.
#[verifier::rlimit(50)]
pub proof fn law_step_in_bounds(s: EditorState, key: Key)
    requires
        s.h_index <= s.history.len(),
    ensures
        in_bounds(step(s, key).0),
{
}

/// A key changes neither the completions nor the width of the prompt, and
/// the history only grows: what was entered stays where it is.
pub proof fn law_step_keeps(s: EditorState, key: Key)
    ensures
        step(s, key).0.words == s.words,
        step(s, key).0.prompt_len == s.prompt_len,
        s.history.len() <= step(s, key).0.history.len(),
        forall|i: int| 0 <= i < s.history.len() ==> step(s, key).0.history[i] == s.history[i],
{
}

/// Keys of plain characters keep a plain state plain.
pub proof fn law_step_plain(s: EditorState, key: Key)
    requires
        plain_state(s),
        plain_key(key),
        s.h_index <= s.history.len(),
    ensures
        plain_state(step(s, key).0),
{
    let n = width(s.line);
    let x = clamped(s.x, s.prompt_len, n);
    let col = x - s.prompt_len;
    match key {
        Key::Char(c) => {
            assert(is_plain(seq![c]));
            lemma_plain_spliced(s.line, col, seq![c]);
            if col < n {
                lemma_plain_cut(s.line, col, col + 1);
                lemma_plain_spliced(cut(s.line, col, col + 1), col, seq![c]);
            }
        },
        Key::Backspace => {
            if s.line.len() > 0 && col > 0 {
                lemma_plain_cut(s.line, col - 1, col);
            }
        },
        Key::Delete => {
            if s.line.len() > 0 && col < n {
                lemma_plain_cut(s.line, col, col + 1);
            }
        },
        _ => {},
    }
}

/// The state of a line editor apart from its terminal.
pub struct LineEditor {
    words: Trie,
    history: Vec<String>,
    insert: bool,
    pos: Point,
    out: GapBuffer,
    prompt_len: u16,
    h_index: usize,
}

impl View for LineEditor {
    type V = EditorState;

    closed spec fn view(&self) -> EditorState {
        EditorState {
            words: self.words@,
            history: strings_view(self.history@),
            insert: self.insert,
            x: self.pos.x,
            y: self.pos.y,
            line: buffer_line(self.out),
            prompt_len: self.prompt_len,
            h_index: self.h_index as nat,
        }
    }
}

/// A character that parts two words: white space, and whatever is neither
/// a letter nor a number.
pub open spec fn parts_words(c: char) -> bool {
    unicode_whitespace(c) || !unicode_alphanumeric(c)
}

/// A word of nothing but numbers. The empty word is one.
pub open spec fn all_numeric(word: Seq<char>) -> bool {
    forall|i: int| 0 <= i < word.len() ==> unicode_numeric(#[trigger] word[i])
}

/// The trie `words` with `word` in it, unless `word` is all numbers.
pub open spec fn learned(words: SpecTrie, word: Seq<char>) -> SpecTrie {
    if all_numeric(word) {
        words
    } else {
        crate::io::insert(words, encode_utf8(word), 0, word)
    }
}

/// The trie `words` with the words of `line` from its `i`th character on
/// in it, the first of them after the characters `current` that were read
/// before.
pub open spec fn learned_from(words: SpecTrie, line: Seq<char>, i: nat, current: Seq<char>) -> SpecTrie
    decreases line.len() - i,
{
    if i >= line.len() {
        learned(words, current)
    } else if parts_words(line[i as int]) {
        learned_from(learned(words, current), line, i + 1, Seq::empty())
    } else {
        learned_from(words, line, i + 1, current.push(line[i as int]))
    }
}

/// A line of nothing but spaces, tabs, line feeds and carriage returns. The
/// empty line is one.
pub open spec fn is_blank(line: Seq<char>) -> bool {
    forall|i: int|
        0 <= i < line.len() ==> {
            let c = #[trigger] line[i];
            c == ' ' || c == '\n' || c == '\t' || c == '\r'
        }
}

/// The lines of `history` that are not blank, in their order.
pub open spec fn kept(history: Seq<Seq<char>>) -> Seq<Seq<char>>
    decreases history.len(),
{
    if history.len() == 0 {
        history
    } else if is_blank(history.last()) {
        kept(history.drop_last())
    } else {
        kept(history.drop_last()).push(history.last())
    }
}

/// The state after a line is done: its words are among the completions,
/// and the blank lines are gone from the history.
pub open spec fn finished(s: EditorState) -> EditorState {
    EditorState {
        words: learned_from(s.words, s.line, 0, Seq::empty()),
        history: kept(s.history),
        ..s
    }
}

/// Plain text put into plain text is plain text.
pub proof fn lemma_plain_spliced(text: Seq<char>, at: int, data: Seq<char>)
    requires
        is_plain(text),
        is_plain(data),
        0 <= at <= text.len(),
    ensures
        is_plain(spliced(text, at, data)),
{
    let out = spliced(text, at, data);
    assert forall|i: int| 0 <= i < out.len() implies is_plain_char(#[trigger] out[i]) by {
        if i < at {
            assert(out[i] == text[i]);
        } else if i < at + data.len() {
            assert(out[i] == data[i - at]);
        } else {
            assert(out[i] == text[i - data.len()]);
        }
    }
}

/// What is left of plain text is plain text.
pub proof fn lemma_plain_cut(text: Seq<char>, from: int, to: int)
    requires
        is_plain(text),
        0 <= from <= to <= text.len(),
    ensures
        is_plain(cut(text, from, to)),
{
    let out = cut(text, from, to);
    assert forall|i: int| 0 <= i < out.len() implies is_plain_char(#[trigger] out[i]) by {
        if i < from {
            assert(out[i] == text[i]);
        } else {
            assert(out[i] == text[i + (to - from)]);
        }
    }
}

/// A plain text has one byte for each character.
pub proof fn lemma_plain_bytes(text: Seq<char>)
    requires
        is_plain(text),
    ensures
        encode_utf8(text).len() == text.len(),
{
    assert forall|i: int| 0 <= i < text.len() implies '\0' <= #[trigger] text[i] <= '\u{7f}' by {
        assert(is_plain_char(text[i]));
    }
    assert(vstd::utf8::is_ascii_chars(text));
    vstd::utf8::is_ascii_chars_encode_utf8(text);
}

/// The number of bytes of `text`.
fn byte_len(text: &String) -> (n: usize)
    ensures
        n == encode_utf8(text@).len(),
{
    let bytes = text.as_str().as_bytes();
    bytes.len()
}

/// The width of `text` on the grid.
fn line_width(text: &String) -> (n: u16)
    ensures
        is_plain(text@) ==> n == width(text@),
{
    proof {
        if is_plain(text@) {
            lemma_plain_bytes(text@);
        }
    }
    let n = byte_len(text);
    if n > 0xffff {
        0xffff
    } else {
        n as u16
    }
}

/// The column after `x`, or `x` at the edge of the grid.
fn raised(x: u16) -> (r: u16)
    ensures
        r == raise(x),
{
    if x < 0xffff {
        x + 1
    } else {
        x
    }
}

/// The column `n` after `x`, or the edge of the grid.
fn reached(x: u16, n: u16) -> (r: u16)
    ensures
        r == reach(x, n),
{
    if n > 0xffff - x {
        0xffff
    } else {
        x + n
    }
}

/// The column `x` brought within a line of width `n` after a prompt of
/// width `pl`.
fn clamp(x: u16, pl: u16, n: u16) -> (r: u16)
    ensures
        r == clamped(x, pl, n),
        pl <= r,
        r - pl <= n,
{
    let least = if x <= pl {
        pl
    } else {
        x
    };
    let most = reached(pl, n);
    if least > most {
        most
    } else {
        least
    }
}

/// The text of one character.
fn text_of_char(c: char) -> (text: String)
    ensures
        text@ == seq![c],
{
    let mut text = String::new();
    push_char(&mut text, c);
    assert(text@ =~= seq![c]);
    text
}

/// `words` without those that repeat the one before them.
pub fn dedup(words: Vec<String>) -> (kept: Vec<String>)
    ensures
        strings_view(kept@) == deduped(strings_view(words@)),
{
    let mut out: Vec<String> = Vec::new();
    let mut i: usize = 0;
    let ghost all = strings_view(words@);
    assert(all.take(0) =~= Seq::<Seq<char>>::empty());
    assert(strings_view(out@) =~= Seq::<Seq<char>>::empty());
    while i < words.len()
        invariant
            i <= words.len(),
            all == strings_view(words@),
            strings_view(out@) == deduped(all.take(i as int)),
        decreases words.len() - i,
    {
        let ghost before = strings_view(out@);
        let ghost upto = all.take(i as int + 1);
        proof {
            assert(upto.drop_last() =~= all.take(i as int));
            assert(upto.last() == all[i as int]);
            if i > 0 {
                assert(upto[upto.len() - 2] == all[i - 1]);
            }
        }
        if i == 0 || words[i] != words[i - 1] {
            out.push(words[i].clone());
            assert(strings_view(out@) =~= before.push(all[i as int]));
        }
        i += 1;
    }
    assert(all.take(words.len() as int) =~= all);
    out
}

/// Whether every character of `line` is a space, a tab, a line feed or a
/// carriage return.
pub fn blank(line: &String) -> (yes: bool)
    ensures
        yes == is_blank(line@),
{
    let text = line.as_str();
    let len = text.unicode_len();
    let mut i: usize = 0;
    while i < len
        invariant
            i <= len,
            len == line@.len(),
            text@ == line@,
            forall|j: int|
                0 <= j < i ==> {
                    let c = #[trigger] line@[j];
                    c == ' ' || c == '\n' || c == '\t' || c == '\r'
                },
        decreases len - i,
    {
        let c = text.get_char(i);
        if !(c == ' ' || c == '\n' || c == '\t' || c == '\r') {
            assert(!is_blank(line@)) by {
                let bad = line@[i as int];
                assert(!(bad == ' ' || bad == '\n' || bad == '\t' || bad == '\r'));
            }
            return false;
        }
        i += 1;
    }
    true
}

impl LineEditor {
    /// An editor without history or completions, with its cursor at the
    /// top left of the screen.
    pub fn new() -> (editor: LineEditor)
        ensures
            editor@ == (EditorState {
                words: empty_trie(),
                history: Seq::empty(),
                insert: false,
                x: 1,
                y: 1,
                line: Seq::empty(),
                prompt_len: 0,
                h_index: 0,
            }),
    {
        let editor = LineEditor {
            words: Trie::new(),
            history: Vec::new(),
            insert: false,
            pos: Point::new(1, 1),
            out: buffer_new(),
            prompt_len: 0,
            h_index: 0,
        };
        assert(strings_view(editor.history@) =~= Seq::<Seq<char>>::empty());
        editor
    }

    /// Begins a line, after a prompt of the width `prompt_len`: the line is
    /// empty, the cursor stands after the prompt, and the place in the
    /// history is its end.
    pub fn begin(&mut self, prompt_len: u16)
        ensures
            final(self)@ == (EditorState {
                line: Seq::empty(),
                x: prompt_len,
                prompt_len: prompt_len,
                h_index: old(self)@.history.len(),
                ..old(self)@
            }),
    {
        self.out = buffer_new();
        self.pos.x = prompt_len;
        self.prompt_len = prompt_len;
        self.h_index = self.history.len();
    }

    /// The line under edit.
    pub fn line(&self) -> (text: String)
        ensures
            text@ == self@.line,
    {
        buffer_text(&self.out)
    }

    /// Where the cursor is.
    pub fn cursor(&self) -> (at: Point)
        ensures
            at == (Point { x: self@.x, y: self@.y }),
    {
        Point::new(self.pos.x, self.pos.y)
    }

    /// The lines entered before, oldest first.
    pub fn history(&self) -> (lines: &Vec<String>)
        ensures
            strings_view(lines@) == self@.history,
    {
        &self.history
    }

    /// Whether a character typed within the line replaces the one under
    /// the cursor.
    pub fn overwrites(&self) -> (yes: bool)
        ensures
            yes == self@.insert,
    {
        self.insert
    }

    /// The words offered as completions.
    pub fn words(&self) -> (words: &Trie)
        ensures
            words@ == self@.words,
    {
        &self.words
    }

    /// What the key `key` does: the editor goes to its next state, and the
    /// front end is told what to show.
    #[verifier::rlimit(50)]
    pub fn press(&mut self, key: Key) -> (action: Action)
        ensures
            plain_state(old(self)@) && plain_key(key) ==> {
                &&& (final(self)@, action@) == step(old(self)@, key)
                &&& plain_state(final(self)@)
            },
            final(self)@.words == old(self)@.words,
            final(self)@.prompt_len == old(self)@.prompt_len,
    {
        let text = buffer_text(&self.out);
        let n = line_width(&text);
        let x = clamp(self.pos.x, self.prompt_len, n);
        self.pos.x = x;
        let col = x - self.prompt_len;
        match key {
            Key::Enter => {
                let ghost before = strings_view(self.history@);
                self.history.push(text);
                self.pos.y = raised(self.pos.y);
                assert(strings_view(self.history@) =~= before.push(old(self)@.line));
                Action::Done
            },
            Key::Tab => {
                let found = self.words.complete(text.as_str().as_bytes());
                Action::Completions(dedup(found))
            },
            Key::Char(c) => self.type_char(c, text, n, col),
            Key::Alt(_) => Action::Flush,
            Key::Ctrl(c) => {
                if c == 'c' {
                    Action::Exit
                } else {
                    Action::Flush
                }
            },
            Key::Left => {
                if col > 0 {
                    self.pos.x = x - 1;
                    Action::Cursor { at: Point::new(x, self.pos.y) }
                } else {
                    Action::Flush
                }
            },
            Key::Right => {
                if col < n {
                    let x1 = raised(x);
                    self.pos.x = x1;
                    Action::Cursor { at: Point::new(raised(x1), self.pos.y) }
                } else {
                    Action::Flush
                }
            },
            Key::Up => self.earlier(text),
            Key::Down => self.later(text),
            Key::Backspace => {
                if byte_len(&text) > 0 && col > 0 {
                    proof {
                        if is_plain(text@) {
                            lemma_plain_bytes(text@);
                            lemma_plain_cut(text@, col - 1, col as int);
                        }
                    }
                    buffer_delete(&mut self.out, (col - 1) as usize, col as usize);
                    self.pos.x = x - 1;
                    Action::Redraw { line: buffer_text(&self.out), at: Point::new(x, self.pos.y) }
                } else {
                    proof {
                        if is_plain(text@) {
                            lemma_plain_bytes(text@);
                        }
                    }
                    Action::Flush
                }
            },
            Key::Delete => {
                if byte_len(&text) > 0 && col < n {
                    proof {
                        if is_plain(text@) {
                            lemma_plain_bytes(text@);
                            lemma_plain_cut(text@, col as int, col + 1);
                        }
                    }
                    buffer_delete(&mut self.out, col as usize, col as usize + 1);
                    Action::RedrawTail {
                        line: buffer_text(&self.out),
                        at: Point::new(raised(x), self.pos.y),
                    }
                } else {
                    proof {
                        if is_plain(text@) {
                            lemma_plain_bytes(text@);
                        }
                    }
                    Action::Flush
                }
            },
            Key::Insert => {
                self.insert = !self.insert;
                Action::Flush
            },
            Key::Other => Action::Skip,
        }
    }

    /// A character is typed: at the end of the line it is appended; within
    /// the line it is put in before the cursor or, in the overwriting mode,
    /// in place of the character under it.
    fn type_char(&mut self, c: char, text: String, n: u16, col: u16) -> (action: Action)
        requires
            text@ == old(self)@.line,
            is_plain(text@) ==> n == width(text@),
            old(self)@.prompt_len <= old(self)@.x,
            col == old(self)@.x - old(self)@.prompt_len,
            col <= n,
        ensures
            plain_state(old(self)@) && is_plain_char(c) ==> {
                &&& (final(self)@, action@) == step(old(self)@, Key::Char(c))
                &&& plain_state(final(self)@)
            },
            final(self)@.words == old(self)@.words,
            final(self)@.prompt_len == old(self)@.prompt_len,
    {
        let x1 = raised(self.pos.x);
        let at = Point::new(x1, self.pos.y);
        let typed = text_of_char(c);
        proof {
            if is_plain(text@) && is_plain_char(c) {
                assert(is_plain(typed@));
                lemma_plain_spliced(text@, col as int, typed@);
            }
        }
        if col == n {
            self.pos.x = x1;
            buffer_insert(&mut self.out, typed.as_str(), col as usize);
            Action::Echo { at, c }
        } else if !self.insert {
            let shown = text.as_str();
            let len = shown.unicode_len();
            let tail = if col as usize <= len {
                String::from_str(shown.substring_char(col as usize, len))
            } else {
                String::new()
            };
            self.pos.x = x1;
            buffer_insert(&mut self.out, typed.as_str(), col as usize);
            Action::EchoBefore { at, c, tail }
        } else {
            proof {
                if is_plain(text@) && is_plain_char(c) {
                    lemma_plain_cut(text@, col as int, col + 1);
                    lemma_plain_spliced(cut(text@, col as int, col + 1), col as int, typed@);
                }
            }
            buffer_delete(&mut self.out, col as usize, col as usize + 1);
            self.pos.x = x1;
            buffer_insert(&mut self.out, typed.as_str(), col as usize);
            Action::Overwrite { at, c }
        }
    }

    /// Puts `entry` in the place of the line under edit, whose text is
    /// `text`.
    fn replace_line(&mut self, text: &String, entry: &String)
        requires
            text@ == old(self)@.line,
        ensures
            is_plain(text@) ==> final(self)@ == (EditorState { line: entry@, ..old(self)@ }),
            final(self)@.words == old(self)@.words,
            final(self)@.prompt_len == old(self)@.prompt_len,
            final(self)@.history == old(self)@.history,
            final(self)@.x == old(self)@.x,
            final(self)@.y == old(self)@.y,
            final(self)@.h_index == old(self)@.h_index,
            final(self)@.insert == old(self)@.insert,
    {
        proof {
            if is_plain(text@) {
                lemma_plain_bytes(text@);
                assert(cut(text@, 0, text@.len() as int) =~= Seq::<char>::empty());
                assert(is_plain(Seq::<char>::empty()));
                assert(spliced(Seq::<char>::empty(), 0, entry@) =~= entry@);
            }
        }
        buffer_delete(&mut self.out, 0, byte_len(text));
        buffer_insert(&mut self.out, entry.as_str(), 0);
    }

    /// The cursor goes to the end of the line, which is shown again.
    fn show_line(&mut self) -> (action: Action)
        ensures
            is_plain(old(self)@.line) ==> {
                let x1 = reach(old(self)@.prompt_len, width(old(self)@.line));
                &&& final(self)@ == (EditorState { x: x1, ..old(self)@ })
                &&& action@ == (SpecAction::Redraw {
                    line: old(self)@.line,
                    at: Point { x: raise(x1), y: old(self)@.y },
                })
            },
            final(self)@.words == old(self)@.words,
            final(self)@.prompt_len == old(self)@.prompt_len,
            final(self)@.history == old(self)@.history,
            final(self)@.line == old(self)@.line,
    {
        let now = buffer_text(&self.out);
        let x1 = reached(self.prompt_len, line_width(&now));
        self.pos.x = x1;
        Action::Redraw { line: now, at: Point::new(raised(x1), self.pos.y) }
    }

    /// The line entered before the one shown takes its place. The line
    /// under edit, where it was typed and is not empty, is kept as the last
    /// of the history.
    fn earlier(&mut self, text: String) -> (action: Action)
        requires
            text@ == old(self)@.line,
            is_plain(text@) ==> old(self)@.x == clamped(
                old(self)@.x,
                old(self)@.prompt_len,
                width(text@),
            ),
        ensures
            plain_state(old(self)@) ==> {
                &&& (final(self)@, action@) == step(old(self)@, Key::Up)
                &&& plain_state(final(self)@)
            },
            final(self)@.words == old(self)@.words,
            final(self)@.prompt_len == old(self)@.prompt_len,
    {
        if self.history.len() > 0 {
            if 0 < self.h_index && self.h_index <= self.history.len() {
                let entry = self.history[self.h_index - 1].clone();
                let ghost before = strings_view(self.history@);
                proof {
                    if is_plain(text@) {
                        lemma_plain_bytes(text@);
                    }
                }
                if self.h_index == self.history.len() && byte_len(&text) > 0 {
                    self.history.push(text.clone());
                    assert(strings_view(self.history@) =~= before.push(text@));
                }
                self.replace_line(&text, &entry);
                self.h_index = self.h_index - 1;
            }
            self.show_line()
        } else {
            Action::Flush
        }
    }

    /// The line entered after the one shown takes its place, or the empty
    /// line after the last.
    fn later(&mut self, text: String) -> (action: Action)
        requires
            text@ == old(self)@.line,
            is_plain(text@) ==> old(self)@.x == clamped(
                old(self)@.x,
                old(self)@.prompt_len,
                width(text@),
            ),
        ensures
            plain_state(old(self)@) ==> {
                &&& (final(self)@, action@) == step(old(self)@, Key::Down)
                &&& plain_state(final(self)@)
            },
            final(self)@.words == old(self)@.words,
            final(self)@.prompt_len == old(self)@.prompt_len,
    {
        if self.history.len() > 0 {
            if self.h_index < self.history.len() {
                if self.h_index + 1 < self.history.len() {
                    let entry = self.history[self.h_index + 1].clone();
                    self.replace_line(&text, &entry);
                    self.h_index = self.h_index + 1;
                } else {
                    let entry = String::new();
                    self.replace_line(&text, &entry);
                    self.h_index = self.history.len();
                }
            }
            self.show_line()
        } else {
            Action::Flush
        }
    }

    /// Puts the word `word` among the completions, unless it is all
    /// numbers, which `numeric` tells.
    fn learn(&mut self, word: &String, numeric: bool)
        requires
            numeric == all_numeric(word@),
        ensures
            final(self)@ == (EditorState { words: learned(old(self)@.words, word@), ..old(self)@ }),
            built(old(self)@.words, Seq::empty()) ==> built(final(self)@.words, Seq::empty()),
    {
        if !numeric {
            self.words.add(word);
        }
    }

    /// Puts the words of `text` among the completions.
    fn learn_words(&mut self, text: &String)
        ensures
            final(self)@ == (EditorState {
                words: learned_from(old(self)@.words, text@, 0, Seq::empty()),
                ..old(self)@
            }),
            built(old(self)@.words, Seq::empty()) ==> built(final(self)@.words, Seq::empty()),
    {
        let shown = text.as_str();
        let len = shown.unicode_len();
        let mut current = String::new();
        let mut numeric = true;
        let mut i: usize = 0;
        while i < len
            invariant
                i <= len,
                len == text@.len(),
                shown@ == text@,
                numeric == all_numeric(current@),
                self@ == (EditorState { words: self@.words, ..old(self)@ }),
                built(old(self)@.words, Seq::empty()) ==> built(self@.words, Seq::empty()),
                learned_from(old(self)@.words, text@, 0, Seq::empty()) == learned_from(
                    self@.words,
                    text@,
                    i as nat,
                    current@,
                ),
            decreases len - i,
        {
            let c = shown.get_char(i);
            if char_is_whitespace(c) || !char_is_alphanumeric(c) {
                self.learn(&current, numeric);
                current = String::new();
                numeric = true;
            } else {
                let ghost before = current@;
                push_char(&mut current, c);
                let was = numeric;
                numeric = char_is_numeric(c) && was;
                proof {
                    if was && unicode_numeric(c) {
                        assert forall|j: int| 0 <= j < current@.len() implies unicode_numeric(
                            #[trigger] current@[j],
                        ) by {
                            if j < before.len() {
                                assert(current@[j] == before[j]);
                            }
                        }
                    } else if !was {
                        let j = choose|j: int| 0 <= j < before.len() && !unicode_numeric(before[j]);
                        assert(current@[j] == before[j]);
                    } else {
                        assert(current@[before.len() as int] == c);
                    }
                }
            }
            i += 1;
        }
        self.learn(&current, numeric);
    }

    /// Takes the blank lines out of the history.
    fn tidy_history(&mut self)
        ensures
            final(self)@ == (EditorState { history: kept(old(self)@.history), ..old(self)@ }),
    {
        let mut lines: Vec<String> = Vec::new();
        let mut i: usize = 0;
        let ghost all = strings_view(self.history@);
        proof {
            assert(all.take(0) =~= Seq::<Seq<char>>::empty());
            assert(strings_view(lines@) =~= Seq::<Seq<char>>::empty());
        }
        while i < self.history.len()
            invariant
                i <= self.history.len(),
                *self == *old(self),
                all == strings_view(self.history@),
                strings_view(lines@) == kept(all.take(i as int)),
            decreases self.history.len() - i,
        {
            let ghost before = strings_view(lines@);
            proof {
                let upto = all.take(i as int + 1);
                assert(upto.drop_last() =~= all.take(i as int));
                assert(upto.last() == all[i as int]);
            }
            if !blank(&self.history[i]) {
                lines.push(self.history[i].clone());
                assert(strings_view(lines@) =~= before.push(all[i as int]));
            }
            i += 1;
        }
        proof {
            assert(all.take(self.history.len() as int) =~= all);
        }
        self.history = lines;
    }

    /// Ends the line: its words are put among the completions, all but
    /// those that are numbers; the blank lines are taken out of the
    /// history; and the line is returned.
    pub fn finish(&mut self) -> (line: String)
        ensures
            line@ == old(self)@.line,
            final(self)@ == finished(old(self)@),
            built(old(self)@.words, Seq::empty()) ==> built(final(self)@.words, Seq::empty()),
    {
        let text = buffer_text(&self.out);
        self.learn_words(&text);
        self.tidy_history();
        text
    }
}

} // verus!
