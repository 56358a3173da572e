//! A small language of nested expressions: words, `key = value` pairs, lists
//! separated by commas, and `key = type ( list )` constructions.
//!
//! The grammar is an ordered choice: at every point the first alternative that
//! parses is taken, and a repetition stops before the first item that does not.
//!
//! [`Text`] states the grammar as functions from a position to what is read
//! there and the position behind it. Where one of them goes on at a position
//! that another has read up to, it first tests that the position lies further
//! on and within the text. The test never fails ([`lemma_expr_advances`]); it
//! is there to make plain that reading ends.

use vstd::prelude::*;
use crate::text::{join, lemma_join_push};

verus! {

/// An expression.
#[derive(Debug, PartialEq, Eq)]
pub enum Expr {
    EPrim(String),
    EPair(String, Box<Expr>),
    EList(Vec<Box<Expr>>),
    EConstruct(String, String, Vec<Box<Expr>>),
}

/// What an [`Expr`] holds.
pub enum ExprModel {
    EPrim(Seq<char>),
    EPair(Seq<char>, Box<ExprModel>),
    EList(Seq<ExprModel>),
    EConstruct(Seq<char>, Seq<char>, Seq<ExprModel>),
}

/// What `e` holds.
pub open spec fn expr_model(e: Expr) -> ExprModel
    decreases e,
{
    match e {
        Expr::EPrim(word) => ExprModel::EPrim(word@),
        Expr::EPair(key, value) => ExprModel::EPair(key@, Box::new(expr_model(*value))),
        Expr::EList(items) => ExprModel::EList(
            Seq::new(
                items@.len(),
                |i: int|
                    if 0 <= i < items@.len() {
                        expr_model(*items@[i])
                    } else {
                        ExprModel::EPrim(Seq::empty())
                    },
            ),
        ),
        Expr::EConstruct(key, kind, items) => ExprModel::EConstruct(
            key@,
            kind@,
            Seq::new(
                items@.len(),
                |i: int|
                    if 0 <= i < items@.len() {
                        expr_model(*items@[i])
                    } else {
                        ExprModel::EPrim(Seq::empty())
                    },
            ),
        ),
    }
}

impl DeepView for Expr {
    type V = ExprModel;

    open spec fn deep_view(&self) -> ExprModel {
        expr_model(*self)
    }
}

/// Whether `char::is_alphabetic` holds of `c`.
pub uninterp spec fn alphabetic(c: char) -> bool;

/// Whether `c` can stand in a word: a letter or a decimal digit.
pub open spec fn is_word_char(c: char) -> bool {
    alphabetic(c) || ('0' <= c && c <= '9')
}

/// For each character of `s`, whether it can stand in a word.
pub open spec fn word_flags(s: Seq<char>) -> Seq<bool> {
    Seq::new(s.len(), |i: int| is_word_char(s[i]))
}

/// Whether `c` ends a basic word: every character does but the comma, the
/// backslash, the two parentheses and the equals sign.
pub open spec fn is_non_terminal(c: char) -> bool {
    c != ',' && c != '\\' && c != ')' && c != '(' && c != '='
}

/// A text to parse: its characters, and for each whether it can stand in a word.
pub struct Text {
    pub chars: Seq<char>,
    pub word: Seq<bool>,
}

/// A result of parsing from some position: what was read, and the position
/// behind it.
pub type Parsed<T> = Option<(T, int)>;

impl Text {
    /// The text `s` with the words of the language.
    pub open spec fn of(s: Seq<char>) -> Text {
        Text { chars: s, word: word_flags(s) }
    }

    /// The number of characters.
    pub open spec fn len(self) -> int {
        self.chars.len() as int
    }

    /// Whether a space, a tab, a carriage return or a line feed stands at `i`.
    pub open spec fn ws_at(self, i: int) -> bool {
        0 <= i < self.len() && (self.chars[i] == ' ' || self.chars[i] == '\t' || self.chars[i]
            == '\r' || self.chars[i] == '\n')
    }

    /// Whether a space or a tab stands at `i`.
    pub open spec fn blank_at(self, i: int) -> bool {
        0 <= i < self.len() && (self.chars[i] == ' ' || self.chars[i] == '\t')
    }

    /// Whether a character of a word stands at `i`.
    pub open spec fn word_at(self, i: int) -> bool {
        0 <= i < self.len() && i < self.word.len() && self.word[i]
    }

    /// Whether `c` stands at `i`.
    pub open spec fn char_at(self, i: int, c: char) -> bool {
        0 <= i < self.len() && self.chars[i] == c
    }

    /// The first position from `pos` on that holds no white space.
    pub open spec fn skip_ws(self, pos: int) -> int
        decreases self.len() - pos,
    {
        if self.ws_at(pos) {
            self.skip_ws(pos + 1)
        } else {
            pos
        }
    }

    /// The first position from `pos` on that holds neither space nor tab.
    pub open spec fn skip_blank(self, pos: int) -> int
        decreases self.len() - pos,
    {
        if self.blank_at(pos) {
            self.skip_blank(pos + 1)
        } else {
            pos
        }
    }

    /// The first position from `pos` on that holds no character of a word.
    pub open spec fn skip_word(self, pos: int) -> int
        decreases self.len() - pos,
    {
        if self.word_at(pos) {
            self.skip_word(pos + 1)
        } else {
            pos
        }
    }

    /// The further words of a run of words from `pos` on, each behind at least
    /// one space or tab, and the position behind the last of them.
    pub open spec fn more_words(self, pos: int) -> (Seq<Seq<char>>, int)
        decreases self.len() - pos,
    {
        let start = self.skip_blank(pos);
        let end = self.skip_word(start);
        if pos < start && start < end && end <= self.len() {
            let rest = self.more_words(end);
            (seq![self.chars.subrange(start, end)] + rest.0, rest.1)
        } else {
            (Seq::empty(), pos)
        }
    }

    /// One or more words separated by spaces or tabs, read as the words with
    /// one space between neighbours. Spaces behind the last word are not read.
    pub open spec fn some_words(self, pos: int) -> Parsed<Seq<char>> {
        let end = self.skip_word(pos);
        if pos < end && end <= self.len() {
            let rest = self.more_words(end);
            Some((join(seq![self.chars.subrange(pos, end)] + rest.0, " "@), rest.1))
        } else {
            None
        }
    }

    /// Words with white space before and behind.
    pub open spec fn ws_words(self, pos: int) -> Parsed<Seq<char>> {
        match self.some_words(self.skip_ws(pos)) {
            Some((words, end)) => Some((words, self.skip_ws(end))),
            None => None,
        }
    }

    /// The character `c` with white space before and behind: the position
    /// behind, where it stands there.
    pub open spec fn ws_tag(self, pos: int, c: char) -> Option<int> {
        let at = self.skip_ws(pos);
        if self.char_at(at, c) {
            Some(self.skip_ws(at + 1))
        } else {
            None
        }
    }

    /// A construction: words, `=`, words, `(`, a list, `)`, with white space
    /// allowed around each.
    pub open spec fn econstruct(self, pos: int) -> Parsed<ExprModel>
        decreases self.len() - pos, 1nat,
    {
        match self.ws_words(pos) {
            Some((key, at1)) => match self.ws_tag(at1, '=') {
                Some(at2) => match self.ws_words(at2) {
                    Some((kind, at3)) => match self.ws_tag(at3, '(') {
                        Some(at4) => {
                            let at5 = self.skip_ws(at4);
                            if pos < at5 && at5 <= self.len() {
                                match self.elist_flat(at5) {
                                    Some((items, at6)) => match self.ws_tag(self.skip_ws(at6), ')') {
                                        Some(at7) => Some(
                                            (ExprModel::EConstruct(key, kind, items), at7),
                                        ),
                                        None => None,
                                    },
                                    None => None,
                                }
                            } else {
                                None
                            }
                        },
                        None => None,
                    },
                    None => None,
                },
                None => None,
            },
            None => None,
        }
    }

    /// A word, or words separated by spaces.
    pub open spec fn eprim(self, pos: int) -> Parsed<ExprModel> {
        match self.some_words(pos) {
            Some((words, end)) => Some((ExprModel::EPrim(words), end)),
            None => None,
        }
    }

    /// A pair: words, `=` with white space allowed around it, an expression.
    pub open spec fn epair(self, pos: int) -> Parsed<ExprModel>
        decreases self.len() - pos, 1nat,
    {
        match self.some_words(pos) {
            Some((key, at1)) => match self.ws_tag(at1, '=') {
                Some(at2) => if pos < at2 && at2 <= self.len() {
                    match self.expr(at2) {
                        Some((value, at3)) => Some((ExprModel::EPair(key, Box::new(value)), at3)),
                        None => None,
                    }
                } else {
                    None
                },
                None => None,
            },
            None => None,
        }
    }

    /// The further items of a list from `pos` on, each behind a comma with
    /// white space allowed around it, and the position behind the last of them.
    pub open spec fn more_exprs(self, pos: int) -> (Seq<ExprModel>, int)
        decreases self.len() - pos, 0nat,
    {
        match self.ws_tag(pos, ',') {
            Some(at1) => if pos < at1 && at1 <= self.len() {
                match self.expr(at1) {
                    Some((item, at2)) => if at1 < at2 && at2 <= self.len() {
                        let rest = self.more_exprs(at2);
                        (seq![item] + rest.0, rest.1)
                    } else {
                        (Seq::empty(), pos)
                    },
                    None => (Seq::empty(), pos),
                }
            } else {
                (Seq::empty(), pos)
            },
            None => (Seq::empty(), pos),
        }
    }

    /// One or more expressions separated by commas.
    pub open spec fn elist_flat(self, pos: int) -> Parsed<Seq<ExprModel>>
        decreases self.len() - pos, 3nat,
    {
        match self.expr(pos) {
            Some((first, at1)) => if pos < at1 && at1 <= self.len() {
                let rest = self.more_exprs(at1);
                Some((seq![first] + rest.0, rest.1))
            } else {
                None
            },
            None => None,
        }
    }

    /// A list in parentheses.
    pub open spec fn paren_list(self, pos: int) -> Parsed<ExprModel>
        decreases self.len() - pos, 1nat,
    {
        if self.char_at(pos, '(') {
            match self.elist_flat(pos + 1) {
                Some((items, at1)) => if self.char_at(at1, ')') {
                    Some((ExprModel::EList(items), at1 + 1))
                } else {
                    None
                },
                None => None,
            }
        } else {
            None
        }
    }

    /// An expression: the first that parses of a construction, a list in
    /// parentheses, a pair, and words.
    pub open spec fn expr(self, pos: int) -> Parsed<ExprModel>
        decreases self.len() - pos, 2nat,
    {
        match self.econstruct(pos) {
            Some(r) => Some(r),
            None => match self.paren_list(pos) {
                Some(r) => Some(r),
                None => match self.epair(pos) {
                    Some(r) => Some(r),
                    None => self.eprim(pos),
                },
            },
        }
    }

    /// A list: one or more expressions separated by commas.
    pub open spec fn elist(self, pos: int) -> Parsed<ExprModel> {
        match self.elist_flat(pos) {
            Some((items, end)) => Some((ExprModel::EList(items), end)),
            None => None,
        }
    }

    /// `r` with the white space behind it read too.
    pub open spec fn then_ws<T>(self, r: Parsed<T>) -> Parsed<T> {
        match r {
            Some((value, end)) => Some((value, self.skip_ws(end))),
            None => None,
        }
    }

    /// An expression at the top level, white space allowed before and behind:
    /// the first that parses of a construction, a list, a pair, and words.
    pub open spec fn top_level_expr(self, pos: int) -> Parsed<ExprModel> {
        let at = self.skip_ws(pos);
        match self.econstruct(at) {
            Some(r) => self.then_ws(Some(r)),
            None => match self.elist(at) {
                Some(r) => self.then_ws(Some(r)),
                None => match self.epair(at) {
                    Some(r) => self.then_ws(Some(r)),
                    None => self.then_ws(self.eprim(at)),
                },
            },
        }
    }

    /// One expression of a definition: a top-level expression with white space
    /// allowed before and behind.
    pub open spec fn top_level_item(self, pos: int) -> Parsed<ExprModel> {
        self.then_ws(self.top_level_expr(self.skip_ws(pos)))
    }

    /// The further expressions of a definition from `pos` on, and the position
    /// behind the last of them.
    pub open spec fn more_items(self, pos: int) -> (Seq<ExprModel>, int)
        decreases self.len() - pos,
    {
        match self.top_level_item(pos) {
            Some((item, at1)) => if pos < at1 && at1 <= self.len() {
                let rest = self.more_items(at1);
                (seq![item] + rest.0, rest.1)
            } else {
                (Seq::empty(), pos)
            },
            None => (Seq::empty(), pos),
        }
    }

    /// A definition: one or more top-level expressions.
    pub open spec fn top_level_def(self, pos: int) -> Parsed<Seq<ExprModel>> {
        match self.top_level_item(pos) {
            Some((first, at1)) => {
                let rest = self.more_items(at1);
                Some((seq![first] + rest.0, rest.1))
            },
            None => None,
        }
    }
}

/// Whether `r` read something from `pos` on and ended within the text.
pub open spec fn advances<T>(t: Text, pos: int, r: Parsed<T>) -> bool {
    r matches Some((_, end)) ==> pos < end <= t.len()
}

/// Skipping ends at or behind where it starts, and within the text.
pub proof fn lemma_skips_stay_within(t: Text, pos: int)
    requires
        0 <= pos <= t.len(),
    ensures
        pos <= t.skip_ws(pos) <= t.len(),
        pos <= t.skip_blank(pos) <= t.len(),
        pos <= t.skip_word(pos) <= t.len(),
    decreases t.len() - pos,
{
    if pos < t.len() {
        lemma_skips_stay_within(t, pos + 1);
    }
}

/// Further words end at or behind where they start, and within the text.
pub proof fn lemma_more_words_stay_within(t: Text, pos: int)
    requires
        0 <= pos <= t.len(),
    ensures
        pos <= t.more_words(pos).1 <= t.len(),
    decreases t.len() - pos,
{
    let start = t.skip_blank(pos);
    lemma_skips_stay_within(t, pos);
    lemma_skips_stay_within(t, start);
    let end = t.skip_word(start);
    if pos < start && start < end && end <= t.len() {
        lemma_more_words_stay_within(t, end);
    }
}

/// Words, with or without white space around them, read at least a character
/// and end within the text; so does a character with white space around it.
pub proof fn lemma_words_advance(t: Text, pos: int, c: char)
    requires
        0 <= pos <= t.len(),
    ensures
        advances(t, pos, t.some_words(pos)),
        advances(t, pos, t.ws_words(pos)),
        advances(t, pos, t.eprim(pos)),
        t.ws_tag(pos, c) matches Some(end) ==> pos < end <= t.len(),
{
    lemma_skips_stay_within(t, pos);
    let word_end = t.skip_word(pos);
    if pos < word_end {
        lemma_more_words_stay_within(t, word_end);
    }
    let at = t.skip_ws(pos);
    lemma_skips_stay_within(t, at);
    let ws_word_end = t.skip_word(at);
    if at < ws_word_end {
        lemma_more_words_stay_within(t, ws_word_end);
        lemma_skips_stay_within(t, t.more_words(ws_word_end).1);
    }
    if t.char_at(at, c) {
        lemma_skips_stay_within(t, at + 1);
    }
}

/// Every expression that is read holds at least a character and ends within
/// the text: the tests of the grammar on the positions at which it goes on
/// never fail.
pub proof fn lemma_expr_advances(t: Text, pos: int)
    requires
        0 <= pos <= t.len(),
    ensures
        advances(t, pos, t.expr(pos)),
        advances(t, pos, t.econstruct(pos)),
        advances(t, pos, t.paren_list(pos)),
        advances(t, pos, t.epair(pos)),
    decreases t.len() - pos, 2nat,
{
    lemma_words_advance(t, pos, '=');
    // a construction
    if let Some((_, after_key)) = t.ws_words(pos) {
        lemma_words_advance(t, after_key, '=');
        if let Some(after_eq) = t.ws_tag(after_key, '=') {
            lemma_words_advance(t, after_eq, '(');
            if let Some((_, after_kind)) = t.ws_words(after_eq) {
                lemma_words_advance(t, after_kind, '(');
                if let Some(after_open) = t.ws_tag(after_kind, '(') {
                    lemma_skips_stay_within(t, after_open);
                    let items_at = t.skip_ws(after_open);
                    lemma_elist_flat_advances(t, items_at);
                    if let Some((_, after_items)) = t.elist_flat(items_at) {
                        lemma_skips_stay_within(t, after_items);
                        lemma_words_advance(t, t.skip_ws(after_items), ')');
                    }
                }
            }
        }
    }
    // a list in parentheses
    if t.char_at(pos, '(') {
        lemma_elist_flat_advances(t, pos + 1);
    }
    // a pair
    if let Some((_, after_key)) = t.some_words(pos) {
        lemma_words_advance(t, after_key, '=');
        if let Some(value_at) = t.ws_tag(after_key, '=') {
            lemma_expr_advances(t, value_at);
        }
    }
}

/// Every list that is read holds at least a character and ends within the text.
pub proof fn lemma_elist_flat_advances(t: Text, pos: int)
    requires
        0 <= pos <= t.len(),
    ensures
        advances(t, pos, t.elist_flat(pos)),
        advances(t, pos, t.elist(pos)),
    decreases t.len() - pos, 3nat,
{
    lemma_expr_advances(t, pos);
    if let Some((_, after_first)) = t.expr(pos) {
        lemma_more_exprs_stay_within(t, after_first);
    }
}

/// Further items end at or behind where they start, and within the text.
pub proof fn lemma_more_exprs_stay_within(t: Text, pos: int)
    requires
        0 <= pos <= t.len(),
    ensures
        pos <= t.more_exprs(pos).1 <= t.len(),
    decreases t.len() - pos, 0nat,
{
    lemma_words_advance(t, pos, ',');
    if let Some(item_at) = t.ws_tag(pos, ',') {
        lemma_expr_advances(t, item_at);
        if let Some((_, after_item)) = t.expr(item_at) {
            lemma_more_exprs_stay_within(t, after_item);
        }
    }
}

/// `char::is_alphabetic` of the standard library. The contract names the
/// answer and says nothing of which characters are alphabetic: the standard
/// library takes that from the Unicode character tables.
#[verifier::external_body]
fn char_is_alphabetic(c: char) -> (r: bool)
    ensures
        r == alphabetic(c),
{
    c.is_alphabetic()
}

/// Whether `c` ends a basic word.
pub fn non_terminal(c: char) -> (r: bool)
    ensures
        r == is_non_terminal(c),
{
    c != ',' && c != '\\' && c != ')' && c != '(' && c != '='
}

/// The characters of `input`, in order.
pub fn chars_of(input: &str) -> (r: Vec<char>)
    ensures
        r@ == input@,
{
    let mut chars: Vec<char> = Vec::new();
    for c in it: input.chars()
        invariant
            it.seq() == input@,
            chars@ == it.seq().take(it.index()),
    {
        chars.push(c);
    }
    chars
}

/// Splits `input` before its first character that does not end a basic word:
/// what stands from there on comes first, what stands before it second.
pub fn basic_word<'a>(input: &'a str) -> (r: (&'a str, &'a str))
    ensures
        r.1@ + r.0@ == input@,
        forall|i: int| 0 <= i < r.1@.len() ==> !is_non_terminal(r.1@[i]),
        r.0@.len() > 0 ==> is_non_terminal(r.0@[0]),
{
    let chars = chars_of(input);
    let mut n: usize = 0;
    while n < chars.len() && !non_terminal(chars[n])
        invariant
            n <= chars.len(),
            chars@ == input@,
            forall|i: int| 0 <= i < n ==> !is_non_terminal(chars@[i]),
        decreases chars.len() - n,
    {
        n += 1;
    }
    let rest = input.substring_char(n, chars.len());
    let word = input.substring_char(0, n);
    assert(word@ + rest@ =~= input@);
    (rest, word)
}

impl Expr {
    /// The pair of the key `a` and the word `b`.
    pub fn pair(a: &str, b: &str) -> (r: Expr)
        ensures
            r.deep_view() == ExprModel::EPair(a@, Box::new(ExprModel::EPrim(b@))),
    {
        let r = Expr::EPair(String::from_str(a), Box::new(Expr::EPrim(String::from_str(b))));
        assert(r.deep_view() == ExprModel::EPair(a@, Box::new(ExprModel::EPrim(b@)))) by {
            reveal_with_fuel(expr_model, 2);
        }
        r
    }
}

/// What a parser hands back, as the grammar states it.
pub open spec fn parsed<T: DeepView>(r: Option<(T, usize)>) -> Parsed<T::V> {
    match r {
        Some((value, end)) => Some((value.deep_view(), end as int)),
        None => None,
    }
}

/// A text made ready for parsing.
pub struct Scanner<'a> {
    input: &'a str,
    chars: Vec<char>,
    word: Vec<bool>,
}

impl<'a> Scanner<'a> {
    #[verifier::type_invariant]
    spec fn well_formed(self) -> bool {
        self.chars@ == self.input@ && self.word@.len() == self.chars@.len()
    }

    /// The text that this scanner reads: the characters of its input, which it
    /// also holds one by one, and the flags of the characters of words.
    pub closed spec fn text(&self) -> Text {
        Text { chars: self.chars@, word: self.word@ }
    }

    /// A scanner over `input`, with the words of the language.
    pub fn new(input: &'a str) -> (r: Scanner<'a>)
        ensures
            r.text() == Text::of(input@),
    {
        let chars = chars_of(input);
        let mut word: Vec<bool> = Vec::new();
        let mut i: usize = 0;
        while i < chars.len()
            invariant
                i <= chars.len(),
                word@.len() == i,
                forall|j: int| 0 <= j < i ==> word@[j] == is_word_char(chars@[j]),
            decreases chars.len() - i,
        {
            let c = chars[i];
            word.push(char_is_alphabetic(c) || ('0' <= c && c <= '9'));
            i += 1;
        }
        assert(word@ =~= word_flags(input@));
        Scanner { input, chars, word }
    }

    /// A scanner over `input` in which `word` says of each character whether it
    /// can stand in a word; `None` where `word` does not have one entry for each
    /// character.
    pub fn with_word_flags(input: &'a str, word: Vec<bool>) -> (r: Option<Scanner<'a>>)
        ensures
            r is Some <==> word@.len() == input@.len(),
            r matches Some(s) ==> s.text() == (Text { chars: input@, word: word@ }),
    {
        let chars = chars_of(input);
        if word.len() == chars.len() {
            Some(Scanner { input, chars, word })
        } else {
            None
        }
    }

    /// What the scanner was made over: the characters of its text.
    pub fn input(&self) -> (r: &'a str)
        ensures
            r@ == self.text().chars,
    {
        proof {
            use_type_invariant(self);
        }
        self.input
    }

    /// The number of characters.
    pub fn len(&self) -> (r: usize)
        ensures
            r == self.text().len(),
    {
        self.chars.len()
    }

    /// What stands from `pos` on; nothing where `pos` is behind the end.
    pub fn rest(&self, pos: usize) -> (r: &'a str)
        ensures
            r@ == if pos <= self.text().len() {
                self.text().chars.skip(pos as int)
            } else {
                Seq::empty()
            },
    {
        proof {
            use_type_invariant(self);
        }
        let n = self.chars.len();
        if pos <= n {
            let r = self.input.substring_char(pos, n);
            assert(r@ =~= self.chars@.skip(pos as int));
            r
        } else {
            let r = self.input.substring_char(n, n);
            assert(r@ =~= Seq::empty());
            r
        }
    }

    /// The first position from `pos` on that holds no white space.
    pub fn skip_ws(&self, pos: usize) -> (r: usize)
        ensures
            r == self.text().skip_ws(pos as int),
            pos <= r,
            pos <= self.text().len() ==> r <= self.text().len(),
    {
        let mut at = pos;
        while at < self.chars.len() && (self.chars[at] == ' ' || self.chars[at] == '\t'
            || self.chars[at] == '\r' || self.chars[at] == '\n')
            invariant
                pos <= at,
                pos <= self.chars.len() ==> at <= self.chars.len(),
                self.text().skip_ws(at as int) == self.text().skip_ws(pos as int),
            decreases self.chars.len() - at,
        {
            at += 1;
        }
        at
    }

    /// The first position from `pos` on that holds neither space nor tab.
    pub fn skip_blank(&self, pos: usize) -> (r: usize)
        ensures
            r == self.text().skip_blank(pos as int),
            pos <= r,
            pos <= self.text().len() ==> r <= self.text().len(),
    {
        let mut at = pos;
        while at < self.chars.len() && (self.chars[at] == ' ' || self.chars[at] == '\t')
            invariant
                pos <= at,
                pos <= self.chars.len() ==> at <= self.chars.len(),
                self.text().skip_blank(at as int) == self.text().skip_blank(pos as int),
            decreases self.chars.len() - at,
        {
            at += 1;
        }
        at
    }

    /// The first position from `pos` on that holds no character of a word.
    pub fn skip_word(&self, pos: usize) -> (r: usize)
        ensures
            r == self.text().skip_word(pos as int),
            pos <= r,
            pos <= self.text().len() ==> r <= self.text().len(),
    {
        proof {
            use_type_invariant(self);
        }
        let mut at = pos;
        while at < self.chars.len() && self.word[at]
            invariant
                pos <= at,
                self.word@.len() == self.chars@.len(),
                pos <= self.chars.len() ==> at <= self.chars.len(),
                self.text().skip_word(at as int) == self.text().skip_word(pos as int),
            decreases self.chars.len() - at,
        {
            at += 1;
        }
        at
    }

    /// Whether `c` stands at `pos`.
    pub fn char_at(&self, pos: usize, c: char) -> (r: bool)
        ensures
            r == self.text().char_at(pos as int, c),
    {
        pos < self.chars.len() && self.chars[pos] == c
    }

    /// One or more words separated by spaces or tabs, as the words with one
    /// space between neighbours.
    pub fn some_words(&self, pos: usize) -> (r: Option<(String, usize)>)
        ensures
            parsed(r) == self.text().some_words(pos as int),
            r matches Some((_, end)) ==> pos < end <= self.text().len(),
    {
        proof {
            use_type_invariant(self);
        }
        let ghost t = self.text();
        let first_end = self.skip_word(pos);
        if pos < first_end && first_end <= self.chars.len() {
            let mut words = String::from_str(self.input.substring_char(pos, first_end));
            let ghost mut read: Seq<Seq<char>> = seq![t.chars.subrange(pos as int, first_end as int)];
            let ghost all = read + t.more_words(first_end as int).0;
            proof {
                assert(join(read, " "@) == read[0]) by {
                    lemma_join_push(Seq::empty(), " "@, read[0]);
                    assert(Seq::<Seq<char>>::empty().push(read[0]) =~= read);
                }
            }
            let mut at = first_end;
            loop
                invariant
                    self.chars@ == self.input@,
                    t == self.text(),
                    pos < first_end <= at <= self.chars.len(),
                    first_end == t.skip_word(pos as int),
                    all == seq![t.chars.subrange(pos as int, first_end as int)] + t.more_words(
                        first_end as int,
                    ).0,
                    words@ == join(read, " "@),
                    read.len() > 0,
                    read + t.more_words(at as int).0 == all,
                    t.more_words(at as int).1 == t.more_words(first_end as int).1,
                decreases self.chars.len() - at,
            {
                let start = self.skip_blank(at);
                let end = self.skip_word(start);
                if at < start && start < end {
                    proof {
                        let word = t.chars.subrange(start as int, end as int);
                        lemma_join_push(read, " "@, word);
                        assert(read.push(word) + t.more_words(end as int).0 =~= read + t.more_words(
                            at as int,
                        ).0);
                        read = read.push(word);
                    }
                    words.append(" ");
                    words.append(self.input.substring_char(start, end));
                    at = end;
                } else {
                    assert(read + Seq::<Seq<char>>::empty() =~= read);
                    return Some((words, at));
                }
            }
        } else {
            None
        }
    }

    /// Words with white space before and behind.
    pub fn ws_words(&self, pos: usize) -> (r: Option<(String, usize)>)
        ensures
            parsed(r) == self.text().ws_words(pos as int),
            r matches Some((_, end)) ==> pos < end <= self.text().len(),
    {
        match self.some_words(self.skip_ws(pos)) {
            Some((words, end)) => Some((words, self.skip_ws(end))),
            None => None,
        }
    }

    /// The character `c` with white space before and behind.
    pub fn ws_tag(&self, pos: usize, c: char) -> (r: Option<usize>)
        ensures
            match r {
                Some(end) => self.text().ws_tag(pos as int, c) == Some(end as int) && pos < end
                    <= self.text().len(),
                None => self.text().ws_tag(pos as int, c) is None,
            },
    {
        let at = self.skip_ws(pos);
        if self.char_at(at, c) {
            assert(at < self.chars.len());
            Some(self.skip_ws(at + 1))
        } else {
            None
        }
    }

    /// A word, or words separated by spaces.
    pub fn eprim(&self, pos: usize) -> (r: Option<(Expr, usize)>)
        ensures
            parsed(r) == self.text().eprim(pos as int),
            r matches Some((_, end)) ==> pos < end <= self.text().len(),
    {
        match self.some_words(pos) {
            Some((words, end)) => Some((Expr::EPrim(words), end)),
            None => None,
        }
    }

    /// A construction: words, `=`, words, `(`, a list, `)`.
    pub fn econstruct(&self, pos: usize) -> (r: Option<(Expr, usize)>)
        ensures
            parsed(r) == self.text().econstruct(pos as int),
            r matches Some((_, end)) ==> pos < end <= self.text().len(),
        decreases self.text().len() - pos, 1nat,
    {
        let (key, at1) = match self.ws_words(pos) {
            Some(found) => found,
            None => return None,
        };
        let at2 = match self.ws_tag(at1, '=') {
            Some(end) => end,
            None => return None,
        };
        let (kind, at3) = match self.ws_words(at2) {
            Some(found) => found,
            None => return None,
        };
        let at4 = match self.ws_tag(at3, '(') {
            Some(end) => end,
            None => return None,
        };
        let at5 = self.skip_ws(at4);
        let (items, at6) = match self.elist_flat(at5) {
            Some(found) => found,
            None => return None,
        };
        let at7 = match self.ws_tag(self.skip_ws(at6), ')') {
            Some(end) => end,
            None => return None,
        };
        let ghost models = items.deep_view();
        let e = Expr::EConstruct(key, kind, items);
        assert(e.deep_view()->EConstruct_2 =~= models);
        Some((e, at7))
    }

    /// A pair: words, `=`, an expression.
    pub fn epair(&self, pos: usize) -> (r: Option<(Expr, usize)>)
        ensures
            parsed(r) == self.text().epair(pos as int),
            r matches Some((_, end)) ==> pos < end <= self.text().len(),
        decreases self.text().len() - pos, 1nat,
    {
        let (key, at1) = match self.some_words(pos) {
            Some(found) => found,
            None => return None,
        };
        let at2 = match self.ws_tag(at1, '=') {
            Some(end) => end,
            None => return None,
        };
        match self.expr(at2) {
            Some((value, at3)) => Some((Expr::EPair(key, Box::new(value)), at3)),
            None => None,
        }
    }

    /// One or more expressions separated by commas.
    pub fn elist_flat(&self, pos: usize) -> (r: Option<(Vec<Box<Expr>>, usize)>)
        ensures
            parsed(r) == self.text().elist_flat(pos as int),
            r matches Some((_, end)) ==> pos < end <= self.text().len(),
        decreases self.text().len() - pos, 3nat,
    {
        let ghost t = self.text();
        let (first, at1) = match self.expr(pos) {
            Some(found) => found,
            None => return None,
        };
        let ghost all = seq![first.deep_view()] + t.more_exprs(at1 as int).0;
        let mut items: Vec<Box<Expr>> = Vec::new();
        items.push(Box::new(first));
        assert(items.deep_view() =~= seq![first.deep_view()]);
        let mut at = at1;
        loop
            invariant
                t == self.text(),
                pos < at1 <= at <= t.len(),
                items.deep_view() + t.more_exprs(at as int).0 == all,
                t.more_exprs(at as int).1 == t.more_exprs(at1 as int).1,
                t.expr(pos as int) matches Some((f, e)) && e == at1 && all == seq![f] + t.more_exprs(
                    at1 as int,
                ).0,
            decreases t.len() - at,
        {
            let ghost before = items.deep_view();
            let at2 = match self.ws_tag(at, ',') {
                Some(end) => end,
                None => {
                    assert(before + Seq::<ExprModel>::empty() =~= before);
                    return Some((items, at));
                },
            };
            match self.expr(at2) {
                Some((item, at3)) => {
                    proof {
                        assert(before.push(item.deep_view()) + t.more_exprs(at3 as int).0 =~= before
                            + t.more_exprs(at as int).0);
                    }
                    items.push(Box::new(item));
                    assert(items.deep_view() =~= before.push(item.deep_view()));
                    at = at3;
                },
                None => {
                    assert(before + Seq::<ExprModel>::empty() =~= before);
                    return Some((items, at));
                },
            }
        }
    }

    /// A list in parentheses.
    pub fn paren_list(&self, pos: usize) -> (r: Option<(Expr, usize)>)
        ensures
            parsed(r) == self.text().paren_list(pos as int),
            r matches Some((_, end)) ==> pos < end <= self.text().len(),
        decreases self.text().len() - pos, 1nat,
    {
        if !self.char_at(pos, '(') {
            return None;
        }
        assert(pos < self.chars.len());
        let (items, at1) = match self.elist_flat(pos + 1) {
            Some(found) => found,
            None => return None,
        };
        if !self.char_at(at1, ')') {
            return None;
        }
        assert(at1 < self.chars.len());
        let ghost models = items.deep_view();
        let e = Expr::EList(items);
        assert(e.deep_view()->EList_0 =~= models);
        Some((e, at1 + 1))
    }

    /// An expression: the first that parses of a construction, a list in
    /// parentheses, a pair, and words.
    pub fn expr(&self, pos: usize) -> (r: Option<(Expr, usize)>)
        ensures
            parsed(r) == self.text().expr(pos as int),
            r matches Some((_, end)) ==> pos < end <= self.text().len(),
        decreases self.text().len() - pos, 2nat,
    {
        if let Some(found) = self.econstruct(pos) {
            return Some(found);
        }
        if let Some(found) = self.paren_list(pos) {
            return Some(found);
        }
        if let Some(found) = self.epair(pos) {
            return Some(found);
        }
        self.eprim(pos)
    }

    /// A list: one or more expressions separated by commas.
    pub fn elist(&self, pos: usize) -> (r: Option<(Expr, usize)>)
        ensures
            parsed(r) == self.text().elist(pos as int),
            r matches Some((_, end)) ==> pos < end <= self.text().len(),
    {
        match self.elist_flat(pos) {
            Some((items, end)) => {
                let ghost models = items.deep_view();
                let e = Expr::EList(items);
                assert(e.deep_view()->EList_0 =~= models);
                Some((e, end))
            },
            None => None,
        }
    }

    /// An expression at the top level, white space allowed before and behind.
    pub fn top_level_expr(&self, pos: usize) -> (r: Option<(Expr, usize)>)
        ensures
            parsed(r) == self.text().top_level_expr(pos as int),
            r matches Some((_, end)) ==> pos < end <= self.text().len(),
    {
        let at = self.skip_ws(pos);
        let found = match self.econstruct(at) {
            Some(found) => Some(found),
            None => match self.elist(at) {
                Some(found) => Some(found),
                None => match self.epair(at) {
                    Some(found) => Some(found),
                    None => self.eprim(at),
                },
            },
        };
        match found {
            Some((e, end)) => Some((e, self.skip_ws(end))),
            None => None,
        }
    }

    /// One expression of a definition.
    pub fn top_level_item(&self, pos: usize) -> (r: Option<(Expr, usize)>)
        ensures
            parsed(r) == self.text().top_level_item(pos as int),
            r matches Some((_, end)) ==> pos < end <= self.text().len(),
    {
        match self.top_level_expr(self.skip_ws(pos)) {
            Some((e, end)) => Some((e, self.skip_ws(end))),
            None => None,
        }
    }

    /// A definition: one or more top-level expressions.
    pub fn top_level_def(&self, pos: usize) -> (r: Option<(Vec<Expr>, usize)>)
        ensures
            parsed(r) == self.text().top_level_def(pos as int),
            r matches Some((_, end)) ==> pos < end <= self.text().len(),
    {
        let ghost t = self.text();
        let (first, at1) = match self.top_level_item(pos) {
            Some(found) => found,
            None => return None,
        };
        let ghost all = seq![first.deep_view()] + t.more_items(at1 as int).0;
        let mut items: Vec<Expr> = Vec::new();
        items.push(first);
        assert(items.deep_view() =~= seq![first.deep_view()]);
        let mut at = at1;
        loop
            invariant
                t == self.text(),
                pos < at1 <= at <= t.len(),
                items.deep_view() + t.more_items(at as int).0 == all,
                t.more_items(at as int).1 == t.more_items(at1 as int).1,
                t.top_level_item(pos as int) matches Some((f, e)) && e == at1 && all == seq![f]
                    + t.more_items(at1 as int).0,
            decreases t.len() - at,
        {
            let ghost before = items.deep_view();
            match self.top_level_item(at) {
                Some((item, at2)) => {
                    proof {
                        assert(before.push(item.deep_view()) + t.more_items(at2 as int).0 =~= before
                            + t.more_items(at as int).0);
                    }
                    items.push(item);
                    assert(items.deep_view() =~= before.push(item.deep_view()));
                    at = at2;
                },
                None => {
                    assert(before + Seq::<ExprModel>::empty() =~= before);
                    return Some((items, at));
                },
            }
        }
    }
}

/// Whether `r` is what the grammar reads of `input`: on a parse, what was read
/// and what of `input` stands behind it; else nothing.
pub open spec fn reads<T: DeepView>(input: Seq<char>, r: Option<(&str, T)>, expected: Parsed<T::V>) -> bool {
    match expected {
        Some((value, end)) => r matches Some((rest, read)) && read.deep_view() == value && rest@
            == input.skip(end),
        None => r is None,
    }
}

fn remaining<'a, T: DeepView>(scanner: &Scanner<'a>, found: Option<(T, usize)>) -> (r: Option<
    (&'a str, T),
>)
    requires
        found matches Some((_, end)) ==> end <= scanner.text().len(),
    ensures
        reads(scanner.text().chars, r, parsed(found)),
{
    match found {
        Some((value, end)) => Some((scanner.rest(end), value)),
        None => None,
    }
}

/// Reads a construction at the start of `input`.
pub fn econstruct<'a>(input: &'a str) -> (r: Option<(&'a str, Expr)>)
    ensures
        reads(input@, r, Text::of(input@).econstruct(0)),
{
    let scanner = Scanner::new(input);
    remaining(&scanner, scanner.econstruct(0))
}

/// Reads words at the start of `input`.
pub fn eprim<'a>(input: &'a str) -> (r: Option<(&'a str, Expr)>)
    ensures
        reads(input@, r, Text::of(input@).eprim(0)),
{
    let scanner = Scanner::new(input);
    remaining(&scanner, scanner.eprim(0))
}

/// Reads a pair at the start of `input`.
pub fn epair<'a>(input: &'a str) -> (r: Option<(&'a str, Expr)>)
    ensures
        reads(input@, r, Text::of(input@).epair(0)),
{
    let scanner = Scanner::new(input);
    remaining(&scanner, scanner.epair(0))
}

/// Reads a list at the start of `input`.
pub fn elist<'a>(input: &'a str) -> (r: Option<(&'a str, Expr)>)
    ensures
        reads(input@, r, Text::of(input@).elist(0)),
{
    let scanner = Scanner::new(input);
    remaining(&scanner, scanner.elist(0))
}

/// Reads the items of a list at the start of `input`.
pub fn elist_flat<'a>(input: &'a str) -> (r: Option<(&'a str, Vec<Box<Expr>>)>)
    ensures
        reads(input@, r, Text::of(input@).elist_flat(0)),
{
    let scanner = Scanner::new(input);
    remaining(&scanner, scanner.elist_flat(0))
}

/// Reads a list in parentheses at the start of `input`.
pub fn paren_list<'a>(input: &'a str) -> (r: Option<(&'a str, Expr)>)
    ensures
        reads(input@, r, Text::of(input@).paren_list(0)),
{
    let scanner = Scanner::new(input);
    remaining(&scanner, scanner.paren_list(0))
}

/// Reads an expression at the start of `input`.
pub fn expr<'a>(input: &'a str) -> (r: Option<(&'a str, Expr)>)
    ensures
        reads(input@, r, Text::of(input@).expr(0)),
{
    let scanner = Scanner::new(input);
    remaining(&scanner, scanner.expr(0))
}

/// Reads a top-level expression at the start of `input`.
pub fn top_level_expr<'a>(input: &'a str) -> (r: Option<(&'a str, Expr)>)
    ensures
        reads(input@, r, Text::of(input@).top_level_expr(0)),
{
    let scanner = Scanner::new(input);
    remaining(&scanner, scanner.top_level_expr(0))
}

/// Reads a definition at the start of `input`.
pub fn top_level_def<'a>(input: &'a str) -> (r: Option<(&'a str, Vec<Expr>)>)
    ensures
        reads(input@, r, Text::of(input@).top_level_def(0)),
{
    let scanner = Scanner::new(input);
    remaining(&scanner, scanner.top_level_def(0))
}

/// Reads words at the start of `input`.
pub fn some_words<'a>(input: &'a str) -> (r: Option<(&'a str, String)>)
    ensures
        reads(input@, r, Text::of(input@).some_words(0)),
{
    let scanner = Scanner::new(input);
    remaining(&scanner, scanner.some_words(0))
}

} // verus!
