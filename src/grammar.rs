//! The token grammar as mathematics: where each scanner stops, what one
//! dispatch step produces, and the whole token sequence of a buffer.
use crate::chars::{spec_ends_escape, spec_is_at_word_char, spec_is_space, spec_is_word_char};
use crate::position::{pos_at, Pos};
use vstd::prelude::*;

verus! {

/// A token with its text as a sequence of characters and its locations as
/// mathematical positions.
pub enum TokenView {
    Word(Seq<char>, Pos, Pos),
    AtWord(Seq<char>, Pos, Pos),
    String(Seq<char>, Pos, Pos),
    Comment(Seq<char>, Pos, Pos),
    Control(Seq<char>, Pos),
    Brackets(Seq<char>, Pos, Pos),
    Space(Seq<char>),
    LeftParen(Pos),
    RightParen(Pos),
}

/// A fatal error, located at the character that opened the construct (or
/// at the character that could not be dispatched).
pub enum ErrorView {
    UnterminatedString(Pos),
    UnterminatedComment(Pos),
    UnterminatedBracket(Pos),
    UnexpectedCharacter(char, Pos),
}

/// The source text that a token stands for.
pub open spec fn raw(t: TokenView) -> Seq<char> {
    match t {
        TokenView::Word(x, _, _) => x,
        TokenView::AtWord(x, _, _) => x,
        TokenView::String(x, _, _) => x,
        TokenView::Comment(x, _, _) => x,
        TokenView::Control(x, _) => x,
        TokenView::Brackets(x, _, _) => x,
        TokenView::Space(x) => x,
        TokenView::LeftParen(_) => seq!['('],
        TokenView::RightParen(_) => seq![')'],
    }
}

/// The source texts of a token sequence, joined in order.
pub open spec fn concat_raw(ts: Seq<TokenView>) -> Seq<char>
    decreases ts.len(),
{
    if ts.len() == 0 {
        seq![]
    } else {
        raw(ts[0]) + concat_raw(ts.drop_first())
    }
}

/// The classes of characters that a scanner consumes as a run.
#[derive(Clone, Copy)]
pub enum CharClass {
    Space,
    Word,
    AtWord,
    Backslash,
}

/// Whether `c` belongs to the class `k`.
pub open spec fn in_class(k: CharClass, c: char) -> bool {
    match k {
        CharClass::Space => spec_is_space(c),
        CharClass::Word => spec_is_word_char(c),
        CharClass::AtWord => spec_is_at_word_char(c),
        CharClass::Backslash => c == '\\',
    }
}

/// The end of the maximal run of characters of class `k` that starts at `i`.
pub open spec fn span(s: Seq<char>, i: int, k: CharClass) -> int
    decreases s.len() - i,
{
    if 0 <= i < s.len() && in_class(k, s[i]) {
        span(s, i + 1, k)
    } else {
        i
    }
}

/// The end of a backslash escape at `i`: the run of backslashes, and after
/// a run of odd length also the next character unless it is one of
/// `/`, space, newline, tab or carriage return.
pub open spec fn escape_end(s: Seq<char>, i: int) -> int {
    let e = span(s, i, CharClass::Backslash);
    if (e - i) % 2 == 1 && e < s.len() && !spec_ends_escape(s[e]) {
        e + 1
    } else {
        e
    }
}

/// Scanning a string body from `j`: the index just past the first closing
/// `q` that no backslash escapes, or `None` when the text ends first.
pub open spec fn quote_close(s: Seq<char>, j: int, q: char) -> Option<int>
    decreases s.len() + 1 - j,
{
    if !(0 <= j < s.len()) {
        None
    } else if s[j] == '\\' {
        quote_close(s, j + 2, q)
    } else if s[j] == q {
        Some(j + 1)
    } else {
        quote_close(s, j + 1, q)
    }
}

/// Scanning a comment body from `j`: the index just past the first `*/`,
/// or `None` when the text ends first.
pub open spec fn comment_close(s: Seq<char>, j: int) -> Option<int>
    decreases s.len() - j,
{
    if !(0 <= j && j + 1 < s.len()) {
        None
    } else if s[j] == '*' && s[j + 1] == '/' {
        Some(j + 2)
    } else {
        comment_close(s, j + 1)
    }
}

/// How a flat scan of a parenthesized run ends.
pub enum ParenScan {
    /// The parentheses balance; the run ends just before this index.
    Closed(int),
    /// A quote or a comment opener comes first: the interior is tokenized.
    Nested,
    /// The text ends with parentheses still open.
    Unclosed,
}

/// The flat scan from `j` with `depth` parentheses open. A backslash
/// escapes the next character; escaped characters neither nest nor stop
/// the scan.
pub open spec fn paren_scan(s: Seq<char>, j: int, depth: nat) -> ParenScan
    decreases s.len() + 1 - j,
{
    if !(0 <= j < s.len()) {
        ParenScan::Unclosed
    } else if s[j] == '\\' {
        paren_scan(s, j + 2, depth)
    } else if s[j] == '\'' || s[j] == '"' {
        ParenScan::Nested
    } else if s[j] == '/' && j + 1 < s.len() && s[j + 1] == '*' {
        ParenScan::Nested
    } else if s[j] == '(' {
        paren_scan(s, j + 1, depth + 1)
    } else if s[j] == ')' {
        if depth <= 1 {
            ParenScan::Closed(j + 1)
        } else {
            paren_scan(s, j + 1, (depth - 1) as nat)
        }
    } else {
        paren_scan(s, j + 1, depth)
    }
}

/// The outcome of one dispatch step.
pub enum Step {
    /// The text is used up and no parenthesis is open.
    Done,
    /// One token, the index after it, and the positions of the
    /// parentheses still open.
    Emit(TokenView, int, Seq<Pos>),
    Fail(ErrorView),
}

/// Whether `c` is one of the control characters `{ } : ;` (a `)` is one too
/// where no parenthesis is open).
pub open spec fn is_control(c: char) -> bool {
    c == '{' || c == '}' || c == ':' || c == ';'
}

/// A token that covers the characters from `i` up to `e`, with the
/// locations of its first and last character.
pub open spec fn spanned(s: Seq<char>, i: int, e: int) -> (Seq<char>, Pos, Pos) {
    (s.subrange(i, e), pos_at(s, i), pos_at(s, e - 1))
}

/// At one of `{ } : ; )`: a control token, except that `)` closes the
/// innermost open parenthesis when there is one.
pub open spec fn control_step(s: Seq<char>, i: int, opens: Seq<Pos>) -> Step {
    if s[i] == ')' && opens.len() > 0 {
        Step::Emit(TokenView::RightParen(pos_at(s, i)), i + 1, opens.drop_last())
    } else {
        Step::Emit(TokenView::Control(s.subrange(i, i + 1), pos_at(s, i)), i + 1, opens)
    }
}

/// At `(`: one bracket token for a run that balances without quotes or
/// comments; a left-paren marker, opening the group, when one of those
/// comes first.
pub open spec fn group_step(s: Seq<char>, i: int, opens: Seq<Pos>) -> Step {
    match paren_scan(s, i + 1, 1) {
        ParenScan::Closed(e) => {
            let (x, a, b) = spanned(s, i, e);
            Step::Emit(TokenView::Brackets(x, a, b), e, opens)
        },
        ParenScan::Nested => Step::Emit(
            TokenView::LeftParen(pos_at(s, i)),
            i + 1,
            opens.push(pos_at(s, i)),
        ),
        ParenScan::Unclosed => Step::Fail(ErrorView::UnterminatedBracket(pos_at(s, i))),
    }
}

/// At a quote: the string up to its closing quote.
pub open spec fn string_step(s: Seq<char>, i: int, opens: Seq<Pos>) -> Step {
    match quote_close(s, i + 1, s[i]) {
        Some(e) => {
            let (x, a, b) = spanned(s, i, e);
            Step::Emit(TokenView::String(x, a, b), e, opens)
        },
        None => Step::Fail(ErrorView::UnterminatedString(pos_at(s, i))),
    }
}

/// At `/*`: the comment up to its `*/`.
pub open spec fn comment_step(s: Seq<char>, i: int, opens: Seq<Pos>) -> Step {
    match comment_close(s, i + 2) {
        Some(e) => {
            let (x, a, b) = spanned(s, i, e);
            Step::Emit(TokenView::Comment(x, a, b), e, opens)
        },
        None => Step::Fail(ErrorView::UnterminatedComment(pos_at(s, i))),
    }
}

/// At `@`: the at-word.
pub open spec fn at_word_step(s: Seq<char>, i: int, opens: Seq<Pos>) -> Step {
    let e = span(s, i + 1, CharClass::AtWord);
    let (x, a, b) = spanned(s, i, e);
    Step::Emit(TokenView::AtWord(x, a, b), e, opens)
}

/// At a backslash: the escape, as a word.
pub open spec fn escape_step(s: Seq<char>, i: int, opens: Seq<Pos>) -> Step {
    let e = escape_end(s, i);
    let (x, a, b) = spanned(s, i, e);
    Step::Emit(TokenView::Word(x, a, b), e, opens)
}

/// At white space: the whole run of it.
pub open spec fn space_step(s: Seq<char>, i: int, opens: Seq<Pos>) -> Step {
    let e = span(s, i, CharClass::Space);
    Step::Emit(TokenView::Space(s.subrange(i, e)), e, opens)
}

/// The end of the word at `i`: an optional leading `!`, then a run of
/// word characters.
pub open spec fn word_end(s: Seq<char>, i: int) -> int {
    if s[i] == '!' {
        span(s, i + 1, CharClass::Word)
    } else {
        span(s, i, CharClass::Word)
    }
}

/// At `!` or a word character: the word.
pub open spec fn word_step(s: Seq<char>, i: int, opens: Seq<Pos>) -> Step {
    let e = word_end(s, i);
    let (x, a, b) = spanned(s, i, e);
    Step::Emit(TokenView::Word(x, a, b), e, opens)
}

/// One dispatch step at index `i`, with `opens` the positions of the
/// parentheses whose interior is being tokenized, innermost last: the
/// character there picks the scanner.
pub open spec fn step(s: Seq<char>, i: int, opens: Seq<Pos>) -> Step {
    if i >= s.len() {
        if opens.len() == 0 {
            Step::Done
        } else {
            Step::Fail(ErrorView::UnterminatedBracket(opens.last()))
        }
    } else {
        let c = s[i];
        if is_control(c) || c == ')' {
            control_step(s, i, opens)
        } else if c == '(' {
            group_step(s, i, opens)
        } else if c == '\'' || c == '"' {
            string_step(s, i, opens)
        } else if c == '@' {
            at_word_step(s, i, opens)
        } else if c == '\\' {
            escape_step(s, i, opens)
        } else if c == '/' && i + 1 < s.len() && s[i + 1] == '*' {
            comment_step(s, i, opens)
        } else if spec_is_space(c) {
            space_step(s, i, opens)
        } else if c == '!' || spec_is_word_char(c) {
            word_step(s, i, opens)
        } else {
            Step::Fail(ErrorView::UnexpectedCharacter(c, pos_at(s, i)))
        }
    }
}

/// The tokens of `s` from index `i` on, with `opens` open, or the error
/// that ends the run. (Every step moves forward, see `lemma_step_advances`,
/// so the guard on `j` always holds.)
pub open spec fn lex_from(s: Seq<char>, i: int, opens: Seq<Pos>) -> Result<
    Seq<TokenView>,
    ErrorView,
>
    decreases s.len() - i,
{
    match step(s, i, opens) {
        Step::Done => Ok(seq![]),
        Step::Fail(e) => Err(e),
        Step::Emit(t, j, next) => {
            if i < j <= s.len() {
                match lex_from(s, j, next) {
                    Ok(ts) => Ok(seq![t] + ts),
                    Err(e) => Err(e),
                }
            } else {
                Ok(seq![t])
            }
        },
    }
}

/// The token sequence of a whole buffer, or its fatal error.
pub open spec fn tokenize(s: Seq<char>) -> Result<Seq<TokenView>, ErrorView> {
    lex_from(s, 0, seq![])
}

/// A run ends between its start and the end of the text.
pub proof fn lemma_span_bounds(s: Seq<char>, i: int, k: CharClass)
    requires
        0 <= i <= s.len(),
    ensures
        i <= span(s, i, k) <= s.len(),
    decreases s.len() - i,
{
    if i < s.len() && in_class(k, s[i]) {
        lemma_span_bounds(s, i + 1, k);
    }
}

/// A closed string body ends after its start and within the text.
pub proof fn lemma_quote_close_bounds(s: Seq<char>, j: int, q: char)
    requires
        0 <= j,
    ensures
        quote_close(s, j, q) matches Some(e) ==> j < e <= s.len(),
    decreases s.len() + 1 - j,
{
    if 0 <= j < s.len() {
        if s[j] == '\\' {
            lemma_quote_close_bounds(s, j + 2, q);
        } else if s[j] != q {
            lemma_quote_close_bounds(s, j + 1, q);
        }
    }
}

/// A closed comment body ends after its `*/` and within the text.
pub proof fn lemma_comment_close_bounds(s: Seq<char>, j: int)
    requires
        0 <= j,
    ensures
        comment_close(s, j) matches Some(e) ==> j + 2 <= e <= s.len(),
    decreases s.len() - j,
{
    if 0 <= j && j + 1 < s.len() && !(s[j] == '*' && s[j + 1] == '/') {
        lemma_comment_close_bounds(s, j + 1);
    }
}

/// A balanced flat scan ends after its start and within the text.
pub proof fn lemma_paren_scan_bounds(s: Seq<char>, j: int, depth: nat)
    requires
        0 <= j,
    ensures
        paren_scan(s, j, depth) matches ParenScan::Closed(e) ==> j < e <= s.len(),
    decreases s.len() + 1 - j,
{
    if 0 <= j < s.len() {
        if s[j] == '\\' {
            lemma_paren_scan_bounds(s, j + 2, depth);
        } else if s[j] == '\'' || s[j] == '"' || (s[j] == '/' && j + 1 < s.len() && s[j + 1]
            == '*') {
        } else if s[j] == '(' {
            lemma_paren_scan_bounds(s, j + 1, depth + 1);
        } else if s[j] == ')' {
            if depth > 1 {
                lemma_paren_scan_bounds(s, j + 1, (depth - 1) as nat);
            }
        } else {
            lemma_paren_scan_bounds(s, j + 1, depth);
        }
    }
}

/// Every token that a step emits covers exactly the text it moves over,
/// and that text is not empty.
pub proof fn lemma_step_advances(s: Seq<char>, i: int, opens: Seq<Pos>)
    requires
        0 <= i,
    ensures
        step(s, i, opens) matches Step::Emit(t, j, _) ==> i < j <= s.len() && raw(t)
            == s.subrange(i, j),
{
    if i < s.len() {
        let c = s[i];
        lemma_span_bounds(s, i + 1, CharClass::Space);
        lemma_span_bounds(s, i + 1, CharClass::Word);
        lemma_span_bounds(s, i + 1, CharClass::AtWord);
        lemma_span_bounds(s, i + 1, CharClass::Backslash);
        lemma_quote_close_bounds(s, i + 1, c);
        lemma_comment_close_bounds(s, i + 2);
        lemma_paren_scan_bounds(s, i + 1, 1);
        assert(s[i] == c);
        if c == '(' || c == ')' {
            assert(seq![c] =~= s.subrange(i, i + 1));
        }
    }
}

} // verus!
