//! The token stream: a tokenizer that owns its buffer, hands out tokens one
//! at a time, or all of them at once.
use crate::chars::{
    ends_escape, is_at_word_char, is_space, is_word_char, spec_is_space, spec_is_word_char,
};
use crate::grammar::{
    at_word_step, comment_close, comment_step, control_step, escape_end, escape_step,
    group_step, in_class, lemma_comment_close_bounds, lemma_paren_scan_bounds,
    lemma_quote_close_bounds, lemma_span_bounds, lemma_step_advances, lex_from, paren_scan,
    quote_close, space_step, span, step, string_step, tokenize, word_step, CharClass, ErrorView,
    ParenScan, Step, TokenView,
};
use crate::position::{lemma_pos_bounds, pos_at, Pos};
use vstd::prelude::*;

verus! {

/// A 1-based (row, column) location in the source.
#[derive(Clone, Copy, Debug, PartialEq, Eq, Structural)]
pub struct Location(pub usize, pub usize);

impl View for Location {
    type V = Pos;

    open spec fn view(&self) -> Pos {
        (self.0 as nat, self.1 as nat)
    }
}

/// A classified, positioned fragment of the source. Where a token has two
/// locations, the second is that of its last character.
#[derive(Clone, Debug, PartialEq, Eq)]
pub enum Token {
    Word(String, Location, Location),
    AtWord(String, Location, Location),
    String(String, Location, Location),
    Comment(String, Location, Location),
    Control(String, Location),
    Brackets(String, Location, Location),
    Space(String),
    LeftParen(Location),
    RightParen(Location),
}

impl View for Token {
    type V = TokenView;

    open spec fn view(&self) -> TokenView {
        match self {
            Token::Word(x, a, b) => TokenView::Word(x@, a@, b@),
            Token::AtWord(x, a, b) => TokenView::AtWord(x@, a@, b@),
            Token::String(x, a, b) => TokenView::String(x@, a@, b@),
            Token::Comment(x, a, b) => TokenView::Comment(x@, a@, b@),
            Token::Control(x, a) => TokenView::Control(x@, a@),
            Token::Brackets(x, a, b) => TokenView::Brackets(x@, a@, b@),
            Token::Space(x) => TokenView::Space(x@),
            Token::LeftParen(a) => TokenView::LeftParen(a@),
            Token::RightParen(a) => TokenView::RightParen(a@),
        }
    }
}

/// A fatal tokenizing error with the location it concerns.
#[derive(Clone, Copy, Debug, PartialEq, Eq, Structural)]
pub enum LexError {
    UnterminatedString(Location),
    UnterminatedComment(Location),
    UnterminatedBracket(Location),
    UnexpectedCharacter(char, Location),
}

impl View for LexError {
    type V = ErrorView;

    open spec fn view(&self) -> ErrorView {
        match self {
            LexError::UnterminatedString(a) => ErrorView::UnterminatedString(a@),
            LexError::UnterminatedComment(a) => ErrorView::UnterminatedComment(a@),
            LexError::UnterminatedBracket(a) => ErrorView::UnterminatedBracket(a@),
            LexError::UnexpectedCharacter(c, a) => ErrorView::UnexpectedCharacter(*c, a@),
        }
    }
}

/// The views of a sequence of tokens.
pub open spec fn tokens_view(ts: Seq<Token>) -> Seq<TokenView> {
    ts.map_values(|t: Token| t@)
}

/// The view of a complete run's result.
pub open spec fn result_view(r: Result<Vec<Token>, LexError>) -> Result<Seq<TokenView>, ErrorView> {
    match r {
        Ok(v) => Ok(tokens_view(v@)),
        Err(e) => Err(e@),
    }
}

/// The tokens `ts` put before the outcome `r` of the rest of a run.
pub open spec fn prepend(ts: Seq<TokenView>, r: Result<Seq<TokenView>, ErrorView>) -> Result<
    Seq<TokenView>,
    ErrorView,
> {
    match r {
        Ok(rest) => Ok(ts + rest),
        Err(e) => Err(e),
    }
}

/// What one pull returns, and the state it leaves, when the grammar takes
/// the step `st` at `i` with `opens` open, in a buffer of `len` characters.
/// After an error the tokenizer stands at the end of its buffer with
/// nothing open.
pub open spec fn pulled(
    st: Step,
    len: int,
    i: int,
    opens: Seq<Pos>,
    r: Option<Result<Token, LexError>>,
    j: int,
    next_opens: Seq<Pos>,
) -> bool {
    match st {
        Step::Done => r is None && j == i && next_opens == opens,
        Step::Emit(t, e, o) => r matches Some(Ok(tok)) && tok@ == t && j == e && next_opens == o,
        Step::Fail(err) => r matches Some(Err(x)) && x@ == err && j == len && next_opens
            == Seq::<Pos>::empty(),
    }
}

/// Relies on `String::push`: appends the character to the end of the string.
#[verifier::external_body]
fn push_char(s: &mut String, c: char)
    ensures
        final(s)@ == old(s)@.push(c),
{
    s.push(c)
}

/// How the flat scan of a parenthesized run ends (see `ParenScan`).
enum Group {
    Closed(usize),
    Nested,
    Unclosed,
}

/// The flat scan's outcome as the grammar states it.
spec fn group_view(g: Group) -> ParenScan {
    match g {
        Group::Closed(e) => ParenScan::Closed(e as int),
        Group::Nested => ParenScan::Nested,
        Group::Unclosed => ParenScan::Unclosed,
    }
}

/// Whether `c` belongs to the class `k`.
fn class_has(k: CharClass, c: char) -> (r: bool)
    ensures
        r == in_class(k, c),
{
    match k {
        CharClass::Space => is_space(c),
        CharClass::Word => is_word_char(c),
        CharClass::AtWord => is_at_word_char(c),
        CharClass::Backslash => c == '\\',
    }
}

/// A tokenizer over one source buffer. It keeps the offset of the next
/// character to read, that character's row and column, and the locations
/// of the parentheses whose interior it is tokenizing.
#[derive(Debug)]
pub struct Tokenizer {
    buf: Vec<char>,
    row: usize,
    col: usize,
    pos: usize,
    opens: Vec<Location>,
}

impl Tokenizer {
    /// The source buffer.
    pub closed spec fn source(&self) -> Seq<char> {
        self.buf@
    }

    /// The offset of the next character to read.
    pub closed spec fn offset(&self) -> int {
        self.pos as int
    }

    /// The locations of the parentheses open at the offset, innermost last.
    pub closed spec fn open_parens(&self) -> Seq<Pos> {
        self.opens@.map_values(|l: Location| l@)
    }

    /// The cursor lies within the buffer, and while a character remains,
    /// row and column are that character's position.
    pub closed spec fn wf(&self) -> bool {
        &&& self.pos <= self.buf.len()
        &&& self.pos < self.buf.len() ==> (self.row as nat, self.col as nat) == pos_at(
            self.buf@,
            self.pos as int,
        )
    }

    /// A tokenizer at the start of `buf`.
    pub fn new(buf: &str) -> (r: Tokenizer)
        ensures
            r.wf(),
            r.source() == buf@,
            r.offset() == 0,
            r.open_parens() == Seq::<Pos>::empty(),
    {
        broadcast use vstd::string::axiom_spec_iter;

        let mut chars: Vec<char> = Vec::new();
        for c in it: buf.chars()
            invariant
                it.seq() == buf@,
                chars@ == it.seq().take(it.index()),
        {
            chars.push(c);
        }
        assert(chars@ =~= buf@);
        let r = Tokenizer { buf: chars, row: 1, col: 1, pos: 0, opens: Vec::new() };
        assert(r.open_parens() =~= Seq::<Pos>::empty());
        r
    }

    /// The end of the run of class `k` from `i`.
    fn run_end(&self, i: usize, k: CharClass) -> (e: usize)
        requires
            i <= self.buf.len(),
        ensures
            e == span(self.buf@, i as int, k),
    {
        let mut j = i;
        while j < self.buf.len() && class_has(k, self.buf[j])
            invariant
                i <= j <= self.buf.len(),
                span(self.buf@, i as int, k) == span(self.buf@, j as int, k),
            decreases self.buf.len() - j,
        {
            j = j + 1;
        }
        j
    }

    /// The end of the backslash escape at `i`.
    fn escape_end(&self, i: usize) -> (e: usize)
        requires
            i <= self.buf.len(),
        ensures
            e == escape_end(self.buf@, i as int),
    {
        let e = self.run_end(i, CharClass::Backslash);
        proof {
            lemma_span_bounds(self.buf@, i as int, CharClass::Backslash);
        }
        if (e - i) % 2 == 1 && e < self.buf.len() && !ends_escape(self.buf[e]) {
            e + 1
        } else {
            e
        }
    }

    /// The end of the string body that starts at `from`, closed by `q`.
    fn quote_end(&self, from: usize, q: char) -> (r: Option<usize>)
        requires
            from <= self.buf.len(),
        ensures
            r matches Some(e) ==> quote_close(self.buf@, from as int, q) == Some(e as int),
            r is None ==> quote_close(self.buf@, from as int, q) is None,
    {
        let mut j = from;
        while j < self.buf.len()
            invariant
                j <= self.buf.len(),
                quote_close(self.buf@, from as int, q) == quote_close(self.buf@, j as int, q),
            decreases self.buf.len() - j,
        {
            let c = self.buf[j];
            if c == '\\' {
                if j + 1 >= self.buf.len() {
                    assert(quote_close(self.buf@, j + 2, q) is None);
                    return None;
                }
                j = j + 2;
            } else if c == q {
                return Some(j + 1);
            } else {
                j = j + 1;
            }
        }
        None
    }

    /// The end of the comment body that starts at `from`.
    fn comment_end(&self, from: usize) -> (r: Option<usize>)
        requires
            from <= self.buf.len(),
        ensures
            r matches Some(e) ==> comment_close(self.buf@, from as int) == Some(e as int),
            r is None ==> comment_close(self.buf@, from as int) is None,
    {
        let mut j = from;
        while j < self.buf.len() && j + 1 < self.buf.len()
            invariant
                j <= self.buf.len(),
                comment_close(self.buf@, from as int) == comment_close(self.buf@, j as int),
            decreases self.buf.len() - j,
        {
            if self.buf[j] == '*' && self.buf[j + 1] == '/' {
                return Some(j + 2);
            }
            j = j + 1;
        }
        None
    }

    /// The flat scan of the parenthesized run whose interior starts at
    /// `from`.
    fn group_end(&self, from: usize) -> (r: Group)
        requires
            1 <= from <= self.buf.len(),
        ensures
            group_view(r) == paren_scan(self.buf@, from as int, 1),
    {
        let mut j = from;
        let mut depth: usize = 1;
        while j < self.buf.len()
            invariant
                from <= j <= self.buf.len(),
                1 <= depth <= j,
                paren_scan(self.buf@, from as int, 1) == paren_scan(
                    self.buf@,
                    j as int,
                    depth as nat,
                ),
            decreases self.buf.len() - j,
        {
            let c = self.buf[j];
            if c == '\\' {
                if j + 1 >= self.buf.len() {
                    assert(paren_scan(self.buf@, j + 2, depth as nat) is Unclosed);
                    return Group::Unclosed;
                }
                j = j + 2;
            } else if c == '\'' || c == '"' {
                return Group::Nested;
            } else if c == '/' && j + 1 < self.buf.len() && self.buf[j + 1] == '*' {
                return Group::Nested;
            } else if c == '(' {
                depth = depth + 1;
                j = j + 1;
            } else if c == ')' {
                if depth <= 1 {
                    return Group::Closed(j + 1);
                }
                depth = depth - 1;
                j = j + 1;
            } else {
                j = j + 1;
            }
        }
        Group::Unclosed
    }

    /// The characters from `i` up to `e`, as a string.
    fn text(&self, i: usize, e: usize) -> (r: String)
        requires
            i <= e <= self.buf.len(),
        ensures
            r@ == self.buf@.subrange(i as int, e as int),
    {
        let mut r = String::new();
        let mut j = i;
        while j < e
            invariant
                i <= j <= e <= self.buf.len(),
                r@ == self.buf@.subrange(i as int, j as int),
            decreases e - j,
        {
            push_char(&mut r, self.buf[j]);
            assert(self.buf@.subrange(i as int, j + 1) =~= self.buf@.subrange(i as int, j as int).push(self.buf@[j as int]));
            j = j + 1;
        }
        r
    }

    /// Moves over one character, keeping row and column in step.
    fn step_char(&mut self)
        requires
            old(self).wf(),
            old(self).pos < old(self).buf.len(),
        ensures
            final(self).wf(),
            final(self).pos == old(self).pos + 1,
            final(self).buf == old(self).buf,
            final(self).opens == old(self).opens,
    {
        let next = self.pos + 1;
        if next < self.buf.len() {
            let c = self.buf[self.pos];
            proof {
                lemma_pos_bounds(self.buf@, next as int);
            }
            let after_cr = self.pos >= 1 && self.buf[self.pos - 1] == '\r';
            if c == '\n' && after_cr {
            } else if c == '\r' || c == '\n' {
                self.row = self.row + 1;
                self.col = 1;
            } else {
                self.col = self.col + 1;
            }
        }
        self.pos = next;
    }

    /// Consumes the characters up to `e`; returns them as a string and the
    /// location of the last one.
    fn take(&mut self, e: usize) -> (r: (String, Location))
        requires
            old(self).wf(),
            old(self).pos < e <= old(self).buf.len(),
        ensures
            final(self).wf(),
            final(self).pos == e,
            final(self).buf == old(self).buf,
            final(self).opens == old(self).opens,
            r.0@ == old(self).buf@.subrange(old(self).pos as int, e as int),
            r.1@ == pos_at(old(self).buf@, e - 1),
    {
        let text = self.text(self.pos, e);
        let mut last = Location(self.row, self.col);
        self.step_char();
        while self.pos < e
            invariant
                self.wf(),
                self.pos <= e <= self.buf.len(),
                self.buf == old(self).buf,
                self.opens == old(self).opens,
                last@ == pos_at(self.buf@, self.pos - 1),
            decreases e - self.pos,
        {
            last = Location(self.row, self.col);
            self.step_char();
        }
        (text, last)
    }

    /// Ends the run after a fatal error: the cursor goes to the end of the
    /// buffer and nothing stays open.
    fn halt(&mut self)
        requires
            old(self).wf(),
        ensures
            final(self).wf(),
            final(self).buf == old(self).buf,
            final(self).pos == final(self).buf.len(),
            final(self).open_parens() == Seq::<Pos>::empty(),
    {
        self.pos = self.buf.len();
        self.opens = Vec::new();
        assert(self.open_parens() =~= Seq::<Pos>::empty());
    }

    /// The tokenizer moved from `self` to `after` by the step `st`, and
    /// returned `r` for it.
    spec fn moved(&self, after: Tokenizer, st: Step, r: Option<Result<Token, LexError>>) -> bool {
        &&& after.wf()
        &&& after.buf == self.buf
        &&& pulled(
            st,
            self.buf.len() as int,
            self.pos as int,
            self.open_parens(),
            r,
            after.pos as int,
            after.open_parens(),
        )
    }

    /// The character at the cursor, which the dispatcher has looked at.
    spec fn current(&self) -> char {
        self.buf@[self.pos as int]
    }

    /// At one of `{ } : ; )`.
    fn lex_control(&mut self) -> (r: Option<Result<Token, LexError>>)
        requires
            old(self).wf(),
            old(self).pos < old(self).buf.len(),
        ensures
            old(self).moved(
                *final(self),
                control_step(old(self).buf@, old(self).pos as int, old(self).open_parens()),
                r,
            ),
    {
        let ghost opens = self.open_parens();
        let i = self.pos;
        let here = Location(self.row, self.col);
        if self.buf[i] == ')' && self.opens.len() > 0 {
            self.opens.pop();
            assert(self.open_parens() =~= opens.drop_last());
            let _ = self.take(i + 1);
            Some(Ok(Token::RightParen(here)))
        } else {
            let (text, _) = self.take(i + 1);
            Some(Ok(Token::Control(text, here)))
        }
    }

    /// At `(`.
    fn lex_openparen(&mut self) -> (r: Option<Result<Token, LexError>>)
        requires
            old(self).wf(),
            old(self).pos < old(self).buf.len(),
        ensures
            old(self).moved(
                *final(self),
                group_step(old(self).buf@, old(self).pos as int, old(self).open_parens()),
                r,
            ),
    {
        let ghost opens = self.open_parens();
        let i = self.pos;
        let here = Location(self.row, self.col);
        proof {
            lemma_paren_scan_bounds(self.buf@, i + 1, 1);
        }
        match self.group_end(i + 1) {
            Group::Closed(e) => {
                let (text, last) = self.take(e);
                Some(Ok(Token::Brackets(text, here, last)))
            },
            Group::Nested => {
                self.opens.push(here);
                assert(self.open_parens() =~= opens.push(here@));
                let _ = self.take(i + 1);
                Some(Ok(Token::LeftParen(here)))
            },
            Group::Unclosed => {
                self.halt();
                Some(Err(LexError::UnterminatedBracket(here)))
            },
        }
    }

    /// At the quote `quote`.
    fn lex_quote(&mut self, quote: char) -> (r: Option<Result<Token, LexError>>)
        requires
            old(self).wf(),
            old(self).pos < old(self).buf.len(),
            old(self).current() == quote,
        ensures
            old(self).moved(
                *final(self),
                string_step(old(self).buf@, old(self).pos as int, old(self).open_parens()),
                r,
            ),
    {
        let i = self.pos;
        let here = Location(self.row, self.col);
        proof {
            lemma_quote_close_bounds(self.buf@, i + 1, quote);
        }
        match self.quote_end(i + 1, quote) {
            Some(e) => {
                let (text, last) = self.take(e);
                Some(Ok(Token::String(text, here, last)))
            },
            None => {
                self.halt();
                Some(Err(LexError::UnterminatedString(here)))
            },
        }
    }

    /// At `/*`.
    fn lex_comment(&mut self) -> (r: Option<Result<Token, LexError>>)
        requires
            old(self).wf(),
            old(self).pos + 2 <= old(self).buf.len(),
        ensures
            old(self).moved(
                *final(self),
                comment_step(old(self).buf@, old(self).pos as int, old(self).open_parens()),
                r,
            ),
    {
        let i = self.pos;
        let here = Location(self.row, self.col);
        proof {
            lemma_comment_close_bounds(self.buf@, i + 2);
        }
        match self.comment_end(i + 2) {
            Some(e) => {
                let (text, last) = self.take(e);
                Some(Ok(Token::Comment(text, here, last)))
            },
            None => {
                self.halt();
                Some(Err(LexError::UnterminatedComment(here)))
            },
        }
    }

    /// At `@`.
    fn lex_atword(&mut self) -> (r: Option<Result<Token, LexError>>)
        requires
            old(self).wf(),
            old(self).pos < old(self).buf.len(),
        ensures
            old(self).moved(
                *final(self),
                at_word_step(old(self).buf@, old(self).pos as int, old(self).open_parens()),
                r,
            ),
    {
        let i = self.pos;
        let here = Location(self.row, self.col);
        proof {
            lemma_span_bounds(self.buf@, i + 1, CharClass::AtWord);
        }
        let e = self.run_end(i + 1, CharClass::AtWord);
        let (text, last) = self.take(e);
        Some(Ok(Token::AtWord(text, here, last)))
    }

    /// At a backslash.
    fn lex_backslash(&mut self) -> (r: Option<Result<Token, LexError>>)
        requires
            old(self).wf(),
            old(self).pos < old(self).buf.len(),
            old(self).current() == '\\',
        ensures
            old(self).moved(
                *final(self),
                escape_step(old(self).buf@, old(self).pos as int, old(self).open_parens()),
                r,
            ),
    {
        let i = self.pos;
        let here = Location(self.row, self.col);
        proof {
            lemma_span_bounds(self.buf@, i + 1, CharClass::Backslash);
        }
        let e = self.escape_end(i);
        let (text, last) = self.take(e);
        Some(Ok(Token::Word(text, here, last)))
    }

    /// At white space.
    fn lex_whitespace(&mut self) -> (r: Option<Result<Token, LexError>>)
        requires
            old(self).wf(),
            old(self).pos < old(self).buf.len(),
            spec_is_space(old(self).current()),
        ensures
            old(self).moved(
                *final(self),
                space_step(old(self).buf@, old(self).pos as int, old(self).open_parens()),
                r,
            ),
    {
        let i = self.pos;
        proof {
            lemma_span_bounds(self.buf@, i + 1, CharClass::Space);
        }
        let e = self.run_end(i, CharClass::Space);
        let (text, _) = self.take(e);
        Some(Ok(Token::Space(text)))
    }

    /// At `!` or a word character.
    fn lex_letters(&mut self) -> (r: Option<Result<Token, LexError>>)
        requires
            old(self).wf(),
            old(self).pos < old(self).buf.len(),
            old(self).current() == '!' || spec_is_word_char(old(self).current()),
        ensures
            old(self).moved(
                *final(self),
                word_step(old(self).buf@, old(self).pos as int, old(self).open_parens()),
                r,
            ),
    {
        let i = self.pos;
        let here = Location(self.row, self.col);
        proof {
            lemma_span_bounds(self.buf@, i + 1, CharClass::Word);
        }
        let e = if self.buf[i] == '!' {
            self.run_end(i + 1, CharClass::Word)
        } else {
            self.run_end(i, CharClass::Word)
        };
        let (text, last) = self.take(e);
        Some(Ok(Token::Word(text, here, last)))
    }

    /// Pulls the next token: `None` once the buffer is used up, or a fatal
    /// error, after which the run is over.
    pub fn next(&mut self) -> (r: Option<Result<Token, LexError>>)
        requires
            old(self).wf(),
        ensures
            final(self).wf(),
            final(self).source() == old(self).source(),
            pulled(
                step(old(self).source(), old(self).offset(), old(self).open_parens()),
                old(self).source().len() as int,
                old(self).offset(),
                old(self).open_parens(),
                r,
                final(self).offset(),
                final(self).open_parens(),
            ),
            old(self).offset() < old(self).source().len() ==> r is Some,
    {
        if self.pos >= self.buf.len() {
            if self.opens.len() == 0 {
                return None;
            }
            let innermost = self.opens[self.opens.len() - 1];
            self.halt();
            return Some(Err(LexError::UnterminatedBracket(innermost)));
        }
        let i = self.pos;
        let c = self.buf[i];
        if c == '{' || c == '}' || c == ':' || c == ';' || c == ')' {
            self.lex_control()
        } else if c == '(' {
            self.lex_openparen()
        } else if c == '\'' || c == '"' {
            self.lex_quote(c)
        } else if c == '@' {
            self.lex_atword()
        } else if c == '\\' {
            self.lex_backslash()
        } else if c == '/' && i + 1 < self.buf.len() && self.buf[i + 1] == '*' {
            self.lex_comment()
        } else if is_space(c) {
            self.lex_whitespace()
        } else if c == '!' || is_word_char(c) {
            self.lex_letters()
        } else {
            let here = Location(self.row, self.col);
            self.halt();
            Some(Err(LexError::UnexpectedCharacter(c, here)))
        }
    }

    /// Tokenizes the rest of the buffer: every remaining token in order,
    /// or the first fatal error.
    pub fn get_tokens(&mut self) -> (r: Result<Vec<Token>, LexError>)
        requires
            old(self).wf(),
        ensures
            final(self).wf(),
            final(self).source() == old(self).source(),
            result_view(r) == lex_from(old(self).source(), old(self).offset(), old(self).open_parens()),
    {
        let ghost s = self.buf@;
        let ghost whole = lex_from(s, self.offset(), self.open_parens());
        let mut out: Vec<Token> = Vec::new();
        assert(whole == prepend(tokens_view(out@), lex_from(s, self.offset(), self.open_parens())))
            by {
            if let Ok(ts) = whole {
                assert(tokens_view(out@) + ts =~= ts);
            }
        }
        loop
            invariant
                self.wf(),
                self.source() == s,
                s == old(self).source(),
                whole == lex_from(old(self).source(), old(self).offset(), old(self).open_parens()),
                whole == prepend(tokens_view(out@), lex_from(s, self.offset(), self.open_parens())),
            decreases s.len() - self.offset(),
        {
            let ghost i = self.offset();
            let ghost opens = self.open_parens();
            proof {
                lemma_step_advances(s, i, opens);
            }
            match self.next() {
                None => {
                    assert(tokens_view(out@) + Seq::<TokenView>::empty() =~= tokens_view(out@));
                    return Ok(out);
                },
                Some(Ok(t)) => {
                    let ghost before = tokens_view(out@);
                    out.push(t);
                    assert(tokens_view(out@) =~= before.push(t@));
                    proof {
                        if let Ok(rest) = lex_from(s, self.offset(), self.open_parens()) {
                            assert(before + (seq![t@] + rest) =~= before.push(t@) + rest);
                        }
                    }
                },
                Some(Err(e)) => {
                    return Err(e);
                },
            }
        }
    }
}

/// Tokenizes a whole buffer: its tokens in order, or the first fatal error.
pub fn tokenizer(input: &str) -> (r: Result<Vec<Token>, LexError>)
    ensures
        result_view(r) == tokenize(input@),
{
    let mut t = Tokenizer::new(input);
    t.get_tokens()
}

} // verus!
