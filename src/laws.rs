//! Properties of the token grammar as a whole.
use crate::grammar::{
    comment_close, concat_raw, lemma_step_advances, lex_from, paren_scan, quote_close, step,
    tokenize, ErrorView, Step, TokenView,
};
use crate::position::{pos_at, Pos};
use vstd::prelude::*;

verus! {

/// The tokens from index `i` on cover the text from `i` to the end.
proof fn lemma_lex_from_round_trip(s: Seq<char>, i: int, opens: Seq<Pos>)
    requires
        0 <= i <= s.len(),
        lex_from(s, i, opens) is Ok,
    ensures
        concat_raw(lex_from(s, i, opens)->Ok_0) == s.subrange(i, s.len() as int),
    decreases s.len() - i,
{
    lemma_step_advances(s, i, opens);
    match step(s, i, opens) {
        Step::Done => {
            assert(s.subrange(i, s.len() as int) =~= Seq::<char>::empty());
        },
        Step::Fail(_) => {},
        Step::Emit(t, j, next) => {
            lemma_lex_from_round_trip(s, j, next);
            let ts = lex_from(s, j, next)->Ok_0;
            let all = seq![t] + ts;
            assert(all[0] == t);
            assert(all.drop_first() =~= ts);
            assert(s.subrange(i, s.len() as int) =~= s.subrange(i, j) + s.subrange(
                j,
                s.len() as int,
            ));
        },
    }
}

/// Joining the raw texts of the tokens of a buffer, in order, gives the
/// buffer back.
pub proof fn lemma_round_trip(s: Seq<char>)
    requires
        tokenize(s) is Ok,
    ensures
        concat_raw(tokenize(s)->Ok_0) == s,
{
    lemma_lex_from_round_trip(s, 0, seq![]);
    assert(s.subrange(0, s.len() as int) =~= s);
}

/// Tokenizing is a function of the text alone: equal buffers give equal
/// token sequences, or equal errors.
pub proof fn lemma_deterministic(s: Seq<char>, t: Seq<char>)
    requires
        s == t,
    ensures
        tokenize(s) == tokenize(t),
{
}


/// A string whose closing quote never comes ends the run with an
/// unterminated-string error at its opening quote.
pub proof fn lemma_unclosed_string(s: Seq<char>, i: int, opens: Seq<Pos>)
    requires
        0 <= i < s.len(),
        s[i] == '\'' || s[i] == '"',
        quote_close(s, i + 1, s[i]) is None,
    ensures
        lex_from(s, i, opens) == Err::<Seq<TokenView>, ErrorView>(
            ErrorView::UnterminatedString(pos_at(s, i)),
        ),
{
}

/// A comment whose `*/` never comes ends the run with an
/// unterminated-comment error at its `/*`.
pub proof fn lemma_unclosed_comment(s: Seq<char>, i: int, opens: Seq<Pos>)
    requires
        0 <= i,
        i + 1 < s.len(),
        s[i] == '/',
        s[i + 1] == '*',
        comment_close(s, i + 2) is None,
    ensures
        lex_from(s, i, opens) == Err::<Seq<TokenView>, ErrorView>(
            ErrorView::UnterminatedComment(pos_at(s, i)),
        ),
{
}

/// A parenthesis whose flat scan runs off the end of the text ends the run
/// with an unterminated-bracket error at that parenthesis.
pub proof fn lemma_unclosed_group(s: Seq<char>, i: int, opens: Seq<Pos>)
    requires
        0 <= i < s.len(),
        s[i] == '(',
        paren_scan(s, i + 1, 1) is Unclosed,
    ensures
        lex_from(s, i, opens) == Err::<Seq<TokenView>, ErrorView>(
            ErrorView::UnterminatedBracket(pos_at(s, i)),
        ),
{
}

/// Reaching the end of the text inside a tokenized parenthesized run is an
/// unterminated-bracket error at the innermost open parenthesis.
pub proof fn lemma_unclosed_nesting(s: Seq<char>, opens: Seq<Pos>)
    requires
        opens.len() > 0,
    ensures
        lex_from(s, s.len() as int, opens) == Err::<Seq<TokenView>, ErrorView>(
            ErrorView::UnterminatedBracket(opens.last()),
        ),
{
}

} // verus!
