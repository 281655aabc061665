//! Properties of the lexer that hold of every input, proved once and for
//! all against the mathematical description `lex_from`.

use vstd::prelude::*;
use crate::chars::{is_digit_char, is_newline_char, is_skip_char};
use crate::lexer::{fixed_punct_model, lex_from, LexStep};
use crate::scan::ident_run_len;
use crate::token::TokenModel;

verus! {

/// An input holding nothing but whitespace and newlines from the cursor
/// on lexes to end-of-input: no token and no error.
pub proof fn lemma_whitespace_only_ends(s: Seq<char>, pos: int, line: int)
    requires
        0 <= pos <= s.len(),
        forall|i: int| pos <= i < s.len() ==> is_skip_char(s[i]),
    ensures
        lex_from(s, pos, line) matches LexStep::End { .. },
    decreases s.len() - pos,
{
    if pos < s.len() {
        lemma_whitespace_only_ends(
            s,
            pos + 1,
            if is_newline_char(s[pos]) {
                line + 1
            } else {
                line
            },
        );
    }
}

/// Lexing at the end of the input reports end-of-input and moves nothing,
/// so once a lexer has reported the end it keeps reporting it, without
/// ever erring: `lex` leaves the cursor at the end exactly when it
/// returns the end signal.
pub proof fn lemma_end_is_stable(s: Seq<char>, line: int)
    ensures
        lex_from(s, s.len() as int, line) == (LexStep::End { line }),
{
}

/// A fixed-punctuation character lexes to its marker token, advancing
/// past exactly that one character and leaving the line counter alone,
/// whatever follows it.
pub proof fn lemma_fixed_punctuation(s: Seq<char>, pos: int, line: int)
    requires
        0 <= pos < s.len(),
        fixed_punct_model(s[pos]) is Some,
    ensures
        fixed_punct_model(s[pos]) matches Some(t) && lex_from(s, pos, line) == (LexStep::Tok {
            t,
            pos: pos + 1,
            line,
        }),
{
    assert(!is_skip_char(s[pos]));
}

/// The keyword check comes before the identifier-rejection rule: a
/// scanned candidate that reads exactly `function` or `return` always
/// lexes to its keyword token, never to a rejected identifier.
pub proof fn lemma_keywords_bypass_rejection(s: Seq<char>, pos: int, line: int)
    requires
        0 <= pos < s.len(),
        ({
            let end = pos + 1 + ident_run_len(s, pos + 1);
            s.subrange(pos, end) == "function"@ || s.subrange(pos, end) == "return"@
        }),
    ensures
        ({
            let end = pos + 1 + ident_run_len(s, pos + 1);
            let t = s.subrange(pos, end);
            lex_from(s, pos, line) == (LexStep::Tok {
                t: if t == "function"@ {
                    TokenModel::Function
                } else {
                    TokenModel::Return
                },
                pos: end,
                line,
            })
        }),
{
    crate::scan::lemma_ident_run(s, pos + 1);
    let end = pos + 1 + ident_run_len(s, pos + 1);
    let t = s.subrange(pos, end);
    reveal_strlit("function");
    reveal_strlit("return");
    assert(t.len() > 0);
    assert(t[0] == s[pos]);
    if t == "function"@ {
        assert(s[pos] == 'f');
    } else {
        assert(s[pos] == 'r');
    }
    assert(!is_skip_char(s[pos]));
    assert(fixed_punct_model(s[pos]) is None);
    assert(!is_digit_char(s[pos]));
}

} // verus!
