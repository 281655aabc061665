//! The lexer itself: a cursor over the input text that produces one
//! token per `lex` call, together with the mathematical description
//! (`lex_from`) of what each call returns and where it leaves the cursor.

use vstd::prelude::*;
use vstd::string::StrSliceExecFns;
use vstd::string::StringExecFns;
use crate::chars::{is_digit_char, is_newline_char, is_skip_char};
use crate::chars::{is_digit, is_newline, is_skip, is_numeric};
use crate::scan::{
    all_digits, comment_run_len, dec_val, float_text_ok, has_char, ident_run_len, num_run_len,
};
use crate::scan::{
    contains_char, float_shape_ok, lemma_comment_run, lemma_dec_val_nonneg, lemma_ident_run,
    lemma_num_run, parse_digits,
};
use crate::token::err_msg;
pub use crate::token::{FloatLit, LexedToken, LexErrKind, LexError, LexResult, Token, TokenModel};

verus! {

/// One step of the lexer, as mathematics: what a single `lex` call
/// returns and where it leaves the cursor.
pub ghost enum LexStep {
    /// Input exhausted; the cursor ends at the end of the input.
    End { line: int },
    /// One token, with the cursor and line counter at its end.
    Tok { t: TokenModel, pos: int, line: int },
    /// A lexical error, positioned where the scan stopped.
    Fail { kind: LexErrKind, pos: int, line: int },
}

/// The marker token of a single fixed-punctuation character, if `c` is
/// one.  The left/right assignment of the bracket tokens is deliberate
/// and must stay exactly as written.
pub open spec fn fixed_punct_model(c: char) -> Option<TokenModel> {
    if c == '{' {
        Some(TokenModel::RCurly)
    } else if c == '}' {
        Some(TokenModel::LCurly)
    } else if c == '(' {
        Some(TokenModel::RParen)
    } else if c == ')' {
        Some(TokenModel::LParen)
    } else if c == ':' {
        Some(TokenModel::Colon)
    } else if c == ';' {
        Some(TokenModel::Semicolon)
    } else if c == ',' {
        Some(TokenModel::Comma)
    } else if c == '=' {
        Some(TokenModel::Equals)
    } else if c == '!' {
        Some(TokenModel::Exclamation)
    } else {
        None
    }
}

/// What one `lex` call does on input `s` with the cursor at `pos` and the
/// line counter at `line`.
///
/// Whitespace and newlines are skipped (newlines bump the line counter),
/// then the first character decides: fixed punctuation, a numeric
/// literal, a minus that may begin a negated literal, an operator, a
/// `//` line comment (discarded, and scanning continues after it), or an
/// identifier/keyword candidate running to the next whitespace.
pub open spec fn lex_from(s: Seq<char>, pos: int, line: int) -> LexStep
    decreases s.len() - pos,
{
    if pos < 0 || pos >= s.len() {
        LexStep::End { line }
    } else if is_skip_char(s[pos]) {
        lex_from(
            s,
            pos + 1,
            if is_newline_char(s[pos]) {
                line + 1
            } else {
                line
            },
        )
    } else if fixed_punct_model(s[pos]) is Some {
        LexStep::Tok { t: fixed_punct_model(s[pos]).unwrap(), pos: pos + 1, line }
    } else if is_digit_char(s[pos]) {
        let end = pos + 1 + num_run_len(s, pos + 1);
        let t = s.subrange(pos, end);
        if has_char(t, '.') {
            if float_text_ok(t) {
                LexStep::Tok { t: TokenModel::Float { neg: false, digits: t }, pos: end, line }
            } else {
                LexStep::Fail { kind: LexErrKind::FloatInvalid, pos: end, line }
            }
        } else if dec_val(t) <= i64::MAX {
            LexStep::Tok { t: TokenModel::Int { val: dec_val(t) }, pos: end, line }
        } else {
            LexStep::Fail { kind: LexErrKind::IntOverflow, pos: end, line }
        }
    } else if s[pos] == '-' {
        let end = pos + 1 + num_run_len(s, pos + 1);
        let t = s.subrange(pos + 1, end);
        if t.len() == 0 {
            LexStep::Tok { t: TokenModel::Operator { op: '-' }, pos: pos + 1, line }
        } else if has_char(t, '.') {
            if float_text_ok(t) {
                LexStep::Tok { t: TokenModel::Float { neg: true, digits: t }, pos: end, line }
            } else {
                LexStep::Tok { t: TokenModel::Operator { op: '-' }, pos: pos + 1, line }
            }
        } else if dec_val(t) <= i64::MAX {
            LexStep::Tok { t: TokenModel::Int { val: -dec_val(t) }, pos: end, line }
        } else {
            LexStep::Tok { t: TokenModel::Operator { op: '-' }, pos: pos + 1, line }
        }
    } else if s[pos] == '+' || s[pos] == '*' {
        LexStep::Tok { t: TokenModel::Operator { op: s[pos] }, pos: pos + 1, line }
    } else if s[pos] == '/' {
        if pos + 1 < s.len() && s[pos + 1] == '/' {
            let e = pos + 1 + comment_run_len(s, pos + 1);
            lex_from(
                s,
                if e <= s.len() {
                    e
                } else {
                    s.len() as int
                },
                line,
            )
        } else {
            LexStep::Tok { t: TokenModel::Operator { op: '/' }, pos: pos + 1, line }
        }
    } else {
        let end = pos + 1 + ident_run_len(s, pos + 1);
        let t = s.subrange(pos, end);
        if t == "function"@ {
            LexStep::Tok { t: TokenModel::Function, pos: end, line }
        } else if t == "return"@ {
            LexStep::Tok { t: TokenModel::Return, pos: end, line }
        } else if has_char(t, 'l') {
            LexStep::Fail { kind: LexErrKind::IdentRejected, pos: end, line }
        } else {
            LexStep::Tok { t: TokenModel::Ident { text: t }, pos: end, line }
        }
    }
}

/// What a `lex` call promises: the lexer after the call (`post`) and the
/// returned value `r` agree with `lex_from` applied to the lexer before
/// the call (`pre`).
pub open spec fn lex_post(pre: Lexer, post: Lexer, r: LexResult) -> bool {
    &&& post.input@ == pre.input@
    &&& match lex_from(pre.input@, pre.pos as int, pre.line as int) {
        LexStep::End { line } => {
            &&& r matches Ok(o) && o is None
            &&& post.pos == pre.input@.len()
            &&& post.line == line
        },
        LexStep::Tok { t, pos, line } => {
            &&& r matches Ok(o) && o matches Some(lt) && lt.tok@ == t && lt.pos == pos
                && lt.line == line
            &&& post.pos == pos
            &&& post.line == line
        },
        LexStep::Fail { kind, pos, line } => {
            &&& r matches Err(e) && e.err@ == err_msg(kind) && e.pos == pos && e.line == line
            &&& post.pos == pos
            &&& post.line == line
        },
    }
}

/// Defines a lexer which transforms an input string into a Token stream.
///
/// `pos` is the number of characters consumed so far (a raw count from
/// the start of the input, never reset), and `line` the number of
/// newlines consumed while skipping whitespace.
#[derive(Debug)]
pub struct Lexer {
    pub input: String,
    pub line: usize,
    pub pos: usize,
}

impl Lexer {
    /// The cursor stays inside the input, and the line counter never
    /// outruns the character counter.
    pub open spec fn wf(self) -> bool {
        self.pos <= self.input@.len() && self.line <= self.pos
    }

    /// Creates a new `Lexer`, given its source input.
    pub fn new(input: &str) -> (r: Lexer)
        ensures
            r.wf(),
            r.input@ == input@,
            r.pos == 0,
            r.line == 0,
    {
        Lexer { input: input.to_owned(), pos: 0, line: 0 }
    }

    /// First index at or after `j` that does not continue a numeric
    /// literal (a digit or a dot), capped at the end of the input.
    fn num_run_end(&self, j: usize) -> (e: usize)
        requires
            j <= self.input@.len(),
        ensures
            e == j + num_run_len(self.input@, j as int),
    {
        let n = self.input.as_str().unicode_len();
        let mut e = j;
        while e < n && is_numeric(self.input.as_str().get_char(e))
            invariant
                j <= e <= n,
                n == self.input@.len(),
                num_run_len(self.input@, j as int) == e - j + num_run_len(self.input@, e as int),
            decreases n - e,
        {
            proof {
                assert(num_run_len(self.input@, e as int) == 1 + num_run_len(
                    self.input@,
                    e as int + 1,
                ));
            }
            e = e + 1;
        }
        proof {
            assert(num_run_len(self.input@, e as int) == 0);
        }
        e
    }

    /// First index at or after `j` that ends an identifier candidate
    /// (whitespace or a newline), capped at the end of the input.
    fn ident_run_end(&self, j: usize) -> (e: usize)
        requires
            j <= self.input@.len(),
        ensures
            e == j + ident_run_len(self.input@, j as int),
    {
        let n = self.input.as_str().unicode_len();
        let mut e = j;
        while e < n && !is_skip(self.input.as_str().get_char(e))
            invariant
                j <= e <= n,
                n == self.input@.len(),
                ident_run_len(self.input@, j as int) == e - j + ident_run_len(
                    self.input@,
                    e as int,
                ),
            decreases n - e,
        {
            proof {
                assert(ident_run_len(self.input@, e as int) == 1 + ident_run_len(
                    self.input@,
                    e as int + 1,
                ));
            }
            e = e + 1;
        }
        proof {
            assert(ident_run_len(self.input@, e as int) == 0);
        }
        e
    }

    /// Lexes and returns the next `Token` from the source code.
    #[verifier::loop_isolation(false)]
    pub fn lex(&mut self) -> (r: LexResult)
        requires
            old(self).wf(),
        ensures
            final(self).wf(),
            lex_post(*old(self), *final(self), r),
    {
        let ghost s = old(self).input@;
        let ghost p0 = old(self).pos as int;
        let ghost l0 = old(self).line as int;
        let n = self.input.as_str().unicode_len();
        loop
            invariant
                self.wf(),
                self.input@ == s,
                lex_from(s, self.pos as int, self.line as int) == lex_from(s, p0, l0),
            decreases s.len() - self.pos,
        {
            let ghost ph = self.pos as int;
            // Skip whitespace and newlines, counting lines as we go.
            while self.pos < n && is_skip(self.input.as_str().get_char(self.pos))
                invariant
                    self.wf(),
                    self.input@ == s,
                    ph <= self.pos as int,
                    lex_from(s, self.pos as int, self.line as int) == lex_from(s, p0, l0),
                decreases s.len() - self.pos,
            {
                let c = self.input.as_str().get_char(self.pos);
                proof {
                    assert(lex_from(s, self.pos as int, self.line as int) == lex_from(
                        s,
                        self.pos as int + 1,
                        if is_newline_char(c) {
                            self.line as int + 1
                        } else {
                            self.line as int
                        },
                    ));
                }
                if is_newline(c) {
                    self.line = self.line + 1;
                }
                self.pos = self.pos + 1;
            }
            if self.pos >= n {
                proof {
                    assert(lex_from(s, self.pos as int, self.line as int) == (LexStep::End {
                        line: self.line as int,
                    }));
                }
                return Ok(None);
            }
            let p = self.pos;
            let c = self.input.as_str().get_char(p);

            // Fixed single-character punctuation.
            let fixed: Option<Token> = if c == '{' {
                Some(Token::RCurly)
            } else if c == '}' {
                Some(Token::LCurly)
            } else if c == '(' {
                Some(Token::RParen)
            } else if c == ')' {
                Some(Token::LParen)
            } else if c == ':' {
                Some(Token::Colon)
            } else if c == ';' {
                Some(Token::Semicolon)
            } else if c == ',' {
                Some(Token::Comma)
            } else if c == '=' {
                Some(Token::Equals)
            } else if c == '!' {
                Some(Token::Exclamation)
            } else {
                None
            };
            if let Some(tok) = fixed {
                self.pos = p + 1;
                return Ok(Some(LexedToken { line: self.line, pos: self.pos, tok }));
            }

            if is_digit(c) {
                // Numeric literal starting at the digit itself.
                let end = self.num_run_end(p + 1);
                proof {
                    lemma_num_run(s, p as int + 1);
                }
                let text = self.input.as_str().substring_char(p, end);
                self.pos = end;
                if contains_char(text, '.') {
                    if float_shape_ok(text) {
                        let lit = FloatLit { neg: false, digits: text.to_owned() };
                        return Ok(Some(LexedToken {
                            line: self.line,
                            pos: self.pos,
                            tok: Token::Float(lit),
                        }));
                    } else {
                        return Err(LexError {
                            line: self.line,
                            pos: self.pos,
                            err: String::from_str("invalid float literal"),
                        });
                    }
                } else {
                    proof {
                        assert(all_digits(text@));
                    }
                    match parse_digits(text) {
                        Some(v) => {
                            return Ok(Some(LexedToken {
                                line: self.line,
                                pos: self.pos,
                                tok: Token::Int(v),
                            }));
                        },
                        None => {
                            return Err(LexError {
                                line: self.line,
                                pos: self.pos,
                                err: String::from_str("integer literal out of range"),
                            });
                        },
                    }
                }
            }

            if c == '-' {
                // A minus begins a negated literal if digits follow;
                // otherwise it is the `-` operator, and the failed
                // numeric attempt consumes nothing beyond the minus.
                let end = self.num_run_end(p + 1);
                proof {
                    lemma_num_run(s, p as int + 1);
                }
                if end == p + 1 {
                    self.pos = p + 1;
                    return Ok(Some(LexedToken {
                        line: self.line,
                        pos: self.pos,
                        tok: Token::Operator('-'),
                    }));
                }
                let text = self.input.as_str().substring_char(p + 1, end);
                if contains_char(text, '.') {
                    if float_shape_ok(text) {
                        self.pos = end;
                        let lit = FloatLit { neg: true, digits: text.to_owned() };
                        return Ok(Some(LexedToken {
                            line: self.line,
                            pos: self.pos,
                            tok: Token::Float(lit),
                        }));
                    } else {
                        self.pos = p + 1;
                        return Ok(Some(LexedToken {
                            line: self.line,
                            pos: self.pos,
                            tok: Token::Operator('-'),
                        }));
                    }
                } else {
                    proof {
                        assert(all_digits(text@));
                    }
                    match parse_digits(text) {
                        Some(v) => {
                            proof {
                                lemma_dec_val_nonneg(text@);
                            }
                            self.pos = end;
                            return Ok(Some(LexedToken {
                                line: self.line,
                                pos: self.pos,
                                tok: Token::Int(-v),
                            }));
                        },
                        None => {
                            self.pos = p + 1;
                            return Ok(Some(LexedToken {
                                line: self.line,
                                pos: self.pos,
                                tok: Token::Operator('-'),
                            }));
                        },
                    }
                }
            }

            if c == '+' || c == '*' {
                self.pos = p + 1;
                return Ok(Some(LexedToken {
                    line: self.line,
                    pos: self.pos,
                    tok: Token::Operator(c),
                }));
            }

            if c == '/' {
                if p + 1 < n && self.input.as_str().get_char(p + 1) == '/' {
                    // A line comment: discard characters up to the next
                    // newline (or the end of input), then scan on.  The
                    // newline itself is left for the whitespace skip, so
                    // the line counter still advances for it.
                    proof {
                        lemma_comment_run(s, p as int + 1);
                    }
                    let mut e = p + 1;
                    while e < n && !is_newline(self.input.as_str().get_char(e))
                        invariant
                            p + 1 <= e <= n,
                            comment_run_len(s, p as int + 1) == e - (p + 1) + comment_run_len(
                                s,
                                e as int,
                            ),
                        decreases n - e,
                    {
                        proof {
                            assert(comment_run_len(s, e as int) == 1 + comment_run_len(
                                s,
                                e as int + 1,
                            ));
                        }
                        e = e + 1;
                    }
                    proof {
                        assert(comment_run_len(s, e as int) == 0);
                        assert(lex_from(s, p as int, self.line as int) == lex_from(
                            s,
                            e as int,
                            self.line as int,
                        ));
                    }
                    self.pos = e;
                    continue;
                } else {
                    self.pos = p + 1;
                    return Ok(Some(LexedToken {
                        line: self.line,
                        pos: self.pos,
                        tok: Token::Operator('/'),
                    }));
                }
            }

            // Identifier or keyword candidate: everything up to the next
            // whitespace or newline.
            let end = self.ident_run_end(p + 1);
            proof {
                lemma_ident_run(s, p as int + 1);
            }
            let text = self.input.as_str().substring_char(p, end);
            self.pos = end;
            let owned = text.to_owned();
            if owned == String::from_str("function") {
                return Ok(Some(LexedToken {
                    line: self.line,
                    pos: self.pos,
                    tok: Token::Function,
                }));
            }
            if owned == String::from_str("return") {
                return Ok(Some(LexedToken { line: self.line, pos: self.pos, tok: Token::Return }));
            }
            if contains_char(text, 'l') {
                return Err(LexError {
                    line: self.line,
                    pos: self.pos,
                    err: String::from_str("'l' faiLs the ELi Linter"),
                });
            }
            return Ok(Some(LexedToken {
                line: self.line,
                pos: self.pos,
                tok: Token::Ident(owned),
            }));
        }
    }

    /// Lexes the next `Token` and returns it.
    /// On EOF or failure, `None` will be returned.
    ///
    /// This is the lazy-sequence view of the lexer: the error value is
    /// discarded, so a caller that needs it must call `lex` directly.
    pub fn next(&mut self) -> (r: Option<LexedToken>)
        requires
            old(self).wf(),
        ensures
            final(self).wf(),
            final(self).input@ == old(self).input@,
            match lex_from(old(self).input@, old(self).pos as int, old(self).line as int) {
                LexStep::End { line } => r is None,
                LexStep::Tok { t, pos, line } => r matches Some(lt) && lt.tok@ == t && lt.pos
                    == pos && lt.line == line,
                LexStep::Fail { kind, pos, line } => r is None,
            },
    {
        match self.lex() {
            Ok(token) => token,
            Err(_) => None,
        }
    }
}

} // verus!
