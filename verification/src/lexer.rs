//! The lexer: a cursor over decoded source text and the scanning rules that
//! produce one token per call.

use crate::token::Token;
use crate::token::TokenView;
use crate::token::is_keyword;
use crate::token::keyword_token;
use crate::token::spec_lookup_ident;
use vstd::prelude::*;
use vstd::string::StrSliceExecFns;

verus! {

/// Whitespace the scanner skips between tokens: space, tab, newline,
/// carriage return.
pub open spec fn is_ws_char(c: char) -> bool {
    ||| c as u32 == 32
    ||| c as u32 == 9
    ||| c as u32 == 10
    ||| c as u32 == 13
}

/// Characters that may form an identifier: ASCII letters and underscore.
pub open spec fn is_letter_char(c: char) -> bool {
    ||| (65 <= c as u32 && c as u32 <= 90)
    ||| (97 <= c as u32 && c as u32 <= 122)
    ||| c as u32 == 95
}

/// Decimal digit characters.
pub open spec fn is_digit_char(c: char) -> bool {
    48 <= c as u32 && c as u32 <= 57
}

fn is_ws(c: char) -> (r: bool)
    ensures
        r == is_ws_char(c),
{
    let u = c as u32;
    u == 32 || u == 9 || u == 10 || u == 13
}

fn is_letter(c: char) -> (r: bool)
    ensures
        r == is_letter_char(c),
{
    let u = c as u32;
    (65 <= u && u <= 90) || (97 <= u && u <= 122) || u == 95
}

fn is_digit(c: char) -> (r: bool)
    ensures
        r == is_digit_char(c),
{
    let u = c as u32;
    48 <= u && u <= 57
}

/// First position at or after `i` that does not hold whitespace.
pub open spec fn skip_ws_from(s: Seq<char>, i: int) -> int
    decreases s.len() - i when 0 <= i <= s.len()
{
    if i < s.len() && is_ws_char(s[i]) {
        skip_ws_from(s, i + 1)
    } else {
        i
    }
}

/// End of the maximal identifier-character run starting at `i`.
pub open spec fn letter_run_end(s: Seq<char>, i: int) -> int
    decreases s.len() - i when 0 <= i <= s.len()
{
    if i < s.len() && is_letter_char(s[i]) {
        letter_run_end(s, i + 1)
    } else {
        i
    }
}

/// End of the maximal decimal-digit run starting at `i`.
pub open spec fn digit_run_end(s: Seq<char>, i: int) -> int
    decreases s.len() - i when 0 <= i <= s.len()
{
    if i < s.len() && is_digit_char(s[i]) {
        digit_run_end(s, i + 1)
    } else {
        i
    }
}

/// The token that classification owes to position `j` of `s`, with the
/// cursor position right after it. `j` is expected to stand on no
/// whitespace: `spec_next_token` skips whitespace first.
pub open spec fn token_at(s: Seq<char>, j: int) -> (TokenView, int) {
    if j >= s.len() {
        (TokenView::EOF, j)
    } else {
        let c = s[j];
        if c == '=' {
            if j + 1 < s.len() && s[j + 1] == '=' {
                (TokenView::Eq, j + 2)
            } else {
                (TokenView::Assign, j + 1)
            }
        } else if c == '!' {
            if j + 1 < s.len() && s[j + 1] == '=' {
                (TokenView::NotEq, j + 2)
            } else {
                (TokenView::Bang, j + 1)
            }
        } else if c == '+' {
            (TokenView::Plus, j + 1)
        } else if c == '-' {
            (TokenView::Minus, j + 1)
        } else if c == '/' {
            (TokenView::Slash, j + 1)
        } else if c == '*' {
            (TokenView::Asterisk, j + 1)
        } else if c == '<' {
            (TokenView::Lt, j + 1)
        } else if c == '>' {
            (TokenView::Gt, j + 1)
        } else if c == ';' {
            (TokenView::Semicolon, j + 1)
        } else if c == ',' {
            (TokenView::Comma, j + 1)
        } else if c == '(' {
            (TokenView::LParen, j + 1)
        } else if c == ')' {
            (TokenView::RParen, j + 1)
        } else if c == '{' {
            (TokenView::LBrace, j + 1)
        } else if c == '}' {
            (TokenView::RBrace, j + 1)
        } else if is_letter_char(c) {
            (spec_lookup_ident(s.subrange(j, letter_run_end(s, j))), letter_run_end(s, j))
        } else if is_digit_char(c) {
            (TokenView::Int(s.subrange(j, digit_run_end(s, j))), digit_run_end(s, j))
        } else {
            (TokenView::Illegal, j + 1)
        }
    }
}

/// One step of the scanner: skip whitespace from position `i`, then classify.
/// Yields the emitted token and the cursor position after it.
pub open spec fn spec_next_token(s: Seq<char>, i: int) -> (TokenView, int) {
    token_at(s, skip_ws_from(s, i))
}

/// The lexer: owns the source text and a forward-only scan cursor. The first
/// character (if any) is loaded as current at construction; each call to
/// `next_token` emits one token and advances past it.
pub struct Lexer {
    input: String,
    length: usize,        // Number of characters in input.
    position: usize,      // Current position in input.
    read_position: usize, // Current reading position in input (after current char).
    ch: Option<char>,     // Current char being looked at.
}

impl Lexer {
    /// The source text being scanned, as a character sequence.
    pub closed spec fn src(&self) -> Seq<char> {
        self.input@
    }

    /// The cursor: index of the character the scanner examines next; equals
    /// the source length once input is exhausted.
    pub closed spec fn pos(&self) -> int {
        self.position as int
    }

    /// The cursor's internal invariant: the lookahead index sits one past the
    /// current one, and the examined character mirrors the source at the
    /// cursor, with none once input is exhausted.
    pub closed spec fn wf(&self) -> bool {
        &&& self.input@.len() < usize::MAX
        &&& self.length == self.input@.len()
        &&& self.position <= self.length
        &&& self.read_position == self.position + 1
        &&& self.ch == (if self.position < self.length {
            Some(self.input@[self.position as int])
        } else {
            None::<char>
        })
    }

    /// Builds a lexer over `input` with the first character already loaded.
    /// The length bound is a machine limit: the lookahead index must stay
    /// representable one past the end.
    pub fn new(input: &str) -> (lx: Lexer)
        requires
            input@.len() < usize::MAX,
        ensures
            lx.wf(),
            lx.src() == input@,
            lx.pos() == 0,
    {
        let length = input.unicode_len();
        let mut lexer = Lexer {
            input: input.to_owned(),
            length,
            position: 0,
            read_position: 0,
            ch: None,
        };

        lexer.read_char();
        lexer
    }

    /// Loads the character at the lookahead index (none past the end) and
    /// moves both indices forward by one.
    fn read_char(&mut self)
        requires
            old(self).input@.len() < usize::MAX,
            old(self).length == old(self).input@.len(),
            old(self).read_position <= old(self).length,
        ensures
            final(self).input == old(self).input,
            final(self).length == old(self).length,
            final(self).position == old(self).read_position,
            final(self).read_position == old(self).read_position + 1,
            final(self).ch == (if old(self).read_position < old(self).length {
                Some(old(self).input@[old(self).read_position as int])
            } else {
                None::<char>
            }),
    {
        if self.read_position >= self.length {
            self.ch = None;
        } else {
            let c = self.input.as_str().get_char(self.read_position);
            self.ch = Some(c);
        }

        self.position = self.read_position;
        self.read_position = self.read_position + 1;
    }

    /// Whether the cursor stands on whitespace.
    fn at_ws(&self) -> (r: bool)
        requires
            self.wf(),
        ensures
            r == (self.pos() < self.src().len() && is_ws_char(self.src()[self.pos()])),
    {
        match self.ch {
            Some(c) => is_ws(c),
            None => false,
        }
    }

    /// Whether the cursor stands on an identifier character.
    fn at_letter(&self) -> (r: bool)
        requires
            self.wf(),
        ensures
            r == (self.pos() < self.src().len() && is_letter_char(self.src()[self.pos()])),
    {
        match self.ch {
            Some(c) => is_letter(c),
            None => false,
        }
    }

    /// Whether the cursor stands on a decimal digit.
    fn at_digit(&self) -> (r: bool)
        requires
            self.wf(),
        ensures
            r == (self.pos() < self.src().len() && is_digit_char(self.src()[self.pos()])),
    {
        match self.ch {
            Some(c) => is_digit(c),
            None => false,
        }
    }

    /// Advances the cursor past the run of whitespace it stands on, emitting
    /// nothing.
    fn skip_whitespace(&mut self)
        requires
            old(self).wf(),
        ensures
            final(self).wf(),
            final(self).src() == old(self).src(),
            final(self).pos() == skip_ws_from(old(self).src(), old(self).pos()),
    {
        let ghost s = self.src();
        let ghost i0 = self.pos();
        while self.at_ws()
            invariant
                self.wf(),
                self.src() == s,
                0 <= i0 <= self.pos() <= s.len(),
                skip_ws_from(s, self.pos()) == skip_ws_from(s, i0),
            decreases s.len() - self.pos(),
        {
            self.read_char();
        }
    }

    /// A non-consuming look at the character one past the current one; none
    /// when fewer than two characters remain.
    fn peek_char(&self) -> (c: Option<char>)
        requires
            self.wf(),
        ensures
            c == (if self.pos() + 1 < self.src().len() {
                Some(self.src()[self.pos() + 1])
            } else {
                None::<char>
            }),
    {
        if self.read_position >= self.length {
            None
        } else {
            Some(self.input.as_str().get_char(self.read_position))
        }
    }

    /// Consumes the maximal identifier-character run the cursor stands on
    /// and returns it verbatim.
    fn read_identifier(&mut self) -> (s: String)
        requires
            old(self).wf(),
            old(self).pos() < old(self).src().len(),
            is_letter_char(old(self).src()[old(self).pos()]),
        ensures
            final(self).wf(),
            final(self).src() == old(self).src(),
            final(self).pos() == letter_run_end(old(self).src(), old(self).pos()),
            s@ == old(self).src().subrange(old(self).pos(), final(self).pos()),
    {
        let ghost src = self.src();
        let ghost i0 = self.pos();
        let position = self.position;

        while self.at_letter()
            invariant
                self.wf(),
                self.src() == src,
                position == i0,
                0 <= i0 <= self.pos() <= src.len(),
                letter_run_end(src, self.pos()) == letter_run_end(src, i0),
            decreases src.len() - self.pos(),
        {
            self.read_char();
        }

        let piece = self.input.as_str().substring_char(position, self.position);
        piece.to_owned()
    }

    /// Consumes the maximal decimal-digit run the cursor stands on and
    /// returns it verbatim.
    fn read_number(&mut self) -> (s: String)
        requires
            old(self).wf(),
            old(self).pos() < old(self).src().len(),
            is_digit_char(old(self).src()[old(self).pos()]),
        ensures
            final(self).wf(),
            final(self).src() == old(self).src(),
            final(self).pos() == digit_run_end(old(self).src(), old(self).pos()),
            s@ == old(self).src().subrange(old(self).pos(), final(self).pos()),
    {
        let ghost src = self.src();
        let ghost i0 = self.pos();
        let position = self.position;

        while self.at_digit()
            invariant
                self.wf(),
                self.src() == src,
                position == i0,
                0 <= i0 <= self.pos() <= src.len(),
                digit_run_end(src, self.pos()) == digit_run_end(src, i0),
            decreases src.len() - self.pos(),
        {
            self.read_char();
        }

        let piece = self.input.as_str().substring_char(position, self.position);
        piece.to_owned()
    }

    /// Produces the next token: skips whitespace, classifies the current
    /// character, consumes exactly the characters of the token, and returns
    /// it. At end of input the cursor stays put and the end-of-input token
    /// is returned, on this and every later call.
    pub fn next_token(&mut self) -> (t: Token)
        requires
            old(self).wf(),
        ensures
            final(self).wf(),
            final(self).src() == old(self).src(),
            t@ == spec_next_token(old(self).src(), old(self).pos()).0,
            final(self).pos() == spec_next_token(old(self).src(), old(self).pos()).1,
    {
        self.skip_whitespace();

        match self.ch {
            Some(c) => {
                if c == '=' {
                    if self.peek_char() == Some('=') {
                        self.read_char();
                        self.read_char();
                        Token::Eq
                    } else {
                        self.read_char();
                        Token::Assign
                    }
                } else if c == '!' {
                    if self.peek_char() == Some('=') {
                        self.read_char();
                        self.read_char();
                        Token::NotEq
                    } else {
                        self.read_char();
                        Token::Bang
                    }
                } else if c == '+' {
                    self.read_char();
                    Token::Plus
                } else if c == '-' {
                    self.read_char();
                    Token::Minus
                } else if c == '/' {
                    self.read_char();
                    Token::Slash
                } else if c == '*' {
                    self.read_char();
                    Token::Asterisk
                } else if c == '<' {
                    self.read_char();
                    Token::Lt
                } else if c == '>' {
                    self.read_char();
                    Token::Gt
                } else if c == ';' {
                    self.read_char();
                    Token::Semicolon
                } else if c == ',' {
                    self.read_char();
                    Token::Comma
                } else if c == '(' {
                    self.read_char();
                    Token::LParen
                } else if c == ')' {
                    self.read_char();
                    Token::RParen
                } else if c == '{' {
                    self.read_char();
                    Token::LBrace
                } else if c == '}' {
                    self.read_char();
                    Token::RBrace
                } else if is_letter(c) {
                    let literal = self.read_identifier();
                    Token::lookup_ident(literal.as_str())
                } else if is_digit(c) {
                    Token::Int(self.read_number())
                } else {
                    self.read_char();
                    Token::Illegal
                }
            },
            None => Token::EOF,
        }
    }
}

/// The views of a sequence of tokens, in order.
pub open spec fn views_of(ts: Seq<Token>) -> Seq<TokenView> {
    ts.map_values(|t: Token| t@)
}

/// Scans `input` to exhaustion: every emitted token in order, up to and
/// including the first end-of-input marker. The loop provably terminates on
/// every input: each call before end-of-input strictly advances the cursor.
pub fn tokens(input: &str) -> (r: Vec<Token>)
    requires
        input@.len() < usize::MAX,
    ensures
        views_of(r@) == remaining_tokens(input@, 0),
{
    let ghost s = input@;
    let mut lx = Lexer::new(input);
    let mut out: Vec<Token> = Vec::new();
    loop
        invariant
            s == input@,
            lx.wf(),
            lx.src() == s,
            0 <= lx.pos() <= s.len(),
            views_of(out@) + remaining_tokens(s, lx.pos()) == remaining_tokens(s, 0),
        decreases s.len() - lx.pos(),
    {
        let ghost p0 = lx.pos();
        let ghost before = views_of(out@);
        proof {
            lemma_progress(s, p0);
        }
        let t = lx.next_token();
        let done = matches!(t, Token::EOF);
        out.push(t);
        proof {
            assert(views_of(out@) =~= before.push(t@));
            assert(before.push(t@) =~= before + seq![t@]);
        }
        if done {
            proof {
                assert(remaining_tokens(s, p0) == seq![t@]);
                assert(views_of(out@) == remaining_tokens(s, 0));
            }
            return out;
        }
        proof {
            assert(remaining_tokens(s, p0) == seq![t@] + remaining_tokens(s, lx.pos()));
            assert((before + seq![t@]) + remaining_tokens(s, lx.pos()) =~= before + (seq![t@]
                + remaining_tokens(s, lx.pos())));
        }
    }
}

/// Whitespace skipping lands on the first non-whitespace position: it never
/// passes one by, never stops on whitespace, and is a fixpoint.
pub proof fn lemma_skip_ws_props(s: Seq<char>, i: int)
    requires
        0 <= i <= s.len(),
    ensures
        ({
            let r = skip_ws_from(s, i);
            &&& i <= r <= s.len()
            &&& (r == s.len() || !is_ws_char(s[r]))
            &&& (forall|k: int| i <= k < r ==> is_ws_char(s[k]))
            &&& skip_ws_from(s, r) == r
        }),
    decreases s.len() - i,
{
    if i < s.len() && is_ws_char(s[i]) {
        lemma_skip_ws_props(s, i + 1);
    }
}

/// The letter-run end bounds the maximal run: everything before it (from the
/// start) is an identifier character, nothing at it is, and a run starting
/// on a letter is non-empty.
pub proof fn lemma_letter_run_props(s: Seq<char>, i: int)
    requires
        0 <= i <= s.len(),
    ensures
        ({
            let e = letter_run_end(s, i);
            &&& i <= e <= s.len()
            &&& (e == s.len() || !is_letter_char(s[e]))
            &&& (forall|k: int| i <= k < e ==> is_letter_char(s[k]))
            &&& ((i < s.len() && is_letter_char(s[i])) ==> i + 1 <= e)
        }),
    decreases s.len() - i,
{
    if i < s.len() && is_letter_char(s[i]) {
        lemma_letter_run_props(s, i + 1);
    }
}

/// The digit-run end bounds the maximal run: everything before it (from the
/// start) is a decimal digit, nothing at it is, and a run starting on a
/// digit is non-empty.
pub proof fn lemma_digit_run_props(s: Seq<char>, i: int)
    requires
        0 <= i <= s.len(),
    ensures
        ({
            let e = digit_run_end(s, i);
            &&& i <= e <= s.len()
            &&& (e == s.len() || !is_digit_char(s[e]))
            &&& (forall|k: int| i <= k < e ==> is_digit_char(s[k]))
            &&& ((i < s.len() && is_digit_char(s[i])) ==> i + 1 <= e)
        }),
    decreases s.len() - i,
{
    if i < s.len() && is_digit_char(s[i]) {
        lemma_digit_run_props(s, i + 1);
    }
}

/// Scanning makes progress: each step stays inside the source, advances the
/// cursor strictly unless it emits end-of-input, and emits end-of-input
/// exactly when only whitespace (or nothing) remains.
pub proof fn lemma_progress(s: Seq<char>, i: int)
    requires
        0 <= i <= s.len(),
    ensures
        ({
            let (t, p) = spec_next_token(s, i);
            &&& i <= p <= s.len()
            &&& (t != TokenView::EOF ==> i < p)
            &&& (t == TokenView::EOF <==> skip_ws_from(s, i) == s.len())
            &&& (t == TokenView::EOF ==> p == skip_ws_from(s, i))
        }),
{
    lemma_skip_ws_props(s, i);
    let j = skip_ws_from(s, i);
    if j < s.len() {
        lemma_letter_run_props(s, j);
        lemma_digit_run_props(s, j);
    }
}

/// The whole token stream the scanner will emit from position `i`: each
/// step's token, up to and including the first end-of-input.
pub open spec fn remaining_tokens(s: Seq<char>, i: int) -> Seq<TokenView>
    decreases s.len() - i when 0 <= i <= s.len() via remaining_tokens_decreases
{
    let (t, p) = spec_next_token(s, i);
    if t == TokenView::EOF {
        seq![t]
    } else {
        seq![t] + remaining_tokens(s, p)
    }
}

#[via_fn]
proof fn remaining_tokens_decreases(s: Seq<char>, i: int) {
    lemma_progress(s, i);
}

/// Scanning any source terminates: from every cursor position the emitted
/// stream is finite, ends in end-of-input, and holds end-of-input nowhere
/// earlier.
pub proof fn lemma_stream_ends_in_eof(s: Seq<char>, i: int)
    requires
        0 <= i <= s.len(),
    ensures
        ({
            let ts = remaining_tokens(s, i);
            &&& ts.len() >= 1
            &&& ts.last() == TokenView::EOF
            &&& (forall|k: int| 0 <= k < ts.len() - 1 ==> ts[k] != TokenView::EOF)
        }),
    decreases s.len() - i,
{
    lemma_progress(s, i);
    let (t, p) = spec_next_token(s, i);
    if t != TokenView::EOF {
        lemma_stream_ends_in_eof(s, p);
    }
}

/// End-of-input is a terminal state: once a step emits it, the cursor stays
/// put and every later step emits it again.
pub proof fn lemma_eof_stable(s: Seq<char>, i: int)
    requires
        0 <= i <= s.len(),
        spec_next_token(s, i).0 == TokenView::EOF,
    ensures
        spec_next_token(s, spec_next_token(s, i).1) == (TokenView::EOF, spec_next_token(s, i).1),
{
    lemma_progress(s, i);
}

/// Two-character operators are matched greedily: when `=` or `!` is followed
/// immediately by `=`, one two-character token is emitted and both
/// characters are consumed — never two one-character tokens.
pub proof fn lemma_greedy_two_char(s: Seq<char>, i: int)
    requires
        0 <= i <= s.len(),
        skip_ws_from(s, i) + 1 < s.len(),
        s[skip_ws_from(s, i) + 1] == '=',
    ensures
        s[skip_ws_from(s, i)] == '=' ==> spec_next_token(s, i) == (
            TokenView::Eq,
            skip_ws_from(s, i) + 2,
        ),
        s[skip_ws_from(s, i)] == '!' ==> spec_next_token(s, i) == (
            TokenView::NotEq,
            skip_ws_from(s, i) + 2,
        ),
{
    lemma_skip_ws_props(s, i);
}

/// A step that reaches a decimal digit emits one integer-literal token whose
/// payload is exactly the maximal digit run from there: all digits, ended
/// only by the source's end or a non-digit.
pub proof fn lemma_digit_run(s: Seq<char>, i: int)
    requires
        0 <= i <= s.len(),
        skip_ws_from(s, i) < s.len(),
        is_digit_char(s[skip_ws_from(s, i)]),
    ensures
        ({
            let j = skip_ws_from(s, i);
            let e = digit_run_end(s, j);
            &&& spec_next_token(s, i) == (TokenView::Int(s.subrange(j, e)), e)
            &&& j < e <= s.len()
            &&& (forall|k: int| j <= k < e ==> is_digit_char(s[k]))
            &&& (e == s.len() || !is_digit_char(s[e]))
        }),
{
    lemma_skip_ws_props(s, i);
    lemma_digit_run_props(s, skip_ws_from(s, i));
}

/// A step that reaches an identifier character consumes exactly the maximal
/// letter run from there and resolves it against the keyword table: the
/// keyword token when the run equals a reserved spelling, else an identifier
/// token carrying that exact text.
pub proof fn lemma_letter_run(s: Seq<char>, i: int)
    requires
        0 <= i <= s.len(),
        skip_ws_from(s, i) < s.len(),
        is_letter_char(s[skip_ws_from(s, i)]),
    ensures
        ({
            let j = skip_ws_from(s, i);
            let e = letter_run_end(s, j);
            let run = s.subrange(j, e);
            &&& spec_next_token(s, i) == (spec_lookup_ident(run), e)
            &&& j < e <= s.len()
            &&& (forall|k: int| j <= k < e ==> is_letter_char(s[k]))
            &&& (e == s.len() || !is_letter_char(s[e]))
            &&& (is_keyword(run) ==> spec_next_token(s, i).0 == keyword_token(run))
            &&& (!is_keyword(run) ==> spec_next_token(s, i).0 == TokenView::Ident(run))
        }),
{
    lemma_skip_ws_props(s, i);
    lemma_letter_run_props(s, skip_ws_from(s, i));
}

/// Whitespace between tokens is transparent: skipping it changes neither the
/// next emitted token nor anything after it, so it never affects the token
/// stream or its count.
pub proof fn lemma_ws_transparent(s: Seq<char>, i: int)
    requires
        0 <= i <= s.len(),
    ensures
        spec_next_token(s, skip_ws_from(s, i)) == spec_next_token(s, i),
        remaining_tokens(s, skip_ws_from(s, i)) == remaining_tokens(s, i),
{
    lemma_skip_ws_props(s, i);
}

/// Whitespace never appears inside an emitted token: identifier and
/// integer-literal payloads hold no whitespace character.
pub proof fn lemma_payload_free_of_ws(s: Seq<char>, i: int)
    requires
        0 <= i <= s.len(),
    ensures
        spec_next_token(s, i).0 matches TokenView::Ident(x) ==> forall|k: int|
            0 <= k < x.len() ==> !is_ws_char(#[trigger] x[k]),
        spec_next_token(s, i).0 matches TokenView::Int(x) ==> forall|k: int|
            0 <= k < x.len() ==> !is_ws_char(#[trigger] x[k]),
{
    lemma_skip_ws_props(s, i);
    let j = skip_ws_from(s, i);
    if j < s.len() {
        lemma_letter_run_props(s, j);
        lemma_digit_run_props(s, j);
    }
}

} // verus!
