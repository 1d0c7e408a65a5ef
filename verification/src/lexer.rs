//! The finite-automaton tokenizer.

use crate::token::SimpleToken;
use crate::token::SimpleTokenReader;
use crate::token::SpecToken;
use crate::token::TokenType;
use vstd::prelude::*;

verus! {

/// Whether `c` is an ASCII letter.
pub open spec fn spec_is_alpha(c: char) -> bool {
    (('a' as u32) <= (c as u32) && (c as u32) <= ('z' as u32)) || (('A' as u32) <= (c as u32) && (
    c as u32) <= ('Z' as u32))
}

/// Whether `c` is an ASCII digit.
pub open spec fn spec_is_digit(c: char) -> bool {
    ('0' as u32) <= (c as u32) && (c as u32) <= ('9' as u32)
}

/// Whether `c` is a whitespace delimiter (space, tab or newline).
pub open spec fn spec_is_blank(c: char) -> bool {
    c == ' ' || c == '\t' || c == '\n'
}

fn is_alpha(ch: char) -> (r: bool)
    ensures
        r == spec_is_alpha(ch),
{
    let u = ch as u32;
    (('a' as u32) <= u && u <= ('z' as u32)) || (('A' as u32) <= u && u <= ('Z' as u32))
}

fn is_digit(ch: char) -> (r: bool)
    ensures
        r == spec_is_digit(ch),
{
    let u = ch as u32;
    ('0' as u32) <= u && u <= ('9' as u32)
}

fn is_blank(ch: char) -> (r: bool)
    ensures
        r == spec_is_blank(ch),
{
    ch == ' ' || ch == '\t' || ch == '\n'
}

/// The automaton's recognition state.
#[derive(Debug, Clone, Copy, PartialEq, Eq, Structural)]
pub enum DFAState {
    Initial,
    If,
    IdIf1,
    IdIf2,
    Else,
    IdElse1,
    IdElse2,
    IdElse3,
    IdElse4,
    Int,
    IdInt1,
    IdInt2,
    IdInt3,
    Id,
    GT,
    GE,
    Assignment,
    Plus,
    Minus,
    Star,
    Slash,
    SemiColon,
    LeftParen,
    RightParen,
    IntLiteral,
}

/// Mathematical model of the lexer's scratch state: the staging buffer, the
/// provisional category of the token in progress, and the finished tokens.
#[verifier::ext_equal]
pub struct LexerModel {
    pub buf: Seq<char>,
    pub kind: TokenType,
    pub out: Seq<SpecToken>,
}

/// The scratch state of a freshly created lexer.
pub open spec fn spec_empty_lexer() -> LexerModel {
    LexerModel { buf: Seq::empty(), kind: TokenType::Identifier, out: Seq::empty() }
}

/// Whether the automaton opens a token on `c`; any other character is
/// silently skipped.
pub open spec fn spec_is_recognized(c: char) -> bool {
    spec_is_alpha(c) || spec_is_digit(c) || c == '>' || c == '+' || c == '-' || c == '*' || c == '/'
        || c == ';' || c == '(' || c == ')' || c == '='
}

/// The state the automaton enters when it classifies `c` from `Initial`.
pub open spec fn spec_classify_state(c: char) -> DFAState {
    if spec_is_alpha(c) {
        if c == 'i' {
            DFAState::IdInt1
        } else {
            DFAState::Id
        }
    } else if spec_is_digit(c) {
        DFAState::IntLiteral
    } else if c == '>' {
        DFAState::GT
    } else if c == '+' {
        DFAState::Plus
    } else if c == '-' {
        DFAState::Minus
    } else if c == '*' {
        DFAState::Star
    } else if c == '/' {
        DFAState::Slash
    } else if c == ';' {
        DFAState::SemiColon
    } else if c == '(' {
        DFAState::LeftParen
    } else if c == ')' {
        DFAState::RightParen
    } else if c == '=' {
        DFAState::Assignment
    } else {
        DFAState::Initial
    }
}

/// The provisional category of a token opened on `c`.
pub open spec fn spec_classify_kind(c: char) -> TokenType {
    if spec_is_alpha(c) {
        TokenType::Identifier
    } else if spec_is_digit(c) {
        TokenType::IntLiteral
    } else if c == '>' {
        TokenType::GT
    } else if c == '+' {
        TokenType::Plus
    } else if c == '-' {
        TokenType::Minus
    } else if c == '*' {
        TokenType::Star
    } else if c == '/' {
        TokenType::Slash
    } else if c == ';' {
        TokenType::SemiColon
    } else if c == '(' {
        TokenType::LeftParen
    } else if c == ')' {
        TokenType::RightParen
    } else if c == '=' {
        TokenType::Assignment
    } else {
        TokenType::Identifier
    }
}

/// Closes the token in progress, if any: its text is frozen with the current
/// provisional category and appended to the output.
pub open spec fn spec_flush(m: LexerModel) -> LexerModel {
    if m.buf.len() > 0 {
        LexerModel {
            buf: Seq::empty(),
            kind: TokenType::Identifier,
            out: m.out.push(SpecToken { kind: m.kind, text: m.buf }),
        }
    } else {
        m
    }
}

/// Closes the token in progress and re-examines `c` as from `Initial`: a
/// recognized character opens a new token, any other is skipped.
pub open spec fn spec_init_token(m: LexerModel, c: char) -> LexerModel {
    let f = spec_flush(m);
    if spec_is_recognized(c) {
        LexerModel { buf: f.buf.push(c), kind: spec_classify_kind(c), out: f.out }
    } else {
        f
    }
}

/// Extends the token in progress with `c`.
pub open spec fn spec_extend(m: LexerModel, c: char) -> LexerModel {
    LexerModel { buf: m.buf.push(c), kind: m.kind, out: m.out }
}

/// One automaton step on character `c`: the next state and scratch state.
pub open spec fn spec_step(st: DFAState, m: LexerModel, c: char) -> (DFAState, LexerModel) {
    match st {
        DFAState::Initial => (spec_classify_state(c), spec_init_token(m, c)),
        DFAState::Id => if spec_is_alpha(c) || spec_is_digit(c) {
            (DFAState::Id, spec_extend(m, c))
        } else {
            (spec_classify_state(c), spec_init_token(m, c))
        },
        DFAState::GT => if c == '=' {
            (DFAState::GE, LexerModel { buf: m.buf.push(c), kind: TokenType::GE, out: m.out })
        } else {
            (spec_classify_state(c), spec_init_token(m, c))
        },
        DFAState::GE => (spec_classify_state(c), spec_init_token(m, c)),
        DFAState::Assignment => (spec_classify_state(c), spec_init_token(m, c)),
        DFAState::Plus => (spec_classify_state(c), spec_init_token(m, c)),
        DFAState::Minus => (spec_classify_state(c), spec_init_token(m, c)),
        DFAState::Star => (spec_classify_state(c), spec_init_token(m, c)),
        DFAState::Slash => (spec_classify_state(c), spec_init_token(m, c)),
        DFAState::SemiColon => (spec_classify_state(c), spec_init_token(m, c)),
        DFAState::LeftParen => (spec_classify_state(c), spec_init_token(m, c)),
        DFAState::RightParen => (spec_classify_state(c), spec_init_token(m, c)),
        DFAState::IntLiteral => if spec_is_digit(c) {
            (DFAState::IntLiteral, spec_extend(m, c))
        } else {
            (spec_classify_state(c), spec_init_token(m, c))
        },
        DFAState::IdInt1 => if c == 'n' {
            (DFAState::IdInt2, spec_extend(m, c))
        } else if spec_is_digit(c) || spec_is_alpha(c) {
            (DFAState::Id, spec_extend(m, c))
        } else {
            (spec_classify_state(c), spec_init_token(m, c))
        },
        DFAState::IdInt2 => if c == 't' {
            (DFAState::IdInt3, spec_extend(m, c))
        } else if spec_is_digit(c) || spec_is_alpha(c) {
            (DFAState::Id, spec_extend(m, c))
        } else {
            (spec_classify_state(c), spec_init_token(m, c))
        },
        DFAState::IdInt3 => if spec_is_blank(c) {
            (
                spec_classify_state(c),
                spec_init_token(LexerModel { buf: m.buf, kind: TokenType::Int, out: m.out }, c),
            )
        } else if spec_is_digit(c) || spec_is_alpha(c) {
            (DFAState::Id, spec_extend(m, c))
        } else {
            (spec_classify_state(c), spec_init_token(m, c))
        },
        _ => (st, m),
    }
}

/// Runs the automaton over a whole character sequence.
pub open spec fn spec_run(st: DFAState, m: LexerModel, cs: Seq<char>) -> (DFAState, LexerModel)
    decreases cs.len(),
{
    if cs.len() == 0 {
        (st, m)
    } else {
        let p = spec_run(st, m, cs.drop_last());
        spec_step(p.0, p.1, cs.last())
    }
}

/// Force-closes a token still in progress at the end of the input by
/// synthesizing a trailing space.
pub open spec fn spec_finish(m: LexerModel) -> LexerModel {
    if m.buf.len() > 0 {
        spec_init_token(m, ' ')
    } else {
        m
    }
}

/// The lexer's scratch state after tokenizing `cs`, starting from scratch
/// state `m0` with an emptied output.
pub open spec fn spec_lexer_after(m0: LexerModel, cs: Seq<char>) -> LexerModel {
    spec_finish(spec_run(DFAState::Initial, LexerModel { buf: m0.buf, kind: m0.kind, out: Seq::empty() }, cs).1)
}

/// The tokens produced for `cs` by a lexer whose scratch state was `m0`.
pub open spec fn spec_tokens_from(m0: LexerModel, cs: Seq<char>) -> Seq<SpecToken> {
    spec_lexer_after(m0, cs).out
}

/// The tokens produced for `cs` by a fresh lexer.
pub open spec fn spec_tokenize(cs: Seq<char>) -> Seq<SpecToken> {
    spec_tokens_from(spec_empty_lexer(), cs)
}

/// Relies on String::push: appends the given character at the end of the
/// string.
#[verifier::external_body]
fn push_char(s: &mut String, c: char)
    ensures
        final(s)@ == old(s)@.push(c),
{
    s.push(c);
}

/// The character-by-character tokenizer.
pub struct SimpleLexer {
    token_text: String,
    tokens: Vec<SimpleToken>,
    token: SimpleToken,
}

impl View for SimpleLexer {
    type V = LexerModel;

    closed spec fn view(&self) -> LexerModel {
        LexerModel {
            buf: self.token_text@,
            kind: self.token.token_type,
            out: self.tokens.deep_view(),
        }
    }
}

impl SimpleLexer {
    pub fn new() -> (r: Self)
        ensures
            r@ == spec_empty_lexer(),
    {
        let r = SimpleLexer {
            token_text: String::new(),
            tokens: Vec::new(),
            token: SimpleToken::new(TokenType::Identifier, String::new()),
        };
        proof {
            assert(r@ =~= spec_empty_lexer());
        }
        r
    }

    /// Closes the token in progress, if any, and re-examines `c` as from the
    /// `Initial` state; returns the state the automaton enters.
    pub fn init_token(&mut self, c: char) -> (state: DFAState)
        ensures
            final(self)@ == spec_init_token(old(self)@, c),
            state == spec_classify_state(c),
    {
        if !self.token_text.as_str().is_empty() {
            self.token.text = self.token_text.clone();
            let finished = self.token.clone();
            self.tokens.push(finished);
            self.token_text = String::new();
            self.token = SimpleToken::new(TokenType::Identifier, String::new());
            proof {
                assert(self.tokens.deep_view() =~= spec_flush(old(self)@).out);
            }
        }
        let new_state: DFAState;
        if is_alpha(c) {
            if c == 'i' {
                new_state = DFAState::IdInt1;
            } else {
                new_state = DFAState::Id;
            }
            self.token.token_type = TokenType::Identifier;
            push_char(&mut self.token_text, c);
        } else if is_digit(c) {
            new_state = DFAState::IntLiteral;
            self.token.token_type = TokenType::IntLiteral;
            push_char(&mut self.token_text, c);
        } else if c == '>' {
            new_state = DFAState::GT;
            self.token.token_type = TokenType::GT;
            push_char(&mut self.token_text, c);
        } else if c == '+' {
            new_state = DFAState::Plus;
            self.token.token_type = TokenType::Plus;
            push_char(&mut self.token_text, c);
        } else if c == '-' {
            new_state = DFAState::Minus;
            self.token.token_type = TokenType::Minus;
            push_char(&mut self.token_text, c);
        } else if c == '*' {
            new_state = DFAState::Star;
            self.token.token_type = TokenType::Star;
            push_char(&mut self.token_text, c);
        } else if c == '/' {
            new_state = DFAState::Slash;
            self.token.token_type = TokenType::Slash;
            push_char(&mut self.token_text, c);
        } else if c == ';' {
            new_state = DFAState::SemiColon;
            self.token.token_type = TokenType::SemiColon;
            push_char(&mut self.token_text, c);
        } else if c == '(' {
            new_state = DFAState::LeftParen;
            self.token.token_type = TokenType::LeftParen;
            push_char(&mut self.token_text, c);
        } else if c == ')' {
            new_state = DFAState::RightParen;
            self.token.token_type = TokenType::RightParen;
            push_char(&mut self.token_text, c);
        } else if c == '=' {
            new_state = DFAState::Assignment;
            self.token.token_type = TokenType::Assignment;
            push_char(&mut self.token_text, c);
        } else {
            new_state = DFAState::Initial;
        }
        proof {
            assert(self@ =~= spec_init_token(old(self)@, c));
        }
        new_state
    }

    /// Scans `code` left to right, one character of lookahead per step, and
    /// returns a cursor over the produced tokens. A token still in progress
    /// when the lexer is called is glued to the front of the first token; a
    /// freshly created or previously drained lexer starts from scratch.
    pub fn tokenize(&mut self, code: String) -> (r: SimpleTokenReader)
        ensures
            r@.tokens == spec_tokens_from(old(self)@, code@),
            r@.pos == 0,
            final(self)@ == spec_lexer_after(old(self)@, code@),
            final(self)@.buf.len() == 0,
    {
        self.tokens = Vec::new();
        proof {
            assert(self@ =~= (LexerModel {
                buf: old(self)@.buf,
                kind: old(self)@.kind,
                out: Seq::empty(),
            }));
        }
        let ghost m0 = self@;
        let mut state = DFAState::Initial;
        let s = code.as_str();
        let n: usize = s.unicode_len();
        let mut i: usize = 0;
        while i < n
            invariant
                n == code@.len(),
                s@ == code@,
                i <= n,
                state == spec_run(DFAState::Initial, m0, code@.take(i as int)).0,
                self@ == spec_run(DFAState::Initial, m0, code@.take(i as int)).1,
            decreases n - i,
        {
            let ghost pre = self@;
            let ghost prest = state;
            let c = s.get_char(i);
            match state {
                DFAState::Initial => {
                    state = self.init_token(c);
                },
                DFAState::Id => {
                    if is_alpha(c) || is_digit(c) {
                        push_char(&mut self.token_text, c);
                    } else {
                        state = self.init_token(c);
                    }
                },
                DFAState::GT => {
                    if c == '=' {
                        self.token.token_type = TokenType::GE;
                        state = DFAState::GE;
                        push_char(&mut self.token_text, c);
                    } else {
                        state = self.init_token(c);
                    }
                },
                DFAState::GE
                | DFAState::Assignment
                | DFAState::Plus
                | DFAState::Minus
                | DFAState::Star
                | DFAState::Slash
                | DFAState::SemiColon
                | DFAState::LeftParen
                | DFAState::RightParen => {
                    state = self.init_token(c);
                },
                DFAState::IntLiteral => {
                    if is_digit(c) {
                        push_char(&mut self.token_text, c);
                    } else {
                        state = self.init_token(c);
                    }
                },
                DFAState::IdInt1 => {
                    if c == 'n' {
                        state = DFAState::IdInt2;
                        push_char(&mut self.token_text, c);
                    } else if is_digit(c) || is_alpha(c) {
                        state = DFAState::Id;
                        push_char(&mut self.token_text, c);
                    } else {
                        state = self.init_token(c);
                    }
                },
                DFAState::IdInt2 => {
                    if c == 't' {
                        state = DFAState::IdInt3;
                        push_char(&mut self.token_text, c);
                    } else if is_digit(c) || is_alpha(c) {
                        state = DFAState::Id;
                        push_char(&mut self.token_text, c);
                    } else {
                        state = self.init_token(c);
                    }
                },
                DFAState::IdInt3 => {
                    if is_blank(c) {
                        self.token.token_type = TokenType::Int;
                        state = self.init_token(c);
                    } else if is_digit(c) || is_alpha(c) {
                        state = DFAState::Id;
                        push_char(&mut self.token_text, c);
                    } else {
                        state = self.init_token(c);
                    }
                },
                _ => {},
            };
            proof {
                assert(code@.take(i + 1).drop_last() =~= code@.take(i as int));
                assert(code@.take(i + 1).last() == code@[i as int]);
                assert(state == spec_step(prest, pre, c).0);
                assert(self@ =~= spec_step(prest, pre, c).1);
            }
            i = i + 1;
        }
        proof {
            assert(code@.take(n as int) =~= code@);
        }
        if !self.token_text.as_str().is_empty() {
            self.init_token(' ');
        }
        SimpleTokenReader::new(&self.tokens)
    }
}

/// Every token in `toks` has non-empty text.
pub open spec fn all_tokens_nonempty(toks: Seq<SpecToken>) -> bool {
    forall|i: int| 0 <= i < toks.len() ==> (#[trigger] toks[i]).text.len() > 0
}

proof fn lemma_init_token_nonempty(m: LexerModel, c: char)
    requires
        all_tokens_nonempty(m.out),
    ensures
        all_tokens_nonempty(spec_init_token(m, c).out),
{
    let f = spec_flush(m);
    assert forall|i: int| 0 <= i < f.out.len() implies (#[trigger] f.out[i]).text.len() > 0 by {
        if i < m.out.len() {
            assert(m.out[i].text.len() > 0);
        }
    }
}

proof fn lemma_step_nonempty(st: DFAState, m: LexerModel, c: char)
    requires
        all_tokens_nonempty(m.out),
    ensures
        all_tokens_nonempty(spec_step(st, m, c).1.out),
{
    lemma_init_token_nonempty(m, c);
    lemma_init_token_nonempty(LexerModel { buf: m.buf, kind: TokenType::Int, out: m.out }, c);
}

proof fn lemma_run_nonempty(st: DFAState, m: LexerModel, cs: Seq<char>)
    requires
        all_tokens_nonempty(m.out),
    ensures
        all_tokens_nonempty(spec_run(st, m, cs).1.out),
    decreases cs.len(),
{
    if cs.len() > 0 {
        lemma_run_nonempty(st, m, cs.drop_last());
        let p = spec_run(st, m, cs.drop_last());
        lemma_step_nonempty(p.0, p.1, cs.last());
    }
}

/// Law: tokenization is a total function of the input, and every token it
/// produces has non-empty text, whatever scratch state the lexer starts from.
pub proof fn lemma_tokens_nonempty(m0: LexerModel, cs: Seq<char>)
    ensures
        all_tokens_nonempty(spec_tokens_from(m0, cs)),
{
    let reset = LexerModel { buf: m0.buf, kind: m0.kind, out: Seq::empty() };
    lemma_run_nonempty(DFAState::Initial, reset, cs);
    let p = spec_run(DFAState::Initial, reset, cs).1;
    lemma_init_token_nonempty(p, ' ');
}

/// The concatenation of the texts of `toks`, in order.
pub open spec fn concat_texts(toks: Seq<SpecToken>) -> Seq<char>
    decreases toks.len(),
{
    if toks.len() == 0 {
        Seq::empty()
    } else {
        concat_texts(toks.drop_last()) + toks.last().text
    }
}

/// The characters of `cs` that the automaton recognizes; all others are
/// silently skipped.
pub open spec fn kept_chars(cs: Seq<char>) -> Seq<char> {
    cs.filter(|c: char| spec_is_recognized(c))
}

proof fn lemma_concat_snoc(toks: Seq<SpecToken>, t: SpecToken)
    ensures
        concat_texts(toks.push(t)) == concat_texts(toks) + t.text,
{
    assert(toks.push(t).drop_last() =~= toks);
    assert(toks.push(t).last() == t);
}

proof fn lemma_init_token_concat(m: LexerModel, c: char)
    ensures
        concat_texts(spec_init_token(m, c).out) + spec_init_token(m, c).buf == concat_texts(m.out)
            + m.buf + (if spec_is_recognized(c) {
            seq![c]
        } else {
            Seq::<char>::empty()
        }),
{
    let f = spec_flush(m);
    if m.buf.len() > 0 {
        lemma_concat_snoc(m.out, SpecToken { kind: m.kind, text: m.buf });
    }
    assert(concat_texts(f.out) + f.buf =~= concat_texts(m.out) + m.buf);
    if spec_is_recognized(c) {
        assert(f.buf.push(c) =~= f.buf + seq![c]);
        assert(concat_texts(f.out) + (f.buf + seq![c]) =~= concat_texts(f.out) + f.buf + seq![c]);
    } else {
        assert(concat_texts(m.out) + m.buf + Seq::<char>::empty() =~= concat_texts(m.out) + m.buf);
    }
}

/// The automaton states that the scan can actually reach.
pub open spec fn live_state(st: DFAState) -> bool {
    match st {
        DFAState::If => false,
        DFAState::IdIf1 => false,
        DFAState::IdIf2 => false,
        DFAState::Else => false,
        DFAState::IdElse1 => false,
        DFAState::IdElse2 => false,
        DFAState::IdElse3 => false,
        DFAState::IdElse4 => false,
        DFAState::Int => false,
        _ => true,
    }
}

proof fn lemma_step_concat(st: DFAState, m: LexerModel, c: char)
    requires
        live_state(st),
    ensures
        live_state(spec_step(st, m, c).0),
        concat_texts(spec_step(st, m, c).1.out) + spec_step(st, m, c).1.buf == concat_texts(m.out)
            + m.buf + (if spec_is_recognized(c) {
            seq![c]
        } else {
            Seq::<char>::empty()
        }),
{
    lemma_init_token_concat(m, c);
    lemma_init_token_concat(LexerModel { buf: m.buf, kind: TokenType::Int, out: m.out }, c);
    assert(m.buf.push(c) =~= m.buf + seq![c]);
    assert(concat_texts(m.out) + (m.buf + seq![c]) =~= concat_texts(m.out) + m.buf + seq![c]);
}

proof fn lemma_run_concat(st: DFAState, m: LexerModel, cs: Seq<char>)
    requires
        live_state(st),
    ensures
        live_state(spec_run(st, m, cs).0),
        concat_texts(spec_run(st, m, cs).1.out) + spec_run(st, m, cs).1.buf == concat_texts(m.out)
            + m.buf + kept_chars(cs),
    decreases cs.len(),
{
    reveal(Seq::filter);
    let a = concat_texts(m.out) + m.buf;
    if cs.len() == 0 {
        assert(kept_chars(cs) =~= Seq::<char>::empty());
        assert(a + kept_chars(cs) =~= a);
    } else {
        lemma_run_concat(st, m, cs.drop_last());
        let p = spec_run(st, m, cs.drop_last());
        lemma_step_concat(p.0, p.1, cs.last());
        let k = kept_chars(cs.drop_last());
        if spec_is_recognized(cs.last()) {
            assert(kept_chars(cs) == k.push(cs.last()));
            assert(k.push(cs.last()) =~= k + seq![cs.last()]);
            assert(a + k + seq![cs.last()] =~= a + (k + seq![cs.last()]));
        } else {
            assert(kept_chars(cs) == k);
            assert(a + k + Seq::<char>::empty() =~= a + k);
        }
    }
}

/// Law: concatenating the texts of all produced tokens, in order, reproduces
/// the characters still in the staging buffer when the scan began, then the
/// input with exactly the silently skipped characters removed.
pub proof fn lemma_round_trip(m0: LexerModel, cs: Seq<char>)
    ensures
        concat_texts(spec_tokens_from(m0, cs)) == m0.buf + kept_chars(cs),
{
    let reset = LexerModel { buf: m0.buf, kind: m0.kind, out: Seq::empty() };
    lemma_run_concat(DFAState::Initial, reset, cs);
    let p = spec_run(DFAState::Initial, reset, cs).1;
    assert(concat_texts(Seq::<SpecToken>::empty()) + m0.buf =~= m0.buf);
    if p.buf.len() > 0 {
        lemma_init_token_concat(p, ' ');
        let fin = spec_init_token(p, ' ');
        assert(concat_texts(p.out) + p.buf + Seq::<char>::empty() =~= concat_texts(p.out) + p.buf);
        assert(concat_texts(fin.out) + Seq::<char>::empty() =~= concat_texts(fin.out));
    } else {
        assert(concat_texts(p.out) + p.buf =~= concat_texts(p.out));
    }
}

/// Law: for a fresh lexer, the concatenated token texts are exactly the
/// recognized characters of the input, in order.
pub proof fn lemma_tokenize_round_trip(cs: Seq<char>)
    ensures
        concat_texts(spec_tokenize(cs)) == kept_chars(cs),
{
    lemma_round_trip(spec_empty_lexer(), cs);
    assert(Seq::<char>::empty() + kept_chars(cs) =~= kept_chars(cs));
}

proof fn lemma_step_reset(st: DFAState, m: LexerModel, c: char)
    requires
        m.buf.len() == 0 ==> m.kind == TokenType::Identifier && st == DFAState::Initial,
    ensures
        spec_step(st, m, c).1.buf.len() == 0 ==> spec_step(st, m, c).1.kind
            == TokenType::Identifier && spec_step(st, m, c).0 == DFAState::Initial,
{
}

proof fn lemma_run_reset(st: DFAState, m: LexerModel, cs: Seq<char>)
    requires
        m.buf.len() == 0 ==> m.kind == TokenType::Identifier && st == DFAState::Initial,
    ensures
        spec_run(st, m, cs).1.buf.len() == 0 ==> spec_run(st, m, cs).1.kind
            == TokenType::Identifier && spec_run(st, m, cs).0 == DFAState::Initial,
    decreases cs.len(),
{
    if cs.len() > 0 {
        lemma_run_reset(st, m, cs.drop_last());
        let p = spec_run(st, m, cs.drop_last());
        lemma_step_reset(p.0, p.1, cs.last());
    }
}

/// Law: a lexer whose scratch state is clean (empty staging buffer, the
/// provisional category at its reset value) produces exactly the tokens a
/// fresh lexer would, and is left clean again: one instance may be reused
/// across calls.
pub proof fn lemma_tokenize_reusable(m0: LexerModel, cs: Seq<char>)
    requires
        m0.buf.len() == 0,
        m0.kind == TokenType::Identifier,
    ensures
        spec_tokens_from(m0, cs) == spec_tokenize(cs),
        spec_lexer_after(m0, cs).buf.len() == 0,
        spec_lexer_after(m0, cs).kind == TokenType::Identifier,
{
    let reset = LexerModel { buf: m0.buf, kind: m0.kind, out: Seq::empty() };
    assert(reset =~= (LexerModel {
        buf: spec_empty_lexer().buf,
        kind: spec_empty_lexer().kind,
        out: Seq::empty(),
    }));
    lemma_run_reset(DFAState::Initial, reset, cs);
}

} // verus!
