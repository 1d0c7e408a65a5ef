//! Token taxonomy, the token record, and a cursor over a token sequence.

use vstd::prelude::*;
use vstd::string::StringExecFns;

verus! {

/// Lexical category of a token.
#[derive(Debug, Clone, Copy, PartialEq, Eq, Structural)]
pub enum TokenType {
    Plus,
    Minus,
    Star,
    Slash,
    GE,
    GT,
    EQ,
    LE,
    LT,
    SemiColon,
    LeftParen,
    RightParen,
    Assignment,
    If,
    Else,
    Int,
    Identifier,
    IntLiteral,
    StringLiteral,
}

impl TokenType {
    /// The exact category name, as rendered in a dump.
    pub open spec fn spec_name(self) -> Seq<char> {
        match self {
            TokenType::Plus => "Plus"@,
            TokenType::Minus => "Minus"@,
            TokenType::Star => "Star"@,
            TokenType::Slash => "Slash"@,
            TokenType::GE => "GE"@,
            TokenType::GT => "GT"@,
            TokenType::EQ => "EQ"@,
            TokenType::LE => "LE"@,
            TokenType::LT => "LT"@,
            TokenType::SemiColon => "SemiColon"@,
            TokenType::LeftParen => "LeftParen"@,
            TokenType::RightParen => "RightParen"@,
            TokenType::Assignment => "Assignment"@,
            TokenType::If => "If"@,
            TokenType::Else => "Else"@,
            TokenType::Int => "Int"@,
            TokenType::Identifier => "Identifier"@,
            TokenType::IntLiteral => "IntLiteral"@,
            TokenType::StringLiteral => "StringLiteral"@,
        }
    }

    /// Renders the category name.
    pub fn name(&self) -> (r: String)
        ensures
            r@ == self.spec_name(),
    {
        match self {
            TokenType::Plus => String::from_str("Plus"),
            TokenType::Minus => String::from_str("Minus"),
            TokenType::Star => String::from_str("Star"),
            TokenType::Slash => String::from_str("Slash"),
            TokenType::GE => String::from_str("GE"),
            TokenType::GT => String::from_str("GT"),
            TokenType::EQ => String::from_str("EQ"),
            TokenType::LE => String::from_str("LE"),
            TokenType::LT => String::from_str("LT"),
            TokenType::SemiColon => String::from_str("SemiColon"),
            TokenType::LeftParen => String::from_str("LeftParen"),
            TokenType::RightParen => String::from_str("RightParen"),
            TokenType::Assignment => String::from_str("Assignment"),
            TokenType::If => String::from_str("If"),
            TokenType::Else => String::from_str("Else"),
            TokenType::Int => String::from_str("Int"),
            TokenType::Identifier => String::from_str("Identifier"),
            TokenType::IntLiteral => String::from_str("IntLiteral"),
            TokenType::StringLiteral => String::from_str("StringLiteral"),
        }
    }
}

/// Mathematical model of a token: a category together with the characters of
/// its text.
#[verifier::ext_equal]
pub struct SpecToken {
    pub kind: TokenType,
    pub text: Seq<char>,
}

/// A classified fragment of source text.
pub struct SimpleToken {
    pub token_type: TokenType,
    pub text: String,
}

impl View for SimpleToken {
    type V = SpecToken;

    open spec fn view(&self) -> SpecToken {
        SpecToken { kind: self.token_type, text: self.text@ }
    }
}

impl DeepView for SimpleToken {
    type V = SpecToken;

    open spec fn deep_view(&self) -> SpecToken {
        self.view()
    }
}

impl Clone for SimpleToken {
    fn clone(&self) -> (r: Self)
        ensures
            r@ == self@,
    {
        SimpleToken { token_type: self.token_type, text: self.text.clone() }
    }
}

impl SimpleToken {
    pub fn new(t: TokenType, text: String) -> (r: Self)
        ensures
            r@ == (SpecToken { kind: t, text: text@ }),
    {
        SimpleToken { token_type: t, text }
    }

    pub fn get_type(&self) -> (r: &TokenType)
        ensures
            *r == self@.kind,
    {
        &self.token_type
    }

    pub fn get_text(&self) -> (r: &String)
        ensures
            r@ == self@.text,
    {
        &self.text
    }
}

/// Mathematical model of a token stream: the token sequence and the cursor.
#[verifier::ext_equal]
pub struct ReaderModel {
    pub tokens: Seq<SpecToken>,
    pub pos: nat,
}

/// The cursor position after a `read` on a stream of length `len`.
pub open spec fn spec_read_pos(pos: nat, len: nat) -> nat {
    if pos < len {
        pos + 1
    } else {
        pos
    }
}

/// The cursor position after an `unread`.
pub open spec fn spec_unread_pos(pos: nat) -> nat {
    if pos > 0 {
        (pos - 1) as nat
    } else {
        0
    }
}

/// The token observed at `pos`, if any.
pub open spec fn spec_peek(tokens: Seq<SpecToken>, pos: nat) -> Option<SpecToken> {
    if pos < tokens.len() {
        Some(tokens[pos as int])
    } else {
        None
    }
}

/// One rendered dump line: the token's text and its category name.
pub open spec fn spec_line(t: SpecToken) -> Seq<char> {
    t.text + "\t\t"@ + t.kind.spec_name() + "\n"@
}

/// The dump lines for the tokens from index `pos` to the end.
pub open spec fn spec_dump_lines(tokens: Seq<SpecToken>, pos: int) -> Seq<char>
    decreases tokens.len() - pos,
{
    if pos < 0 || pos >= tokens.len() {
        Seq::empty()
    } else {
        spec_line(tokens[pos]) + spec_dump_lines(tokens, pos + 1)
    }
}

/// The full dump output: a header line, then one line per remaining token.
pub open spec fn spec_dump(tokens: Seq<SpecToken>, pos: nat) -> Seq<char> {
    "text\t\ttype\n"@ + spec_dump_lines(tokens, pos as int)
}

/// A cursor over a finished, immutable token sequence.
pub struct SimpleTokenReader {
    tokens: Vec<SimpleToken>,
    pos: usize,
}

impl View for SimpleTokenReader {
    type V = ReaderModel;

    closed spec fn view(&self) -> ReaderModel {
        ReaderModel { tokens: self.tokens.deep_view(), pos: self.pos as nat }
    }
}

impl SimpleTokenReader {
    #[verifier::type_invariant]
    spec fn cursor_in_bounds(self) -> bool {
        self.pos <= self.tokens.len()
    }

    /// Wraps a copy of the given token sequence, with the cursor at the start.
    pub fn new(tokens: &Vec<SimpleToken>) -> (r: Self)
        ensures
            r@.tokens == tokens.deep_view(),
            r@.pos == 0,
    {
        let mut owned: Vec<SimpleToken> = Vec::new();
        let mut i: usize = 0;
        while i < tokens.len()
            invariant
                i <= tokens.len(),
                owned@.len() == i,
                forall|j: int| 0 <= j < i ==> (#[trigger] owned@[j])@ == tokens@[j]@,
            decreases tokens.len() - i,
        {
            owned.push(tokens[i].clone());
            i = i + 1;
        }
        proof {
            assert forall|j: int| 0 <= j < tokens@.len() implies owned.deep_view()[j]
                == tokens.deep_view()[j] by {
                assert(owned@[j]@ == tokens@[j]@);
            }
            assert(owned.deep_view() =~= tokens.deep_view());
        }
        SimpleTokenReader { tokens: owned, pos: 0 }
    }

    /// Returns the token at the cursor and advances the cursor; at the end of
    /// the stream it returns nothing and leaves the cursor unchanged.
    pub fn read(&mut self) -> (r: Option<SimpleToken>)
        ensures
            final(self)@.tokens == old(self)@.tokens,
            final(self)@.pos == spec_read_pos(old(self)@.pos, old(self)@.tokens.len()),
            final(self)@.pos <= final(self)@.tokens.len(),
            match r {
                Some(t) => spec_peek(old(self)@.tokens, old(self)@.pos) == Some(t@),
                None => spec_peek(old(self)@.tokens, old(self)@.pos) is None,
            },
    {
        proof {
            use_type_invariant(&*self);
        }
        if self.pos < self.tokens.len() {
            let t = self.tokens[self.pos].clone();
            self.pos = self.pos + 1;
            Some(t)
        } else {
            None
        }
    }

    /// Returns the token at the cursor without advancing; nothing at the end
    /// of the stream.
    pub fn peek(&self) -> (r: Option<SimpleToken>)
        ensures
            match r {
                Some(t) => spec_peek(self@.tokens, self@.pos) == Some(t@),
                None => spec_peek(self@.tokens, self@.pos) is None,
            },
    {
        proof {
            use_type_invariant(self);
        }
        if self.pos < self.tokens.len() {
            Some(self.tokens[self.pos].clone())
        } else {
            None
        }
    }

    /// Moves the cursor back by one, saturating at the start of the stream.
    pub fn unread(&mut self)
        ensures
            final(self)@.tokens == old(self)@.tokens,
            final(self)@.pos == spec_unread_pos(old(self)@.pos),
            final(self)@.pos <= final(self)@.tokens.len(),
    {
        proof {
            use_type_invariant(&*self);
        }
        if self.pos > 0 {
            self.pos = self.pos - 1;
        }
    }

    /// The current cursor position.
    pub fn get_position(&self) -> (r: usize)
        ensures
            r == self@.pos,
            r <= self@.tokens.len(),
    {
        proof {
            use_type_invariant(self);
        }
        self.pos
    }

    /// Restores the cursor to `position`; a position not strictly inside the
    /// sequence leaves the cursor unchanged.
    pub fn set_position(&mut self, position: usize)
        ensures
            final(self)@.tokens == old(self)@.tokens,
            final(self)@.pos == if position < old(self)@.tokens.len() {
                position as nat
            } else {
                old(self)@.pos
            },
            final(self)@.pos <= final(self)@.tokens.len(),
    {
        proof {
            use_type_invariant(&*self);
        }
        if position < self.tokens.len() {
            self.pos = position;
        }
    }

    /// Renders the header line and every token from the cursor to the end,
    /// draining the stream: the cursor ends at the length.
    pub fn dump(&mut self) -> (r: String)
        ensures
            final(self)@.tokens == old(self)@.tokens,
            final(self)@.pos == old(self)@.tokens.len(),
            r@ == spec_dump(old(self)@.tokens, old(self)@.pos),
    {
        proof {
            use_type_invariant(&*self);
        }
        let mut out = String::from_str("text\t\ttype\n");
        while self.pos < self.tokens.len()
            invariant
                self@.tokens == old(self)@.tokens,
                self.pos <= self.tokens.len(),
                old(self)@.pos <= self@.pos,
                spec_dump(old(self)@.tokens, old(self)@.pos) == out@ + spec_dump_lines(
                    self@.tokens,
                    self@.pos as int,
                ),
            decreases self.tokens.len() - self.pos,
        {
            let ghost pre = out@;
            let t = &self.tokens[self.pos];
            out.append(t.text.as_str());
            out.append("\t\t");
            let n = t.token_type.name();
            out.append(n.as_str());
            out.append("\n");
            proof {
                assert(out@ =~= pre + spec_line(self@.tokens[self.pos as int]));
                assert(pre + spec_line(self@.tokens[self.pos as int]) + spec_dump_lines(
                    self@.tokens,
                    self.pos + 1,
                ) =~= pre + spec_dump_lines(self@.tokens, self.pos as int));
            }
            self.pos = self.pos + 1;
        }
        proof {
            assert(out@ + spec_dump_lines(self@.tokens, self@.pos as int) =~= out@);
        }
        out
    }
}

/// Law: from any in-bounds cursor position, neither a `read` nor an `unread`
/// moves the cursor outside `[0, len]`.
pub proof fn lemma_cursor_stays_in_bounds(pos: nat, len: nat)
    requires
        pos <= len,
    ensures
        spec_read_pos(pos, len) <= len,
        spec_unread_pos(pos) <= len,
{
}

/// Law: a `read` that returned a token, followed immediately by an `unread`,
/// restores the cursor position, and with it the next `peek` result.
pub proof fn lemma_read_unread_restores(tokens: Seq<SpecToken>, pos: nat)
    requires
        pos < tokens.len(),
    ensures
        spec_unread_pos(spec_read_pos(pos, tokens.len())) == pos,
        spec_peek(tokens, spec_unread_pos(spec_read_pos(pos, tokens.len()))) == spec_peek(
            tokens,
            pos,
        ),
{
}

} // verus!
