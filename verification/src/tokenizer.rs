//! Tokenizer for the Brainfuck language.
//!
//! A source text is a sequence of bytes. Eight of them are opcodes; every
//! other byte is commentary, and a newline additionally starts a new line.
//! Each token remembers the line and column of the byte it was read from,
//! both counted from 1.

use vstd::prelude::*;
use vstd::std_specs::convert::FromSpecImpl;
use vstd::std_specs::convert::TryFromSpecImpl;

verus! {

/// Byte of the increment opcode.
pub const INCREMENT_TOKEN: u8 = '+' as u8;
/// Byte of the decrement opcode.
pub const DECREMENT_TOKEN: u8 = '-' as u8;
/// Byte of the opcode that moves the data cursor forward.
pub const NEXT_TOKEN: u8 = '>' as u8;
/// Byte of the opcode that moves the data cursor backward.
pub const PREVIOUS_TOKEN: u8 = '<' as u8;
/// Byte of the opcode that opens a loop.
pub const START_LOOP_TOKEN: u8 = '[' as u8;
/// Byte of the opcode that closes a loop.
pub const END_LOOP_TOKEN: u8 = ']' as u8;
/// Byte of the output opcode.
pub const OUTPUT_TOKEN: u8 = '.' as u8;
/// Byte of the input opcode.
pub const INPUT_TOKEN: u8 = ',' as u8;
/// Byte that ends a source line.
pub const NEW_LINE_TOKEN: u8 = '\n' as u8;

/// Represents a token from the Brainfuck language.
#[derive(PartialEq, Eq, Debug, Copy, Clone, Structural)]
pub enum CodeToken {
    /// Increment operation token (+).
    Increment,
    /// Decrement operation token (-).
    Decrement,
    /// Next operation token (>).
    Next,
    /// Previous operation token (<).
    Previous,
    /// Start loop operation token ([).
    StartLoop,
    /// End loop operation token (]).
    EndLoop,
    /// Read from input operation token (,).
    Input,
    /// Write to output operation token (.).
    Output,
}

/// Represents a token with its position from source code.
#[derive(Debug, Copy, Clone)]
pub struct CodeDebugToken {
    /// Token
    pub token: CodeToken,
    /// Line where the token is located in source
    pub line: usize,
    /// Column where the token is located in source
    pub column: usize,
}

impl CodeToken {
    /// The source byte that stands for this token.
    pub open spec fn spec_byte(self) -> u8 {
        match self {
            CodeToken::Increment => INCREMENT_TOKEN,
            CodeToken::Decrement => DECREMENT_TOKEN,
            CodeToken::Next => NEXT_TOKEN,
            CodeToken::Previous => PREVIOUS_TOKEN,
            CodeToken::StartLoop => START_LOOP_TOKEN,
            CodeToken::EndLoop => END_LOOP_TOKEN,
            CodeToken::Input => INPUT_TOKEN,
            CodeToken::Output => OUTPUT_TOKEN,
        }
    }

    /// The token that a source byte stands for, if it is an opcode. Defined
    /// from `spec_byte`, so the two mappings cannot drift apart.
    pub open spec fn spec_from_byte(byte: u8) -> Option<CodeToken> {
        if byte == CodeToken::Increment.spec_byte() {
            Some(CodeToken::Increment)
        } else if byte == CodeToken::Decrement.spec_byte() {
            Some(CodeToken::Decrement)
        } else if byte == CodeToken::Next.spec_byte() {
            Some(CodeToken::Next)
        } else if byte == CodeToken::Previous.spec_byte() {
            Some(CodeToken::Previous)
        } else if byte == CodeToken::StartLoop.spec_byte() {
            Some(CodeToken::StartLoop)
        } else if byte == CodeToken::EndLoop.spec_byte() {
            Some(CodeToken::EndLoop)
        } else if byte == CodeToken::Input.spec_byte() {
            Some(CodeToken::Input)
        } else if byte == CodeToken::Output.spec_byte() {
            Some(CodeToken::Output)
        } else {
            None
        }
    }

    /// The token as source text: its one character.
    pub open spec fn symbol(self) -> Seq<char> {
        seq![self.spec_byte() as char]
    }

    /// Returns the token as source text.
    pub fn as_str(self) -> (text: &'static str)
        ensures
            text@ == self.symbol(),
    {
        proof {
            reveal_strlit("+");
            reveal_strlit("-");
            reveal_strlit(">");
            reveal_strlit("<");
            reveal_strlit("[");
            reveal_strlit("]");
            reveal_strlit(",");
            reveal_strlit(".");
        }
        let text = match self {
            CodeToken::Increment => "+",
            CodeToken::Decrement => "-",
            CodeToken::Next => ">",
            CodeToken::Previous => "<",
            CodeToken::StartLoop => "[",
            CodeToken::EndLoop => "]",
            CodeToken::Input => ",",
            CodeToken::Output => ".",
        };
        assert(text@ =~= self.symbol());
        text
    }

    /// Returns the token as source text, in a string of its own.
    pub fn to_string(&self) -> (text: String)
        ensures
            text@ == self.symbol(),
    {
        String::from_str(self.as_str())
    }

    /// Returns the source byte of the token.
    pub fn byte(self) -> (byte: u8)
        ensures
            byte == self.spec_byte(),
    {
        match self {
            CodeToken::Increment => INCREMENT_TOKEN,
            CodeToken::Decrement => DECREMENT_TOKEN,
            CodeToken::Next => NEXT_TOKEN,
            CodeToken::Previous => PREVIOUS_TOKEN,
            CodeToken::StartLoop => START_LOOP_TOKEN,
            CodeToken::EndLoop => END_LOOP_TOKEN,
            CodeToken::Input => INPUT_TOKEN,
            CodeToken::Output => OUTPUT_TOKEN,
        }
    }

    /// Returns the token of an opcode byte, and `None` for any other byte.
    pub fn from_byte(byte: u8) -> (token: Option<CodeToken>)
        ensures
            token == CodeToken::spec_from_byte(byte),
    {
        if byte == INCREMENT_TOKEN {
            Some(CodeToken::Increment)
        } else if byte == DECREMENT_TOKEN {
            Some(CodeToken::Decrement)
        } else if byte == NEXT_TOKEN {
            Some(CodeToken::Next)
        } else if byte == PREVIOUS_TOKEN {
            Some(CodeToken::Previous)
        } else if byte == START_LOOP_TOKEN {
            Some(CodeToken::StartLoop)
        } else if byte == END_LOOP_TOKEN {
            Some(CodeToken::EndLoop)
        } else if byte == INPUT_TOKEN {
            Some(CodeToken::Input)
        } else if byte == OUTPUT_TOKEN {
            Some(CodeToken::Output)
        } else {
            None
        }
    }
}

impl TryFrom<u8> for CodeToken {
    type Error = ();

    fn try_from(value: u8) -> (result: Result<Self, Self::Error>) {
        match CodeToken::from_byte(value) {
            Some(token) => Ok(token),
            None => Err(()),
        }
    }
}

impl TryFromSpecImpl<u8> for CodeToken {
    open spec fn obeys_try_from_spec() -> bool {
        true
    }

    open spec fn try_from_spec(value: u8) -> Result<Self, Self::Error> {
        match CodeToken::spec_from_byte(value) {
            Some(token) => Ok(token),
            None => Err(()),
        }
    }
}

impl From<CodeToken> for u8 {
    fn from(value: CodeToken) -> (byte: Self) {
        value.byte()
    }
}

impl FromSpecImpl<CodeToken> for u8 {
    open spec fn obeys_from_spec() -> bool {
        true
    }

    open spec fn from_spec(value: CodeToken) -> Self {
        value.spec_byte()
    }
}

/// The two mappings between tokens and bytes are exact inverses: a token's
/// byte decodes to that token, and a byte that decodes to a token is that
/// token's byte.
pub proof fn lemma_token_byte_inverse(token: CodeToken, byte: u8)
    ensures
        CodeToken::spec_from_byte(token.spec_byte()) == Some(token),
        CodeToken::spec_from_byte(byte) == Some(token) <==> byte == token.spec_byte(),
{
}

/// Whether a byte is one of the eight opcodes.
pub open spec fn is_opcode(byte: u8) -> bool {
    CodeToken::spec_from_byte(byte) is Some
}

/// Line of the byte at `index`: one more than the number of newlines
/// before it.
pub open spec fn line_at(bytes: Seq<u8>, index: int) -> nat
    decreases index,
{
    if index <= 0 {
        1
    } else if bytes[index - 1] == NEW_LINE_TOKEN {
        line_at(bytes, index - 1) + 1
    } else {
        line_at(bytes, index - 1)
    }
}

/// Column of the byte at `index`: one more than the number of bytes between
/// it and the start of its line.
pub open spec fn column_at(bytes: Seq<u8>, index: int) -> nat
    decreases index,
{
    if index <= 0 {
        1
    } else if bytes[index - 1] == NEW_LINE_TOKEN {
        1
    } else {
        column_at(bytes, index - 1) + 1
    }
}

/// The positioned token read from the byte at `index`, if that byte is an
/// opcode.
pub open spec fn token_at(bytes: Seq<u8>, index: int) -> Option<CodeDebugToken> {
    match CodeToken::spec_from_byte(bytes[index]) {
        Some(token) => Some(
            CodeDebugToken {
                token,
                line: line_at(bytes, index) as usize,
                column: column_at(bytes, index) as usize,
            },
        ),
        None => None,
    }
}

/// The tokens read from the first `end` bytes, in source order.
pub open spec fn tokens_before(bytes: Seq<u8>, end: int) -> Seq<CodeDebugToken>
    decreases end,
{
    if end <= 0 {
        Seq::empty()
    } else {
        match token_at(bytes, end - 1) {
            Some(token) => tokens_before(bytes, end - 1).push(token),
            None => tokens_before(bytes, end - 1),
        }
    }
}

/// The token stream of a source text.
pub open spec fn spec_tokenize(bytes: Seq<u8>) -> Seq<CodeDebugToken> {
    tokens_before(bytes, bytes.len() as int)
}

/// The bytes that a token stream stands for, in order.
pub open spec fn token_bytes(tokens: Seq<CodeDebugToken>) -> Seq<u8> {
    tokens.map_values(|token: CodeDebugToken| token.token.spec_byte())
}

/// The opcodes among the bytes of a source text, in order.
pub open spec fn opcode_bytes(bytes: Seq<u8>) -> Seq<u8> {
    bytes.filter(|byte: u8| is_opcode(byte))
}

/// The newlines among the bytes of a source text.
pub open spec fn newlines(bytes: Seq<u8>) -> Seq<u8> {
    bytes.filter(|byte: u8| byte == NEW_LINE_TOKEN)
}

/// The line of a byte is one more than the number of newlines before it.
pub proof fn lemma_line_counts_newlines(bytes: Seq<u8>, index: int)
    requires
        0 <= index <= bytes.len(),
    ensures
        line_at(bytes, index) == 1 + newlines(bytes.take(index)).len(),
    decreases index,
{
    reveal(Seq::filter);
    if index > 0 {
        lemma_line_counts_newlines(bytes, index - 1);
        assert(bytes.take(index).drop_last() == bytes.take(index - 1));
    }
}

/// The column of a byte is its distance from the start of its line, counted
/// from 1: there is an index `start`, no further from the byte than the
/// column says, from which on no newline comes before the byte, and which
/// is the start of the text or follows a newline.
pub proof fn lemma_column_counts_from_line_start(bytes: Seq<u8>, index: int) -> (start: int)
    requires
        0 <= index <= bytes.len(),
    ensures
        0 <= start <= index,
        column_at(bytes, index) == index - start + 1,
        forall|i: int| start <= i < index ==> bytes[i] != NEW_LINE_TOKEN,
        start == 0 || bytes[start - 1] == NEW_LINE_TOKEN,
    decreases index,
{
    if index == 0 || bytes[index - 1] == NEW_LINE_TOKEN {
        index
    } else {
        lemma_column_counts_from_line_start(bytes, index - 1)
    }
}

/// Line and column start at 1, and together they exceed the index of their
/// byte by no more than 2: on the bytes of a slice both fit in a `usize`, so
/// the casts in `token_at` lose nothing.
pub proof fn lemma_position_fits(bytes: Seq<u8>, index: int)
    requires
        0 <= index,
    ensures
        1 <= line_at(bytes, index),
        1 <= column_at(bytes, index),
        line_at(bytes, index) + column_at(bytes, index) <= index + 2,
    decreases index,
{
    if index > 0 {
        lemma_position_fits(bytes, index - 1);
    }
}

proof fn lemma_prefix_spells_opcodes(bytes: Seq<u8>, end: int)
    requires
        0 <= end <= bytes.len(),
    ensures
        token_bytes(tokens_before(bytes, end)) == opcode_bytes(bytes.take(end)),
    decreases end,
{
    reveal(Seq::filter);
    if end > 0 {
        lemma_prefix_spells_opcodes(bytes, end - 1);
        let byte = bytes[end - 1];
        assert(bytes.take(end).drop_last() == bytes.take(end - 1));
        assert(bytes.take(end).last() == byte);
        match token_at(bytes, end - 1) {
            Some(token) => {
                lemma_token_byte_inverse(token.token, byte);
                assert(token_bytes(tokens_before(bytes, end)) == token_bytes(
                    tokens_before(bytes, end - 1),
                ).push(byte));
            },
            None => {},
        }
    } else {
        assert(token_bytes(tokens_before(bytes, end)) == Seq::<u8>::empty());
    }
}

/// Turning each token of a source text's stream back into its byte gives the
/// opcodes of the text, in order: nothing is lost, added or reordered, and
/// every other byte is left out.
pub proof fn lemma_tokens_spell_opcodes(bytes: Seq<u8>)
    ensures
        token_bytes(spec_tokenize(bytes)) == opcode_bytes(bytes),
{
    lemma_prefix_spells_opcodes(bytes, bytes.len() as int);
    assert(bytes.take(bytes.len() as int) == bytes);
}

/// Two token streams read from the same source text are the same stream:
/// tokenizing keeps no state between calls.
pub proof fn lemma_tokenize_repeatable(
    bytes: Seq<u8>,
    first: Seq<CodeDebugToken>,
    second: Seq<CodeDebugToken>,
)
    requires
        first == spec_tokenize(bytes),
        second == spec_tokenize(bytes),
    ensures
        first == second,
{
}

/// Given the source code of a Brainfuck program, returns the list of tokens
/// extracted from the code, with its positions for easy debug.
pub fn tokenize(bytes: &[u8]) -> (tokens: Vec<CodeDebugToken>)
    ensures
        tokens@ == spec_tokenize(bytes@),
{
    let mut tokens: Vec<CodeDebugToken> = Vec::new();
    // Newlines passed so far, and bytes passed since the last of them: the
    // position of the next byte, counted from 0.
    let mut lines: usize = 0;
    let mut columns: usize = 0;
    let mut index: usize = 0;

    while index < bytes.len()
        invariant
            index <= bytes.len(),
            lines + 1 == line_at(bytes@, index as int),
            columns + 1 == column_at(bytes@, index as int),
            lines + columns <= index,
            tokens@ == tokens_before(bytes@, index as int),
        decreases bytes.len() - index,
    {
        let c = bytes[index];
        if let Some(token) = CodeToken::from_byte(c) {
            tokens.push(CodeDebugToken { token, line: lines + 1, column: columns + 1 });
            columns += 1;
        } else if c == NEW_LINE_TOKEN {
            columns = 0;
            lines += 1;
        } else {
            columns += 1;
        }
        index += 1;
    }

    tokens
}

} // verus!
