//! The code sequence: a token stream and a cursor into it.

use crate::tokenizer::spec_tokenize;
use crate::tokenizer::tokenize;
use crate::tokenizer::CodeDebugToken;
use crate::tokenizer::CodeToken;
use vstd::prelude::*;
use vstd::std_specs::convert::FromSpecImpl;
use vstd::utf8::encode_utf8;

verus! {

/// What a [`CodeMemory`] holds: the tokens of the program, and the index of
/// the token to execute next.
pub struct CodeView {
    /// The tokens of the program, in source order.
    pub tokens: Seq<CodeDebugToken>,
    /// The cursor. At or past `tokens.len()` the program has ended.
    pub position: nat,
}

/// Where a forward scan for a close-loop token stops. The scan starts at
/// `from` with `depth` loops open beyond the one being left; an open-loop
/// token opens one more, a close-loop token closes one, and the close-loop
/// found with none of them open is the result. A stream that ends first
/// gives its length.
pub open spec fn scan_to_close(tokens: Seq<CodeDebugToken>, from: nat, depth: nat) -> nat
    decreases tokens.len() - from,
{
    if from >= tokens.len() {
        tokens.len()
    } else if tokens[from as int].token == CodeToken::EndLoop {
        if depth == 0 {
            from
        } else {
            scan_to_close(tokens, from + 1, (depth - 1) as nat)
        }
    } else if tokens[from as int].token == CodeToken::StartLoop {
        scan_to_close(tokens, from + 1, depth + 1)
    } else {
        scan_to_close(tokens, from + 1, depth)
    }
}

impl CodeView {
    /// The token under the cursor, if the program has not ended.
    pub open spec fn current(self) -> Option<CodeDebugToken> {
        if self.position < self.tokens.len() {
            Some(self.tokens[self.position as int])
        } else {
            None
        }
    }

    /// The tokens from the cursor to the end of the program.
    pub open spec fn remaining(self) -> Seq<CodeDebugToken> {
        if self.position <= self.tokens.len() {
            self.tokens.skip(self.position as int)
        } else {
            Seq::empty()
        }
    }

    /// The same program with the cursor at `position`.
    pub open spec fn at(self, position: nat) -> CodeView {
        CodeView { tokens: self.tokens, position }
    }

    /// The same program with the cursor past the token under it, if there
    /// is one.
    pub open spec fn passed(self) -> CodeView {
        if self.position < self.tokens.len() {
            self.at(self.position + 1)
        } else {
            self
        }
    }

    /// Where `skip_loop` leaves the cursor: on the close-loop token that
    /// matches the open-loop token under the cursor, or at the end of the
    /// stream if there is none. A cursor that is already past the end stays.
    pub open spec fn matching_close(self) -> nat {
        if self.position < self.tokens.len() {
            scan_to_close(self.tokens, self.position + 1, 0)
        } else {
            self.position
        }
    }
}

/// Represents the memory of code in the Brainfuck state machine.
///
/// The code can be read from a `&str`, `&String` or `&[u8]`. The constructor
/// parses the source and stores only the parsed tokens.
pub struct CodeMemory {
    code: Vec<CodeDebugToken>,
    pointer: usize,
}

impl View for CodeMemory {
    type V = CodeView;

    closed spec fn view(&self) -> CodeView {
        CodeView { tokens: self.code@, position: self.pointer as nat }
    }
}

impl CodeMemory {
    /// Creates the memory from the given tokens.
    pub fn from_tokens(code: Vec<CodeDebugToken>) -> (memory: Self)
        ensures
            memory@ == (CodeView { tokens: code@, position: 0 }),
    {
        Self { code, pointer: 0 }
    }

    /// Creates the memory from the source code in bytes.
    pub fn from_bytes(code: &[u8]) -> (memory: Self)
        ensures
            memory@ == (CodeView { tokens: spec_tokenize(code@), position: 0 }),
    {
        Self::from_tokens(tokenize(code))
    }

    /// Creates the memory from the source code.
    pub fn from_str(code: &str) -> (memory: Self)
        ensures
            memory@ == (CodeView { tokens: spec_tokenize(encode_utf8(code@)), position: 0 }),
    {
        Self::from_bytes(code.as_bytes())
    }

    /// Creates the memory from the source code.
    pub fn from_string(code: &String) -> (memory: Self)
        ensures
            memory@ == (CodeView { tokens: spec_tokenize(encode_utf8(code@)), position: 0 }),
    {
        Self::from_bytes(code.as_str().as_bytes())
    }

    /// Moves the cursor past the token under it.
    pub fn next(&mut self)
        requires
            old(self)@.position < old(self)@.tokens.len(),
        ensures
            final(self)@ == old(self)@.at(old(self)@.position + 1),
    {
        assert(self.pointer < self.code.len());
        self.pointer += 1;
    }

    /// Returns the token under the cursor, or `None` once the program has
    /// ended.
    pub fn read(&self) -> (token: Option<CodeDebugToken>)
        ensures
            token == self@.current(),
    {
        if self.pointer >= self.code.len() {
            None
        } else {
            Some(self.code[self.pointer])
        }
    }

    /// Moves the cursor to `position`.
    pub fn move_to(&mut self, position: usize)
        ensures
            final(self)@ == old(self)@.at(position as nat),
    {
        self.pointer = position;
    }

    /// Moves the cursor from an open-loop token forward to the close-loop
    /// token that matches it, counting the loops nested in between. If the
    /// stream ends first, the cursor stops at its end.
    pub fn skip_loop(&mut self)
        ensures
            final(self)@ == old(self)@.at(old(self)@.matching_close()),
    {
        if self.pointer >= self.code.len() {
            return ;
        }
        let mut depth: usize = 0;
        self.pointer += 1;
        while self.pointer < self.code.len()
            invariant
                self.code@ == old(self).code@,
                old(self).pointer < self.pointer <= self.code.len(),
                depth <= self.pointer - old(self).pointer - 1,
                scan_to_close(self.code@, self.pointer as nat, depth as nat)
                    == old(self)@.matching_close(),
            decreases self.code.len() - self.pointer,
        {
            let t = self.code[self.pointer].token;
            if t == CodeToken::EndLoop {
                if depth == 0 {
                    return ;
                } else {
                    depth -= 1;
                }
            } else if t == CodeToken::StartLoop {
                depth += 1;
            }
            self.pointer += 1;
        }
    }

    /// A program has no more tokens than a `usize` can count.
    pub proof fn lemma_length_fits(&self)
        ensures
            self@.tokens.len() <= usize::MAX,
    {
        assert(self.code@.len() == self.code.len());
    }

    /// Returns the position of the cursor.
    pub fn position(&self) -> (position: usize)
        ensures
            position == self@.position,
    {
        self.pointer
    }
}

impl Clone for CodeMemory {
    fn clone(&self) -> (copy: Self)
        ensures
            copy@ == self@,
    {
        let copy = Self { code: self.code.clone(), pointer: self.pointer };
        assert(copy.code@ =~= self.code@);
        copy
    }
}

impl From<&str> for CodeMemory {
    fn from(value: &str) -> (memory: Self)
        ensures
            memory@ == (CodeView { tokens: spec_tokenize(encode_utf8(value@)), position: 0 }),
    {
        Self::from_str(value)
    }
}

/// What `from` returns is stated on `from` itself, over the view: a code
/// memory has no value in specifications that `from_spec` could name.
impl FromSpecImpl<&str> for CodeMemory {
    open spec fn obeys_from_spec() -> bool {
        false
    }

    open spec fn from_spec(value: &str) -> Self {
        arbitrary()
    }
}

impl From<&String> for CodeMemory {
    fn from(value: &String) -> (memory: Self)
        ensures
            memory@ == (CodeView { tokens: spec_tokenize(encode_utf8(value@)), position: 0 }),
    {
        Self::from_string(value)
    }
}

/// As for `&str`: the contract of `from` is its own `ensures`.
impl FromSpecImpl<&String> for CodeMemory {
    open spec fn obeys_from_spec() -> bool {
        false
    }

    open spec fn from_spec(value: &String) -> Self {
        arbitrary()
    }
}

} // verus!
