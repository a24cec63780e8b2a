//! Brainfuck transpiler module, to convert from Brainfuck to any other language.

use crate::code_memory::CodeMemory;
use crate::tokenizer::CodeDebugToken;
use crate::tokenizer::CodeToken;
use vstd::prelude::*;

verus! {

/// Why a program could not be transpiled.
#[derive(Debug)]
pub enum TranspileError {
    /// The token closes a loop, and no loop is open.
    UnmatchedCloseLoop(CodeDebugToken),
}

/// Brainfuck transpiler trait.
///
/// Given a specific code memory, transpiles the Brainfuck code into another
/// language like C. What the text is depends on the language: each
/// implementation states it for itself.
pub trait BrainfuckTranspiler {
    /// Transpiles the Brainfuck code into another language.
    fn transpile(&self, code: CodeMemory) -> Result<String, TranspileError>;
}

/// Start of every C program: the tape, the pointer into it, and the byte
/// that input is read into.
pub const PROLOGUE: &'static str =
    "#include <stdio.h>\n#include <stdint.h>\n#include <string.h>\n\nconst size_t memory_size = 128000;\nint64_t memory[memory_size];\n\nint main() {\n    memset(memory, 0, sizeof(int64_t) * memory_size);\n    int64_t* ptr = memory;\n    char tmp_char = '\\0';\n";

/// End of every C program: the output is flushed and the status is 0.
pub const EPILOGUE: &'static str = "    fflush(stdout);\n    return 0;\n}\n\n";

/// The decimal digit for a number below ten.
pub open spec fn digit(value: nat) -> char
    recommends
        value < 10,
{
    ('0' as u8 + value) as u8 as char
}

/// A number in decimal, without sign or leading zeros.
pub open spec fn decimal(number: nat) -> Seq<char>
    decreases number,
{
    if number < 10 {
        seq![digit(number)]
    } else {
        decimal(number / 10).push(digit(number % 10))
    }
}

/// The comment that precedes the statement of a token: the token with its
/// column and line, and the indentation of the statement.
pub open spec fn comment(at: CodeDebugToken) -> Seq<char> {
    "    // "@ + at.token.symbol() + " ("@ + decimal(at.column as nat) + ", "@ + decimal(
        at.line as nat,
    ) + ")\n    "@
}

/// The C statement of a token. `label` numbers the loop that an open-loop or
/// close-loop token belongs to; the other tokens have no use for it.
pub open spec fn statement(token: CodeToken, label: nat) -> Seq<char> {
    match token {
        CodeToken::Increment => "(*ptr)++;"@,
        CodeToken::Decrement => "(*ptr)--;"@,
        CodeToken::Next => "ptr++;"@,
        CodeToken::Previous => "ptr--;"@,
        CodeToken::StartLoop => "if(!(*ptr)) goto _jmp"@ + decimal(label) + "_end;\n_jmp"@
            + decimal(label) + "_start:"@,
        CodeToken::EndLoop => "if(*ptr) goto _jmp"@ + decimal(label) + "_start;\n_jmp"@ + decimal(
            label,
        ) + "_end:"@,
        CodeToken::Input =>
            "fflush(stdout);\n    if(!fread(&tmp_char, sizeof(tmp_char), 1, stdin)) return 1;\n    *ptr = tmp_char;"@,
        CodeToken::Output => "fputc((char) *ptr, stdout);"@,
    }
}

/// The lines of a token in the C program: its comment, its statement and a
/// line end.
pub open spec fn lines(at: CodeDebugToken, label: nat) -> Seq<char> {
    comment(at) + statement(at.token, label) + "\n"@
}

/// A C program in the making.
pub struct Draft {
    /// The text so far.
    pub text: Seq<char>,
    /// The labels of the loops that are open, innermost last.
    pub open: Seq<usize>,
    /// The label that the next loop gets: the number of loops opened so far.
    pub fresh: nat,
}

impl Draft {
    /// The draft of a program without tokens.
    pub open spec fn start() -> Draft {
        Draft { text: PROLOGUE@, open: Seq::empty(), fresh: 0 }
    }

    /// The draft with the lines of one more token. An open-loop token takes
    /// the fresh label; a close-loop token takes the label of the innermost
    /// open loop and closes it, and fails if no loop is open.
    pub open spec fn with_token(self, at: CodeDebugToken) -> Result<Draft, TranspileError> {
        match at.token {
            CodeToken::StartLoop => Ok(
                Draft {
                    text: self.text + lines(at, self.fresh),
                    open: self.open.push(self.fresh as usize),
                    fresh: self.fresh + 1,
                },
            ),
            CodeToken::EndLoop => if self.open.len() == 0 {
                Err(TranspileError::UnmatchedCloseLoop(at))
            } else {
                Ok(
                    Draft {
                        text: self.text + lines(at, self.open.last() as nat),
                        open: self.open.drop_last(),
                        fresh: self.fresh,
                    },
                )
            },
            _ => Ok(Draft { text: self.text + lines(at, 0), open: self.open, fresh: self.fresh }),
        }
    }
}

/// The draft of the first `end` tokens, or the first failure among them.
pub open spec fn draft(tokens: Seq<CodeDebugToken>, end: nat) -> Result<Draft, TranspileError>
    decreases end,
{
    if end == 0 {
        Ok(Draft::start())
    } else {
        match draft(tokens, (end - 1) as nat) {
            Ok(before) => before.with_token(tokens[end - 1]),
            Err(error) => Err(error),
        }
    }
}

/// Once a close-loop token has failed, the tokens after it change nothing.
proof fn lemma_failure_stays(tokens: Seq<CodeDebugToken>, failed: nat, end: nat)
    requires
        failed <= end,
        draft(tokens, failed) is Err,
    ensures
        draft(tokens, end) == draft(tokens, failed),
    decreases end,
{
    if failed < end {
        lemma_failure_stays(tokens, failed, (end - 1) as nat);
    }
}

/// The C program of a token stream, or the first close-loop token in it that
/// closes no loop.
pub open spec fn c_program(tokens: Seq<CodeDebugToken>) -> Result<Seq<char>, TranspileError> {
    match draft(tokens, tokens.len()) {
        Ok(whole) => Ok(whole.text + EPILOGUE@),
        Err(error) => Err(error),
    }
}

/// Transpiles Brainfuck to C.
pub struct BrainfuckToCTranspiler();

impl Default for BrainfuckToCTranspiler {
    fn default() -> (transpiler: Self)
        ensures
            transpiler == BrainfuckToCTranspiler(),
    {
        Self()
    }
}

/// Appends a number in decimal.
fn push_decimal(output: &mut String, number: usize)
    ensures
        final(output)@ == old(output)@ + decimal(number as nat),
    decreases number,
{
    if number >= 10 {
        push_decimal(output, number / 10);
    }
    proof {
        reveal_strlit("0");
        reveal_strlit("1");
        reveal_strlit("2");
        reveal_strlit("3");
        reveal_strlit("4");
        reveal_strlit("5");
        reveal_strlit("6");
        reveal_strlit("7");
        reveal_strlit("8");
        reveal_strlit("9");
    }
    let last = match number % 10 {
        0 => "0",
        1 => "1",
        2 => "2",
        3 => "3",
        4 => "4",
        5 => "5",
        6 => "6",
        7 => "7",
        8 => "8",
        _ => "9",
    };
    assert(last@ =~= seq![digit((number % 10) as nat)]);
    output.append(last);
    assert(output@ =~= old(output)@ + decimal(number as nat));
}

/// Appends the comment of a token.
fn push_comment(output: &mut String, at: CodeDebugToken)
    ensures
        final(output)@ == old(output)@ + comment(at),
{
    output.append("    // ");
    output.append(at.token.as_str());
    output.append(" (");
    push_decimal(output, at.column);
    output.append(", ");
    push_decimal(output, at.line);
    output.append(")\n    ");
    assert(output@ =~= old(output)@ + comment(at));
}

/// Appends the statement of a token.
fn push_statement(output: &mut String, token: CodeToken, label: usize)
    ensures
        final(output)@ == old(output)@ + statement(token, label as nat),
{
    match token {
        CodeToken::Increment => output.append("(*ptr)++;"),
        CodeToken::Decrement => output.append("(*ptr)--;"),
        CodeToken::Next => output.append("ptr++;"),
        CodeToken::Previous => output.append("ptr--;"),
        CodeToken::StartLoop => {
            output.append("if(!(*ptr)) goto _jmp");
            push_decimal(output, label);
            output.append("_end;\n_jmp");
            push_decimal(output, label);
            output.append("_start:");
        },
        CodeToken::EndLoop => {
            output.append("if(*ptr) goto _jmp");
            push_decimal(output, label);
            output.append("_start;\n_jmp");
            push_decimal(output, label);
            output.append("_end:");
        },
        CodeToken::Input => output.append(
            "fflush(stdout);\n    if(!fread(&tmp_char, sizeof(tmp_char), 1, stdin)) return 1;\n    *ptr = tmp_char;",
        ),
        CodeToken::Output => output.append("fputc((char) *ptr, stdout);"),
    }
    assert(output@ =~= old(output)@ + statement(token, label as nat));
}

/// Appends the lines of a token.
fn push_lines(output: &mut String, at: CodeDebugToken, label: usize)
    ensures
        final(output)@ == old(output)@ + lines(at, label as nat),
{
    push_comment(output, at);
    push_statement(output, at.token, label);
    output.append("\n");
    assert(output@ =~= old(output)@ + lines(at, label as nat));
}

impl BrainfuckTranspiler for BrainfuckToCTranspiler {
    /// Transpiles the tokens from the code cursor on into a C program.
    /// Loops become pairs of labels and conditional jumps, numbered in the
    /// order in which they open.
    fn transpile(&self, mut code: CodeMemory) -> (result: Result<String, TranspileError>)
        ensures
            c_program(code@.remaining()) == match result {
                Ok(text) => Ok::<Seq<char>, TranspileError>(text@),
                Err(error) => Err::<Seq<char>, TranspileError>(error),
            },
    {
        let mut output = String::new();
        let mut stack: Vec<usize> = Vec::new();
        let mut stack_counter: usize = 0;
        let mut unmatched: Option<CodeDebugToken> = None;

        output.append(PROLOGUE);

        let ghost start = code@;
        let ghost tokens = start.remaining();
        let ghost mut done: nat = 0;
        loop
            invariant_except_break
                unmatched is None,
                draft(tokens, done) == Ok::<Draft, TranspileError>(
                    Draft { text: output@, open: stack@, fresh: stack_counter as nat },
                ),
            invariant
                code@.tokens == start.tokens,
                tokens == start.remaining(),
                done <= tokens.len(),
                code@.position == start.position + done,
                stack_counter <= done,
            ensures
                match unmatched {
                    Some(at) => draft(tokens, tokens.len()) == Err::<Draft, TranspileError>(
                        TranspileError::UnmatchedCloseLoop(at),
                    ),
                    None => draft(tokens, tokens.len()) == Ok::<Draft, TranspileError>(
                        Draft { text: output@, open: stack@, fresh: stack_counter as nat },
                    ),
                },
            decreases tokens.len() - done,
        {
            let t = match code.read() {
                Some(t) => t,
                None => {
                    break ;
                },
            };
            proof {
                code.lemma_length_fits();
            }
            assert(t == tokens[done as int]);
            let label = match t.token {
                CodeToken::StartLoop => {
                    let n = stack_counter;
                    stack.push(n);
                    stack_counter += 1;
                    n
                },
                CodeToken::EndLoop => match stack.pop() {
                    Some(n) => n,
                    None => {
                        proof {
                            assert(draft(tokens, done + 1) is Err);
                            lemma_failure_stays(tokens, done + 1, tokens.len());
                        }
                        unmatched = Some(t);
                        break ;
                    },
                },
                _ => 0,
            };
            push_lines(&mut output, t, label);
            code.next();
            proof {
                done = done + 1;
            }
        }

        if let Some(at) = unmatched {
            return Err(TranspileError::UnmatchedCloseLoop(at));
        }
        output.append(EPILOGUE);
        Ok(output)
    }
}

} // verus!
