//! The loop structure of a token stream: which close-loop token belongs to
//! which open-loop token, and which loops are open at a token.

use crate::code_memory::scan_to_close;
use crate::tokenizer::CodeDebugToken;
use crate::tokenizer::CodeToken;
use vstd::prelude::*;

verus! {

/// What a token adds to the number of open loops.
pub open spec fn weight(token: CodeToken) -> int {
    match token {
        CodeToken::StartLoop => 1,
        CodeToken::EndLoop => -1,
        _ => 0,
    }
}

/// The open-loop tokens less the close-loop tokens among the tokens from
/// `from` up to, and without, `to`.
pub open spec fn nesting(tokens: Seq<CodeDebugToken>, from: nat, to: nat) -> int
    decreases to - from,
{
    if from >= to {
        0
    } else {
        weight(tokens[from as int].token) + nesting(tokens, from + 1, to)
    }
}

/// The nesting of a range is the nesting of the range without its last token
/// and the weight of that token.
pub proof fn lemma_nesting_by_last(tokens: Seq<CodeDebugToken>, from: nat, to: nat)
    requires
        from <= to,
    ensures
        nesting(tokens, from, to + 1) == nesting(tokens, from, to) + weight(
            tokens[to as int].token,
        ),
    decreases to - from,
{
    if from < to {
        lemma_nesting_by_last(tokens, from + 1, to);
    } else {
        assert(nesting(tokens, from + 1, to + 1) == 0);
    }
}

/// The scan stops on the close-loop token that matches: the first token at
/// which the close-loop tokens met outnumber the open-loop tokens met and
/// the `depth` loops that were open at the start. Where there is no such
/// token, it stops at the end of the stream.
pub proof fn lemma_scan_stops_at_matching_close(
    tokens: Seq<CodeDebugToken>,
    from: nat,
    depth: nat,
)
    requires
        from <= tokens.len(),
    ensures
        from <= scan_to_close(tokens, from, depth) <= tokens.len(),
        forall|k: nat|
            from <= k < scan_to_close(tokens, from, depth) ==> depth + #[trigger] nesting(
                tokens,
                from,
                k + 1,
            ) >= 0,
        scan_to_close(tokens, from, depth) < tokens.len() ==> {
            &&& tokens[scan_to_close(tokens, from, depth) as int].token == CodeToken::EndLoop
            &&& depth + nesting(tokens, from, scan_to_close(tokens, from, depth) + 1) == -1
        },
    decreases tokens.len() - from,
{
    if from < tokens.len() {
        let token = tokens[from as int].token;
        assert(nesting(tokens, from + 1, from + 1) == 0);
        if token == CodeToken::EndLoop && depth == 0 {
        } else {
            let deeper = (depth + weight(token)) as nat;
            lemma_scan_stops_at_matching_close(tokens, from + 1, deeper);
            let close = scan_to_close(tokens, from, depth);
            assert(close == scan_to_close(tokens, from + 1, deeper));
            assert forall|k: nat| from <= k < close implies depth + #[trigger] nesting(
                tokens,
                from,
                k + 1,
            ) >= 0 by {
                if k > from {
                    assert(deeper + nesting(tokens, from + 1, k + 1) >= 0);
                }
            }
        }
    }
}

/// The nesting of a range is the sum of the nestings of its two parts.
pub proof fn lemma_nesting_in_parts(tokens: Seq<CodeDebugToken>, from: nat, mid: nat, to: nat)
    requires
        from <= mid <= to,
    ensures
        nesting(tokens, from, to) == nesting(tokens, from, mid) + nesting(tokens, mid, to),
    decreases mid - from,
{
    if from < mid {
        lemma_nesting_in_parts(tokens, from + 1, mid, to);
    }
}

/// The first token at which the close-loop tokens outnumber the open-loop
/// tokens and the `depth` loops open at the start is where the scan stops.
pub proof fn lemma_scan_stops_at_first_excess(
    tokens: Seq<CodeDebugToken>,
    from: nat,
    depth: nat,
    at: nat,
)
    requires
        from <= at < tokens.len(),
        forall|k: nat| from <= k < at ==> depth + #[trigger] nesting(tokens, from, k + 1) >= 0,
        depth + nesting(tokens, from, at + 1) < 0,
    ensures
        scan_to_close(tokens, from, depth) == at,
{
    lemma_scan_stops_at_matching_close(tokens, from, depth);
    let close = scan_to_close(tokens, from, depth);
    if close < at {
        assert(depth + nesting(tokens, from, close + 1) >= 0);
    } else if close > at {
        assert(depth + nesting(tokens, from, at + 1) >= 0);
    }
}

/// Whether every close-loop token closes a loop and every loop is closed.
pub open spec fn well_nested(tokens: Seq<CodeDebugToken>) -> bool {
    &&& forall|k: nat| k < tokens.len() ==> #[trigger] nesting(tokens, 0, k + 1) >= 0
    &&& nesting(tokens, 0, tokens.len()) == 0
}

/// The positions of the open-loop tokens among the first `end` tokens whose
/// loops are still open after them, outermost first. A close-loop token
/// closes the innermost; one met with no loop open closes nothing.
pub open spec fn open_loops(tokens: Seq<CodeDebugToken>, end: nat) -> Seq<usize>
    decreases end,
{
    if end == 0 {
        Seq::empty()
    } else {
        let before = open_loops(tokens, (end - 1) as nat);
        match tokens[end - 1].token {
            CodeToken::StartLoop => before.push((end - 1) as usize),
            CodeToken::EndLoop => if before.len() > 0 {
                before.drop_last()
            } else {
                before
            },
            _ => before,
        }
    }
}

/// The innermost open loop: its position holds an open-loop token, the loops
/// around it are the loops that were open there, and from its body up to
/// `end` every loop that was opened has been closed and nothing else.
pub proof fn lemma_innermost_open_loop(tokens: Seq<CodeDebugToken>, end: nat)
    requires
        end <= tokens.len() <= usize::MAX,
        open_loops(tokens, end).len() > 0,
    ensures
        open_loops(tokens, end).last() < end,
        tokens[open_loops(tokens, end).last() as int].token == CodeToken::StartLoop,
        open_loops(tokens, open_loops(tokens, end).last() as nat) == open_loops(
            tokens,
            end,
        ).drop_last(),
        forall|k: nat|
            open_loops(tokens, end).last() < k < end ==> #[trigger] nesting(
                tokens,
                open_loops(tokens, end).last() as nat + 1,
                k + 1,
            ) >= 0,
        nesting(tokens, open_loops(tokens, end).last() as nat + 1, end) == 0,
    decreases end,
{
    let before = (end - 1) as nat;
    let earlier = open_loops(tokens, before);
    let last = tokens[before as int].token;
    if last == CodeToken::StartLoop {
        assert(earlier.push(before as usize).drop_last() == earlier);
    } else if last == CodeToken::EndLoop {
        // The token closes the loop opened at `inner`; the innermost loop
        // still open is the one that was open around `inner`.
        lemma_innermost_open_loop(tokens, before);
        let inner = earlier.last() as nat;
        lemma_innermost_open_loop(tokens, inner);
        let outer = open_loops(tokens, end).last() as nat;
        assert forall|k: nat| outer < k < end implies #[trigger] nesting(
            tokens,
            outer + 1,
            k + 1,
        ) >= 0 by {
            if k >= inner {
                lemma_nesting_in_parts(tokens, outer + 1, inner, k + 1);
                lemma_nesting_in_parts(tokens, inner, inner + 1, k + 1);
                assert(nesting(tokens, inner + 1, inner + 1) == 0);
                if k > inner && k < before {
                    assert(nesting(tokens, inner + 1, k + 1) >= 0);
                } else if k == before {
                    lemma_nesting_by_last(tokens, inner + 1, before);
                }
            }
        }
        lemma_nesting_in_parts(tokens, outer + 1, inner, end);
        lemma_nesting_in_parts(tokens, inner, inner + 1, end);
        lemma_nesting_by_last(tokens, inner + 1, before);
        assert(nesting(tokens, inner + 1, inner + 1) == 0);
    } else {
        lemma_innermost_open_loop(tokens, before);
        let outer = earlier.last() as nat;
        lemma_nesting_by_last(tokens, outer + 1, before);
        assert forall|k: nat| outer < k < end implies #[trigger] nesting(
            tokens,
            outer + 1,
            k + 1,
        ) >= 0 by {
            if k < before {
                assert(nesting(tokens, outer + 1, k + 1) >= 0);
            }
        }
    }
}

/// While no token from `base` on closes a loop that was open at `base`, the
/// loops open at `base` stay open, below the loops opened since.
pub proof fn lemma_open_loops_stay(tokens: Seq<CodeDebugToken>, base: nat, end: nat)
    requires
        base <= end <= tokens.len(),
        forall|k: nat| base <= k < end ==> #[trigger] nesting(tokens, base, k + 1) >= 0,
    ensures
        open_loops(tokens, end).len() == open_loops(tokens, base).len() + nesting(
            tokens,
            base,
            end,
        ),
        open_loops(tokens, end).take(open_loops(tokens, base).len() as int) == open_loops(
            tokens,
            base,
        ),
    decreases end - base,
{
    let kept = open_loops(tokens, base).len() as int;
    if base < end {
        let before = (end - 1) as nat;
        lemma_open_loops_stay(tokens, base, before);
        lemma_nesting_by_last(tokens, base, before);
        assert(nesting(tokens, base, before + 1) >= 0);
        if before > base {
            assert(nesting(tokens, base, (before - 1) as nat + 1) >= 0);
        }
        let earlier = open_loops(tokens, before);
        let later = open_loops(tokens, end);
        assert(weight(tokens[before as int].token) == later.len() - earlier.len());
        assert(later.take(kept) =~= earlier.take(kept));
    } else {
        assert(open_loops(tokens, base).take(kept) == open_loops(tokens, base));
    }
}

/// Skipping a loop changes nothing about the loops that are open: after the
/// close-loop token that the scan pairs with an open-loop token, the open
/// loops are those that were open before the open-loop token.
pub proof fn lemma_skipped_loop_is_closed(tokens: Seq<CodeDebugToken>, open: nat)
    requires
        open < tokens.len(),
        tokens[open as int].token == CodeToken::StartLoop,
        scan_to_close(tokens, open + 1, 0) < tokens.len(),
    ensures
        open_loops(tokens, scan_to_close(tokens, open + 1, 0) + 1) == open_loops(tokens, open),
{
    let close = scan_to_close(tokens, open + 1, 0);
    lemma_scan_stops_at_matching_close(tokens, open + 1, 0);
    lemma_open_loops_stay(tokens, open + 1, close);
    lemma_nesting_by_last(tokens, open + 1, close);
    let inside = open_loops(tokens, open + 1);
    assert(open_loops(tokens, close).take(inside.len() as int) == open_loops(tokens, close));
    assert(inside.drop_last() == open_loops(tokens, open));
}

/// In a well-nested stream the scan from an open-loop token finds its
/// close-loop token before the stream ends.
pub proof fn lemma_well_nested_loops_close(tokens: Seq<CodeDebugToken>, open: nat)
    requires
        well_nested(tokens),
        open < tokens.len(),
        tokens[open as int].token == CodeToken::StartLoop,
    ensures
        scan_to_close(tokens, open + 1, 0) < tokens.len(),
{
    let close = scan_to_close(tokens, open + 1, 0);
    lemma_scan_stops_at_matching_close(tokens, open + 1, 0);
    if close == tokens.len() {
        lemma_nesting_in_parts(tokens, 0, open, tokens.len());
        lemma_nesting_in_parts(tokens, open, open + 1, tokens.len());
        assert(nesting(tokens, open + 1, open + 1) == 0);
        if open > 0 {
            assert(nesting(tokens, 0, (open - 1) as nat + 1) >= 0);
        }
        if open + 1 < tokens.len() {
            assert(nesting(tokens, open + 1, (tokens.len() - 1) as nat + 1) >= 0);
        }
    }
}

/// At a close-loop token, the innermost open loop is the one whose open-loop
/// token the scan pairs with this close-loop token.
pub proof fn lemma_innermost_open_loop_matches(tokens: Seq<CodeDebugToken>, close: nat)
    requires
        close < tokens.len() <= usize::MAX,
        tokens[close as int].token == CodeToken::EndLoop,
        open_loops(tokens, close).len() > 0,
    ensures
        scan_to_close(tokens, open_loops(tokens, close).last() as nat + 1, 0) == close,
{
    lemma_innermost_open_loop(tokens, close);
    let open = open_loops(tokens, close).last() as nat;
    lemma_nesting_by_last(tokens, open + 1, close);
    lemma_scan_stops_at_first_excess(tokens, open + 1, 0, close);
}

} // verus!
