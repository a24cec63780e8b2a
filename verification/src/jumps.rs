//! The labels of the generated C program, and the loops of the machine.
//!
//! The transpiler numbers the loops once, when it writes the program; the
//! machine finds the ends of a loop again each time it runs through it. The
//! laws here say that both pair the same tokens.

use crate::bf_transpiler::draft;
use crate::code_memory::scan_to_close;
use crate::machine::lemma_repeat_returns_to_matching_open;
use crate::machine::MachineState;
use crate::nesting::lemma_nesting_by_last;
use crate::nesting::lemma_scan_stops_at_matching_close;
use crate::nesting::lemma_well_nested_loops_close;
use crate::nesting::nesting;
use crate::nesting::weight;
use crate::nesting::well_nested;
use crate::tokenizer::CodeDebugToken;
use crate::tokenizer::CodeToken;
use vstd::prelude::*;

verus! {

/// The label in the statement of the token at `index`: for an open-loop
/// token the label that is fresh there, for a close-loop token the label of
/// the innermost open loop. Other tokens have none, and 0 stands for it.
pub open spec fn label_at(tokens: Seq<CodeDebugToken>, index: nat) -> nat {
    match draft(tokens, index) {
        Ok(before) => match tokens[index as int].token {
            CodeToken::StartLoop => before.fresh,
            CodeToken::EndLoop => before.open.last() as nat,
            _ => 0,
        },
        Err(_) => 0,
    }
}

/// A draft that has not failed has not failed earlier, and its fresh label
/// is no more than the number of its tokens.
proof fn lemma_draft_so_far(tokens: Seq<CodeDebugToken>, earlier: nat, end: nat)
    requires
        earlier <= end,
        draft(tokens, end) is Ok,
    ensures
        draft(tokens, earlier) is Ok,
        draft(tokens, earlier)->Ok_0.fresh <= draft(tokens, end)->Ok_0.fresh <= end,
    decreases end,
{
    if earlier < end {
        lemma_draft_so_far(tokens, earlier, (end - 1) as nat);
    } else if end > 0 {
        lemma_draft_so_far(tokens, (end - 1) as nat, (end - 1) as nat);
    }
}

/// While no token from `base` on has closed a loop that was open at `base`,
/// the loops that were open at `base` are still open, below the loops opened
/// since.
proof fn lemma_open_labels_stay(tokens: Seq<CodeDebugToken>, base: nat, end: nat)
    requires
        base <= end <= tokens.len(),
        draft(tokens, end) is Ok,
        forall|k: nat| base <= k < end ==> #[trigger] nesting(tokens, base, k + 1) >= 0,
    ensures
        draft(tokens, base) is Ok,
        draft(tokens, end)->Ok_0.open.len() == draft(tokens, base)->Ok_0.open.len() + nesting(
            tokens,
            base,
            end,
        ),
        draft(tokens, end)->Ok_0.open.take(draft(tokens, base)->Ok_0.open.len() as int) == draft(
            tokens,
            base,
        )->Ok_0.open,
    decreases end - base,
{
    lemma_draft_so_far(tokens, base, end);
    if base < end {
        let before = (end - 1) as nat;
        lemma_draft_so_far(tokens, before, end);
        lemma_open_labels_stay(tokens, base, before);
        lemma_nesting_by_last(tokens, base, before);
        assert(nesting(tokens, base, before + 1) >= 0);
        let kept = draft(tokens, base)->Ok_0.open.len() as int;
        let earlier = draft(tokens, before)->Ok_0.open;
        let later = draft(tokens, end)->Ok_0.open;
        let last = tokens[before as int];
        assert(draft(tokens, end) == draft(tokens, before)->Ok_0.with_token(last));
        assert(weight(last.token) == later.len() - earlier.len());
        if before > base {
            assert(nesting(tokens, base, (before - 1) as nat + 1) >= 0);
        }
        assert(kept <= earlier.len() && kept <= later.len());
        assert(later.take(kept) =~= earlier.take(kept));
    } else {
        let open = draft(tokens, base)->Ok_0.open;
        assert(open.take(open.len() as int) == open);
    }
}

/// Whether, somewhere among the first `end` tokens, the close-loop tokens
/// met so far outnumber the open-loop tokens met so far.
pub open spec fn closes_too_much(tokens: Seq<CodeDebugToken>, end: nat) -> bool {
    exists|k: nat| k < end && #[trigger] nesting(tokens, 0, k + 1) < 0
}

/// Transpiling fails exactly on a stream in which some close-loop token
/// closes no loop, that is, where at some token more loops have been closed
/// than opened. On any other stream the loops that are open at a token are
/// as many as were opened and not closed before it.
pub proof fn lemma_fails_where_closes_too_much(tokens: Seq<CodeDebugToken>, end: nat)
    requires
        end <= tokens.len(),
    ensures
        draft(tokens, end) is Err <==> closes_too_much(tokens, end),
        draft(tokens, end) matches Ok(so_far) ==> so_far.open.len() == nesting(tokens, 0, end),
    decreases end,
{
    if end > 0 {
        let before = (end - 1) as nat;
        lemma_fails_where_closes_too_much(tokens, before);
        lemma_nesting_by_last(tokens, 0, before);
        if closes_too_much(tokens, before) {
            let k = choose|k: nat| k < before && #[trigger] nesting(tokens, 0, k + 1) < 0;
            assert(k < end && nesting(tokens, 0, k + 1) < 0);
        } else if draft(tokens, end) is Err {
            assert(before < end && nesting(tokens, 0, before + 1) < 0);
        } else {
            assert forall|k: nat| k < end implies #[trigger] nesting(tokens, 0, k + 1) >= 0 by {
                if k < before {
                    assert(!(k < before && nesting(tokens, 0, k + 1) < 0));
                }
            }
        }
    }
}

/// The two jumps of a loop carry one label: the statement of a close-loop
/// token has the label of the open-loop token that the code sequence's
/// forward scan pairs it with.
pub proof fn lemma_jumps_pair_matching_tokens(tokens: Seq<CodeDebugToken>, open: nat)
    requires
        tokens.len() <= usize::MAX,
        open < tokens.len(),
        tokens[open as int].token == CodeToken::StartLoop,
        scan_to_close(tokens, open + 1, 0) < tokens.len(),
        draft(tokens, scan_to_close(tokens, open + 1, 0) + 1) is Ok,
    ensures
        label_at(tokens, scan_to_close(tokens, open + 1, 0)) == label_at(tokens, open),
{
    let base = open + 1;
    let close = scan_to_close(tokens, base, 0);
    lemma_scan_stops_at_matching_close(tokens, base, 0);
    lemma_draft_so_far(tokens, close, close + 1);
    lemma_draft_so_far(tokens, open, close + 1);
    lemma_open_labels_stay(tokens, base, close);
    lemma_nesting_by_last(tokens, base, close);
    let at_base = draft(tokens, base)->Ok_0.open;
    let at_close = draft(tokens, close)->Ok_0.open;
    assert(at_close.take(at_base.len() as int) == at_close);
    assert(at_base.last() == draft(tokens, open)->Ok_0.fresh as usize);
}

/// A well-nested stream is transpiled without failure.
pub proof fn lemma_well_nested_is_transpiled(tokens: Seq<CodeDebugToken>, end: nat)
    requires
        well_nested(tokens),
        end <= tokens.len(),
    ensures
        draft(tokens, end) is Ok,
{
    lemma_fails_where_closes_too_much(tokens, end);
}

/// The C program of a well-nested stream jumps where the machine goes. At
/// an open-loop token the machine skips to the close-loop token whose
/// statement carries the same label, so the jump to the end label passes
/// the same tokens. At a close-loop token the machine repeats from the saved
/// open-loop token, whose statement carries the same label, so the jump to
/// the start label reaches the same body.
pub proof fn lemma_jumps_follow_the_machine(state: MachineState, at: CodeDebugToken)
    requires
        state.wf(),
        state.in_step(),
        well_nested(state.code.tokens),
        state.code.current() == Some(at),
    ensures
        at.token == CodeToken::StartLoop ==> {
            &&& state.code.matching_close() < state.code.tokens.len()
            &&& state.code.tokens[state.code.matching_close() as int].token == CodeToken::EndLoop
            &&& label_at(state.code.tokens, state.code.matching_close()) == label_at(
                state.code.tokens,
                state.code.position,
            )
        },
        at.token == CodeToken::EndLoop ==> {
            &&& state.loops.len() > 0
            &&& state.code.tokens[state.loops.last() as int].token == CodeToken::StartLoop
            &&& label_at(state.code.tokens, state.code.position) == label_at(
                state.code.tokens,
                state.loops.last() as nat,
            )
        },
{
    let tokens = state.code.tokens;
    let position = state.code.position;
    if at.token == CodeToken::StartLoop {
        lemma_well_nested_loops_close(tokens, position);
        lemma_scan_stops_at_matching_close(tokens, position + 1, 0);
        lemma_well_nested_is_transpiled(tokens, state.code.matching_close() + 1);
        lemma_jumps_pair_matching_tokens(tokens, position);
    } else if at.token == CodeToken::EndLoop {
        lemma_repeat_returns_to_matching_open(state, at);
        lemma_well_nested_is_transpiled(tokens, position + 1);
        lemma_jumps_pair_matching_tokens(tokens, state.loops.last() as nat);
    }
}

/// Loops are numbered in the order in which they open: the label of an
/// open-loop token is the number of open-loop tokens before it, so no two
/// loops share a label.
pub proof fn lemma_labels_count_loops(tokens: Seq<CodeDebugToken>, end: nat)
    requires
        end <= tokens.len(),
        draft(tokens, end) is Ok,
    ensures
        draft(tokens, end)->Ok_0.fresh == tokens.take(end as int).filter(
            |at: CodeDebugToken| at.token == CodeToken::StartLoop,
        ).len(),
    decreases end,
{
    reveal(Seq::filter);
    if end > 0 {
        let before = (end - 1) as nat;
        lemma_draft_so_far(tokens, before, end);
        lemma_labels_count_loops(tokens, before);
        assert(tokens.take(end as int).drop_last() == tokens.take(before as int));
    }
}

} // verus!
