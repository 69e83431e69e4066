//! The main loop's per-iteration decision.
//!
//! Each iteration evaluates a fresh trigger — the consumed edge latch,
//! or the live button level — and either renders one pass or emits one
//! diagnostic line and parks the processor until any interrupt wakes
//! it.  No state persists from one iteration to the next: the decision
//! is a function of the iteration's inputs alone.

use vstd::prelude::*;
use crate::latch::EdgeLatch;
use crate::latch::LatchEvent;

verus! {

/// One externally visible effect of a main-loop iteration, to be
/// performed by the embedding shell in list order.
#[derive(Clone, Copy, PartialEq, Eq, Structural, Debug)]
pub enum Effect {
    /// Run one full render pass over the bitmap.
    RenderPass,
    /// Write one diagnostic line to the serial sink.
    EmitDiagnostic,
    /// Park the processor in the low-power wait until any interrupt
    /// wakes it.
    Sleep,
}

/// The effects of one iteration, as a function of the trigger inputs
/// alone: a pending edge or an engaged button yields exactly one
/// render pass; otherwise one diagnostic line, then the idle wait.
pub open spec fn step_effects(edge_pending: bool, engaged: bool) -> Seq<Effect> {
    if edge_pending || engaged {
        seq![Effect::RenderPass]
    } else {
        seq![Effect::EmitDiagnostic, Effect::Sleep]
    }
}

/// How many diagnostic lines a list of effects emits.
pub open spec fn diagnostics_in(effects: Seq<Effect>) -> nat
    decreases effects.len(),
{
    if effects.len() == 0 {
        0
    } else {
        diagnostics_in(effects.drop_last()) + if effects.last() == Effect::EmitDiagnostic {
            1nat
        } else {
            0nat
        }
    }
}

/// The decision alone, from the consumed edge value and the button
/// verdict.  `step` uses it, and so does the embedding shell, which
/// hands it the prior value its atomic exchange on the latch word
/// returned.
pub fn decide(edge_was_pending: bool, engaged: bool) -> (effects: Vec<Effect>)
    ensures
        effects@ == step_effects(edge_was_pending, engaged),
{
    let mut effects: Vec<Effect> = Vec::new();
    if edge_was_pending || engaged {
        effects.push(Effect::RenderPass);
        proof {
            assert(effects@ =~= step_effects(edge_was_pending, engaged));
        }
    } else {
        effects.push(Effect::EmitDiagnostic);
        effects.push(Effect::Sleep);
        proof {
            assert(effects@ =~= step_effects(edge_was_pending, engaged));
        }
    }
    effects
}

/// One iteration of the main loop's decision: consume the latch, take
/// the button sample's verdict, and return the effects to perform, in
/// order.  The latch is consumed every iteration, whether or not its
/// value ends up deciding the trigger.
pub fn step(latch: &mut EdgeLatch, engaged: bool) -> (effects: Vec<Effect>)
    requires
        old(latch).wf(),
    ensures
        final(latch).wf(),
        !final(latch).pending(),
        final(latch).history() == old(latch).history().push(LatchEvent::Poll),
        effects@ == step_effects(old(latch).pending(), engaged),
{
    let edge = latch.test_and_clear();
    decide(edge, engaged)
}

/// While the button is engaged at the instant the trigger is
/// evaluated, the iteration performs a render pass, whatever the latch
/// held.
pub proof fn lemma_engaged_forces_render(edge_pending: bool)
    ensures
        step_effects(edge_pending, true) == seq![Effect::RenderPass],
        step_effects(edge_pending, true).contains(Effect::RenderPass),
{
    assert(step_effects(edge_pending, true)[0] == Effect::RenderPass);
}

/// An idle iteration — no pending edge, button not engaged — emits
/// exactly one diagnostic line, and only then parks the processor; a
/// rendering iteration emits none.  Waking re-enters `step` with fresh
/// inputs, so nothing is re-emitted on resume.
pub proof fn lemma_idle_emits_one_diagnostic(edge_pending: bool, engaged: bool)
    ensures
        !edge_pending && !engaged ==> {
            let effects = step_effects(edge_pending, engaged);
            diagnostics_in(effects) == 1 && effects.first() == Effect::EmitDiagnostic
                && effects.last() == Effect::Sleep
        },
        edge_pending || engaged ==> diagnostics_in(step_effects(edge_pending, engaged)) == 0,
{
    reveal_with_fuel(diagnostics_in, 3);
    if !edge_pending && !engaged {
        let effects = step_effects(edge_pending, engaged);
        assert(effects.drop_last() =~= seq![Effect::EmitDiagnostic]);
        assert(seq![Effect::EmitDiagnostic].drop_last() =~= Seq::<Effect>::empty());
    } else {
        let effects = step_effects(edge_pending, engaged);
        assert(effects.drop_last() =~= Seq::<Effect>::empty());
    }
}

} // verus!
