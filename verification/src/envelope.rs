//! The stage machine of the ADSR envelope generator.
//!
//! The envelope's level is a floating-point ramp computed by the audio
//! engine; what is decided here is which stage the envelope is in. Each
//! decision that depends on the level takes the outcome of the level
//! comparison as a `bool`.

use vstd::prelude::*;

verus! {

/// The different stages of the envelope.
#[derive(Debug, Clone, Copy, PartialEq, Eq, Structural)]
pub enum Stage {
    Idle,
    Attack,
    Decay,
    Sustain,
    Release,
}

/// The stage an envelope moves to after one sample, given whether the level
/// reached the end of the current ramp during that sample: full level in
/// Attack, the sustain level in Decay, zero in Release. Idle and Sustain hold.
pub open spec fn stage_after_sample(stage: Stage, ramp_done: bool) -> Stage {
    match stage {
        Stage::Attack => if ramp_done { Stage::Decay } else { Stage::Attack },
        Stage::Decay => if ramp_done { Stage::Sustain } else { Stage::Decay },
        Stage::Release => if ramp_done { Stage::Idle } else { Stage::Release },
        _ => stage,
    }
}

/// The stage an envelope moves to after one processed sample.
///
/// `ramp_done` is true when the level crossed the target of the current
/// ramp (reached 1.0 in Attack, fell to the sustain level in Decay, fell to
/// 0.0 in Release).
pub fn next_stage(stage: Stage, ramp_done: bool) -> (next: Stage)
    ensures
        next == stage_after_sample(stage, ramp_done),
{
    match stage {
        Stage::Attack => if ramp_done { Stage::Decay } else { Stage::Attack },
        Stage::Decay => if ramp_done { Stage::Sustain } else { Stage::Decay },
        Stage::Release => if ramp_done { Stage::Idle } else { Stage::Release },
        Stage::Idle => Stage::Idle,
        Stage::Sustain => Stage::Sustain,
    }
}

/// The stage an envelope enters when a note is triggered: always Attack.
pub fn stage_on_note_on() -> (next: Stage)
    ensures
        next == Stage::Attack,
{
    Stage::Attack
}

/// The stage an envelope enters when its note is released.
///
/// `has_level_to_release` is true when the envelope's level is above zero
/// and the release time is not zero; otherwise the envelope drops straight
/// to Idle, so that a release can never leave it stuck.
pub fn stage_on_note_off(has_level_to_release: bool) -> (next: Stage)
    ensures
        next == (if has_level_to_release { Stage::Release } else { Stage::Idle }),
{
    if has_level_to_release {
        Stage::Release
    } else {
        Stage::Idle
    }
}

/// A voice is active while its amplitude envelope is not Idle.
pub open spec fn stage_is_active(stage: Stage) -> bool {
    stage != Stage::Idle
}

/// A voice is sounding (held) while its amplitude envelope is in Attack,
/// Decay or Sustain.
pub open spec fn stage_is_held(stage: Stage) -> bool {
    stage != Stage::Idle && stage != Stage::Release
}

/// Whether a voice whose amplitude envelope is in `stage` is active.
pub fn is_active(stage: Stage) -> (active: bool)
    ensures
        active == stage_is_active(stage),
{
    match stage {
        Stage::Idle => false,
        _ => true,
    }
}

/// Whether a voice whose amplitude envelope is in `stage` is in its
/// attack, decay or sustain phase.
pub fn is_active_no_release(stage: Stage) -> (held: bool)
    ensures
        held == stage_is_held(stage),
{
    match stage {
        Stage::Idle => false,
        Stage::Release => false,
        _ => true,
    }
}

/// Position of a stage in the note lifecycle: Idle, then Attack, Decay,
/// Sustain, Release.
pub open spec fn stage_rank(stage: Stage) -> int {
    match stage {
        Stage::Idle => 0,
        Stage::Attack => 1,
        Stage::Decay => 2,
        Stage::Sustain => 3,
        Stage::Release => 4,
    }
}

/// Between note events an envelope only moves forward through its
/// lifecycle, one stage at a time, except that a finished release returns
/// it to Idle.
pub proof fn lemma_stages_only_advance(stage: Stage, ramp_done: bool)
    ensures
        ({
            let next = stage_after_sample(stage, ramp_done);
            next == stage || stage_rank(next) == stage_rank(stage) + 1 || (stage
                == Stage::Release && next == Stage::Idle)
        }),
{
}

/// A releasing envelope whose ramp finishes is Idle, and an Idle envelope
/// stays Idle until the next note: a release always ends the note.
pub proof fn lemma_release_ends_in_idle(ramp_done_steps: Seq<bool>)
    requires
        ramp_done_steps.contains(true),
    ensures
        stages_after(Stage::Release, ramp_done_steps) == Stage::Idle,
    decreases ramp_done_steps.len(),
{
    if ramp_done_steps[0] {
        lemma_idle_stays_idle(ramp_done_steps.drop_first());
        assert(stages_after(Stage::Release, ramp_done_steps) == stages_after(
            Stage::Idle,
            ramp_done_steps.drop_first(),
        ));
    } else {
        let i = choose|i: int| 0 <= i < ramp_done_steps.len() && ramp_done_steps[i];
        assert(ramp_done_steps.drop_first()[i - 1]);
        lemma_release_ends_in_idle(ramp_done_steps.drop_first());
    }
}

/// The stage reached from `stage` after one sample per entry of `steps`.
pub open spec fn stages_after(stage: Stage, steps: Seq<bool>) -> Stage
    decreases steps.len(),
{
    if steps.len() == 0 {
        stage
    } else {
        stages_after(stage_after_sample(stage, steps[0]), steps.drop_first())
    }
}

/// An Idle envelope stays Idle whatever the samples.
pub proof fn lemma_idle_stays_idle(steps: Seq<bool>)
    ensures
        stages_after(Stage::Idle, steps) == Stage::Idle,
    decreases steps.len(),
{
    if steps.len() > 0 {
        lemma_idle_stays_idle(steps.drop_first());
    }
}

} // verus!
