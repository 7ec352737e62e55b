use crate::input::{Message, MessageView};
use vstd::prelude::*;

verus! {

/// What the audio runner does with one received message.
#[derive(Debug, PartialEq)]
pub enum RunnerAction {
    /// Replace the current playback with this file at this volume.
    Play(String, u32),
    /// Silence the current playback.
    Silence,
    /// Silence the current playback and end the runner.
    Terminate,
    /// Do nothing: the message means nothing to the runner.
    Ignore,
}

/// The mathematical picture of a runner action.
#[verifier::ext_equal]
pub enum RunnerActionView {
    Play(Seq<char>, u32),
    Silence,
    Terminate,
    Ignore,
}

impl View for RunnerAction {
    type V = RunnerActionView;

    open spec fn view(&self) -> RunnerActionView {
        match self {
            RunnerAction::Play(f, v) => RunnerActionView::Play(f@, *v),
            RunnerAction::Silence => RunnerActionView::Silence,
            RunnerAction::Terminate => RunnerActionView::Terminate,
            RunnerAction::Ignore => RunnerActionView::Ignore,
        }
    }
}

/// The audio runner's reaction to each message: `AudioAndVolume` starts or
/// replaces playback, `StopAlarm` silences it, `Quit` silences it and ends
/// the runner, and an unrecognized message is ignored without diagnostic.
/// Only `StopAlarm` and `Quit` ever cancel playback.
pub open spec fn spec_runner_step(m: MessageView) -> RunnerActionView {
    match m {
        MessageView::AudioAndVolume(f, v) => RunnerActionView::Play(f, v),
        MessageView::StopAlarm => RunnerActionView::Silence,
        MessageView::Quit => RunnerActionView::Terminate,
        _ => RunnerActionView::Ignore,
    }
}

/// Decides what the audio runner does with one message.
pub fn runner_step(m: Message) -> (r: RunnerAction)
    ensures
        r@ == spec_runner_step(m@),
{
    match m {
        Message::AudioAndVolume(f, v) => RunnerAction::Play(f, v),
        Message::StopAlarm => RunnerAction::Silence,
        Message::Quit => RunnerAction::Terminate,
        _ => RunnerAction::Ignore,
    }
}

/// A volume in percent, lowered to at most 100.
pub open spec fn spec_clamp_volume(v: u32) -> u32 {
    if v > 100 {
        100
    } else {
        v
    }
}

/// Clamps a volume into [0, 100] percent. The output gain handed to the
/// audio device is this value over 100, so 0 maps to gain 0, 50 to gain 1/2,
/// and 100 and everything above it to gain 1.
pub fn clamp_volume(v: u32) -> (r: u32)
    ensures
        r == spec_clamp_volume(v),
        r <= 100,
{
    if v > 100 {
        100
    } else {
        v
    }
}

/// The volume-to-gain mapping is monotone: a louder setting never yields a
/// smaller gain.
pub proof fn lemma_clamp_volume_monotone(v1: u32, v2: u32)
    requires
        v1 <= v2,
    ensures
        spec_clamp_volume(v1) <= spec_clamp_volume(v2),
{
}

} // verus!
