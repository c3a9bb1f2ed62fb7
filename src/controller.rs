//! The hold-to-talk controller: one recording slot, started on key-down, emptied on
//! release, and the transcript resolved to a command plan.
use vstd::prelude::*;
use crate::keys::KeyAction;
use crate::profiles::{command_keys, command_plan, last_match, lemma_last_match_in_bounds, Config};
use crate::text::{has_ascii_word_char, normalize, normalized, word_chars};

verus! {

/// What a hotkey event asks of the host.
#[derive(Clone, Copy, Debug, PartialEq, Eq)]
pub enum HotkeyStep {
    /// The key is not down: a stale event, nothing to do.
    Ignore,
    /// Open a capture stream and hand the session to `start`; then wait for release.
    StartRecording,
    /// A session is already recording: wait for release.
    KeepRecording,
}

/// The single recording slot and the command table it resolves against.
pub struct RecordingController<S> {
    pub slot: Option<S>,
    pub config: Config,
    pub key_delay_ms: u64,
}

impl<S> RecordingController<S> {
    /// A controller with no session.
    pub fn new(config: Config, key_delay_ms: u64) -> (r: Self)
        ensures
            r.slot is None,
            r.config == config,
            r.key_delay_ms == key_delay_ms,
    {
        RecordingController { slot: None, config, key_delay_ms }
    }

    /// Decides what a hotkey event does, given whether the key is down right now.
    pub fn on_hotkey_event(&self, key_down: bool) -> (r: HotkeyStep)
        ensures
            !key_down ==> r == HotkeyStep::Ignore,
            key_down && self.slot is None ==> r == HotkeyStep::StartRecording,
            key_down && self.slot is Some ==> r == HotkeyStep::KeepRecording,
    {
        if !key_down {
            HotkeyStep::Ignore
        } else if self.slot.is_none() {
            HotkeyStep::StartRecording
        } else {
            HotkeyStep::KeepRecording
        }
    }

    /// Puts a newly opened session in the empty slot.
    pub fn start(&mut self, session: S)
        requires
            old(self).slot is None,
        ensures
            final(self).slot == Some(session),
            final(self).config == old(self).config,
            final(self).key_delay_ms == old(self).key_delay_ms,
    {
        self.slot = Some(session);
    }

    /// On release, takes the session out of the slot, leaving it empty; `None` when
    /// there was none.
    pub fn on_release(&mut self) -> (r: Option<S>)
        ensures
            r == old(self).slot,
            final(self).slot is None,
            final(self).config == old(self).config,
            final(self).key_delay_ms == old(self).key_delay_ms,
    {
        self.slot.take()
    }

    /// The key plan for a transcript: the command whose normalized name equals the
    /// normalized transcript (the last loaded on a tie), or `None` for no match.
    pub fn on_transcript(&self, transcript: &str) -> (r: Option<Vec<KeyAction>>)
        requires
            self.config.wf(),
        ensures
            match last_match(command_keys(self.config.profile.commands@), normalized(transcript@)) {
                Some(i) => (r matches Some(v) && v@ == command_plan(
                    self.config.profile.commands@[i],
                    self.key_delay_ms,
                )),
                None => r is None,
            },
            word_chars(transcript@).len() == 0 && (forall|i: int|
                0 <= i < self.config.profile.commands@.len() ==> has_ascii_word_char(
                    #[trigger] self.config.profile.commands@[i].name@,
                )) ==> r is None,
    {
        let key = normalize(transcript);
        proof {
            let keys = command_keys(self.config.profile.commands@);
            lemma_last_match_in_bounds(keys, key@);
            if let Some(i) = last_match(keys, key@) {
                assert(keys[i] == normalized(self.config.profile.commands@[i].name@));
            }
        }
        match self.config.get_command(key.as_str()) {
            Some(c) => Some(c.execute(self.key_delay_ms)),
            None => None,
        }
    }
}

} // verus!
