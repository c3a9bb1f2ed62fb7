//! Start-up settings.
use vstd::prelude::*;

verus! {

/// Where audio comes from, which model and profile to load, and how long each
/// synthetic key is held.
#[derive(Clone, Debug)]
pub struct CommandArguments {
    /// Name of the audio input device, or `default`.
    pub audio_in: String,
    /// Path of the transcription model.
    pub model_path: String,
    /// Path of the profile with the commands.
    pub profile_path: String,
    /// Milliseconds between press and release of each typed key.
    pub key_delay: u64,
}

impl CommandArguments {
    /// The settings used when none is given.
    pub fn new() -> (r: Self)
        ensures
            r.audio_in@ == "default"@,
            r.model_path@ == "ggml-base.en.bin"@,
            r.profile_path@ == "profiles/helldivers2.toml"@,
            r.key_delay == 50,
    {
        CommandArguments {
            audio_in: "default".to_owned(),
            model_path: "ggml-base.en.bin".to_owned(),
            profile_path: "profiles/helldivers2.toml".to_owned(),
            key_delay: 50,
        }
    }
}

} // verus!
