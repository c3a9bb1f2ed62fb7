use voxstrike::controller::{HotkeyStep, RecordingController};
use voxstrike::keys::{KeyAction, KeySequence, KeyStroke};
use voxstrike::profiles::{Command, Config, Profile, Whisper};
use voxstrike::settings::CommandArguments;
use voxstrike::speech_to_text::{
    fold_count, fold_lengths, join_segments, FinishStep, Segment, StreamFinishProperties,
    SttStreamingState,
};
use voxstrike::text::{join_lines, normalize, strip_non_word};

fn command(name: &str, action: &str, modifiers: Option<Vec<&str>>) -> Command {
    Command {
        name: name.to_string(),
        action: action.to_string(),
        modifiers: modifiers.map(|m| m.into_iter().map(|s| s.to_string()).collect()),
    }
}

fn config(commands: Vec<Command>) -> Config {
    Config::new(Profile::new(
        "F1Key".to_string(),
        commands,
        Whisper { initial_prompt: String::new() },
    ))
}

fn properties() -> StreamFinishProperties<'static> {
    StreamFinishProperties { verbose: false, initial_prompt: "", halver_count: 1 }
}

#[test]
fn normalize_strips_and_lowercases() {
    assert_eq!(normalize("Throw Grenade."), "throwgrenade");
    assert_eq!(normalize("  Re-Load!! "), "reload");
    assert_eq!(normalize("Café au_lait 2"), "caféau_lait2");
    assert_eq!(normalize(""), "");
}

#[test]
fn normalize_twice_equals_once() {
    for s in ["Throw Grenade.", "ÉCLAIR, s'il vous plaît", "a_b-c d", "!!!", "Reload"] {
        let once = normalize(s);
        assert_eq!(normalize(&once), once);
    }
}

#[test]
fn strip_keeps_word_characters_only() {
    assert_eq!(strip_non_word("Hello, World_1!"), "HelloWorld_1");
    assert_eq!(strip_non_word("...."), "");
}

#[test]
fn prompt_lines_are_joined() {
    assert_eq!(join_lines("reload\n\nthrow grenade\nreinforce"), "reload throw grenade reinforce");
    assert_eq!(join_lines("no breaks"), "no breaks");
    let p = Profile::new("F1Key".to_string(), vec![], Whisper { initial_prompt: "a\nb".to_string() });
    assert_eq!(p.whisper.initial_prompt, "a b");
}

#[test]
fn lookup_finds_each_command_by_its_normalized_name() {
    let cfg = config(vec![
        command("Reload", "r", None),
        command("Throw Grenade", "g", None),
        command("Call Reinforcements!", "wasd", None),
    ]);
    for c in &cfg.profile.commands {
        let found = cfg.get_command(&normalize(&c.name)).expect("command must resolve");
        assert_eq!(found.name, c.name);
    }
    assert!(cfg.get_command("jump").is_none());
}

#[test]
fn empty_capture_finishes_with_empty_text() {
    let state: SttStreamingState<f32> = SttStreamingState::new();
    match state.finish_stream(&properties()) {
        FinishStep::Done(text) => assert_eq!(text, ""),
        FinishStep::Transcribe { .. } => panic!("an empty capture must not reach the engine"),
    }
}

#[test]
fn fed_samples_reach_the_engine_in_order() {
    let mut state: SttStreamingState<f32> = SttStreamingState::default();
    state.feed_audio(vec![0.1, 0.2]);
    state.feed_audio(vec![]);
    state.feed_audio(vec![0.3, 0.4, 0.5]);
    match state.finish_stream(&properties()) {
        FinishStep::Transcribe { samples, folds } => {
            assert_eq!(samples, vec![0.1, 0.2, 0.3, 0.4, 0.5]);
            assert_eq!(folds, 1);
        }
        FinishStep::Done(_) => panic!("fed samples must be transcribed"),
    }
}

#[test]
fn folding_stereo_once_halves_the_length() {
    assert_eq!(fold_count(2), 1);
    assert_eq!(fold_count(1), 0);
    assert_eq!(fold_count(0), 0);
    assert_eq!(fold_lengths(8, fold_count(2)), Some(4));
    assert_eq!(fold_lengths(7, 0), Some(7));
    assert_eq!(fold_lengths(6, 2), None);
    assert_eq!(fold_lengths(3, 1), None);
    assert_eq!(fold_lengths(16, 3), Some(2));
}

#[test]
fn scenario_empty_capture_injects_nothing() {
    let cfg = config(vec![command("reload", "r", None)]);
    let ctl: RecordingController<SttStreamingState<f32>> = RecordingController::new(cfg, 50);
    let text = match SttStreamingState::<f32>::new().finish_stream(&properties()) {
        FinishStep::Done(t) => t,
        FinishStep::Transcribe { .. } => panic!("nothing was fed"),
    };
    assert_eq!(normalize(&text), "");
    assert!(ctl.on_transcript(&text).is_none());
}

#[test]
fn scenario_throw_grenade_with_shift_held() {
    let cfg = config(vec![command("throw grenade", "g", Some(vec!["LShiftKey"]))]);
    assert_eq!(normalize("Throw Grenade."), normalize("throw grenade"));
    let found = cfg.get_command(&normalize("Throw Grenade.")).expect("grenade must resolve");
    assert_eq!(found.action, "g");
    let ctl: RecordingController<u8> = RecordingController::new(cfg, 25);
    let plan = ctl.on_transcript("Throw Grenade.").expect("grenade must resolve");
    assert_eq!(
        plan,
        vec![
            KeyAction::PressModifier("LShiftKey".to_string()),
            KeyAction::Type(KeyStroke { c: 'g', shift: false, delay_ms: 25 }),
            KeyAction::ReleaseModifier("LShiftKey".to_string()),
        ]
    );
}

#[test]
fn scenario_duplicate_names_resolve_to_the_later_command() {
    let cfg = config(vec![
        command("Reload", "first", None),
        command("jump", "j", None),
        command("re-load", "second", None),
    ]);
    assert_eq!(cfg.get_command("reload").expect("must resolve").action, "second");
    assert_eq!(cfg.command_index("reload"), Some(2));
    assert_eq!(cfg.command_index("jump"), Some(1));
}

#[test]
fn key_sequence_holds_shift_for_capitals_and_symbols() {
    let strokes = KeySequence("aB!1").send(10);
    assert_eq!(
        strokes,
        vec![
            KeyStroke { c: 'a', shift: false, delay_ms: 10 },
            KeyStroke { c: 'B', shift: true, delay_ms: 10 },
            KeyStroke { c: '!', shift: true, delay_ms: 10 },
            KeyStroke { c: '1', shift: false, delay_ms: 10 },
        ]
    );
}

#[test]
fn command_without_modifiers_only_types() {
    let plan = command("reload", "Rr", None).execute(50);
    assert_eq!(
        plan,
        vec![
            KeyAction::Type(KeyStroke { c: 'R', shift: true, delay_ms: 50 }),
            KeyAction::Type(KeyStroke { c: 'r', shift: false, delay_ms: 50 }),
        ]
    );
}

#[test]
fn segments_are_joined() {
    let segs = vec![
        Segment { text: " throw".to_string(), t0: 0, t1: 120 },
        Segment { text: " grenade".to_string(), t0: 120, t1: 250 },
    ];
    assert_eq!(join_segments(&segs, false), " throw\n grenade");
    assert_eq!(join_segments(&segs, true), "[0 - 120]:  throw\n[120 - 250]:  grenade\n");
    assert_eq!(join_segments(&vec![], false), "");
}

#[test]
fn controller_has_one_session_at_a_time() {
    let mut ctl: RecordingController<u32> = RecordingController::new(config(vec![]), 50);
    assert_eq!(ctl.on_hotkey_event(false), HotkeyStep::Ignore);
    assert_eq!(ctl.on_hotkey_event(true), HotkeyStep::StartRecording);
    ctl.start(7);
    assert_eq!(ctl.on_hotkey_event(true), HotkeyStep::KeepRecording);
    assert_eq!(ctl.on_hotkey_event(false), HotkeyStep::Ignore);
    assert_eq!(ctl.on_release(), Some(7));
    assert_eq!(ctl.on_release(), None);
    assert_eq!(ctl.on_hotkey_event(true), HotkeyStep::StartRecording);
}

#[test]
fn default_arguments() {
    let a = CommandArguments::new();
    assert_eq!(a.audio_in, "default");
    assert_eq!(a.model_path, "ggml-base.en.bin");
    assert_eq!(a.profile_path, "profiles/helldivers2.toml");
    assert_eq!(a.key_delay, 50);
}

#[test]
fn verbose_lines_print_signed_times() {
    let segs = vec![
        Segment { text: "a".to_string(), t0: -5, t1: 0 },
        Segment { text: "b".to_string(), t0: i64::MIN, t1: i64::MAX },
        Segment { text: "".to_string(), t0: 9, t1: 10 },
    ];
    assert_eq!(
        join_segments(&segs, true),
        "[-5 - 0]: a\n[-9223372036854775808 - 9223372036854775807]: b\n[9 - 10]: \n"
    );
}

#[test]
fn empty_text_matches_no_named_command() {
    let cfg = config(vec![command("reload", "r", None), command("Fire!", "f", None)]);
    assert_eq!(cfg.get_command(&normalize("")).map(|c| c.action.clone()), None);
    assert_eq!(cfg.get_command(&normalize("...")).map(|c| c.action.clone()), None);
}
