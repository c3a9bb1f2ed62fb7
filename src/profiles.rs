//! Profiles: the command table, its lookup by normalized name, and command plans.
use vstd::prelude::*;
use crate::keys::{strokes_of, KeyAction, KeySequence, KeyStroke};
use crate::text::{collapse_newlines, has_ascii_word_char, join_lines, normalize, normalized};

verus! {

/// A voice command: its spoken name, the text it types, and the modifier keys
/// held while typing (named as in the profile, e.g. `LShiftKey`).
#[derive(Clone, Debug)]
pub struct Command {
    pub name: String,
    pub action: String,
    pub modifiers: Option<Vec<String>>,
}

/// The modifier names of a command, empty when it has none.
pub open spec fn modifier_names(m: Option<Vec<String>>) -> Seq<String> {
    match m {
        Some(v) => v@,
        None => Seq::empty(),
    }
}

/// The plan of a command: press its modifiers, type its action, release its modifiers.
pub open spec fn command_plan(cmd: Command, delay_ms: u64) -> Seq<KeyAction> {
    let mods = modifier_names(cmd.modifiers);
    mods.map_values(|m: String| KeyAction::PressModifier(m))
        + strokes_of(cmd.action@, delay_ms).map_values(|k: KeyStroke| KeyAction::Type(k))
        + mods.map_values(|m: String| KeyAction::ReleaseModifier(m))
}

fn modifier_actions(mods: &Vec<String>, press: bool) -> (r: Vec<KeyAction>)
    ensures
        r@ == mods@.map_values(
            |m: String| if press { KeyAction::PressModifier(m) } else { KeyAction::ReleaseModifier(m) },
        ),
{
    let mut out: Vec<KeyAction> = Vec::new();
    let mut i: usize = 0;
    while i < mods.len()
        invariant
            i <= mods@.len(),
            out@ == mods@.subrange(0, i as int).map_values(
                |m: String| if press { KeyAction::PressModifier(m) } else { KeyAction::ReleaseModifier(m) },
            ),
        decreases mods@.len() - i,
    {
        let m = mods[i].clone();
        if press {
            out.push(KeyAction::PressModifier(m));
        } else {
            out.push(KeyAction::ReleaseModifier(m));
        }
        assert(mods@.subrange(0, i + 1) == mods@.subrange(0, i as int).push(mods@[i as int]));
        i = i + 1;
    }
    assert(mods@.subrange(0, mods@.len() as int) == mods@);
    out
}

impl Command {
    /// The key events that run this command, with `key_delay_ms` between press and
    /// release of each character.
    pub fn execute(&self, key_delay_ms: u64) -> (r: Vec<KeyAction>)
        ensures
            r@ == command_plan(*self, key_delay_ms),
    {
        let no_mods: Vec<String> = Vec::new();
        let mods = match &self.modifiers {
            Some(m) => m,
            None => &no_mods,
        };
        let mut out = modifier_actions(mods, true);
        let strokes = KeySequence(self.action.as_str()).send(key_delay_ms);
        let mut i: usize = 0;
        let ghost head = out@;
        while i < strokes.len()
            invariant
                i <= strokes@.len(),
                out@ == head + strokes@.subrange(0, i as int).map_values(|k: KeyStroke| KeyAction::Type(k)),
            decreases strokes@.len() - i,
        {
            out.push(KeyAction::Type(strokes[i]));
            assert(strokes@.subrange(0, i + 1) == strokes@.subrange(0, i as int).push(strokes@[i as int]));
            i = i + 1;
        }
        assert(strokes@.subrange(0, strokes@.len() as int) == strokes@);
        let mut tail = modifier_actions(mods, false);
        out.append(&mut tail);
        assert(mods@ == modifier_names(self.modifiers));
        out
    }
}

/// Settings handed to the transcription engine.
#[derive(Clone, Debug)]
pub struct Whisper {
    pub initial_prompt: String,
}

/// A profile: the key that records, the commands in load order, engine settings.
#[derive(Clone, Debug)]
pub struct Profile {
    pub record_keybind: String,
    pub commands: Vec<Command>,
    pub whisper: Whisper,
}

impl Profile {
    /// A profile from its parsed parts; the initial prompt's lines are joined by spaces.
    pub fn new(record_keybind: String, commands: Vec<Command>, whisper: Whisper) -> (r: Self)
        ensures
            r.record_keybind == record_keybind,
            r.commands@ == commands@,
            r.whisper.initial_prompt@ == collapse_newlines(whisper.initial_prompt@),
    {
        let initial_prompt = join_lines(whisper.initial_prompt.as_str());
        Profile { record_keybind, commands, whisper: Whisper { initial_prompt } }
    }
}

/// The lookup keys of a command list: each name, normalized, in load order.
pub open spec fn command_keys(cmds: Seq<Command>) -> Seq<Seq<char>> {
    cmds.map_values(|c: Command| normalized(c.name@))
}

/// Every command whose name has an ASCII word character has a non-empty key.
pub open spec fn nonempty_keys(cmds: Seq<Command>) -> bool {
    forall|i: int|
        0 <= i < cmds.len() && has_ascii_word_char(#[trigger] cmds[i].name@) ==> normalized(
            cmds[i].name@,
        ).len() > 0
}

/// The last position whose key is `k`, if any: a later entry overrides an earlier one.
pub open spec fn last_match(keys: Seq<Seq<char>>, k: Seq<char>) -> Option<int>
    decreases keys.len(),
{
    if keys.len() == 0 {
        None
    } else if keys.last() == k {
        Some(keys.len() - 1)
    } else {
        last_match(keys.drop_last(), k)
    }
}

/// A match found by `last_match` is a position of `keys` that holds `k`.
pub proof fn lemma_last_match_in_bounds(keys: Seq<Seq<char>>, k: Seq<char>)
    ensures
        last_match(keys, k) matches Some(i) ==> 0 <= i < keys.len() && keys[i] == k,
    decreases keys.len(),
{
    if keys.len() > 0 && keys.last() != k {
        lemma_last_match_in_bounds(keys.drop_last(), k);
    }
}

/// The last position that holds `k` is what `last_match` finds.
pub proof fn lemma_last_match_is_last(keys: Seq<Seq<char>>, k: Seq<char>, i: int)
    requires
        0 <= i < keys.len(),
        keys[i] == k,
        forall|j: int| i < j < keys.len() ==> keys[j] != k,
    ensures
        last_match(keys, k) == Some(i),
    decreases keys.len(),
{
    if keys.last() != k {
        lemma_last_match_is_last(keys.drop_last(), k, i);
    }
}

/// Resolving the normalized name of a command finds that command, unless a later
/// command has the same normalized name.
pub proof fn lemma_lookup_equivalence(cmds: Seq<Command>, i: int)
    requires
        0 <= i < cmds.len(),
        forall|j: int| i < j < cmds.len() ==> normalized(#[trigger] cmds[j].name@) != normalized(cmds[i].name@),
    ensures
        last_match(command_keys(cmds), normalized(cmds[i].name@)) == Some(i),
{
    let keys = command_keys(cmds);
    assert forall|j: int| i < j < keys.len() implies keys[j] != normalized(cmds[i].name@) by {
        assert(keys[j] == normalized(cmds[j].name@));
    }
    lemma_last_match_is_last(keys, normalized(cmds[i].name@), i);
}

/// Of two commands with the same normalized name, resolving that name never finds
/// the earlier one.
pub proof fn lemma_later_duplicate_wins(cmds: Seq<Command>, i: int, j: int)
    requires
        0 <= i < j < cmds.len(),
        normalized(cmds[i].name@) == normalized(cmds[j].name@),
    ensures
        last_match(command_keys(cmds), normalized(cmds[i].name@)) matches Some(m) && i < m,
{
    let keys = command_keys(cmds);
    let k = normalized(cmds[i].name@);
    assert(keys[j] == k);
    lemma_last_match_at_least(keys, k, j);
}

/// `last_match` finds a position no earlier than any position that holds `k`.
pub proof fn lemma_last_match_at_least(keys: Seq<Seq<char>>, k: Seq<char>, j: int)
    requires
        0 <= j < keys.len(),
        keys[j] == k,
    ensures
        last_match(keys, k) matches Some(m) && j <= m,
    decreases keys.len(),
{
    if keys.last() != k {
        lemma_last_match_at_least(keys.drop_last(), k, j);
    }
}

/// A loaded profile with its command lookup table.
#[derive(Debug)]
pub struct Config {
    pub profile: Profile,
    /// normalized command names, position for position with `profile.commands`;
    /// searched from the end so that a later duplicate wins (vstd models no
    /// hash-map key for `String`, so a verified lookup scans)
    pub command_map: Vec<String>,
}

impl Config {
    /// The lookup table matches the profile's commands, and a name with an ASCII
    /// word character has a non-empty key.
    pub open spec fn wf(&self) -> bool {
        &&& self.command_map@.map_values(|s: String| s@) == command_keys(self.profile.commands@)
        &&& nonempty_keys(self.profile.commands@)
    }

    /// Builds the lookup table from the normalized name of each command.
    pub fn new(profile: Profile) -> (r: Self)
        ensures
            r.wf(),
            r.profile == profile,
    {
        let mut command_map: Vec<String> = Vec::new();
        let mut i: usize = 0;
        while i < profile.commands.len()
            invariant
                i <= profile.commands@.len(),
                command_map@.map_values(|s: String| s@) == command_keys(profile.commands@.subrange(0, i as int)),
                nonempty_keys(profile.commands@.subrange(0, i as int)),
            decreases profile.commands@.len() - i,
        {
            let key = normalize(profile.commands[i].name.as_str());
            command_map.push(key);
            assert(profile.commands@.subrange(0, i + 1) == profile.commands@.subrange(0, i as int).push(profile.commands@[i as int]));
            assert(command_map@.map_values(|s: String| s@) == command_keys(profile.commands@.subrange(0, i as int)).push(key@));
            assert(nonempty_keys(profile.commands@.subrange(0, i + 1))) by {
                let next = profile.commands@.subrange(0, i + 1);
                assert forall|j: int| 0 <= j < next.len() && has_ascii_word_char(#[trigger] next[j].name@)
                    implies normalized(next[j].name@).len() > 0 by {
                    if j < i {
                        assert(next[j] == profile.commands@.subrange(0, i as int)[j]);
                    }
                }
            }
            i = i + 1;
        }
        assert(profile.commands@.subrange(0, profile.commands@.len() as int) == profile.commands@);
        Config { profile, command_map }
    }

    /// The position of the command whose normalized name is `command_name`; the
    /// last one loaded wins.
    pub fn command_index(&self, command_name: &str) -> (r: Option<usize>)
        requires
            self.wf(),
        ensures
            r matches Some(i) ==> last_match(command_keys(self.profile.commands@), command_name@) == Some(i as int),
            r is None ==> last_match(command_keys(self.profile.commands@), command_name@) is None,
    {
        let ghost keys = command_keys(self.profile.commands@);
        let mut i: usize = self.command_map.len();
        let target = command_name.to_owned();
        assert(keys.subrange(0, i as int) == keys);
        while i > 0
            invariant
                self.wf(),
                keys == command_keys(self.profile.commands@),
                i <= keys.len(),
                target@ == command_name@,
                last_match(keys, command_name@) == last_match(keys.subrange(0, i as int), command_name@),
            decreases i,
        {
            let ghost pre = keys.subrange(0, i as int);
            assert(self.command_map@[i - 1]@ == keys[i - 1]);
            if self.command_map[i - 1] == target {
                return Some(i - 1);
            }
            assert(pre.drop_last() == keys.subrange(0, i - 1));
            i = i - 1;
        }
        None
    }

    /// The command whose normalized name is `command_name`; the last one loaded wins.
    pub fn get_command(&self, command_name: &str) -> (r: Option<&Command>)
        requires
            self.wf(),
        ensures
            match last_match(command_keys(self.profile.commands@), command_name@) {
                Some(i) => r matches Some(c) && *c == self.profile.commands@[i],
                None => r is None,
            },
    {
        proof {
            lemma_last_match_in_bounds(command_keys(self.profile.commands@), command_name@);
        }
        match self.command_index(command_name) {
            Some(i) => Some(&self.profile.commands[i]),
            None => None,
        }
    }
}

} // verus!
