//! What a caller hands to spawn, and the environment a spawned process gets.

use vstd::prelude::*;

verus! {

/// Options for spawning a PTY: the command path, its ordered argument list,
/// the working directory, the initial terminal geometry (both dimensions
/// must be positive) and extra environment entries layered over the base
/// process environment (keys unique; later entries take precedence when the
/// host applies them in order).
pub struct SpawnOptions {
    pub cmd: String,
    pub args: Vec<String>,
    pub cwd: String,
    pub cols: u16,
    pub rows: u16,
    pub env: Vec<(String, String)>,
}

impl SpawnOptions {
    /// Both terminal dimensions are positive.
    pub open spec fn valid_geometry(&self) -> bool {
        self.cols > 0 && self.rows > 0
    }

    /// Runtime check for `valid_geometry`.
    pub fn has_valid_geometry(&self) -> (r: bool)
        ensures
            r == self.valid_geometry(),
    {
        self.cols > 0 && self.rows > 0
    }
}

/// The environment key every spawned process has forced.
pub open spec fn term_key() -> Seq<char> {
    "TERM"@
}

/// The value the forced key is bound to, for consistent escape-sequence
/// behaviour downstream.
pub open spec fn term_value() -> Seq<char> {
    "xterm-256color"@
}

/// The value bound to `key` by a list of environment entries applied in
/// order: the last entry with that key wins; `None` when no entry binds it.
pub open spec fn env_value_of(entries: Seq<(String, String)>, key: Seq<char>) -> Option<Seq<char>>
    decreases entries.len(),
{
    if entries.len() == 0 {
        None
    } else if entries.last().0@ == key {
        Some(entries.last().1@)
    } else {
        env_value_of(entries.drop_last(), key)
    }
}

/// How `merged_env` relates its input to its output: every caller entry kept
/// in order, with the forced TERM binding appended last.
pub open spec fn is_merged_env(env: Seq<(String, String)>, merged: Seq<(String, String)>) -> bool {
    &&& merged.len() == env.len() + 1
    &&& forall|i: int| 0 <= i < env.len() ==> merged[i] == env[i]
    &&& merged.last().0@ == term_key()
    &&& merged.last().1@ == term_value()
}

/// The environment a spawned process receives on top of the base process
/// environment: the caller's entries in order, then `TERM=xterm-256color`,
/// appended last so that it takes precedence over any caller binding.
pub fn merged_env(env: Vec<(String, String)>) -> (r: Vec<(String, String)>)
    ensures
        is_merged_env(env@, r@),
{
    let mut merged = env;
    merged.push(("TERM".to_owned(), "xterm-256color".to_owned()));
    merged
}

/// Law (forced TERM): in the merged environment, TERM is bound to
/// `xterm-256color` whatever the caller supplied, and every other key is
/// bound exactly as the caller bound it.
pub proof fn lemma_merged_env_forces_term(env: Seq<(String, String)>, merged: Seq<(String, String)>)
    requires
        is_merged_env(env, merged),
    ensures
        env_value_of(merged, term_key()) == Some(term_value()),
        forall|key: Seq<char>|
            key != term_key() ==> #[trigger] env_value_of(merged, key) == env_value_of(env, key),
{
    assert(merged.drop_last() =~= env);
    assert forall|key: Seq<char>|
        key != term_key() implies #[trigger] env_value_of(merged, key) == env_value_of(
        env,
        key,
    ) by {
        assert(merged.last().0@ != key);
        assert(env_value_of(merged, key) == env_value_of(merged.drop_last(), key));
    }
}

} // verus!
