//! The environment the engine runs under: whether output is piped, whether
//! colour is wanted, and whether a caller may be prompted. The engine's core
//! never prompts; these flags belong to the presentation layers around it,
//! which compute them from the terminal and environment and hand them in as
//! plain values.

use vstd::prelude::*;

verus! {

/// How the process is being driven: an interactive terminal, or a pipe.
#[derive(PartialEq, Eq, Structural)]
pub enum Mode {
    Cli,
    Pipe,
}

/// The flags the engine's callers consult.
#[derive(Clone, Copy)]
pub struct EnvCtx {
    pub is_pipe: bool,
    pub color_enabled: bool,
    pub can_prompt: bool,
}

impl EnvCtx {
    /// The environment of a background invocation: no terminal, no colour,
    /// no prompting.
    pub fn background() -> (r: Self)
        ensures
            !r.is_pipe,
            !r.color_enabled,
            !r.can_prompt,
    {
        Self { is_pipe: false, color_enabled: false, can_prompt: false }
    }

    /// The environment implied by a driving mode and the caller's
    /// colour-suppression setting: piped output disables colour and
    /// prompting; a set no-colour flag disables colour everywhere.
    pub fn from_mode(mode: Mode, no_color_set: bool) -> (r: Self)
        ensures
            r.is_pipe == (mode is Pipe),
            r.color_enabled == (!no_color_set && mode is Cli),
            r.can_prompt == (mode is Cli),
    {
        let is_pipe: bool = match mode {
            Mode::Cli => false,
            Mode::Pipe => true,
        };
        Self { is_pipe, color_enabled: !no_color_set && !is_pipe, can_prompt: !is_pipe }
    }
}

} // verus!
