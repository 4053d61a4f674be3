//! Controller decisions: input dispatch and render-loop pacing.
//!
//! The embedding loop polls the terminal, reads the clock and spawns
//! walkers; every decision — what a key does, when the loop may relax its
//! polling — is made here against the shared cell.

use crate::cell::SharableState;
use crate::state::AppState;
use crate::state::DeleteRequest;
use vstd::prelude::*;
use vstd::string::StringExecFns;

verus! {

/// Poll timeout while the user has been active recently.
pub const FAST_POLL_MS: u64 = 100;

/// Poll timeout once the user has gone quiet.
pub const SLOW_POLL_MS: u64 = 1000;

/// How long after the last key press the loop keeps polling quickly.
pub const ACTIVE_WINDOW_MS: u64 = 10000;

/// A key press, as the controller understands it; anything else is
/// [`KeyInput::Other`].
#[derive(Clone, Copy, PartialEq, Eq, Structural, Debug)]
pub enum KeyInput {
    /// `q`: leave the app.
    Quit,
    /// Arrow up: select the previous artifact.
    Up,
    /// Arrow down: select the next artifact.
    Down,
    /// Space: delete the selected artifact.
    Delete,
    /// `r`: rescan from the root.
    Refresh,
    /// Any other key: ignored.
    Other,
}

/// What the embedding loop must do after a key was dispatched.
pub enum KeyAction {
    /// Nothing: the state transition, if any, already happened.
    Idle,
    /// Leave the app.
    Quit,
    /// Start a new walker over a fresh channel.
    SpawnWalker,
    /// Remove the directory tree at this path, then report the outcome
    /// through
    /// [`delete_current_item`](SharableState::delete_current_item).
    RemoveDir(String),
}

/// The timeout for the next input poll: quick while the user pressed a key
/// within the last [`ACTIVE_WINDOW_MS`] milliseconds, relaxed otherwise.
pub fn poll_timeout_ms(now_ms: u64, last_active_ms: u64) -> (t: u64)
    ensures
        t == (if now_ms >= last_active_ms && now_ms - last_active_ms >= ACTIVE_WINDOW_MS {
            SLOW_POLL_MS
        } else {
            FAST_POLL_MS
        }),
{
    if now_ms >= last_active_ms && now_ms - last_active_ms >= ACTIVE_WINDOW_MS {
        SLOW_POLL_MS
    } else {
        FAST_POLL_MS
    }
}

/// Dispatch one key press against the shared state and say what outside
/// work is left: navigation and refresh bookkeeping happen right here;
/// quitting, spawning a walker and removing a directory tree are handed
/// back to the embedding loop. (What the navigation, deletion and refresh
/// arms do to the shared state is fixed by the transitions they apply:
/// [`prev_item`](SharableState::prev_item),
/// [`next_item`](SharableState::next_item),
/// [`delete_request`](SharableState::delete_request),
/// [`delete_current_item`](SharableState::delete_current_item) and
/// [`refresh`](SharableState::refresh).)
pub fn handle_key(state: &SharableState<AppState>, key: KeyInput, now_ms: u64) -> (r: KeyAction)
    ensures
        (key is Quit) == (r is Quit),
        key is Up || key is Down || key is Other ==> r is Idle,
        key is Delete ==> r is Idle || r is RemoveDir,
        key is Refresh ==> r is Idle || r is SpawnWalker,
{
    match key {
        KeyInput::Quit => KeyAction::Quit,
        KeyInput::Up => {
            state.prev_item();
            KeyAction::Idle
        },
        KeyInput::Down => {
            state.next_item();
            KeyAction::Idle
        },
        KeyInput::Delete => match state.delete_request() {
            DeleteRequest::Nothing => KeyAction::Idle,
            DeleteRequest::AlreadyDeleted => {
                state.delete_current_item(
                    Err(String::from_str("folder already deleted")),
                    now_ms,
                );
                KeyAction::Idle
            },
            DeleteRequest::Attempt(path) => KeyAction::RemoveDir(path),
        },
        KeyInput::Refresh => {
            if state.refresh() {
                KeyAction::SpawnWalker
            } else {
                KeyAction::Idle
            }
        },
        KeyInput::Other => KeyAction::Idle,
    }
}

} // verus!
