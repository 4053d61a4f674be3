//! The shared snapshot cell: one slot holding the current application
//! state, read by the render loop and mutated by the controller and the
//! walker drain.
//!
//! Built on vstd's verified reader-writer lock. The lock's invariant
//! carries the stored value's own invariant, so every reader obtains a
//! well-formed snapshot and every mutation is proved to preserve
//! well-formedness; mutations are serialised by the lock, and no handle to
//! the stored value escapes.

use crate::message::Message;
use crate::record::TargetDir;
use crate::state::AppState;
use crate::state::sat_add;
use crate::state::DeleteRequest;
use crate::state::ScanProgress;
use crate::walker::TraverseMsg;
use crate::walker::TraverseMsgModel;
use vstd::prelude::*;
use vstd::rwlock::RwLock;

verus! {

/// The invariant a type keeps while it sits in a [`SharableState`] cell.
pub trait StateInv: Sized {
    /// What every stored value satisfies.
    spec fn inv(&self) -> bool;
}

impl StateInv for AppState {
    open spec fn inv(&self) -> bool {
        self.wf()
    }
}

/// The lock predicate of a cell: exactly the stored type's invariant.
pub open spec fn state_pred<T: StateInv>() -> spec_fn(T) -> bool {
    |v: T| v.inv()
}

/// A single-slot container sharing one value across threads, keeping the
/// value's invariant as the lock invariant.
#[verifier::reject_recursive_types(T)]
pub struct SharableState<T: StateInv> {
    lock: RwLock<T, spec_fn(T) -> bool>,
}

impl<T: StateInv> SharableState<T> {
    #[verifier::type_invariant]
    spec fn wf_cell(&self) -> bool {
        self.lock.pred() == state_pred::<T>()
    }

    /// A cell holding `data`.
    pub fn new(data: T) -> (s: SharableState<T>)
        requires
            data.inv(),
    {
        SharableState { lock: RwLock::new(data, Ghost(state_pred::<T>())) }
    }

    /// Atomically apply a transformation to the stored value. The
    /// transformation must accept every value satisfying the invariant and
    /// leave the invariant standing; transformations are serialised, and no
    /// mutation observes a partial effect of another.
    pub fn mutate<F: FnOnce(T) -> T>(&self, f: F)
        requires
            forall|v: T| v.inv() ==> #[trigger] f.requires((v,)),
            forall|v: T, w: T| #[trigger] f.ensures((v,), w) ==> w.inv(),
    {
        proof {
            use_type_invariant(self);
        }
        let (v, handle) = self.lock.acquire_write();
        let w = f(v);
        handle.release_write(w);
    }
}

impl SharableState<AppState> {
    /// A consistent snapshot of the current state, enough for one render
    /// frame; no reference into the cell escapes.
    pub fn read(&self) -> (r: AppState)
        ensures
            r.wf(),
    {
        proof {
            use_type_invariant(self);
        }
        let handle = self.lock.acquire_read();
        let r = handle.borrow().clone();
        handle.release_read();
        r
    }

    /// Append a discovered record to the artifact list
    /// ([`AppState::push_record`]).
    pub fn push_to_list(&self, target: TargetDir) {
        proof {
            use_type_invariant(self);
        }
        let (mut v, handle) = self.lock.acquire_write();
        v.push_record(target);
        handle.release_write(v);
    }

    /// Clear the artifact list, the selection and the total
    /// ([`AppState::clear_records`]).
    pub fn clear_list(&self) {
        proof {
            use_type_invariant(self);
        }
        let (mut v, handle) = self.lock.acquire_write();
        v.clear_records();
        handle.release_write(v);
    }

    /// Record whether a walker is active ([`AppState::set_searching`]).
    pub fn set_searching(&self, searching: bool) {
        proof {
            use_type_invariant(self);
        }
        let (mut v, handle) = self.lock.acquire_write();
        v.set_searching(searching);
        handle.release_write(v);
    }

    /// Select the previous artifact, wrapping around
    /// ([`ListWithState::previous`](crate::list::ListWithState::previous)).
    pub fn prev_item(&self) {
        proof {
            use_type_invariant(self);
        }
        let (mut v, handle) = self.lock.acquire_write();
        v.target_directories.previous();
        handle.release_write(v);
    }

    /// Select the next artifact, wrapping around
    /// ([`ListWithState::next`](crate::list::ListWithState::next)).
    pub fn next_item(&self) {
        proof {
            use_type_invariant(self);
        }
        let (mut v, handle) = self.lock.acquire_write();
        v.target_directories.next();
        handle.release_write(v);
    }

    /// Replace the status-line notice ([`AppState::set_message`]).
    pub fn set_message(&self, message: Option<Message>) {
        proof {
            use_type_invariant(self);
        }
        let (mut v, handle) = self.lock.acquire_write();
        v.set_message(message);
        handle.release_write(v);
    }

    /// Replace the rendered cumulative size ([`AppState::set_total_size`]).
    pub fn set_total_size(&self, val: String) {
        proof {
            use_type_invariant(self);
        }
        let (mut v, handle) = self.lock.acquire_write();
        v.set_total_size(val);
        handle.release_write(v);
    }

    /// Rule on a deletion request for the selected record
    /// ([`AppState::delete_request`]).
    pub fn delete_request(&self) -> DeleteRequest {
        proof {
            use_type_invariant(self);
        }
        let handle = self.lock.acquire_read();
        let r = handle.borrow().delete_request();
        handle.release_read();
        r
    }

    /// Fold a deletion outcome into the selected record and post the
    /// corresponding notice ([`AppState::delete_current`]).
    pub fn delete_current_item(&self, removal: Result<(), String>, now_ms: u64) {
        proof {
            use_type_invariant(self);
        }
        let (mut v, handle) = self.lock.acquire_write();
        v.delete_current(removal, now_ms);
        handle.release_write(v);
    }

    /// Fold one walker message into the state and the scan bookkeeping
    /// ([`AppState::apply_walker_msg`]): a `Found` grows the caller's
    /// running total by the record's size and marks the scan non-empty; a
    /// `Done` leaves the bookkeeping alone while it ends the scan in the
    /// cell.
    pub fn apply_walker_msg(&self, msg: TraverseMsg, progress: &mut ScanProgress, now_ms: u64)
        ensures
            msg@ matches TraverseMsgModel::Found(_, size) ==> *final(progress) == (ScanProgress {
                total: sat_add(old(progress).total, size),
                found_any: true,
            }),
            msg@ is Done ==> *final(progress) == *old(progress),
    {
        proof {
            use_type_invariant(self);
        }
        let (mut v, handle) = self.lock.acquire_write();
        v.apply_walker_msg(msg, progress, now_ms);
        handle.release_write(v);
    }

    /// Begin a refresh, unless a walker is already running: clear the
    /// artifacts, reset the selection and the total, and turn searching on.
    /// Returns whether a new walker should be spawned.
    pub fn refresh(&self) -> bool {
        proof {
            use_type_invariant(self);
        }
        let (mut v, handle) = self.lock.acquire_write();
        let spawn = !v.searching;
        if spawn {
            v.clear_records();
            v.set_searching(true);
        }
        handle.release_write(v);
        spawn
    }

    /// Clear an expired message, or report that its expiry asks the app to
    /// quit ([`AppState::expire_message`]).
    pub fn expire_message(&self, now_ms: u64) -> bool {
        proof {
            use_type_invariant(self);
        }
        let (mut v, handle) = self.lock.acquire_write();
        let quit = v.expire_message(now_ms);
        handle.release_write(v);
        quit
    }
}

} // verus!
