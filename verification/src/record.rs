//! The record describing one discovered artifact directory, and its
//! deletion protocol.
//!
//! Removing the directory tree itself is filesystem work done by the caller;
//! the record only rules on whether a removal may be attempted and folds the
//! reported outcome into its state. Once `is_deleted` is set it can never be
//! set again: a second deletion attempt is rejected.

use vstd::prelude::*;

verus! {

/// One discovered `target` directory.
pub struct TargetDir {
    /// Absolute path of the `target` directory.
    pub path: String,
    /// The `package.name` string from the sibling sidecar.
    pub project_name: String,
    /// Modification time of the directory, rendered as UTC `DD/MM/YYYY`.
    pub last_modified: String,
    /// Whether the directory has been deleted during this session.
    pub is_deleted: bool,
    /// Human-readable binary-prefixed form of `size_bytes`.
    pub size: String,
    /// Recursive byte count of the directory at discovery time.
    pub size_bytes: u64,
}

/// The mathematical content of a [`TargetDir`].
pub ghost struct TargetDirModel {
    pub path: Seq<char>,
    pub project_name: Seq<char>,
    pub last_modified: Seq<char>,
    pub is_deleted: bool,
    pub size: Seq<char>,
    pub size_bytes: u64,
}

impl View for TargetDir {
    type V = TargetDirModel;

    open spec fn view(&self) -> TargetDirModel {
        TargetDirModel {
            path: self.path@,
            project_name: self.project_name@,
            last_modified: self.last_modified@,
            is_deleted: self.is_deleted,
            size: self.size@,
            size_bytes: self.size_bytes,
        }
    }
}

impl Clone for TargetDir {
    fn clone(&self) -> (r: Self)
        ensures
            r@ == self@,
    {
        TargetDir {
            path: self.path.clone(),
            project_name: self.project_name.clone(),
            last_modified: self.last_modified.clone(),
            is_deleted: self.is_deleted,
            size: self.size.clone(),
            size_bytes: self.size_bytes,
        }
    }
}

/// Why a deletion did not happen.
pub enum DeleteError {
    /// The directory was already deleted during this session.
    AlreadyDeleted,
    /// Removing the tree failed; the reason reported by the filesystem.
    DeleteFailed(String),
}

impl TargetDir {
    /// Whether a removal of the directory tree may be attempted.
    pub fn can_delete(&self) -> (r: bool)
        ensures
            r == !self@.is_deleted,
    {
        !self.is_deleted
    }

    /// Fold the outcome of removing the directory tree at `self.path` into
    /// the record.
    ///
    /// A record already deleted rejects the call outright, whatever the
    /// reported outcome; a successful removal flips `is_deleted`, exactly
    /// once; a failed removal leaves the record as it was.
    pub fn delete(&mut self, removal: Result<(), String>) -> (res: Result<(), DeleteError>)
        ensures
            old(self)@.is_deleted ==> {
                &&& final(self)@ == old(self)@
                &&& res matches Err(e) && e is AlreadyDeleted
            },
            !old(self)@.is_deleted && removal is Ok ==> {
                &&& final(self)@ == TargetDirModel { is_deleted: true, ..old(self)@ }
                &&& res is Ok
            },
            (!old(self)@.is_deleted && removal is Err) ==> {
                &&& final(self)@ == old(self)@
                &&& res matches Err(e) && e matches DeleteError::DeleteFailed(m) && m
                    == removal->Err_0
            },
    {
        if self.is_deleted {
            return Err(DeleteError::AlreadyDeleted);
        }
        match removal {
            Ok(()) => {
                self.is_deleted = true;
                Ok(())
            },
            Err(why) => Err(DeleteError::DeleteFailed(why)),
        }
    }
}

} // verus!
