//! The host-wide mutual-exclusion lock guarding all mutating operations.
//!
//! The lock is a zero-byte marker file at a well-known path; its existence is
//! the only shared mutable process-wide state.  [`Lock`] models that
//! existence bit; the filesystem layer creates and deletes the actual marker
//! when told to, and reports filesystem failures other than "already exists"
//! as [`LockError::IoError`], which is fatal.

use vstd::prelude::*;

verus! {

/// Failure modes of the lock protocol.
#[derive(Debug)]
pub enum LockError {
    /// The lock file already exists: another operation is in progress, or a
    /// crashed one left a stale marker (a recoverable condition).
    LockHeld,
    /// The marker file could not be created or removed for filesystem
    /// reasons other than existence; fatal to the whole command.
    IoError,
}

/// The state of the host-wide lock: whether the marker file exists.
pub struct Lock {
    held: bool,
}

impl Lock {
    /// Whether the marker file exists.
    pub closed spec fn is_held(&self) -> bool {
        self.held
    }

    /// Binds the model to the observed state of the marker file.
    pub fn new(held: bool) -> (l: Lock)
        ensures
            l.is_held() == held,
    {
        Lock { held }
    }
}

/// Acquires the lock by creating the marker file.  Fails with
/// [`LockError::LockHeld`], changing nothing, exactly when the lock is
/// already held; otherwise the lock is held afterwards.
pub fn create_lock(lock: &mut Lock) -> (r: Result<(), LockError>)
    ensures
        old(lock).is_held() ==> (r matches Err(e) && e is LockHeld) && *final(lock) == *old(lock),
        !old(lock).is_held() ==> r is Ok && final(lock).is_held(),
{
    if lock.held {
        Err(LockError::LockHeld)
    } else {
        lock.held = true;
        Ok(())
    }
}

/// Releases the lock by deleting the marker file; afterwards the lock is not
/// held.
pub fn remove_lock(lock: &mut Lock) -> (r: Result<(), LockError>)
    ensures
        r is Ok,
        !final(lock).is_held(),
{
    lock.held = false;
    Ok(())
}

/// Whether the lock file exists.
pub fn check_lock(lock: &Lock) -> (r: bool)
    ensures
        r == lock.is_held(),
{
    lock.held
}

/// Resolves a possibly stale lock before a mutating command: if the lock is
/// held, `force_remove` (the user's answer to the removal prompt) decides
/// whether the stale marker is deleted and the command proceeds, or the
/// command aborts.  Returns whether to proceed; on proceed the lock is free.
pub fn lock_exists(lock: &mut Lock, force_remove: bool) -> (proceed: bool)
    ensures
        !old(lock).is_held() ==> proceed && *final(lock) == *old(lock),
        old(lock).is_held() && force_remove ==> proceed && !final(lock).is_held(),
        old(lock).is_held() && !force_remove ==> !proceed && *final(lock) == *old(lock),
{
    if lock.held {
        if force_remove {
            match remove_lock(lock) {
                Ok(()) => true,
                Err(_) => false,
            }
        } else {
            false
        }
    } else {
        true
    }
}

} // verus!
