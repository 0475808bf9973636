//! The install/remove transaction engine.
//!
//! Installation is a linear state machine with user-decision branch points;
//! any declined prompt terminates it in an aborted state.  The caller
//! performs the outside work each phase calls for — unpacking the archive to
//! an isolated temporary directory, prompting, querying the installed
//! database, deleting files, writing the database record, extracting the
//! payload onto the filesystem root, cleaning the temporary directory — and
//! reports each outcome back; every decision in between is made here.  The
//! database record is written before the payload is extracted: the record is
//! the durable intent log, and a crash between the two leaves a
//! recoverable-but-dirty state, not corruption.

use vstd::prelude::*;
use crate::config::Source;
use crate::conflict::{run_conflict_check, spec_conflicts};
use crate::pkg::{decode_pkg_file, sp_pkg, Package, candidate_paths, spec_candidates, entries_of,
    list_archive_entries};
use crate::text::{split_commas, string_to_vec};
use crate::version::{is_downgrade, spec_is_downgrade};

verus! {

/// The record the installed-package database keeps for one package: the
/// authoritative manifest of the files it owns.
pub struct InstalledPackage {
    pub name: Vec<u8>,
    pub version: Vec<u8>,
    pub epoch: i64,
    pub groups: Vec<Vec<u8>>,
    pub installed_files: Vec<Vec<u8>>,
    pub provides: Vec<Vec<u8>>,
    pub conflicts: Vec<Vec<u8>>,
    pub source_name: Vec<u8>,
}

/// A record to be written for a freshly installed package.
pub struct NewPackage {
    pub name: Vec<u8>,
    pub groups: Vec<Vec<u8>>,
    pub version: Vec<u8>,
    pub epoch: i64,
    pub installed_files: Vec<Vec<u8>>,
    pub provides: Vec<Vec<u8>>,
    pub conflicts: Vec<Vec<u8>>,
}

/// The phases of one install attempt, in order.  Each names the outside
/// work the caller must do next before reporting back.
pub enum IPhase {
    /// Unpack the archive to the per-attempt temporary directory and hand
    /// back the bytes of its `PKG` entry.
    Unpack,
    /// Show the package identity and source; ask whether to install.
    ConfirmInstall,
    /// Look the package name up in the installed-package database.
    QueryPrior,
    /// The install would be a downgrade; ask whether to proceed anyway.
    ConfirmDowngrade,
    /// Hand back the bytes of the payload archive (`data.tar.xz`).
    ReadPayload,
    /// Report, per candidate path, whether it exists on the filesystem.
    QueryExists,
    /// Conflicting files exist; ask whether to delete them.
    ConfirmConflicts,
    /// Delete the conflicting files, each failure being fatal.
    DeleteConflicts,
    /// Write the record to the installed-package database.
    WriteRecord,
    /// Extract the payload onto the filesystem root, permissions and
    /// extended attributes preserved.
    Extract,
    /// Delete the temporary directory.
    CleanTemp,
    /// The install completed.
    Done,
    /// The user declined a prompt: exit nonzero.  The lock is released
    /// first only when declining the conflict-deletion prompt; the
    /// temporary directory is not guaranteed cleaned.
    Aborted { release_lock: bool },
    /// A malformed descriptor or payload: fatal for this attempt.
    Failed,
}

/// One install attempt.
pub struct InstallMachine {
    pub source: Source,
    pub phase: IPhase,
    pub pkg: Option<Package>,
    pub prior: Option<InstalledPackage>,
    pub had_prior: bool,
    pub candidates: Vec<Vec<u8>>,
    pub conflicts: Vec<Vec<u8>>,
}

/// Whether a phase can only be reached once the descriptor is decoded.
pub open spec fn needs_pkg(p: IPhase) -> bool {
    !(p is Unpack || p is Failed || (p matches IPhase::Aborted { .. }))
}

impl InstallMachine {
    /// The machine's structural invariant.
    pub open spec fn wf(&self) -> bool {
        &&& (needs_pkg(self.phase) ==> self.pkg is Some)
        &&& (self.had_prior ==> self.prior is Some)
    }

    /// Starts an install attempt of an archive from the given source.
    pub fn new(source: Source) -> (m: InstallMachine)
        ensures
            m.wf(),
            m.phase is Unpack,
            m.source@ == source@,
            m.pkg is None,
            !m.had_prior,
    {
        InstallMachine {
            source,
            phase: IPhase::Unpack,
            pkg: None,
            prior: None,
            had_prior: false,
            candidates: Vec::new(),
            conflicts: Vec::new(),
        }
    }

    /// Takes the bytes of the archive's `PKG` entry (or nothing when the
    /// archive had none).  The descriptor is decoded here: malformed
    /// content fails the attempt, well-formed content moves on to the
    /// install confirmation.
    pub fn on_unpacked(&mut self, pkg_bytes: Option<Vec<u8>>)
        requires
            old(self).wf(),
            old(self).phase is Unpack,
        ensures
            final(self).wf(),
            final(self).source@ == old(self).source@,
            match pkg_bytes {
                Option::Some(b) => match sp_pkg(b@) {
                    Option::Some(pv) => final(self).phase is ConfirmInstall
                        && (final(self).pkg matches Option::Some(p) && p@ == pv),
                    Option::None => final(self).phase is Failed,
                },
                Option::None => final(self).phase is Failed,
            },
    {
        match pkg_bytes {
            Option::Some(b) => match decode_pkg_file(&b) {
                Ok(p) => {
                    self.pkg = Some(p);
                    self.phase = IPhase::ConfirmInstall;
                },
                Err(_) => {
                    self.phase = IPhase::Failed;
                },
            },
            Option::None => {
                self.phase = IPhase::Failed;
            },
        }
    }

    /// Takes the user's answer to the install prompt: a decline aborts (the
    /// lock is not released on this path), an accept moves on to the
    /// installed-database lookup.
    pub fn on_confirm_install(&mut self, yes: bool)
        requires
            old(self).wf(),
            old(self).phase is ConfirmInstall,
        ensures
            final(self).wf(),
            final(self).pkg == old(self).pkg,
            final(self).source@ == old(self).source@,
            yes ==> final(self).phase is QueryPrior,
            !yes ==> final(self).phase == (IPhase::Aborted { release_lock: false }),
    {
        if yes {
            self.phase = IPhase::QueryPrior;
        } else {
            self.phase = IPhase::Aborted { release_lock: false };
        }
    }

    /// Takes the prior installation's record, if one exists.  A reinstall
    /// proceeds with only a warning; a strictly lower version than the
    /// installed one additionally requires the downgrade confirmation.
    pub fn on_prior(&mut self, prior: Option<InstalledPackage>)
        requires
            old(self).wf(),
            old(self).phase is QueryPrior,
        ensures
            final(self).wf(),
            final(self).pkg == old(self).pkg,
            final(self).source@ == old(self).source@,
            final(self).had_prior == (prior is Some),
            final(self).prior == prior,
            match prior {
                Option::Some(ip) => if spec_is_downgrade(
                    old(self).pkg.unwrap().version@,
                    ip.version@,
                ) {
                    final(self).phase is ConfirmDowngrade
                } else {
                    final(self).phase is ReadPayload
                },
                Option::None => final(self).phase is ReadPayload,
            },
    {
        match prior {
            Option::Some(ip) => {
                let pkg_version = match &self.pkg {
                    Option::Some(p) => p.version.clone(),
                    Option::None => {
                        proof {
                            assert(false);
                        }
                        Vec::new()
                    },
                };
                let downgrade = is_downgrade(&pkg_version, &ip.version);
                self.prior = Some(ip);
                self.had_prior = true;
                if downgrade {
                    self.phase = IPhase::ConfirmDowngrade;
                } else {
                    self.phase = IPhase::ReadPayload;
                }
            },
            Option::None => {
                self.prior = None;
                self.had_prior = false;
                self.phase = IPhase::ReadPayload;
            },
        }
    }

    /// Takes the user's answer to the downgrade prompt.
    pub fn on_confirm_downgrade(&mut self, yes: bool)
        requires
            old(self).wf(),
            old(self).phase is ConfirmDowngrade,
        ensures
            final(self).wf(),
            final(self).pkg == old(self).pkg,
            final(self).prior == old(self).prior,
            final(self).had_prior == old(self).had_prior,
            final(self).source@ == old(self).source@,
            yes ==> final(self).phase is ReadPayload,
            !yes ==> final(self).phase == (IPhase::Aborted { release_lock: false }),
    {
        if yes {
            self.phase = IPhase::ReadPayload;
        } else {
            self.phase = IPhase::Aborted { release_lock: false };
        }
    }

    /// Takes the bytes of the payload archive.  Its file entries — the
    /// directory entries excluded — become the candidate destination paths,
    /// each rooted at `/`, in archive order; an unreadable payload fails
    /// the attempt.
    pub fn on_payload(&mut self, data: Option<Vec<u8>>)
        requires
            old(self).wf(),
            old(self).phase is ReadPayload,
        ensures
            final(self).wf(),
            final(self).pkg == old(self).pkg,
            final(self).prior == old(self).prior,
            final(self).had_prior == old(self).had_prior,
            final(self).source@ == old(self).source@,
            match data {
                Option::Some(d) => match entries_of(d@) {
                    Option::Some(es) => final(self).phase is QueryExists
                        && final(self).candidates.deep_view() == spec_candidates(es),
                    Option::None => final(self).phase is Failed,
                },
                Option::None => final(self).phase is Failed,
            },
    {
        match data {
            Option::Some(d) => match list_archive_entries(&d) {
                Option::Some(entries) => {
                    self.candidates = candidate_paths(&entries);
                    self.phase = IPhase::QueryExists;
                },
                Option::None => {
                    self.phase = IPhase::Failed;
                },
            },
            Option::None => {
                self.phase = IPhase::Failed;
            },
        }
    }

    /// Takes, per candidate path, whether it already exists on the live
    /// filesystem, and runs the conflict policy: a path conflicts exactly
    /// when it exists and is not owned by the prior installation of this
    /// package.  Conflicts require the deletion confirmation; none means
    /// the record can be written.
    pub fn on_exists(&mut self, on_disk: Vec<bool>)
        requires
            old(self).wf(),
            old(self).phase is QueryExists,
            on_disk@.len() == old(self).candidates@.len(),
        ensures
            final(self).wf(),
            final(self).pkg == old(self).pkg,
            final(self).prior == old(self).prior,
            final(self).had_prior == old(self).had_prior,
            final(self).source@ == old(self).source@,
            final(self).candidates == old(self).candidates,
            final(self).conflicts.deep_view() == spec_conflicts(
                old(self).candidates.deep_view(),
                on_disk@,
                if old(self).had_prior {
                    Option::Some(old(self).prior.unwrap().installed_files.deep_view())
                } else {
                    Option::None
                },
            ),
            final(self).conflicts.deep_view().len() != 0 ==> final(self).phase is ConfirmConflicts,
            final(self).conflicts.deep_view().len() == 0 ==> final(self).phase is WriteRecord,
    {
        let prior_files: Option<Vec<Vec<u8>>> = if self.had_prior {
            match &self.prior {
                Option::Some(ip) => Some(ip.installed_files.clone()),
                Option::None => {
                    proof {
                        assert(false);
                    }
                    None
                },
            }
        } else {
            None
        };
        proof {
            assert(prior_files.deep_view() == if old(self).had_prior {
                Option::Some(old(self).prior.unwrap().installed_files.deep_view())
            } else {
                Option::<Seq<Seq<u8>>>::None
            });
        }
        let report = run_conflict_check(&self.candidates, &on_disk, &prior_files);
        self.conflicts = report.files;
        if self.conflicts.len() != 0 {
            self.phase = IPhase::ConfirmConflicts;
        } else {
            self.phase = IPhase::WriteRecord;
        }
    }

    /// Takes the user's answer to the conflict-deletion prompt.  A decline
    /// aborts, with the lock released first; an accept orders the listed
    /// files deleted.
    pub fn on_confirm_conflicts(&mut self, yes: bool)
        requires
            old(self).wf(),
            old(self).phase is ConfirmConflicts,
        ensures
            final(self).wf(),
            final(self).pkg == old(self).pkg,
            final(self).conflicts == old(self).conflicts,
            final(self).candidates == old(self).candidates,
            final(self).source@ == old(self).source@,
            yes ==> final(self).phase is DeleteConflicts,
            !yes ==> final(self).phase == (IPhase::Aborted { release_lock: true }),
    {
        if yes {
            self.phase = IPhase::DeleteConflicts;
        } else {
            self.phase = IPhase::Aborted { release_lock: true };
        }
    }

    /// Acknowledges that every conflicting file was deleted.
    pub fn on_deleted(&mut self)
        requires
            old(self).wf(),
            old(self).phase is DeleteConflicts,
        ensures
            final(self).wf(),
            final(self).pkg == old(self).pkg,
            final(self).candidates == old(self).candidates,
            final(self).source@ == old(self).source@,
            final(self).phase is WriteRecord,
    {
        self.phase = IPhase::WriteRecord;
    }

    /// The record to write to the installed-package database: the decoded
    /// descriptor's identity, the candidate destination paths as the owned
    /// files, and the `provides` and `conflicts` lists split at commas.
    pub fn record(&self) -> (r: NewPackage)
        requires
            self.wf(),
            self.phase is WriteRecord,
        ensures
            r.name@ == self.pkg.unwrap().name@,
            r.version@ == self.pkg.unwrap().version@,
            r.epoch == self.pkg.unwrap().epoch,
            r.groups.deep_view() == self.pkg.unwrap().groups.deep_view(),
            r.installed_files.deep_view() == self.candidates.deep_view(),
            r.provides.deep_view() == split_commas(self.pkg.unwrap().provides@),
            r.conflicts.deep_view() == split_commas(self.pkg.unwrap().conflicts@),
    {
        let p = match &self.pkg {
            Option::Some(p) => p,
            Option::None => {
                proof {
                    assert(false);
                }
                unreached()
            },
        };
        NewPackage {
            name: p.name.clone(),
            groups: p.groups.clone(),
            version: p.version.clone(),
            epoch: p.epoch,
            installed_files: self.candidates.clone(),
            provides: string_to_vec(&p.provides),
            conflicts: string_to_vec(&p.conflicts),
        }
    }

    /// Acknowledges that the record was written; the payload may now be
    /// extracted onto the root.
    pub fn on_recorded(&mut self)
        requires
            old(self).wf(),
            old(self).phase is WriteRecord,
        ensures
            final(self).wf(),
            final(self).pkg == old(self).pkg,
            final(self).source@ == old(self).source@,
            final(self).phase is Extract,
    {
        self.phase = IPhase::Extract;
    }

    /// Acknowledges that the payload was extracted.
    pub fn on_extracted(&mut self)
        requires
            old(self).wf(),
            old(self).phase is Extract,
        ensures
            final(self).wf(),
            final(self).pkg == old(self).pkg,
            final(self).source@ == old(self).source@,
            final(self).phase is CleanTemp,
    {
        self.phase = IPhase::CleanTemp;
    }

    /// Acknowledges that the temporary directory was removed: the install
    /// is complete.
    pub fn on_cleaned(&mut self)
        requires
            old(self).wf(),
            old(self).phase is CleanTemp,
        ensures
            final(self).wf(),
            final(self).pkg == old(self).pkg,
            final(self).source@ == old(self).source@,
            final(self).phase is Done,
    {
        self.phase = IPhase::Done;
    }
}

/// The owned files that still exist on disk, in record order: the files a
/// remove must delete.  A file already missing is skipped silently.
pub open spec fn spec_remove_plan(files: Seq<Seq<u8>>, on_disk: Seq<bool>) -> Seq<Seq<u8>>
    decreases files.len(),
{
    if files.len() == 0 {
        Seq::empty()
    } else {
        spec_remove_plan(files.drop_last(), on_disk.drop_last()) + if on_disk.last() {
            seq![files.last()]
        } else {
            Seq::empty()
        }
    }
}

/// Plans the removal of a package: of the files its record owns, exactly
/// those that still exist on disk are to be deleted, in record order; the
/// rest are skipped without error.  The caller deletes them — any single
/// deletion failure is fatal to the whole remove — and deletes the record
/// only afterwards.
pub fn run_remove(owned_files: &Vec<Vec<u8>>, on_disk: &Vec<bool>) -> (r: Vec<Vec<u8>>)
    requires
        owned_files@.len() == on_disk@.len(),
    ensures
        r.deep_view() == spec_remove_plan(owned_files.deep_view(), on_disk@),
{
    let mut out: Vec<Vec<u8>> = Vec::new();
    proof {
        assert(out.deep_view() =~= Seq::<Seq<u8>>::empty());
    }
    let mut i: usize = 0;
    while i < owned_files.len()
        invariant
            i <= owned_files.len(),
            owned_files@.len() == on_disk@.len(),
            out.deep_view() == spec_remove_plan(
                owned_files.deep_view().take(i as int),
                on_disk@.take(i as int),
            ),
        decreases owned_files.len() - i,
    {
        let ghost pre = out.deep_view();
        proof {
            assert(owned_files.deep_view()[i as int] == owned_files@[i as int]@);
        }
        if on_disk[i] {
            let f = owned_files[i].clone();
            out.push(f);
            proof {
                assert(out.deep_view() =~~= pre.push(owned_files.deep_view()[i as int]));
            }
        }
        proof {
            let fd = owned_files.deep_view();
            let od = on_disk@;
            assert(fd.take(i + 1).drop_last() =~= fd.take(i as int));
            assert(od.take(i + 1).drop_last() =~= od.take(i as int));
            assert(fd.take(i + 1).last() == fd[i as int]);
            assert(od.take(i + 1).last() == od[i as int]);
            assert(out.deep_view() =~~= spec_remove_plan(fd.take(i + 1), od.take(i + 1)));
        }
        i += 1;
    }
    proof {
        assert(owned_files.deep_view().take(i as int) =~= owned_files.deep_view());
        assert(on_disk@.take(i as int) =~= on_disk@);
    }
    out
}

} // verus!
