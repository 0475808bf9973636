//! Repository synchronization: per source, per mirror, a
//! download-and-verify loop that updates the local database cache only with
//! hash-confirmed content.
//!
//! The machine walks the configured sources in order; for each source it
//! walks the mirror templates in order (or treats a fixed source URL as the
//! sole mirror), fetching the database resource and then the sidecar hash
//! resource.  A transport failure, a non-success status (both reported as a
//! missing response) or a digest mismatch advances to the next mirror; a
//! verified artifact is persisted and ends the source, and an exhausted
//! mirror list leaves the source's cache exactly as it was.  The caller
//! performs the fetches and the cache write and feeds the results back.

use vstd::prelude::*;
use crate::config::{Source, SourceV};
use crate::hashing::{artifact_matches, verify_artifact};
use crate::text::{subst_repo, substitute};

verus! {

/// The last known-good state of one source's cache, recorded only after a
/// verified download.
pub struct CachedRepoEntry {
    pub name: Vec<u8>,
    /// Lowercase hex SHA-512 of the cached database bytes.
    pub hash: Vec<u8>,
}

/// The mathematical value of a [`CachedRepoEntry`].
pub struct CachedRepoEntryV {
    pub name: Seq<u8>,
    pub hash: Seq<u8>,
}

impl View for CachedRepoEntry {
    type V = CachedRepoEntryV;

    open spec fn view(&self) -> CachedRepoEntryV {
        CachedRepoEntryV { name: self.name@, hash: self.hash@ }
    }
}

impl DeepView for CachedRepoEntry {
    type V = CachedRepoEntryV;

    open spec fn deep_view(&self) -> CachedRepoEntryV {
        self.view()
    }
}

/// What the machine is waiting for within the current mirror attempt.
enum Phase {
    /// The database resource is being fetched.
    NeedDb,
    /// The database bytes arrived; the sidecar hash is being fetched.
    NeedHash(Vec<u8>),
    /// The artifact verified; it is being persisted to the cache.
    Persist(Vec<u8>, Vec<u8>),
}

/// The mathematical value of a phase.
pub enum PhaseV {
    NeedDb,
    NeedHash(Seq<u8>),
    Persist(Seq<u8>, Seq<u8>),
}

/// What the caller should do next.
pub enum SyncAction {
    /// Fetch this URL and report the outcome through `on_response`.
    Fetch(Vec<u8>),
    /// Overwrite the named source's cache file with these verified bytes,
    /// record the hash, and report through `on_persisted`.
    Persist { name: Vec<u8>, data: Vec<u8>, hash: Vec<u8> },
    /// Every source has been processed.
    Finished,
}

/// The mathematical state of a [`SyncMachine`].
pub struct SyncV {
    pub sources: Seq<SourceV>,
    pub mirrors: Seq<Seq<u8>>,
    pub src: int,
    pub mir: int,
    pub phase: PhaseV,
    pub updated: Seq<CachedRepoEntryV>,
}

/// How many mirrors a source has: a fixed URL is the sole mirror, otherwise
/// the whole template list applies.
pub open spec fn effective_mirrors(s: SourceV, mirrors: Seq<Seq<u8>>) -> int {
    match s.url {
        Option::Some(_) => 1,
        Option::None => mirrors.len() as int,
    }
}

/// The first source index at or after `i` that has at least one mirror to
/// try.
pub open spec fn next_src(sources: Seq<SourceV>, mirrors: Seq<Seq<u8>>, i: int) -> int
    decreases sources.len() - i,
{
    if i < 0 || i >= sources.len() {
        i
    } else if effective_mirrors(sources[i], mirrors) > 0 {
        i
    } else {
        next_src(sources, mirrors, i + 1)
    }
}

/// The base URL of the current mirror attempt: the source's fixed URL, or
/// the current template with `$repo` substituted by the source name.
pub open spec fn cur_base(v: SyncV) -> Seq<u8> {
    match v.sources[v.src].url {
        Option::Some(u) => u,
        Option::None => subst_repo(v.mirrors[v.mir], v.sources[v.src].name),
    }
}

pub open spec fn db_suffix() -> Seq<u8> {
    seq![47u8, 100u8, 97u8, 116u8, 97u8, 98u8, 97u8, 115u8, 101u8, 46u8, 100u8, 98u8]
}

pub open spec fn hash_suffix() -> Seq<u8> {
    seq![47u8, 100u8, 97u8, 116u8, 97u8, 98u8, 97u8, 115u8, 101u8, 46u8, 104u8, 97u8, 115u8, 104u8]
}

/// The source index after a failed mirror attempt.
pub open spec fn fail_src(v: SyncV) -> int {
    if v.mir + 1 < effective_mirrors(v.sources[v.src], v.mirrors) {
        v.src
    } else {
        next_src(v.sources, v.mirrors, v.src + 1)
    }
}

/// The mirror index after a failed mirror attempt.
pub open spec fn fail_mir(v: SyncV) -> int {
    if v.mir + 1 < effective_mirrors(v.sources[v.src], v.mirrors) {
        v.mir + 1
    } else {
        0
    }
}

proof fn lemma_next_src_ge(sources: Seq<SourceV>, mirrors: Seq<Seq<u8>>, i: int)
    requires
        i >= 0,
    ensures
        next_src(sources, mirrors, i) >= i,
    decreases sources.len() - i,
{
    if i < sources.len() && !(effective_mirrors(sources[i], mirrors) > 0) {
        lemma_next_src_ge(sources, mirrors, i + 1);
    }
}

/// Mirror fallback preserves configured order: a failed attempt moves on
/// either to the next mirror of the same source, or to a strictly later
/// source with its mirror list restarted — never back to an earlier mirror
/// or source.
pub proof fn lemma_fallback_in_order(v: SyncV)
    requires
        0 <= v.src,
    ensures
        fail_src(v) == v.src && fail_mir(v) == v.mir + 1 || fail_src(v) > v.src && fail_mir(v)
            == 0,
{
    if !(v.mir + 1 < effective_mirrors(v.sources[v.src], v.mirrors)) {
        lemma_next_src_ge(v.sources, v.mirrors, v.src + 1);
    }
}

/// The synchronization state machine.
pub struct SyncMachine {
    sources: Vec<Source>,
    mirrors: Vec<Vec<u8>>,
    src: usize,
    mir: usize,
    phase: Phase,
    updated: Vec<CachedRepoEntry>,
}

impl View for SyncMachine {
    type V = SyncV;

    closed spec fn view(&self) -> SyncV {
        SyncV {
            sources: self.sources.deep_view(),
            mirrors: self.mirrors.deep_view(),
            src: self.src as int,
            mir: self.mir as int,
            phase: match self.phase {
                Phase::NeedDb => PhaseV::NeedDb,
                Phase::NeedHash(d) => PhaseV::NeedHash(d@),
                Phase::Persist(d, h) => PhaseV::Persist(d@, h@),
            },
            updated: self.updated.deep_view(),
        }
    }
}

fn next_src_exec(sources: &Vec<Source>, mirrors: &Vec<Vec<u8>>, i: usize) -> (r: usize)
    requires
        i <= sources@.len(),
    ensures
        r as int == next_src(sources.deep_view(), mirrors.deep_view(), i as int),
        i <= r <= sources@.len(),
        r < sources@.len() ==> effective_mirrors(
            sources.deep_view()[r as int],
            mirrors.deep_view(),
        ) > 0,
{
    let mut j = i;
    while j < sources.len() && sources[j].url.is_none() && mirrors.len() == 0
        invariant
            i <= j <= sources@.len(),
            next_src(sources.deep_view(), mirrors.deep_view(), i as int) == next_src(
                sources.deep_view(),
                mirrors.deep_view(),
                j as int,
            ),
        decreases sources@.len() - j,
    {
        proof {
            assert(sources.deep_view()[j as int] == sources@[j as int]@);
        }
        j += 1;
    }
    proof {
        if j < sources@.len() {
            assert(sources.deep_view()[j as int] == sources@[j as int]@);
        }
    }
    j
}

fn append_db_suffix(v: &mut Vec<u8>)
    ensures
        final(v)@ == old(v)@ + db_suffix(),
{
    let ghost pre = v@;
    v.push(47);
    v.push(100);
    v.push(97);
    v.push(116);
    v.push(97);
    v.push(98);
    v.push(97);
    v.push(115);
    v.push(101);
    v.push(46);
    v.push(100);
    v.push(98);
    proof {
        assert(v@ =~= pre + db_suffix());
    }
}

fn append_hash_suffix(v: &mut Vec<u8>)
    ensures
        final(v)@ == old(v)@ + hash_suffix(),
{
    let ghost pre = v@;
    v.push(47);
    v.push(100);
    v.push(97);
    v.push(116);
    v.push(97);
    v.push(98);
    v.push(97);
    v.push(115);
    v.push(101);
    v.push(46);
    v.push(104);
    v.push(97);
    v.push(115);
    v.push(104);
    proof {
        assert(v@ =~= pre + hash_suffix());
    }
}

impl SyncMachine {
    /// The machine's structural invariant: the position points at a source
    /// with a mirror left to try (or one past the end when finished), and a
    /// persisting phase only ever holds a verified artifact.
    pub open spec fn wf(&self) -> bool {
        let v = self@;
        &&& 0 <= v.src <= v.sources.len()
        &&& (v.src < v.sources.len() ==> 0 <= v.mir < effective_mirrors(
            v.sources[v.src],
            v.mirrors,
        ))
        &&& (v.src == v.sources.len() ==> v.phase is NeedDb)
        &&& (match v.phase {
            PhaseV::Persist(data, hash) => artifact_matches(data, hash),
            _ => true,
        })
    }

    /// Starts a synchronization run over the given sources and mirror
    /// templates, with nothing updated yet.
    pub fn new(sources: Vec<Source>, mirrors: Vec<Vec<u8>>) -> (m: SyncMachine)
        ensures
            m.wf(),
            m@.sources == sources.deep_view(),
            m@.mirrors == mirrors.deep_view(),
            m@.src == next_src(sources.deep_view(), mirrors.deep_view(), 0),
            m@.mir == 0,
            m@.phase is NeedDb,
            m@.updated == Seq::<CachedRepoEntryV>::empty(),
    {
        let src = next_src_exec(&sources, &mirrors, 0);
        let updated: Vec<CachedRepoEntry> = Vec::new();
        proof {
            assert(updated.deep_view() =~= Seq::<CachedRepoEntryV>::empty());
        }
        SyncMachine { sources, mirrors, src, mir: 0, phase: Phase::NeedDb, updated }
    }

    /// The entries recorded by this run so far, in completion order.
    pub fn updated(&self) -> (r: &Vec<CachedRepoEntry>)
        ensures
            r.deep_view() == self@.updated,
    {
        &self.updated
    }

    /// What the caller should do next.  While a source is being tried the
    /// machine asks for the database URL of the current mirror, then for its
    /// hash URL, then for the verified bytes to be persisted; after the last
    /// source it is finished.
    pub fn action(&self) -> (a: SyncAction)
        requires
            self.wf(),
        ensures
            self@.src == self@.sources.len() ==> a is Finished,
            self@.src < self@.sources.len() ==> match self@.phase {
                PhaseV::NeedDb => a matches SyncAction::Fetch(u) && u@ == cur_base(self@)
                    + db_suffix(),
                PhaseV::NeedHash(_) => a matches SyncAction::Fetch(u) && u@ == cur_base(self@)
                    + hash_suffix(),
                PhaseV::Persist(d, h) => a matches SyncAction::Persist { name, data, hash }
                    && name@ == self@.sources[self@.src].name && data@ == d && hash@ == h,
            },
    {
        if self.src >= self.sources.len() {
            return SyncAction::Finished;
        }
        let s = &self.sources[self.src];
        proof {
            assert(self@.sources[self@.src] == s@);
        }
        match &self.phase {
            Phase::NeedDb => {
                let mut url = match &s.url {
                    Option::Some(u) => u.clone(),
                    Option::None => {
                        proof {
                            assert(self@.mirrors[self@.mir] == self.mirrors@[self.mir as int]@);
                        }
                        substitute(&self.mirrors[self.mir], &s.name)
                    },
                };
                proof {
                    assert(url@ == cur_base(self@));
                }
                append_db_suffix(&mut url);
                SyncAction::Fetch(url)
            },
            Phase::NeedHash(_) => {
                let mut url = match &s.url {
                    Option::Some(u) => u.clone(),
                    Option::None => {
                        proof {
                            assert(self@.mirrors[self@.mir] == self.mirrors@[self.mir as int]@);
                        }
                        substitute(&self.mirrors[self.mir], &s.name)
                    },
                };
                proof {
                    assert(url@ == cur_base(self@));
                }
                append_hash_suffix(&mut url);
                SyncAction::Fetch(url)
            },
            Phase::Persist(data, hash) => SyncAction::Persist {
                name: s.name.clone(),
                data: data.clone(),
                hash: hash.clone(),
            },
        }
    }

    /// Advances past a failed mirror attempt: the next mirror of the same
    /// source, or the next source once this source's mirrors are exhausted.
    fn fail_adv(&mut self)
        requires
            old(self).wf(),
            old(self)@.src < old(self)@.sources.len(),
        ensures
            final(self).wf(),
            final(self)@.sources == old(self)@.sources,
            final(self)@.mirrors == old(self)@.mirrors,
            final(self)@.updated == old(self)@.updated,
            final(self)@.src == fail_src(old(self)@),
            final(self)@.mir == fail_mir(old(self)@),
            final(self)@.phase is NeedDb,
    {
        let eff: usize = match &self.sources[self.src].url {
            Option::Some(_) => 1,
            Option::None => self.mirrors.len(),
        };
        proof {
            assert(self@.sources[self@.src] == self.sources@[self.src as int]@);
            assert(eff as int == effective_mirrors(self@.sources[self@.src], self@.mirrors));
        }
        let n = self.sources.len();
        proof {
            assert(self@.sources.len() == self.sources@.len());
            assert(self.src < n);
        }
        if self.mir + 1 < eff {
            self.mir += 1;
        } else {
            let ns = next_src_exec(&self.sources, &self.mirrors, self.src + 1);
            self.src = ns;
            self.mir = 0;
        }
        self.phase = Phase::NeedDb;
    }

    /// Feeds the outcome of the pending fetch.  `None` stands for a
    /// transport error or a non-success status: the attempt fails and the
    /// machine advances, with nothing recorded.  A database response is
    /// held for verification; a hash response is accepted, and the artifact
    /// queued for persisting, exactly when the database bytes match the
    /// digest — on a mismatch the partially fetched database is discarded
    /// and the cache state is left untouched.
    pub fn on_response(&mut self, resp: Option<Vec<u8>>)
        requires
            old(self).wf(),
            old(self)@.src < old(self)@.sources.len(),
            !(old(self)@.phase is Persist),
        ensures
            final(self).wf(),
            final(self)@.sources == old(self)@.sources,
            final(self)@.mirrors == old(self)@.mirrors,
            final(self)@.updated == old(self)@.updated,
            old(self)@.phase is NeedDb ==> ({
                let fv = final(self)@;
                let ov = old(self)@;
                match resp {
                    Option::Some(data) => fv.phase == PhaseV::NeedHash(data@) && fv.src == ov.src
                        && fv.mir == ov.mir,
                    Option::None => fv.src == fail_src(ov) && fv.mir == fail_mir(ov)
                        && fv.phase is NeedDb,
                }
            }),
            old(self)@.phase matches PhaseV::NeedHash(db) ==> ({
                let fv = final(self)@;
                let ov = old(self)@;
                if resp matches Option::Some(h) && artifact_matches(db, h@) {
                    fv.phase == PhaseV::Persist(db, resp.unwrap()@) && fv.src == ov.src && fv.mir
                        == ov.mir
                } else {
                    fv.src == fail_src(ov) && fv.mir == fail_mir(ov) && fv.phase is NeedDb
                }
            }),
    {
        let db: Option<Vec<u8>> = match &self.phase {
            Phase::NeedDb => None,
            Phase::NeedHash(d) => Some(d.clone()),
            Phase::Persist(_, _) => {
                proof {
                    assert(false);
                }
                None
            },
        };
        match db {
            Option::None => {
                // Waiting for the database resource.
                match resp {
                    Option::Some(data) => {
                        self.phase = Phase::NeedHash(data);
                    },
                    Option::None => {
                        self.fail_adv();
                    },
                }
            },
            Option::Some(data) => {
                // Waiting for the sidecar hash resource.
                match resp {
                    Option::Some(h) => {
                        if verify_artifact(&data, &h) {
                            self.phase = Phase::Persist(data, h);
                        } else {
                            self.fail_adv();
                        }
                    },
                    Option::None => {
                        self.fail_adv();
                    },
                }
            },
        }
    }

    /// Acknowledges that the verified artifact was written to the source's
    /// cache file: the entry `{name, hash}` is recorded — its hash matching
    /// the persisted bytes, so nothing unverified is ever recorded — and the
    /// machine moves to the next source.
    pub fn on_persisted(&mut self)
        requires
            old(self).wf(),
            old(self)@.phase is Persist,
        ensures
            final(self).wf(),
            final(self)@.sources == old(self)@.sources,
            final(self)@.mirrors == old(self)@.mirrors,
            (old(self)@.phase matches PhaseV::Persist(data, hash) ==> ({
                let fv = final(self)@;
                let ov = old(self)@;
                fv.updated == ov.updated.push(
                    CachedRepoEntryV { name: ov.sources[ov.src].name, hash },
                ) && artifact_matches(data, hash)
            })),
            final(self)@.src == next_src(
                old(self)@.sources,
                old(self)@.mirrors,
                old(self)@.src + 1,
            ),
            final(self)@.mir == 0,
            final(self)@.phase is NeedDb,
    {
        let entry_hash: Vec<u8>;
        match &self.phase {
            Phase::Persist(_d, h) => {
                entry_hash = h.clone();
            },
            _ => {
                proof {
                    assert(false);
                }
                entry_hash = Vec::new();
            },
        }
        let ghost pre_updated = self@.updated;
        let name = self.sources[self.src].name.clone();
        proof {
            assert(self@.sources[self@.src] == self.sources@[self.src as int]@);
        }
        let entry = CachedRepoEntry { name, hash: entry_hash };
        let ghost ev = entry@;
        self.updated.push(entry);
        proof {
            assert(self.updated.deep_view() =~~= pre_updated.push(ev));
        }
        let n = self.sources.len();
        proof {
            assert(self@.sources.len() == self.sources@.len());
            assert(self.src < n);
        }
        let ns = next_src_exec(&self.sources, &self.mirrors, self.src + 1);
        self.src = ns;
        self.mir = 0;
        self.phase = Phase::NeedDb;
    }
}

} // verus!
