//! Configured repositories and mirror templates.
//!
//! A configuration names repositories; only those with their `active` flag
//! set take part in synchronization.  The mirror list file holds one URL
//! template per non-empty line, in try-order.

use vstd::prelude::*;
use crate::text::{split_sep, split_on};

verus! {

/// Error for a requested configuration entry that does not exist.
#[derive(Debug)]
pub struct ConfigError;

impl ConfigError {
    /// The user-facing description of the failure.
    pub fn message(&self) -> (r: &'static str)
        ensures
            r@ == "Requested config entry not found!"@,
    {
        "Requested config entry not found!"
    }
}

/// The entries a configuration exposes.
pub enum ConfigEntries {
    Architecture,
    Colour,
    Progressbar,
    Repos,
}

/// The fields of one configured repository.
#[derive(Clone, Copy)]
pub enum RepoEntries {
    Name,
    Active,
    Url,
}

/// One configured repository, as loaded from the configuration file.
pub struct RepoNode {
    pub name: Vec<u8>,
    pub active: bool,
    pub url: Option<Vec<u8>>,
}

/// The whole configuration file.
pub struct Config {
    pub architecture: Vec<u8>,
    pub colour: bool,
    pub progressbar: bool,
    pub repos: Vec<RepoNode>,
}

/// One source to synchronize from: a repository name, and an optional fixed
/// base URL that overrides mirror-template substitution.
pub struct Source {
    pub name: Vec<u8>,
    pub url: Option<Vec<u8>>,
}

/// The mathematical value of a [`RepoNode`].
pub struct RepoNodeV {
    pub name: Seq<u8>,
    pub active: bool,
    pub url: Option<Seq<u8>>,
}

/// The mathematical value of a [`Source`].
pub struct SourceV {
    pub name: Seq<u8>,
    pub url: Option<Seq<u8>>,
}

impl View for RepoNode {
    type V = RepoNodeV;

    open spec fn view(&self) -> RepoNodeV {
        RepoNodeV {
            name: self.name@,
            active: self.active,
            url: match self.url {
                Option::Some(u) => Option::Some(u@),
                Option::None => Option::None,
            },
        }
    }
}

impl DeepView for RepoNode {
    type V = RepoNodeV;

    open spec fn deep_view(&self) -> RepoNodeV {
        self.view()
    }
}

impl View for Source {
    type V = SourceV;

    open spec fn view(&self) -> SourceV {
        SourceV {
            name: self.name@,
            url: match self.url {
                Option::Some(u) => Option::Some(u@),
                Option::None => Option::None,
            },
        }
    }
}

impl DeepView for Source {
    type V = SourceV;

    open spec fn deep_view(&self) -> SourceV {
        self.view()
    }
}

/// The source a repository entry names.
pub open spec fn source_of(r: RepoNodeV) -> SourceV {
    SourceV { name: r.name, url: r.url }
}

/// The sources of the active repositories, in configuration order.
pub open spec fn spec_active_sources(rs: Seq<RepoNodeV>) -> Seq<SourceV>
    decreases rs.len(),
{
    if rs.len() == 0 {
        Seq::empty()
    } else {
        spec_active_sources(rs.drop_last()) + if rs.last().active {
            seq![source_of(rs.last())]
        } else {
            Seq::empty()
        }
    }
}

/// Returns the sources to synchronize: exactly the repositories whose
/// `active` flag is set, in configuration order.
pub fn get_sources(repos: &Vec<RepoNode>) -> (r: Vec<Source>)
    ensures
        r.deep_view() == spec_active_sources(repos.deep_view()),
{
    let mut sources: Vec<Source> = Vec::new();
    let mut i: usize = 0;
    while i < repos.len()
        invariant
            i <= repos.len(),
            sources.deep_view() == spec_active_sources(repos.deep_view().take(i as int)),
        decreases repos.len() - i,
    {
        let ghost pre = sources.deep_view();
        let node = &repos[i];
        proof {
            assert(repos.deep_view()[i as int] == node@);
        }
        if node.active {
            let url = match &node.url {
                Option::Some(u) => Option::Some(u.clone()),
                Option::None => Option::None,
            };
            let s = Source { name: node.name.clone(), url };
            proof {
                assert(s@ == source_of(node@));
            }
            sources.push(s);
            proof {
                assert(sources.deep_view() =~~= pre.push(source_of(node@)));
            }
        }
        proof {
            let rd = repos.deep_view();
            assert(rd.take(i + 1).drop_last() =~= rd.take(i as int));
            assert(rd.take(i + 1).last() == rd[i as int]);
            assert(sources.deep_view() =~~= spec_active_sources(rd.take(i + 1)));
        }
        i += 1;
    }
    proof {
        assert(repos.deep_view().take(i as int) =~= repos.deep_view());
    }
    sources
}

/// Every synchronized source comes from an active repository entry: a
/// repository whose `active` flag is false contributes nothing, so it is
/// never contacted during sync.
pub proof fn lemma_sources_only_active(rs: Seq<RepoNodeV>)
    ensures
        forall|j: int|
            0 <= j < spec_active_sources(rs).len() ==> exists|k: int|
                0 <= k < rs.len() && #[trigger] rs[k].active && #[trigger] spec_active_sources(
                    rs,
                )[j] == source_of(rs[k]),
    decreases rs.len(),
{
    if rs.len() > 0 {
        lemma_sources_only_active(rs.drop_last());
        let prev = spec_active_sources(rs.drop_last());
        let cur = spec_active_sources(rs);
        assert forall|j: int| 0 <= j < cur.len() implies exists|k: int|
            0 <= k < rs.len() && #[trigger] rs[k].active && #[trigger] spec_active_sources(rs)[j]
                == source_of(rs[k]) by {
            if j < prev.len() {
                let k = choose|k: int|
                    0 <= k < rs.drop_last().len() && rs.drop_last()[k].active && prev[j]
                        == source_of(rs.drop_last()[k]);
                assert(rs.drop_last()[k] == rs[k]);
                assert(cur[j] == prev[j]);
            } else {
                assert(rs.last().active && cur[j] == source_of(rs[rs.len() - 1]));
            }
        }
    }
}

/// The bytes of the textual form of a boolean flag.
pub open spec fn bool_bytes(b: bool) -> Seq<u8> {
    if b {
        seq![116u8, 114u8, 117u8, 101u8]
    } else {
        seq![102u8, 97u8, 108u8, 115u8, 101u8]
    }
}

fn bool_bytes_exec(b: bool) -> (r: Vec<u8>)
    ensures
        r@ == bool_bytes(b),
{
    let mut v: Vec<u8> = Vec::new();
    if b {
        v.push(116);
        v.push(114);
        v.push(117);
        v.push(101);
        proof {
            assert(v@ =~= bool_bytes(true));
        }
    } else {
        v.push(102);
        v.push(97);
        v.push(108);
        v.push(115);
        v.push(101);
        proof {
            assert(v@ =~= bool_bytes(false));
        }
    }
    v
}

/// The first repository entry with the given name, scanning from `i`.
pub open spec fn spec_find_repo(rs: Seq<RepoNodeV>, name: Seq<u8>, i: int) -> Option<RepoNodeV>
    decreases rs.len() - i,
{
    if i < 0 || i >= rs.len() {
        Option::None
    } else if rs[i].name == name {
        Option::Some(rs[i])
    } else {
        spec_find_repo(rs, name, i + 1)
    }
}

/// The value a repository entry holds for one of its fields; a repository
/// without a fixed URL reports an empty one.
pub open spec fn repo_value(r: RepoNodeV, e: RepoEntries) -> Seq<u8> {
    match e {
        RepoEntries::Name => r.name,
        RepoEntries::Active => bool_bytes(r.active),
        RepoEntries::Url => match r.url {
            Option::Some(u) => u,
            Option::None => Seq::empty(),
        },
    }
}

/// Looks up one entry of the configuration, in its textual form.  The
/// top-level entries always exist; a repository field exists only when both
/// the repository name and the field are given and a repository of that name
/// is configured, and is otherwise reported as [`ConfigError`].
pub fn get_config_entry(
    config: &Config,
    entry: ConfigEntries,
    repo: Option<Vec<u8>>,
    repo_entry: Option<RepoEntries>,
) -> (r: Result<Vec<u8>, ConfigError>)
    ensures
        entry is Architecture ==> (r matches Ok(v) && v@ == config.architecture@),
        entry is Colour ==> (r matches Ok(v) && v@ == bool_bytes(config.colour)),
        entry is Progressbar ==> (r matches Ok(v) && v@ == bool_bytes(config.progressbar)),
        entry is Repos && (repo is None || repo_entry is None) ==> r is Err,
        entry is Repos && repo is Some && repo_entry is Some ==> match spec_find_repo(
            config.repos.deep_view(),
            repo.unwrap()@,
            0,
        ) {
            Option::Some(node) => r matches Ok(v) && v@ == repo_value(
                node,
                repo_entry.unwrap(),
            ),
            Option::None => r is Err,
        },
{
    match entry {
        ConfigEntries::Architecture => Ok(config.architecture.clone()),
        ConfigEntries::Colour => Ok(bool_bytes_exec(config.colour)),
        ConfigEntries::Progressbar => Ok(bool_bytes_exec(config.progressbar)),
        ConfigEntries::Repos => {
            let (name, field) = match (&repo, repo_entry) {
                (Option::Some(n), Option::Some(f)) => (n.clone(), f),
                _ => {
                    return Err(ConfigError);
                },
            };
            let ghost rd = config.repos.deep_view();
            let mut i: usize = 0;
            while i < config.repos.len()
                invariant
                    i <= config.repos.len(),
                    rd == config.repos.deep_view(),
                    spec_find_repo(rd, name@, 0) == spec_find_repo(rd, name@, i as int),
                    entry is Repos,
                    repo is Some && name@ == repo.unwrap()@,
                    repo_entry is Some && field == repo_entry.unwrap(),
                decreases config.repos.len() - i,
            {
                let node = &config.repos[i];
                proof {
                    assert(rd[i as int] == node@);
                }
                if crate::text::bytes_eq(node.name.as_slice(), name.as_slice()) {
                    let v = match field {
                        RepoEntries::Name => node.name.clone(),
                        RepoEntries::Active => bool_bytes_exec(node.active),
                        RepoEntries::Url => match &node.url {
                            Option::Some(u) => u.clone(),
                            Option::None => Vec::new(),
                        },
                    };
                    proof {
                        assert(spec_find_repo(rd, name@, i as int) == Option::Some(node@));
                    }
                    return Ok(v);
                }
                i += 1;
            }
            Err(ConfigError)
        },
    }
}

/// The non-empty lines of a mirror list, in file order: the URL templates in
/// try-order.
pub open spec fn spec_mirror_templates(lines: Seq<Seq<u8>>) -> Seq<Seq<u8>>
    decreases lines.len(),
{
    if lines.len() == 0 {
        Seq::empty()
    } else {
        spec_mirror_templates(lines.drop_last()) + if lines.last().len() > 0 {
            seq![lines.last()]
        } else {
            Seq::empty()
        }
    }
}

/// Parses a mirror list file: one URL template per non-empty line, kept in
/// file order, which is the order mirrors are tried in.
pub fn load_mirrors(data: &Vec<u8>) -> (r: Vec<Vec<u8>>)
    ensures
        r.deep_view() == spec_mirror_templates(split_sep(data@, 10u8)),
{
    let lines = split_on(data, 10u8);
    let ghost ld = lines.deep_view();
    let mut out: Vec<Vec<u8>> = Vec::new();
    let mut i: usize = 0;
    while i < lines.len()
        invariant
            i <= lines.len(),
            ld == lines.deep_view(),
            out.deep_view() == spec_mirror_templates(ld.take(i as int)),
        decreases lines.len() - i,
    {
        let ghost pre = out.deep_view();
        proof {
            assert(ld[i as int] == lines[i as int]@);
        }
        if lines[i].len() > 0 {
            let l = lines[i].clone();
            out.push(l);
            proof {
                assert(out.deep_view() =~~= pre.push(ld[i as int]));
            }
        }
        proof {
            assert(ld.take(i + 1).drop_last() =~= ld.take(i as int));
            assert(ld.take(i + 1).last() == ld[i as int]);
            assert(out.deep_view() =~~= spec_mirror_templates(ld.take(i + 1)));
        }
        i += 1;
    }
    proof {
        assert(ld.take(i as int) =~= ld);
    }
    out
}

} // verus!
