//! Tests of the transaction engine against concrete values, driving the
//! verified library together with the real outside crates.

use bulge::config::{get_config_entry, get_sources, load_mirrors, Config, ConfigEntries,
    RepoEntries, RepoNode, Source};
use bulge::conflict::run_conflict_check;
use bulge::hashing::verify_artifact;
use bulge::lock::{check_lock, create_lock, lock_exists, remove_lock, Lock, LockError};
use bulge::pkg::{check_if_package, decode_pkg_file};
use bulge::sync::{SyncAction, SyncMachine};
use bulge::text::{string_to_vec, substitute, vec_to_string};
use bulge::transaction::{run_remove, InstallMachine, IPhase, InstalledPackage};
use bulge::version::is_downgrade;

use std::io::Write;

fn b(s: &str) -> Vec<u8> {
    s.as_bytes().to_vec()
}

fn sha512_hex(data: &[u8]) -> Vec<u8> {
    hex::encode(ring::digest::digest(&ring::digest::SHA512, data).as_ref()).into_bytes()
}

/// Builds an xz-compressed tar archive with the given entries.
fn make_archive(entries: &[(&str, &[u8])]) -> Vec<u8> {
    let mut builder = tar::Builder::new(Vec::new());
    for (path, data) in entries {
        let mut h = tar::Header::new_gnu();
        h.set_size(data.len() as u64);
        h.set_path(path).unwrap();
        h.set_mode(0o644);
        h.set_cksum();
        builder.append(&h, *data).unwrap();
    }
    let tar_bytes = builder.into_inner().unwrap();
    let mut enc = xz2::write::XzEncoder::new(Vec::new(), 6);
    enc.write_all(&tar_bytes).unwrap();
    enc.finish().unwrap()
}

#[test]
fn join_and_split_bytes() {
    let parts = vec![b("alpha"), b("beta"), b("gamma")];
    let joined = vec_to_string(&parts);
    assert_eq!(joined, b("alpha,beta,gamma"));
    assert_eq!(string_to_vec(&joined), parts);
    assert_eq!(vec_to_string(&Vec::new()), b(""));
    assert_eq!(string_to_vec(&b("")), vec![b("")]);
    assert_eq!(string_to_vec(&b("a,,b")), vec![b("a"), b(""), b("b")]);
}

#[test]
fn substitute_repo_token() {
    let url = substitute(&b("https://mirrors.example/$repo/x86_64"), &b("core"));
    assert_eq!(url, b("https://mirrors.example/core/x86_64"));
    let twice = substitute(&b("$repo/$repo"), &b("r"));
    assert_eq!(twice, b("r/r"));
    let none = substitute(&b("https://fixed.example/pkgs"), &b("core"));
    assert_eq!(none, b("https://fixed.example/pkgs"));
}

#[test]
fn artifact_accepts_exactly_matching_digest() {
    let payload = b("abc");
    let good = b(
        "ddaf35a193617abacc417349ae20413112e6fa4e89a97ea20a9eeee64b55d39a\
         2192992a274fc1a836ba3c23a3feebbd454d4423643ce80e2a9ac94fa54ca49f",
    );
    assert!(verify_artifact(&payload, &good));
    // Case-sensitive: an uppercase digest of the same value is rejected.
    let upper: Vec<u8> = good.iter().map(|c| c.to_ascii_uppercase()).collect();
    assert!(!verify_artifact(&payload, &upper));
    assert!(!verify_artifact(&b("abd"), &good));
    // Agrees with recomputing the digest directly.
    assert_eq!(sha512_hex(&payload), good);
}

#[test]
fn downgrade_comparisons() {
    assert!(is_downgrade(&b("1.2.0"), &b("1.3.0")));
    assert!(!is_downgrade(&b("2.0.0"), &b("1.9.9")));
    assert!(!is_downgrade(&b("1.2.0"), &b("1.2.0")));
    assert!(is_downgrade(&b("1.9.9"), &b("1.10.0")));
    assert!(!is_downgrade(&b("1.0"), &b("1.0.0")));
    assert!(is_downgrade(&b("0.9"), &b("1")));
}

#[test]
fn sources_filter_inactive() {
    let repos = vec![
        RepoNode { name: b("core"), active: true, url: None },
        RepoNode { name: b("extra"), active: false, url: None },
        RepoNode { name: b("local"), active: true, url: Some(b("https://fixed.example")) },
    ];
    let sources = get_sources(&repos);
    assert_eq!(sources.len(), 2);
    assert_eq!(sources[0].name, b("core"));
    assert_eq!(sources[0].url, None);
    assert_eq!(sources[1].name, b("local"));
    assert_eq!(sources[1].url, Some(b("https://fixed.example")));
}

#[test]
fn config_entry_lookup() {
    let config = Config {
        architecture: b("x86_64"),
        colour: true,
        progressbar: false,
        repos: vec![RepoNode { name: b("core"), active: true, url: None }],
    };
    let arch = get_config_entry(&config, ConfigEntries::Architecture, None, None).unwrap();
    assert_eq!(arch, b("x86_64"));
    let colour = get_config_entry(&config, ConfigEntries::Colour, None, None).unwrap();
    assert_eq!(colour, b("true"));
    let active = get_config_entry(
        &config,
        ConfigEntries::Repos,
        Some(b("core")),
        Some(RepoEntries::Active),
    )
    .unwrap();
    assert_eq!(active, b("true"));
    let missing = get_config_entry(
        &config,
        ConfigEntries::Repos,
        Some(b("nosuch")),
        Some(RepoEntries::Name),
    );
    assert!(missing.is_err());
    let underspecified = get_config_entry(&config, ConfigEntries::Repos, None, None);
    assert!(underspecified.is_err());
}

#[test]
fn mirrorlist_skips_blank_lines() {
    let data = b("https://a.example/$repo\n\nhttps://b.example/$repo\n");
    let mirrors = load_mirrors(&data);
    assert_eq!(mirrors, vec![b("https://a.example/$repo"), b("https://b.example/$repo")]);
}

#[test]
fn decode_descriptor_roundtrip() {
    let text = b(
        "{ \"name\": \"bar\", \"version\": \"1.0.0\", \"epoch\": 3,\n  \
         \"groups\": [\"base\", \"cli\"], \"provides\": \"bar,libbar\", \
         \"conflicts\": \"oldbar\" }",
    );
    let p = decode_pkg_file(&text).unwrap();
    assert_eq!(p.name, b("bar"));
    assert_eq!(p.version, b("1.0.0"));
    assert_eq!(p.epoch, 3);
    assert_eq!(p.groups, vec![b("base"), b("cli")]);
    assert_eq!(p.provides, b("bar,libbar"));
    assert_eq!(p.conflicts, b("oldbar"));
}

#[test]
fn decode_descriptor_escapes_and_empty_groups() {
    let text = b(
        "{\"name\":\"a\\\"b\",\"version\":\"1\",\"epoch\":0,\"groups\":[],\
         \"provides\":\"\",\"conflicts\":\"\"}",
    );
    let p = decode_pkg_file(&text).unwrap();
    assert_eq!(p.name, b("a\"b"));
    assert_eq!(p.groups.len(), 0);
    assert_eq!(p.provides, b(""));
}

#[test]
fn decode_descriptor_rejects_malformed() {
    // Not an object at all.
    assert!(decode_pkg_file(&b("nonsense")).is_err());
    // A missing field.
    assert!(decode_pkg_file(
        &b("{\"name\":\"x\",\"version\":\"1\",\"epoch\":0,\"groups\":[],\"provides\":\"\"}")
    )
    .is_err());
    // Trailing content after the object.
    assert!(decode_pkg_file(
        &b("{\"name\":\"x\",\"version\":\"1\",\"epoch\":0,\"groups\":[],\"provides\":\"\",\
            \"conflicts\":\"\"} extra")
    )
    .is_err());
    // An epoch beyond the signed 64-bit range.
    assert!(decode_pkg_file(
        &b("{\"name\":\"x\",\"version\":\"1\",\"epoch\":99999999999999999999,\"groups\":[],\
            \"provides\":\"\",\"conflicts\":\"\"}")
    )
    .is_err());
}

#[test]
fn classify_package_archives() {
    let with_pkg = make_archive(&[("PKG", b"{}"), ("data.tar.xz", b"payload")]);
    assert!(check_if_package(&with_pkg));
    let without_pkg = make_archive(&[("data.tar.xz", b"payload")]);
    assert!(!check_if_package(&without_pkg));
    assert!(!check_if_package(&b("not an archive at all")));
}

#[test]
fn conflict_fresh_install() {
    let candidates = vec![b("/usr/bin/foo")];
    // The path pre-exists on disk and no prior record owns it: a conflict.
    let report = run_conflict_check(&candidates, &vec![true], &None);
    assert!(report.is_conflict);
    assert_eq!(report.files, vec![b("/usr/bin/foo")]);
    // The path does not pre-exist: no conflict.
    let report = run_conflict_check(&candidates, &vec![false], &None);
    assert!(!report.is_conflict);
    assert_eq!(report.files.len(), 0);
}

#[test]
fn conflict_reinstall_owns_file() {
    let candidates = vec![b("/usr/bin/foo"), b("/usr/bin/new")];
    let prior = Some(vec![b("/usr/bin/foo")]);
    // The owned file exists on disk but the prior record covers it; the new
    // file exists and is not owned, so only it conflicts.
    let report = run_conflict_check(&candidates, &vec![true, true], &prior);
    assert!(report.is_conflict);
    assert_eq!(report.files, vec![b("/usr/bin/new")]);
    // Owned file only: no conflict at all.
    let report = run_conflict_check(&vec![b("/usr/bin/foo")], &vec![true], &prior);
    assert!(!report.is_conflict);
}

#[test]
fn remove_plan_skips_missing() {
    let files = vec![b("/a"), b("/b")];
    let plan = run_remove(&files, &vec![true, false]);
    assert_eq!(plan, vec![b("/a")]);
}

#[test]
fn lock_protocol() {
    let mut lock = Lock::new(false);
    assert!(!check_lock(&lock));
    assert!(create_lock(&mut lock).is_ok());
    assert!(check_lock(&lock));
    // Acquiring a held lock fails with LockHeld and changes nothing.
    match create_lock(&mut lock) {
        Err(LockError::LockHeld) => {},
        _ => panic!("expected LockHeld"),
    }
    assert!(check_lock(&lock));
    assert!(remove_lock(&mut lock).is_ok());
    assert!(!check_lock(&lock));
}

#[test]
fn stale_lock_resolution() {
    let mut lock = Lock::new(true);
    assert!(!lock_exists(&mut lock, false));
    assert!(check_lock(&lock));
    assert!(lock_exists(&mut lock, true));
    assert!(!check_lock(&lock));
    let mut free = Lock::new(false);
    assert!(lock_exists(&mut free, false));
}

fn fetch_url(m: &SyncMachine) -> Vec<u8> {
    match m.action() {
        SyncAction::Fetch(u) => u,
        _ => panic!("expected a fetch"),
    }
}

#[test]
fn sync_mirror_fallback_in_order() {
    let sources = vec![Source { name: b("core"), url: None }];
    let mirrors = vec![b("https://m1/$repo"), b("https://m2/$repo"), b("https://m3/$repo")];
    let mut m = SyncMachine::new(sources, mirrors);

    let database = b("repository index bytes");
    let good_hash = sha512_hex(&database);

    // m1: the database fetch fails (transport error or non-success status).
    assert_eq!(fetch_url(&m), b("https://m1/core/database.db"));
    m.on_response(None);

    // m2: the database arrives but its hash mismatches; the artifact is
    // discarded and nothing is recorded.
    assert_eq!(fetch_url(&m), b("https://m2/core/database.db"));
    m.on_response(Some(database.clone()));
    assert_eq!(fetch_url(&m), b("https://m2/core/database.hash"));
    m.on_response(Some(b("0000 not the right digest")));
    assert_eq!(m.updated().len(), 0);

    // m3: the database verifies and is persisted.
    assert_eq!(fetch_url(&m), b("https://m3/core/database.db"));
    m.on_response(Some(database.clone()));
    assert_eq!(fetch_url(&m), b("https://m3/core/database.hash"));
    m.on_response(Some(good_hash.clone()));
    match m.action() {
        SyncAction::Persist { name, data, hash } => {
            assert_eq!(name, b("core"));
            assert_eq!(data, database);
            assert_eq!(hash, good_hash);
        },
        _ => panic!("expected persist"),
    }
    m.on_persisted();
    assert!(matches!(m.action(), SyncAction::Finished));
    assert_eq!(m.updated().len(), 1);
    assert_eq!(m.updated()[0].name, b("core"));
    assert_eq!(m.updated()[0].hash, good_hash);
}

#[test]
fn sync_exhausted_mirrors_leave_source_untouched() {
    let sources = vec![
        Source { name: b("core"), url: None },
        Source { name: b("extra"), url: None },
    ];
    let mirrors = vec![b("https://m1/$repo")];
    let mut m = SyncMachine::new(sources, mirrors);
    // core's only mirror fails: nothing recorded, on to extra.
    assert_eq!(fetch_url(&m), b("https://m1/core/database.db"));
    m.on_response(None);
    assert_eq!(fetch_url(&m), b("https://m1/extra/database.db"));
    let database = b("extra bytes");
    m.on_response(Some(database.clone()));
    assert_eq!(fetch_url(&m), b("https://m1/extra/database.hash"));
    m.on_response(Some(sha512_hex(&database)));
    m.on_persisted();
    assert!(matches!(m.action(), SyncAction::Finished));
    assert_eq!(m.updated().len(), 1);
    assert_eq!(m.updated()[0].name, b("extra"));
}

#[test]
fn sync_fixed_url_is_sole_mirror() {
    let sources = vec![Source { name: b("local"), url: Some(b("https://fixed.example/repo")) }];
    let mirrors = vec![b("https://m1/$repo"), b("https://m2/$repo")];
    let mut m = SyncMachine::new(sources, mirrors);
    assert_eq!(fetch_url(&m), b("https://fixed.example/repo/database.db"));
    // One failure exhausts the sole mirror: the run is over.
    m.on_response(None);
    assert!(matches!(m.action(), SyncAction::Finished));
    assert_eq!(m.updated().len(), 0);
}

#[test]
fn inactive_source_never_contacted() {
    let repos = vec![
        RepoNode { name: b("active1"), active: true, url: None },
        RepoNode { name: b("sleeper"), active: false, url: None },
    ];
    let sources = get_sources(&repos);
    let mirrors = vec![b("https://m/$repo")];
    let mut m = SyncMachine::new(sources, mirrors);
    let mut urls: Vec<Vec<u8>> = Vec::new();
    loop {
        match m.action() {
            SyncAction::Fetch(u) => {
                urls.push(u);
                m.on_response(None);
            },
            SyncAction::Persist { .. } => m.on_persisted(),
            SyncAction::Finished => break,
        }
    }
    assert_eq!(urls, vec![b("https://m/active1/database.db")]);
    for u in &urls {
        let s = String::from_utf8(u.clone()).unwrap();
        assert!(!s.contains("sleeper"));
    }
}

fn pkg_descriptor_bar() -> Vec<u8> {
    b("{\"name\":\"bar\",\"version\":\"1.0.0\",\"epoch\":0,\"groups\":[],\
       \"provides\":\"\",\"conflicts\":\"\"}")
}

#[test]
fn install_end_to_end() {
    let data_tar = make_archive(&[("opt/bar/bin", b"binary contents")]);
    let mut m = InstallMachine::new(Source { name: b("core"), url: None });
    assert!(matches!(m.phase, IPhase::Unpack));
    m.on_unpacked(Some(pkg_descriptor_bar()));
    assert!(matches!(m.phase, IPhase::ConfirmInstall));
    assert_eq!(m.pkg.as_ref().unwrap().name, b("bar"));
    m.on_confirm_install(true);
    assert!(matches!(m.phase, IPhase::QueryPrior));
    m.on_prior(None);
    assert!(matches!(m.phase, IPhase::ReadPayload));
    m.on_payload(Some(data_tar));
    assert!(matches!(m.phase, IPhase::QueryExists));
    assert_eq!(m.candidates, vec![b("/opt/bar/bin")]);
    m.on_exists(vec![false]);
    assert!(matches!(m.phase, IPhase::WriteRecord));
    let record = m.record();
    assert_eq!(record.name, b("bar"));
    assert_eq!(record.version, b("1.0.0"));
    assert_eq!(record.installed_files, vec![b("/opt/bar/bin")]);
    m.on_recorded();
    assert!(matches!(m.phase, IPhase::Extract));
    m.on_extracted();
    assert!(matches!(m.phase, IPhase::CleanTemp));
    m.on_cleaned();
    assert!(matches!(m.phase, IPhase::Done));
}

#[test]
fn payload_directories_are_not_candidates() {
    // A payload with a directory entry and two files: only the files become
    // candidate destination paths, in archive order, rooted at `/`.
    let mut builder = tar::Builder::new(Vec::new());
    let mut dir = tar::Header::new_gnu();
    dir.set_size(0);
    dir.set_entry_type(tar::EntryType::Directory);
    dir.set_path("opt/bar/").unwrap();
    dir.set_mode(0o755);
    dir.set_cksum();
    builder.append(&dir, &b""[..]).unwrap();
    for path in ["opt/bar/bin", "opt/bar/README"] {
        let mut h = tar::Header::new_gnu();
        h.set_size(1);
        h.set_path(path).unwrap();
        h.set_mode(0o644);
        h.set_cksum();
        builder.append(&h, &b"x"[..]).unwrap();
    }
    let tar_bytes = builder.into_inner().unwrap();
    let mut enc = xz2::write::XzEncoder::new(Vec::new(), 6);
    enc.write_all(&tar_bytes).unwrap();
    let data_tar = enc.finish().unwrap();

    let mut m = InstallMachine::new(Source { name: b("core"), url: None });
    m.on_unpacked(Some(pkg_descriptor_bar()));
    m.on_confirm_install(true);
    m.on_prior(None);
    m.on_payload(Some(data_tar));
    assert_eq!(m.candidates, vec![b("/opt/bar/bin"), b("/opt/bar/README")]);
}

#[test]
fn install_declines_abort() {
    let mut m = InstallMachine::new(Source { name: b("core"), url: None });
    m.on_unpacked(Some(pkg_descriptor_bar()));
    m.on_confirm_install(false);
    assert!(matches!(m.phase, IPhase::Aborted { release_lock: false }));
}

#[test]
fn install_downgrade_needs_confirmation() {
    let prior = InstalledPackage {
        name: b("bar"),
        version: b("1.3.0"),
        epoch: 0,
        groups: Vec::new(),
        installed_files: vec![b("/opt/bar/bin")],
        provides: Vec::new(),
        conflicts: Vec::new(),
        source_name: b("core"),
    };
    let mut m = InstallMachine::new(Source { name: b("core"), url: None });
    m.on_unpacked(Some(pkg_descriptor_bar()));
    m.on_confirm_install(true);
    // Installing 1.0.0 over 1.3.0 is a downgrade.
    m.on_prior(Some(prior));
    assert!(matches!(m.phase, IPhase::ConfirmDowngrade));
    m.on_confirm_downgrade(false);
    assert!(matches!(m.phase, IPhase::Aborted { release_lock: false }));
}

#[test]
fn install_conflict_decline_releases_lock() {
    let data_tar = make_archive(&[("usr/bin/foo", b"x")]);
    let mut m = InstallMachine::new(Source { name: b("core"), url: None });
    m.on_unpacked(Some(pkg_descriptor_bar()));
    m.on_confirm_install(true);
    m.on_prior(None);
    m.on_payload(Some(data_tar));
    // The file pre-exists and nothing owns it: a conflict.
    m.on_exists(vec![true]);
    assert!(matches!(m.phase, IPhase::ConfirmConflicts));
    assert_eq!(m.conflicts, vec![b("/usr/bin/foo")]);
    m.on_confirm_conflicts(false);
    assert!(matches!(m.phase, IPhase::Aborted { release_lock: true }));
}

#[test]
fn install_reinstall_overwrites_owned_files() {
    let data_tar = make_archive(&[("usr/bin/foo", b"x")]);
    let prior = InstalledPackage {
        name: b("bar"),
        version: b("1.0.0"),
        epoch: 0,
        groups: Vec::new(),
        installed_files: vec![b("/usr/bin/foo")],
        provides: Vec::new(),
        conflicts: Vec::new(),
        source_name: b("core"),
    };
    let mut m = InstallMachine::new(Source { name: b("core"), url: None });
    m.on_unpacked(Some(pkg_descriptor_bar()));
    m.on_confirm_install(true);
    m.on_prior(Some(prior));
    assert!(matches!(m.phase, IPhase::ReadPayload));
    m.on_payload(Some(data_tar));
    // The file exists on disk but the prior install owns it: no conflict.
    m.on_exists(vec![true]);
    assert!(matches!(m.phase, IPhase::WriteRecord));
}

#[test]
fn install_malformed_descriptor_fails() {
    let mut m = InstallMachine::new(Source { name: b("core"), url: None });
    m.on_unpacked(Some(b("not a descriptor")));
    assert!(matches!(m.phase, IPhase::Failed));
    let mut m2 = InstallMachine::new(Source { name: b("core"), url: None });
    m2.on_unpacked(None);
    assert!(matches!(m2.phase, IPhase::Failed));
}

#[test]
fn install_unreadable_payload_fails() {
    let mut m = InstallMachine::new(Source { name: b("core"), url: None });
    m.on_unpacked(Some(pkg_descriptor_bar()));
    m.on_confirm_install(true);
    m.on_prior(None);
    m.on_payload(Some(b("garbage, not an archive")));
    assert!(matches!(m.phase, IPhase::Failed));
}
