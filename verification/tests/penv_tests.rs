use penv::cache::{Cache, CacheData};
use penv::environment::Environment;
use penv::errors::Error;
use penv::links::LinkOp;
use penv::penv::{Penv, UpgradeOutcome};
use penv::release::{
    releases_from_raw, Asset, InstallableBinaryRelease, InstalledAsset, InstalledBinaryRelease,
    InstalledRelease, RawAsset, RawRelease, Release,
};
use penv::version::{parse_version, RepoOrVersion, RepoOrVersionReq};

const HOME: &str = "/tmp/penv-home";

fn binary_record(version: &str) -> InstalledRelease {
    let root = format!("{HOME}/versions/{version}");
    InstalledRelease::Binary(InstalledBinaryRelease {
        version: parse_version(version).unwrap(),
        body: Some(format!("Release notes for version {version}")),
        assets: vec![
            InstalledAsset {
                target_arch: "x86_64-unknown-linux-gnu".to_string(),
                local_filepath: format!("{root}/bin/pcli"),
            },
            InstalledAsset {
                target_arch: "x86_64-unknown-linux-gnu".to_string(),
                local_filepath: format!("{root}/bin/pd"),
            },
            InstalledAsset {
                target_arch: "x86_64-unknown-linux-gnu".to_string(),
                local_filepath: format!("{root}/bin/pclientd"),
            },
        ],
        name: format!("Release {version}"),
        root_dir: root,
    })
}

fn penv_with(records: Vec<InstalledRelease>) -> Penv {
    let mut p = Penv::fresh("penumbra-zone/penumbra".to_string(), HOME.to_string());
    p.cache = Cache::from_data(
        HOME.to_string(),
        CacheData { installed_releases: records },
    )
    .unwrap();
    p
}

fn create_env(p: &mut Penv, alias: &str, req: &str) -> Environment {
    let requirement = RepoOrVersionReq::from_str(req);
    let env = p
        .prepare_environment(
            alias,
            &requirement,
            "http://localhost:9090/",
            "http://localhost:26657/",
            false,
            false,
        )
        .expect("environment should resolve");
    p.register_environment(env.clone()).expect("alias is free");
    env
}

/// A plain in-memory stand-in for the filesystem's symlinks, driven the
/// way the surrounding process drives the real ones.
fn apply(links: &mut std::collections::BTreeMap<String, String>, plan: &[LinkOp]) {
    for op in plan {
        match op {
            LinkOp::Ensure { link, target } => {
                if !links.contains_key(link) {
                    links.insert(link.clone(), target.clone());
                }
            }
            LinkOp::Remove { link } => {
                links.remove(link);
            }
        }
    }
}

#[test]
fn fresh_home_install_records_one_release() {
    // fresh home, then an install of 1.2.0: the cache index holds exactly
    // one binary record with its three assets
    let mut p = penv_with(vec![]);
    let release = Release {
        version: parse_version("1.2.0").unwrap(),
        body: None,
        assets: vec![],
        name: "Release 1.2.0".to_string(),
    };
    let staged = InstallableBinaryRelease {
        pcli: Some("/tmp/stage/pcli".to_string()),
        pclientd: Some("/tmp/stage/pclientd".to_string()),
        pd: Some("/tmp/stage/pd".to_string()),
        target_arch: "x86_64-unknown-linux-gnu".to_string(),
        release,
    };
    let dest = p.cache.generate_installed_release_path(
        &penv::release::InstallableRelease::Binary(staged),
    );
    assert_eq!(dest, "/tmp/penv-home/versions/1.2.0");
    // rebuild the staged value (it moved into the path computation)
    let staged = InstallableBinaryRelease {
        pcli: Some("/tmp/stage/pcli".to_string()),
        pclientd: Some("/tmp/stage/pclientd".to_string()),
        pd: Some("/tmp/stage/pd".to_string()),
        target_arch: "x86_64-unknown-linux-gnu".to_string(),
        release: Release {
            version: parse_version("1.2.0").unwrap(),
            body: None,
            assets: vec![],
            name: "Release 1.2.0".to_string(),
        },
    };
    let (ops, record) = staged.install_plan(&dest).unwrap();
    assert_eq!(ops.len(), 3);
    assert_eq!(ops[0].from, "/tmp/stage/pcli");
    assert_eq!(ops[0].to, "/tmp/penv-home/versions/1.2.0/bin/pcli");
    p.cache.install_release(record).unwrap();

    let persisted = p.to_persisted();
    assert_eq!(persisted.cache.installed_releases.len(), 1);
    match &persisted.cache.installed_releases[0] {
        InstalledRelease::Binary(b) => {
            assert!(b.version.same_version(&parse_version("1.2.0").unwrap()));
            assert_eq!(b.assets.len(), 3);
        }
        _ => panic!("expected one binary record"),
    }
}

#[test]
fn missing_staged_binary_fails_the_plan() {
    let staged = InstallableBinaryRelease {
        pcli: Some("/tmp/stage/pcli".to_string()),
        pclientd: None,
        pd: Some("/tmp/stage/pd".to_string()),
        target_arch: "x86_64-unknown-linux-gnu".to_string(),
        release: Release {
            version: parse_version("1.2.0").unwrap(),
            body: None,
            assets: vec![],
            name: "Release 1.2.0".to_string(),
        },
    };
    assert!(matches!(
        staged.install_plan("/tmp/penv-home/versions/1.2.0"),
        Err(Error::NotFound)
    ));
}

#[test]
fn create_environment_pins_the_best_match() {
    // requirement 1.2 with only 1.2.0 installed: the pin is 1.2.0 and the
    // client symlink resolves to the cached copy
    let mut p = penv_with(vec![binary_record("1.2.0")]);
    let env = create_env(&mut p, "dev", "1.2");
    match &env {
        Environment::BinaryEnvironment(b) => {
            assert!(b.pinned_version.same_version(&parse_version("1.2.0").unwrap()));
            assert_eq!(b.metadata.root_dir, "/tmp/penv-home/environments/dev");
        }
        _ => panic!("expected a binary environment"),
    }
    let plan = env.create_symlinks_plan(&p.cache).unwrap();
    match &plan[0] {
        LinkOp::Ensure { link, target } => {
            assert_eq!(link, "/tmp/penv-home/environments/dev/bin/pcli");
            assert_eq!(target, "/tmp/penv-home/versions/1.2.0/bin/pcli");
        }
        _ => panic!("expected a link creation"),
    }
}

#[test]
fn duplicate_alias_is_rejected_before_any_change() {
    let mut p = penv_with(vec![binary_record("1.2.0")]);
    create_env(&mut p, "dev", "1.2");
    let requirement = RepoOrVersionReq::from_str("1.2");
    assert!(matches!(
        p.prepare_environment(
            "dev",
            &requirement,
            "http://localhost:9090/",
            "http://localhost:26657/",
            false,
            false,
        ),
        Err(Error::Conflict)
    ));
    assert_eq!(p.environments.len(), 1);
}

#[test]
fn create_environment_requires_an_installed_match() {
    let p = penv_with(vec![]);
    let requirement = RepoOrVersionReq::from_str("1.2");
    assert!(matches!(
        p.prepare_environment(
            "testnet",
            &requirement,
            "https://testnet.example.net/",
            "http://localhost:26657/",
            false,
            false,
        ),
        Err(Error::NotFound)
    ));
}

#[test]
fn deleting_the_active_environment_is_rejected() {
    let mut p = penv_with(vec![binary_record("1.2.0")]);
    create_env(&mut p, "dev", "1.2");
    p.activate("dev").unwrap();
    assert!(matches!(p.delete_environment("dev"), Err(Error::Conflict)));
    assert_eq!(p.environments.len(), 1);
    // after deactivation the same deletion goes through
    p.deactivate();
    let dir = p.delete_environment("dev").unwrap();
    assert_eq!(dir, "/tmp/penv-home/environments/dev");
    assert_eq!(p.environments.len(), 0);
}

#[test]
fn deleting_a_pinned_release_is_rejected() {
    // `cache delete 1.2.0` while an environment is pinned to it: a
    // conflict, and the cache is unchanged
    let mut p = penv_with(vec![binary_record("1.2.0")]);
    create_env(&mut p, "dev", "1.2");
    let spec = RepoOrVersion::from_str("1.2.0");
    assert!(matches!(p.delete_cache_entry(&spec), Err(Error::Conflict)));
    assert_eq!(p.cache.data.installed_releases.len(), 1);
}

#[test]
fn unpinned_release_can_be_deleted() {
    let mut p = penv_with(vec![binary_record("1.0.0"), binary_record("1.2.0")]);
    create_env(&mut p, "dev", "1.2");
    let spec = RepoOrVersion::from_str("1.0.0");
    // 1.0.0 also matches `1.2`? no: the requirement pins only what it contains
    let dir = p.delete_cache_entry(&spec).unwrap();
    assert_eq!(dir, "/tmp/penv-home/versions/1.0.0");
    assert_eq!(p.cache.data.installed_releases.len(), 1);
    let missing = RepoOrVersion::from_str("9.9.9");
    assert!(matches!(p.delete_cache_entry(&missing), Err(Error::NotFound)));
}

#[test]
fn activation_switch_leaves_one_link() {
    // activate dev, then dev2: the shared bin link points only at dev2
    let mut p = penv_with(vec![binary_record("1.2.0")]);
    create_env(&mut p, "dev", "1.2");
    create_env(&mut p, "dev2", "1.2");

    let mut links = std::collections::BTreeMap::new();
    let plan = p.activate("dev").unwrap();
    apply(&mut links, &plan);
    assert_eq!(
        links.get("/tmp/penv-home/bin").unwrap(),
        "/tmp/penv-home/environments/dev/bin"
    );
    let plan = p.activate("dev2").unwrap();
    apply(&mut links, &plan);
    assert_eq!(links.len(), 1, "no dangling link may remain");
    assert_eq!(
        links.get("/tmp/penv-home/bin").unwrap(),
        "/tmp/penv-home/environments/dev2/bin"
    );
    assert_eq!(p.active_environment.as_ref().unwrap().metadata().alias, "dev2");
}

#[test]
fn deactivation_removes_the_shared_link() {
    let mut p = penv_with(vec![binary_record("1.2.0")]);
    create_env(&mut p, "dev", "1.2");
    let mut links = std::collections::BTreeMap::new();
    let plan = p.activate("dev").unwrap();
    apply(&mut links, &plan);
    let plan = p.deactivate();
    apply(&mut links, &plan);
    assert!(links.is_empty());
    assert!(p.active_environment.is_none());
}

#[test]
fn activating_an_unknown_alias_fails() {
    let mut p = penv_with(vec![]);
    assert!(matches!(p.activate("nope"), Err(Error::NotFound)));
}

#[test]
fn persist_and_load_reproduce_the_orchestrator() {
    // the index file holds the active environment as an alias; loading
    // re-resolves it against the list
    let mut p = penv_with(vec![binary_record("1.2.0")]);
    create_env(&mut p, "dev", "1.2");
    create_env(&mut p, "dev2", "latest");
    p.activate("dev2").unwrap();

    let persisted = p.to_persisted();
    assert_eq!(persisted.active_environment.as_deref(), Some("dev2"));
    let q = Penv::from_persisted(persisted).unwrap();
    assert_eq!(q.repository_name, p.repository_name);
    assert_eq!(q.home_dir, p.home_dir);
    assert_eq!(q.environments.len(), 2);
    assert_eq!(q.cache.data.installed_releases.len(), 1);
    let active = q.active_environment.as_ref().expect("still active");
    assert_eq!(active.metadata().alias, "dev2");
    match active {
        Environment::BinaryEnvironment(b) => {
            assert!(b.pinned_version.same_version(&parse_version("1.2.0").unwrap()))
        }
        _ => panic!("expected the binary environment"),
    }
}

#[test]
fn load_rejects_duplicate_aliases() {
    let mut p = penv_with(vec![]);
    create_env_unchecked(&mut p);
    let mut persisted = p.to_persisted();
    let one = persisted.environments[0].clone();
    persisted.environments.push(one);
    assert!(matches!(
        Penv::from_persisted(persisted),
        Err(Error::SerializationFailure)
    ));
}

fn create_env_unchecked(p: &mut Penv) {
    p.cache = Cache::from_data(
        HOME.to_string(),
        CacheData { installed_releases: vec![binary_record("1.2.0")] },
    )
    .unwrap();
    create_env(p, "dev", "1.2");
}

#[test]
fn replace_version_repins_and_rewires() {
    let mut p = penv_with(vec![binary_record("1.2.0"), binary_record("1.3.0")]);
    create_env(&mut p, "dev", "1.2");
    p.activate("dev").unwrap();
    let (remove_plan, create_plan) = p
        .replace_version("dev", parse_version("1.3.0").unwrap())
        .unwrap();
    assert_eq!(remove_plan.len(), 3);
    match &create_plan[0] {
        LinkOp::Ensure { target, .. } => {
            assert_eq!(target, "/tmp/penv-home/versions/1.3.0/bin/pcli")
        }
        _ => panic!("expected a link creation"),
    }
    // the list entry and the active slot both carry the new pin
    match &p.environments.environments[0] {
        Environment::BinaryEnvironment(b) => {
            assert!(b.pinned_version.same_version(&parse_version("1.3.0").unwrap()))
        }
        _ => panic!("expected the binary environment"),
    }
    match p.active_environment.as_ref().unwrap() {
        Environment::BinaryEnvironment(b) => {
            assert!(b.pinned_version.same_version(&parse_version("1.3.0").unwrap()))
        }
        _ => panic!("expected the binary environment"),
    }
}

#[test]
fn checkout_environments_cannot_be_repinned() {
    let mut p = penv_with(vec![InstalledRelease::GitCheckout(
        penv::release::CheckoutMetadata {
            name: "src".to_string(),
            url: "https://example.com/owner/repo.git".to_string(),
            install_path: "/tmp/penv-home/checkouts/x".to_string(),
        },
    )]);
    let requirement = RepoOrVersionReq::from_str("https://example.com/owner/repo.git");
    let env = p
        .prepare_environment(
            "src",
            &requirement,
            "http://localhost:9090/",
            "http://localhost:26657/",
            false,
            false,
        )
        .unwrap();
    p.register_environment(env).unwrap();
    assert!(matches!(
        p.replace_version("src", parse_version("1.0.0").unwrap()),
        Err(Error::UnsupportedOperation)
    ));
}

#[test]
fn upgrade_follows_the_requirement() {
    let mut p = penv_with(vec![binary_record("1.2.0")]);
    create_env(&mut p, "dev", "^1.2");
    // nothing newer installed: already current
    assert!(matches!(
        p.upgrade_environment("dev"),
        Ok(UpgradeOutcome::AlreadyCurrent)
    ));
    // a newer matching release appears in the cache
    p.cache.install_release(binary_record("1.2.5")).unwrap();
    match p.upgrade_environment("dev").unwrap() {
        UpgradeOutcome::Replaced { create_plan, .. } => match &create_plan[0] {
            LinkOp::Ensure { target, .. } => {
                assert_eq!(target, "/tmp/penv-home/versions/1.2.5/bin/pcli")
            }
            _ => panic!("expected a link creation"),
        },
        _ => panic!("expected a replacement"),
    }
}

#[test]
fn replace_version_requires_cached_binaries() {
    // the target version has no installed record, so its binaries cannot
    // be wired: the call is refused and nothing changes
    let mut p = penv_with(vec![binary_record("1.2.0")]);
    create_env(&mut p, "dev", "1.2");
    let before = p.environments.len();
    assert!(matches!(
        p.replace_version("dev", parse_version("9.9.9").unwrap()),
        Err(Error::NotFound)
    ));
    assert_eq!(p.environments.len(), before);
    match &p.environments.environments[0] {
        Environment::BinaryEnvironment(b) => {
            assert!(b.pinned_version.same_version(&parse_version("1.2.0").unwrap()))
        }
        _ => panic!("expected the binary environment"),
    }
    assert!(matches!(
        p.replace_version("missing", parse_version("1.2.0").unwrap()),
        Err(Error::NotFound)
    ));
}

#[test]
fn upgrade_is_refused_without_wireable_binaries() {
    // a newer matching release is recorded, but without its managed
    // binaries the upgrade cannot rewire and is refused
    let mut p = penv_with(vec![binary_record("1.2.0")]);
    create_env(&mut p, "dev", "^1.2");
    let bare = InstalledRelease::Binary(InstalledBinaryRelease {
        version: parse_version("1.2.7").unwrap(),
        body: None,
        assets: vec![],
        name: "Release 1.2.7".to_string(),
        root_dir: format!("{HOME}/versions/1.2.7"),
    });
    p.cache.install_release(bare).unwrap();
    assert!(matches!(p.upgrade_environment("dev"), Err(Error::NotFound)));
    match &p.environments.environments[0] {
        Environment::BinaryEnvironment(b) => {
            assert!(b.pinned_version.same_version(&parse_version("1.2.0").unwrap()))
        }
        _ => panic!("expected the binary environment"),
    }
    assert!(matches!(
        p.upgrade_environment("missing"),
        Err(Error::NotFound)
    ));
}

#[test]
fn loaders_accept_exactly_well_formed_state() {
    // a duplicate record identity is the one thing the cache loader rejects
    let dup = CacheData {
        installed_releases: vec![binary_record("1.2.0"), binary_record("1.2.0")],
    };
    assert!(matches!(
        Cache::from_data(HOME.to_string(), dup),
        Err(Error::SerializationFailure)
    ));
    let ok = CacheData {
        installed_releases: vec![binary_record("1.2.0"), binary_record("1.3.0")],
    };
    assert!(Cache::from_data(HOME.to_string(), ok).is_ok());
}

#[test]
fn corrupted_archive_aborts_the_install() {
    // a release whose archive is corrupted but whose sidecar is intact:
    // the install aborts with a checksum mismatch and no record is added
    let mut p = penv_with(vec![]);
    let sidecar =
        b"ba7816bf8f01cfea414140de5dae2223b00361a396177a9cb410ff61f20015ad  pcli.tar.gz\n"
            .to_vec();
    let expected = penv::downloader::parse_checksum_sidecar(&sidecar).unwrap();
    // the digest the corrupted archive actually hashes to
    let computed = vec![0u8; 32];
    let verdict = penv::downloader::verify_checksum(&Some(expected), &computed);
    assert!(matches!(verdict, Err(Error::ChecksumMismatch)));
    // the surrounding process stops here: nothing reaches the cache
    if verdict.is_ok() {
        p.cache.install_release(binary_record("1.2.0")).unwrap();
    }
    assert_eq!(p.cache.data.installed_releases.len(), 0);
}

#[test]
fn repo_install_is_keyed_and_unique() {
    let p = penv_with(vec![]);
    let rel = p.plan_repo_install("https://example.com/owner/repo.git").unwrap();
    match rel {
        penv::release::InstallableRelease::GitRepo(m) => {
            assert_eq!(m.url, "https://example.com/owner/repo.git");
            assert_eq!(m.checkout_dir.len(), 64);
        }
        _ => panic!("expected a repository staging record"),
    }
    let mut q = penv_with(vec![InstalledRelease::GitCheckout(
        penv::release::CheckoutMetadata {
            name: "r".to_string(),
            url: "https://example.com/owner/repo.git".to_string(),
            install_path: "/tmp/penv-home/checkouts/x".to_string(),
        },
    )]);
    assert!(matches!(
        q.plan_repo_install("https://example.com/owner/repo.git"),
        Err(Error::Conflict)
    ));
    q.deactivate();
}

#[test]
fn environment_info_reports_missing_aliases() {
    let mut p = penv_with(vec![binary_record("1.2.0")]);
    create_env(&mut p, "dev", "1.2");
    assert!(p.environment_info("dev").is_ok());
    assert!(matches!(p.environment_info("prod"), Err(Error::NotFound)));
    assert_eq!(p.path_string(), "/tmp/penv-home/bin");
    assert_eq!(p.penv_file_path(), "/tmp/penv-home/penv.toml");
}

#[test]
fn active_environment_state_directories() {
    let mut p = penv_with(vec![binary_record("1.2.0")]);
    create_env(&mut p, "dev", "1.2");
    assert!(p.pcli_home().is_none());
    p.activate("dev").unwrap();
    assert_eq!(
        p.pcli_home().unwrap(),
        "/tmp/penv-home/environments/dev/pcli"
    );
    assert_eq!(
        p.pclientd_home().unwrap(),
        "/tmp/penv-home/environments/dev/pclientd"
    );
    assert_eq!(
        p.pd_home().unwrap(),
        "/tmp/penv-home/environments/dev/network_data/node0/pd"
    );
    assert_eq!(
        p.cometbft_home().unwrap(),
        "/tmp/penv-home/environments/dev/network_data/node0/cometbft"
    );
}

#[test]
fn release_enrichment_fails_as_a_whole() {
    let good = RawRelease {
        tag_name: "v1.2.0".to_string(),
        name: "Release 1.2.0".to_string(),
        body: None,
        assets: vec![RawAsset {
            name: "pcli-x86_64-unknown-linux-gnu.tar.gz".to_string(),
            browser_download_url: "https://example.com/pcli-x86_64-unknown-linux-gnu.tar.gz"
                .to_string(),
        }],
    };
    let out = releases_from_raw(&vec![good]).unwrap();
    assert_eq!(out.len(), 1);
    assert!(out[0].version.same_version(&parse_version("1.2.0").unwrap()));
    assert_eq!(
        out[0].assets[0].target_arch.as_deref(),
        Some("x86_64-unknown-linux-gnu")
    );

    // one unparsable tag hides every other release
    let good = RawRelease {
        tag_name: "v1.2.0".to_string(),
        name: "Release 1.2.0".to_string(),
        body: None,
        assets: vec![],
    };
    let bad = RawRelease {
        tag_name: "nightly".to_string(),
        name: "Nightly".to_string(),
        body: None,
        assets: vec![],
    };
    assert!(matches!(
        releases_from_raw(&vec![good, bad]),
        Err(Error::SerializationFailure)
    ));
}

#[test]
fn download_plan_pairs_archives_and_sidecars() {
    let release = Release {
        version: parse_version("1.2.0").unwrap(),
        body: None,
        assets: vec![
            Asset {
                target_arch: None,
                browser_download_url:
                    "https://example.com/pcli-x86_64-unknown-linux-gnu.tar.gz".to_string(),
                expected_sha256sum: None,
            },
            Asset {
                target_arch: None,
                browser_download_url:
                    "https://example.com/pcli-x86_64-unknown-linux-gnu.tar.gz.sha256".to_string(),
                expected_sha256sum: None,
            },
            Asset {
                target_arch: None,
                browser_download_url:
                    "https://example.com/pd-x86_64-unknown-linux-gnu.tar.gz".to_string(),
                expected_sha256sum: None,
            },
            Asset {
                target_arch: None,
                browser_download_url:
                    "https://example.com/pcli-aarch64-apple-darwin.tar.gz".to_string(),
                expected_sha256sum: None,
            },
        ],
        name: "Release 1.2.0".to_string(),
    };
    let plan = penv::downloader::plan_download(&release, "x86_64-unknown-linux-gnu");
    assert_eq!(
        plan.pcli.archive_url.as_deref(),
        Some("https://example.com/pcli-x86_64-unknown-linux-gnu.tar.gz")
    );
    assert_eq!(
        plan.pcli.shasum_url.as_deref(),
        Some("https://example.com/pcli-x86_64-unknown-linux-gnu.tar.gz.sha256")
    );
    assert_eq!(
        plan.pd.archive_url.as_deref(),
        Some("https://example.com/pd-x86_64-unknown-linux-gnu.tar.gz")
    );
    assert!(plan.pd.shasum_url.is_none());
    assert!(plan.pclientd.archive_url.is_none());
}

#[test]
fn extracted_binary_is_selected_by_file_name() {
    let paths = vec![
        "/tmp/extract/README.md".to_string(),
        "/tmp/extract/pcli".to_string(),
        "/tmp/extract/docs/pcli.1".to_string(),
    ];
    assert_eq!(
        penv::downloader::select_binary_file(&paths, "pcli").unwrap(),
        "/tmp/extract/pcli"
    );
    assert!(penv::downloader::select_binary_file(&paths, "pd").is_none());
}
