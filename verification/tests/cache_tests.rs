use penv::cache::{Cache, CacheData};
use penv::digest::checkout_dir_name;
use penv::downloader::{parse_checksum_sidecar, verify_checksum, InstallDecision};
use penv::errors::Error;
use penv::release::{
    Asset, CheckoutMetadata, InstallableBinaryRelease, InstallableRelease, InstalledAsset,
    InstalledBinaryRelease, InstalledRelease, Release,
};
use penv::strutil::to_hex;
use penv::version::{parse_version, RepoOrVersion, RepoOrVersionReq, VersionReqOrLatest};

fn binary_record(version: &str, root: &str) -> InstalledRelease {
    let v = parse_version(version).unwrap();
    InstalledRelease::Binary(InstalledBinaryRelease {
        version: v,
        body: Some(format!("Release notes for version {version}")),
        assets: vec![
            InstalledAsset {
                target_arch: "x86_64-unknown-linux-gnu".to_string(),
                local_filepath: format!("{root}/bin/pcli"),
            },
            InstalledAsset {
                target_arch: "x86_64-unknown-linux-gnu".to_string(),
                local_filepath: format!("{root}/bin/pd"),
            },
            InstalledAsset {
                target_arch: "x86_64-unknown-linux-gnu".to_string(),
                local_filepath: format!("{root}/bin/pclientd"),
            },
        ],
        name: format!("Release {version}"),
        root_dir: root.to_string(),
    })
}

fn checkout_record(url: &str, path: &str) -> InstalledRelease {
    InstalledRelease::GitCheckout(CheckoutMetadata {
        name: url.to_string(),
        url: url.to_string(),
        install_path: path.to_string(),
    })
}

fn cache_with(records: Vec<InstalledRelease>) -> Cache {
    Cache::from_data(
        "/tmp/penv-home".to_string(),
        CacheData { installed_releases: records },
    )
    .expect("well-formed records")
}

#[test]
fn list_installed_without_requirement_returns_all() {
    let cache = cache_with(vec![
        binary_record("1.0.0", "/tmp/penv-home/versions/1.0.0"),
        binary_record("1.2.0", "/tmp/penv-home/versions/1.2.0"),
    ]);
    let all = cache.list_installed(None).unwrap();
    assert_eq!(all.len(), 2);
}

#[test]
fn list_installed_filters_by_range() {
    let req = RepoOrVersionReq::from_str("^1.2");
    let cache = cache_with(vec![
        binary_record("1.0.0", "/tmp/penv-home/versions/1.0.0"),
        binary_record("1.2.0", "/tmp/penv-home/versions/1.2.0"),
        checkout_record("https://example.com/r.git", "/tmp/penv-home/checkouts/x"),
    ]);
    let kept = cache.list_installed(Some(&req)).unwrap();
    assert_eq!(kept.len(), 1);
    match &kept[0] {
        InstalledRelease::Binary(b) => {
            assert!(b.version.same_version(&parse_version("1.2.0").unwrap()))
        }
        _ => panic!("expected the binary record"),
    }
}

#[test]
fn list_installed_latest_keeps_newest_only() {
    let req = RepoOrVersionReq::from_str("latest");
    let cache = cache_with(vec![
        binary_record("1.0.0", "/tmp/penv-home/versions/1.0.0"),
        binary_record("1.2.0", "/tmp/penv-home/versions/1.2.0"),
    ]);
    let kept = cache.list_installed(Some(&req)).unwrap();
    assert_eq!(kept.len(), 1);
    match &kept[0] {
        InstalledRelease::Binary(b) => {
            assert!(b.version.same_version(&parse_version("1.2.0").unwrap()))
        }
        _ => panic!("expected the binary record"),
    }
}

#[test]
fn list_installed_repo_requirement_keeps_matching_checkout() {
    let req = RepoOrVersionReq::from_str("https://example.com/r.git");
    let cache = cache_with(vec![
        binary_record("1.0.0", "/tmp/penv-home/versions/1.0.0"),
        checkout_record("https://example.com/r.git", "/tmp/penv-home/checkouts/x"),
        checkout_record("https://example.com/other.git", "/tmp/penv-home/checkouts/y"),
    ]);
    let kept = cache.list_installed(Some(&req)).unwrap();
    assert_eq!(kept.len(), 1);
    match &kept[0] {
        InstalledRelease::GitCheckout(c) => assert_eq!(c.url, "https://example.com/r.git"),
        _ => panic!("expected the checkout record"),
    }
}

#[test]
fn find_best_match_returns_maximum_matching_version() {
    let req = RepoOrVersionReq::from_str("^1.0");
    let cache = cache_with(vec![
        binary_record("1.0.0", "/tmp/penv-home/versions/1.0.0"),
        binary_record("1.2.0", "/tmp/penv-home/versions/1.2.0"),
        binary_record("2.0.0", "/tmp/penv-home/versions/2.0.0"),
    ]);
    match cache.find_best_match(&req) {
        Some(InstalledRelease::Binary(b)) => {
            assert!(b.version.same_version(&parse_version("1.2.0").unwrap()))
        }
        _ => panic!("expected a binary match"),
    }
}

#[test]
fn find_best_match_repo_returns_unique_checkout() {
    let req = RepoOrVersionReq::from_str("https://example.com/r.git");
    let cache = cache_with(vec![
        binary_record("1.0.0", "/tmp/penv-home/versions/1.0.0"),
        checkout_record("https://example.com/r.git", "/tmp/penv-home/checkouts/x"),
    ]);
    match cache.find_best_match(&req) {
        Some(InstalledRelease::GitCheckout(c)) => {
            assert_eq!(c.install_path, "/tmp/penv-home/checkouts/x")
        }
        _ => panic!("expected the checkout"),
    }
}

#[test]
fn find_best_match_none_when_nothing_matches() {
    let req = RepoOrVersionReq::from_str("^3.0");
    let cache = cache_with(vec![binary_record("1.0.0", "/tmp/penv-home/versions/1.0.0")]);
    assert!(cache.find_best_match(&req).is_none());
}

#[test]
fn get_installed_release_is_exact() {
    let cache = cache_with(vec![binary_record("1.2.0", "/tmp/penv-home/versions/1.2.0")]);
    let spec = RepoOrVersion::from_str("1.2.0");
    assert!(cache.get_installed_release(&spec).is_some());
    let other = RepoOrVersion::from_str("1.2.1");
    assert!(cache.get_installed_release(&other).is_none());
}

#[test]
fn binary_lookup_scans_recorded_assets() {
    let cache = cache_with(vec![binary_record("1.2.0", "/tmp/penv-home/versions/1.2.0")]);
    let v = parse_version("1.2.0").unwrap();
    assert_eq!(
        cache.get_pcli_for_version(&v).unwrap(),
        "/tmp/penv-home/versions/1.2.0/bin/pcli"
    );
    assert_eq!(
        cache.get_pd_for_version(&v).unwrap(),
        "/tmp/penv-home/versions/1.2.0/bin/pd"
    );
    assert_eq!(
        cache.get_pclientd_for_version(&v).unwrap(),
        "/tmp/penv-home/versions/1.2.0/bin/pclientd"
    );
    let absent = parse_version("9.9.9").unwrap();
    assert!(cache.get_pcli_for_version(&absent).is_none());
}

#[test]
fn install_release_rejects_duplicates() {
    let mut cache = cache_with(vec![binary_record("1.2.0", "/tmp/penv-home/versions/1.2.0")]);
    let again = binary_record("1.2.0", "/tmp/elsewhere");
    assert!(matches!(cache.install_release(again), Err(Error::Conflict)));
    assert_eq!(cache.data.installed_releases.len(), 1);
    let fresh = binary_record("1.3.0", "/tmp/penv-home/versions/1.3.0");
    assert!(cache.install_release(fresh).is_ok());
    assert_eq!(cache.data.installed_releases.len(), 2);
}

#[test]
fn delete_removes_the_record() {
    let mut cache = cache_with(vec![
        binary_record("1.0.0", "/tmp/penv-home/versions/1.0.0"),
        binary_record("1.2.0", "/tmp/penv-home/versions/1.2.0"),
    ]);
    let target = binary_record("1.0.0", "/tmp/penv-home/versions/1.0.0");
    cache.delete(&target).unwrap();
    assert_eq!(cache.data.installed_releases.len(), 1);
    let spec = RepoOrVersion::from_str("1.0.0");
    assert!(cache.get_installed_release(&spec).is_none());
}

#[test]
fn install_paths_are_deterministic() {
    let cache = cache_with(vec![]);
    let release = Release {
        version: parse_version("1.2.0").unwrap(),
        body: None,
        assets: vec![],
        name: "Release 1.2.0".to_string(),
    };
    let staged = InstallableRelease::Binary(InstallableBinaryRelease {
        pcli: Some("/tmp/stage/pcli".to_string()),
        pclientd: Some("/tmp/stage/pclientd".to_string()),
        pd: Some("/tmp/stage/pd".to_string()),
        target_arch: "x86_64-unknown-linux-gnu".to_string(),
        release,
    });
    assert_eq!(
        cache.generate_installed_release_path(&staged),
        "/tmp/penv-home/versions/1.2.0"
    );
}

#[test]
fn checkout_paths_are_keyed_by_url_digest() {
    // SHA-256 of "abc" is a standard test vector
    assert_eq!(
        checkout_dir_name("abc"),
        "ba7816bf8f01cfea414140de5dae2223b00361a396177a9cb410ff61f20015ad"
    );
}

#[test]
fn hex_encoding_is_lower_case_pairwise() {
    assert_eq!(to_hex(&vec![0xbe, 0xef]), "beef");
    assert_eq!(to_hex(&vec![0x00, 0x0a, 0xff]), "000aff");
    assert_eq!(to_hex(&vec![]), "");
}

#[test]
fn sidecar_digest_reads_first_64_hex_bytes() {
    let mut content =
        b"ba7816bf8f01cfea414140de5dae2223b00361a396177a9cb410ff61f20015ad".to_vec();
    content.extend_from_slice(b"  pcli-x86_64-unknown-linux-gnu.tar.gz\n");
    let digest = parse_checksum_sidecar(&content).unwrap();
    assert_eq!(digest.len(), 32);
    assert_eq!(digest[0], 0xba);
    assert_eq!(digest[31], 0xad);
}

#[test]
fn sidecar_digest_rejects_short_or_bad_content() {
    assert!(matches!(
        parse_checksum_sidecar(&b"deadbeef".to_vec()),
        Err(Error::SerializationFailure)
    ));
    let bad = vec![b'z'; 64];
    assert!(matches!(
        parse_checksum_sidecar(&bad),
        Err(Error::SerializationFailure)
    ));
}

#[test]
fn checksum_verification_decides_the_download() {
    let expected = Some(vec![1u8, 2, 3]);
    assert!(verify_checksum(&expected, &vec![1u8, 2, 3]).is_ok());
    assert!(matches!(
        verify_checksum(&expected, &vec![1u8, 2, 4]),
        Err(Error::ChecksumMismatch)
    ));
    // a missing sidecar skips verification instead of failing
    assert!(verify_checksum(&None, &vec![9u8]).is_ok());
}

fn remote_release(version: &str, with_arch: bool) -> Release {
    let assets = if with_arch {
        vec![Asset {
            target_arch: Some("x86_64-unknown-linux-gnu".to_string()),
            browser_download_url: format!(
                "https://example.com/pcli-x86_64-unknown-linux-gnu.tar.gz"
            ),
            expected_sha256sum: None,
        }]
    } else {
        vec![]
    };
    Release {
        version: parse_version(version).unwrap(),
        body: None,
        assets,
        name: format!("Release {version}"),
    }
}

#[test]
fn annotate_available_marks_installed_releases() {
    let cache = cache_with(vec![binary_record("1.0.0", "/tmp/penv-home/versions/1.0.0")]);
    let releases = vec![remote_release("1.0.0", true), remote_release("1.2.0", true)];
    let req = RepoOrVersionReq::from_str("^1.0");
    let out = cache.annotate_available(releases, Some(&req)).unwrap();
    assert_eq!(out.len(), 2);
    assert!(out[0].1);
    assert!(!out[1].1);
}

#[test]
fn annotate_available_latest_keeps_newest() {
    let cache = cache_with(vec![]);
    let releases = vec![remote_release("1.0.0", true), remote_release("1.2.0", true)];
    let req = RepoOrVersionReq::from_str("latest");
    let out = cache.annotate_available(releases, Some(&req)).unwrap();
    assert_eq!(out.len(), 1);
    assert!(out[0]
        .0
        .version
        .same_version(&parse_version("1.2.0").unwrap()));
}

#[test]
fn annotate_available_fails_on_empty_index() {
    let cache = cache_with(vec![]);
    assert!(matches!(
        cache.annotate_available(vec![], None),
        Err(Error::NotFound)
    ));
}

#[test]
fn choose_release_picks_newest_candidate_for_platform() {
    let cache = cache_with(vec![]);
    let releases = vec![
        remote_release("1.0.0", true),
        remote_release("1.2.0", true),
        remote_release("1.3.0", false), // newest, but not built for us
    ];
    let req = VersionReqOrLatest::from_str("^1.0").unwrap();
    let decision = penv::downloader::choose_binary_release(
        &cache,
        &releases,
        &req,
        "x86_64-unknown-linux-gnu",
    )
    .unwrap();
    match decision {
        InstallDecision::Download(rel) => {
            assert!(rel.version.same_version(&parse_version("1.2.0").unwrap()))
        }
        _ => panic!("expected a download decision"),
    }
}

#[test]
fn choose_release_reports_already_installed() {
    let cache = cache_with(vec![binary_record("1.2.0", "/tmp/penv-home/versions/1.2.0")]);
    let releases = vec![remote_release("1.0.0", true), remote_release("1.2.0", true)];
    let req = VersionReqOrLatest::from_str("^1.0").unwrap();
    let decision = penv::downloader::choose_binary_release(
        &cache,
        &releases,
        &req,
        "x86_64-unknown-linux-gnu",
    )
    .unwrap();
    match decision {
        InstallDecision::AlreadyInstalled(v) => {
            assert!(v.same_version(&parse_version("1.2.0").unwrap()))
        }
        _ => panic!("expected the already-installed outcome"),
    }
}

#[test]
fn choose_release_fails_without_candidates() {
    let cache = cache_with(vec![]);
    let releases = vec![remote_release("2.0.0", true)];
    let req = VersionReqOrLatest::from_str("^1.0").unwrap();
    assert!(matches!(
        penv::downloader::choose_binary_release(
            &cache,
            &releases,
            &req,
            "x86_64-unknown-linux-gnu"
        ),
        Err(Error::NotFound)
    ));
}
