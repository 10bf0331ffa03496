use penv::binaries::{extract_address, extract_seed_phrase};
use penv::cache::{Cache, CacheData};
use penv::command::Shell;
use penv::environment::{
    BinaryEnvironment, CheckoutEnvironment, Environment, EnvironmentMetadata,
};
use penv::errors::Error;
use penv::links::LinkOp;
use penv::release::{CheckoutMetadata, InstalledAsset, InstalledBinaryRelease, InstalledRelease};
use penv::version::{parse_version, RepoOrVersion, VersionReq, VersionReqOrLatest};

fn metadata(alias: &str, client_only: bool) -> EnvironmentMetadata {
    EnvironmentMetadata {
        alias: alias.to_string(),
        grpc_url: "http://localhost:9090/".to_string(),
        root_dir: format!("/tmp/penv-home/environments/{alias}"),
        pd_join_url: "http://localhost:26657/".to_string(),
        client_only,
        generate_network: false,
    }
}

fn binary_env(alias: &str, req: &str, pinned: &str, client_only: bool) -> Environment {
    Environment::BinaryEnvironment(BinaryEnvironment {
        metadata: metadata(alias, client_only),
        version_requirement: match req {
            "latest" => VersionReqOrLatest::Latest,
            other => VersionReqOrLatest::VersionReq(VersionReq::parse(other).unwrap()),
        },
        pinned_version: parse_version(pinned).unwrap(),
    })
}

fn checkout_env(alias: &str, url: &str) -> Environment {
    Environment::CheckoutEnvironment(CheckoutEnvironment {
        metadata: metadata(alias, false),
        git_checkout: CheckoutMetadata {
            name: url.to_string(),
            url: url.to_string(),
            install_path: "/tmp/penv-home/checkouts/x".to_string(),
        },
    })
}

fn installed_cache(version: &str) -> Cache {
    let root = format!("/tmp/penv-home/versions/{version}");
    Cache::from_data(
        "/tmp/penv-home".to_string(),
        CacheData {
            installed_releases: vec![InstalledRelease::Binary(InstalledBinaryRelease {
                version: parse_version(version).unwrap(),
                body: None,
                assets: vec![
                    InstalledAsset {
                        target_arch: "x86_64-unknown-linux-gnu".to_string(),
                        local_filepath: format!("{root}/bin/pcli"),
                    },
                    InstalledAsset {
                        target_arch: "x86_64-unknown-linux-gnu".to_string(),
                        local_filepath: format!("{root}/bin/pd"),
                    },
                    InstalledAsset {
                        target_arch: "x86_64-unknown-linux-gnu".to_string(),
                        local_filepath: format!("{root}/bin/pclientd"),
                    },
                ],
                name: format!("Release {version}"),
                root_dir: root.clone(),
            })],
        },
    )
    .unwrap()
}

#[test]
fn satisfied_by_version_covers_all_four_combinations() {
    let binary = binary_env("dev", "^1.0", "1.2.0", false);
    let checkout = checkout_env("src", "https://example.com/r.git");
    let version = RepoOrVersion::from_str("1.2.0");
    let repo = RepoOrVersion::Repo("https://example.com/r.git".to_string());
    // binary x version: range containment
    assert!(binary.satisfied_by_version(&version));
    assert!(!binary.satisfied_by_version(&RepoOrVersion::from_str("2.0.0")));
    // binary x repo: never
    assert!(!binary.satisfied_by_version(&repo));
    // checkout x version: never
    assert!(!checkout.satisfied_by_version(&version));
    // checkout x repo: exact URL equality
    assert!(checkout.satisfied_by_version(&repo));
    assert!(!checkout.satisfied_by_version(&RepoOrVersion::Repo(
        "https://example.com/other.git".to_string()
    )));
}

#[test]
fn latest_environment_is_satisfied_by_its_pin() {
    let env = binary_env("dev", "latest", "1.2.0", false);
    assert!(env.satisfied_by_version(&RepoOrVersion::from_str("1.2.0")));
    assert!(!env.satisfied_by_version(&RepoOrVersion::from_str("1.3.0")));
}

#[test]
fn symlink_plan_wires_all_three_binaries() {
    let cache = installed_cache("1.2.0");
    let env = binary_env("dev", "^1.0", "1.2.0", false);
    let plan = env.create_symlinks_plan(&cache).unwrap();
    assert_eq!(plan.len(), 3);
    match &plan[0] {
        LinkOp::Ensure { link, target } => {
            assert_eq!(link, "/tmp/penv-home/environments/dev/bin/pcli");
            assert_eq!(target, "/tmp/penv-home/versions/1.2.0/bin/pcli");
        }
        _ => panic!("expected a link creation"),
    }
    match &plan[2] {
        LinkOp::Ensure { link, target } => {
            assert_eq!(link, "/tmp/penv-home/environments/dev/bin/pd");
            assert_eq!(target, "/tmp/penv-home/versions/1.2.0/bin/pd");
        }
        _ => panic!("expected a link creation"),
    }
}

#[test]
fn symlink_plan_skips_node_for_client_only() {
    let cache = installed_cache("1.2.0");
    let env = binary_env("dev", "^1.0", "1.2.0", true);
    let plan = env.create_symlinks_plan(&cache).unwrap();
    assert_eq!(plan.len(), 2);
}

#[test]
fn symlink_plan_fails_without_cached_version() {
    let cache = installed_cache("1.0.0");
    let env = binary_env("dev", "^1.0", "1.2.0", false);
    assert!(matches!(
        env.create_symlinks_plan(&cache),
        Err(Error::NotFound)
    ));
}

#[test]
fn checkout_environments_need_no_symlinks() {
    let cache = installed_cache("1.2.0");
    let env = checkout_env("src", "https://example.com/r.git");
    assert!(env.create_symlinks_plan(&cache).unwrap().is_empty());
    assert!(env.remove_symlinks_plan().is_empty());
}

/// Creating the symlinks twice leaves exactly one correct link per
/// managed binary: the second run finds every link present and changes
/// nothing.
#[test]
fn symlink_plan_applied_twice_is_one_set_of_links() {
    let cache = installed_cache("1.2.0");
    let env = binary_env("dev", "^1.0", "1.2.0", false);
    let plan = env.create_symlinks_plan(&cache).unwrap();

    let mut links: std::collections::BTreeMap<String, String> = std::collections::BTreeMap::new();
    for round in 0..2 {
        for op in &plan {
            match op {
                LinkOp::Ensure { link, target } => {
                    // create-or-skip, as the surrounding process does
                    if !links.contains_key(link) {
                        links.insert(link.clone(), target.clone());
                    }
                }
                LinkOp::Remove { link } => {
                    links.remove(link);
                }
            }
        }
        assert_eq!(links.len(), 3, "after round {round}");
    }
    assert_eq!(
        links.get("/tmp/penv-home/environments/dev/bin/pcli").unwrap(),
        "/tmp/penv-home/versions/1.2.0/bin/pcli"
    );
    assert_eq!(
        links.get("/tmp/penv-home/environments/dev/bin/pclientd").unwrap(),
        "/tmp/penv-home/versions/1.2.0/bin/pclientd"
    );
    assert_eq!(
        links.get("/tmp/penv-home/environments/dev/bin/pd").unwrap(),
        "/tmp/penv-home/versions/1.2.0/bin/pd"
    );
}

#[test]
fn reset_plan_lists_the_node_state() {
    let env = binary_env("dev", "^1.0", "1.2.0", false);
    let plan = env.reset_plan(false, false);
    assert!(plan.run_client_reset);
    assert_eq!(plan.dirs_to_remove.len(), 6);
    assert_eq!(
        plan.dirs_to_remove[0],
        "/tmp/penv-home/environments/dev/network_data/node0/cometbft/data/state.db"
    );
    assert_eq!(
        plan.validator_state_file.as_deref(),
        Some("/tmp/penv-home/environments/dev/network_data/node0/cometbft/data/priv_validator_state.json")
    );
    // keeping node state, or a client-only environment, removes nothing
    let plan = env.reset_plan(false, true);
    assert!(plan.dirs_to_remove.is_empty());
    assert!(plan.validator_state_file.is_none());
    let plan = binary_env("dev", "^1.0", "1.2.0", true).reset_plan(true, false);
    assert!(plan.dirs_to_remove.is_empty());
    assert!(!plan.run_client_reset);
}

#[test]
fn seed_phrase_is_read_from_the_banner() {
    let input = "some preamble\nYOUR PRIVATE SEED PHRASE (SpendKey):\nalpha bravo charlie delta echo foxtrot golf hotel india juliett kilo lima\nSave this in a safe place!\n";
    let phrase = extract_seed_phrase(input).expect("twelve words after the banner");
    assert_eq!(
        phrase,
        "alpha bravo charlie delta echo foxtrot golf hotel india juliett kilo lima"
    );
}

#[test]
fn seed_phrase_accepts_twenty_four_words() {
    let words: Vec<String> = (0..24).map(|i| format!("word{i}")).collect();
    let phrase_line = words.join(" ");
    let input = format!(
        "YOUR PRIVATE SEED PHRASE (SpendKey):\n{phrase_line}\nSave this in a safe place!\n"
    );
    let phrase = extract_seed_phrase(&input).expect("twenty-four words after the banner");
    assert_eq!(phrase, phrase_line);
}

#[test]
fn seed_phrase_keeps_its_original_spacing() {
    // the phrase is the original text slice, inner whitespace included
    let input = "YOUR PRIVATE SEED PHRASE (SpendKey):\n  a b c  d e f g h i j k   l  \nSave it\n";
    assert_eq!(
        extract_seed_phrase(input).expect("twelve words"),
        "a b c  d e f g h i j k   l"
    );
}

#[test]
fn seed_phrase_rejects_malformed_output() {
    // no banner at all
    assert!(extract_seed_phrase("twelve words but no banner at all here now ok fine done yes\n")
        .is_none());
    // wrong word count
    assert!(extract_seed_phrase(
        "YOUR PRIVATE SEED PHRASE (SpendKey):\nonly five words right here\nSave it\n"
    )
    .is_none());
    // banner but no line break before the phrase
    assert!(extract_seed_phrase("YOUR PRIVATE SEED PHRASE (SpendKey): a b c d e f g h i j k l Save").is_none());
}

#[test]
fn address_is_read_from_a_single_line() {
    assert_eq!(
        extract_address("penumbra1w0r8wmgyxyyvjnqk8zqk8zq\n").unwrap(),
        "penumbra1w0r8wmgyxyyvjnqk8zqk8zq"
    );
    assert!(extract_address("penumbra1abc").is_none());
    assert!(extract_address("warning\npenumbra1abc\n").is_none());
    assert!(extract_address("something-else\n").is_none());
}

#[test]
fn shell_names_round_trip() {
    let sh = Shell::try_from("bash".to_string()).unwrap();
    assert_eq!(sh.into_name(), "bash");
    let sh = Shell::try_from("zsh".to_string()).unwrap();
    assert_eq!(sh.into_name(), "zsh");
    assert!(matches!(
        Shell::try_from("fish".to_string()),
        Err(Error::UnsupportedOperation)
    ));
}

#[test]
fn client_init_arguments_are_exact() {
    let env = binary_env("dev", "^1.0", "1.2.0", false);
    let pcli = env.get_pcli_binary();
    assert_eq!(
        pcli.init_args(false),
        vec![
            "--home",
            "/tmp/penv-home/environments/dev/pcli",
            "init",
            "--grpc-url",
            "http://localhost:9090/",
            "soft-kms",
            "generate",
        ]
    );
    assert_eq!(pcli.init_args(true)[6], "import-phrase");
    assert_eq!(
        pcli.address_args(7),
        vec![
            "--home",
            "/tmp/penv-home/environments/dev/pcli",
            "view",
            "address",
            "7",
        ]
    );
}

#[test]
fn daemon_and_node_arguments_are_exact() {
    let env = binary_env("dev", "^1.0", "1.2.0", false);
    let pclientd = env.get_pclientd_binary();
    assert_eq!(
        pclientd.init_args(),
        vec![
            "--home",
            "/tmp/penv-home/environments/dev/pclientd",
            "init",
            "--grpc-url",
            "http://localhost:9090/",
        ]
    );
    let pd = env.get_pd_binary();
    assert_eq!(
        pd.init_args(false, "0.0.0.0:26656", "dev", None),
        vec![
            "network",
            "--network-dir",
            "/tmp/penv-home/environments/dev/network_data",
            "join",
            "--moniker",
            "dev",
            "--external-address",
            "0.0.0.0:26656",
            "http://localhost:26657/",
        ]
    );
    assert_eq!(
        pd.init_args(true, "0.0.0.0:26656", "dev", Some("penumbra1alloc")),
        vec![
            "network",
            "--network-dir",
            "/tmp/penv-home/environments/dev/network_data",
            "generate",
            "--external-addresses",
            "0.0.0.0:26656",
            "--allocation-address",
            "penumbra1alloc",
        ]
    );
}

#[test]
fn subprocess_failures_carry_stderr() {
    let env = binary_env("dev", "^1.0", "1.2.0", false);
    let pcli = env.get_pcli_binary();
    match pcli.handle_init_output(false, "", "key generation failed", None) {
        Err(Error::SubprocessFailure(stderr)) => assert_eq!(stderr, "key generation failed"),
        _ => panic!("expected a subprocess failure"),
    }
    let out =
        "YOUR PRIVATE SEED PHRASE (SpendKey):\na b c d e f g h i j k l\nSave this phrase!\n";
    assert_eq!(
        pcli.handle_init_output(true, out, "", None).unwrap(),
        "a b c d e f g h i j k l"
    );
    assert_eq!(
        pcli.handle_init_output(true, "", "", Some("imported phrase".to_string()))
            .unwrap(),
        "imported phrase"
    );
}
