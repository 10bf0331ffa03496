use penv::errors::Error;
use penv::version::{
    parse_version, version_lt, version_to_string, RepoOrVersion, RepoOrVersionReq, Version,
    VersionReq, VersionReqOrLatest,
};

#[test]
fn parse_plain_version() {
    let v = parse_version("1.2.0").expect("should parse");
    assert_eq!(v.major(), 1);
    assert_eq!(v.minor(), 2);
    assert_eq!(v.patch(), 0);
    assert_eq!(version_to_string(&v), "1.2.0");
}

#[test]
fn parse_prerelease_version() {
    let v = parse_version("1.0.0-alpha.1").expect("should parse");
    assert_eq!(v.major(), 1);
    assert_eq!(version_to_string(&v), "1.0.0-alpha.1");
}

#[test]
fn parse_rejects_garbage() {
    assert!(parse_version("latest").is_none());
    assert!(parse_version("").is_none());
    assert!(parse_version("https://example.com/repo.git").is_none());
}

#[test]
fn version_order_is_numeric() {
    let a = parse_version("1.2.0").unwrap();
    let b = parse_version("1.10.0").unwrap();
    assert!(version_lt(&a, &b));
    assert!(!version_lt(&b, &a));
    assert!(!version_lt(&a, &a));
}

#[test]
fn prerelease_sorts_before_release() {
    let pre = parse_version("1.0.0-alpha").unwrap();
    let rel = parse_version("1.0.0").unwrap();
    assert!(version_lt(&pre, &rel));
}

#[test]
fn same_version_is_exact() {
    let a = parse_version("1.2.0").unwrap();
    let b = parse_version("1.2.0").unwrap();
    let c = parse_version("1.2.1").unwrap();
    assert!(a.same_version(&b));
    assert!(!a.same_version(&c));
}

#[test]
fn requirement_matches_by_containment() {
    let req = VersionReq::parse("^1.0").expect("valid requirement");
    assert!(req.matches(&parse_version("1.2.0").unwrap()));
    assert!(!req.matches(&parse_version("2.0.0").unwrap()));
    assert!(VersionReq::parse("not a requirement !").is_none());
}

#[test]
fn latest_keyword_parses() {
    let r = VersionReqOrLatest::from_str("latest").expect("latest is accepted");
    assert!(matches!(r, VersionReqOrLatest::Latest));
    let r = VersionReqOrLatest::from_str("^1.0").expect("ranges are accepted");
    assert!(matches!(r, VersionReqOrLatest::VersionReq(_)));
    assert_eq!(r.to_source_string(), "^1.0");
    let r = VersionReqOrLatest::from_str("definitely not semver !");
    assert!(matches!(r, Err(Error::InvalidRequirement)));
}

#[test]
fn latest_matches_only_newest_candidate() {
    let newest = parse_version("1.2.0").unwrap();
    let older = parse_version("1.0.0").unwrap();
    let latest = VersionReqOrLatest::Latest;
    assert!(latest.matches(&newest, Some(&newest)));
    assert!(!latest.matches(&older, Some(&newest)));
    assert!(!latest.matches(&older, None));
}

#[test]
fn requirement_fallback_to_repository() {
    let r = RepoOrVersionReq::from_str("https://example.com/owner/repo.git");
    assert!(matches!(r, RepoOrVersionReq::Repo(_)));
    let r = RepoOrVersionReq::from_str("1.2");
    assert!(matches!(r, RepoOrVersionReq::VersionReqOrLatest(_)));
}

#[test]
fn repo_requirement_never_matches_a_version() {
    let r = RepoOrVersionReq::from_str("https://example.com/owner/repo.git");
    let v = parse_version("1.2.0").unwrap();
    assert!(!r.matches(&v, Some(&v)));
}

#[test]
fn exact_specifier_fallback_to_repository() {
    let r = RepoOrVersion::from_str("1.2.0");
    assert!(matches!(r, RepoOrVersion::Version(_)));
    let r = RepoOrVersion::from_str("./some/local/path");
    assert!(matches!(r, RepoOrVersion::Repo(_)));
}

#[test]
fn exact_specifier_matches_bit_for_bit() {
    let spec = RepoOrVersion::from_str("1.2.0");
    assert!(spec.matches_version(&parse_version("1.2.0").unwrap()));
    assert!(!spec.matches_version(&parse_version("1.2.1").unwrap()));
    let repo = RepoOrVersion::Repo(String::from("https://example.com/r.git"));
    assert!(!repo.matches_version(&parse_version("1.2.0").unwrap()));
}

#[test]
fn version_new_is_plain() {
    let v = Version::new(0, 80, 0);
    assert_eq!(version_to_string(&v), "0.80.0");
    assert!(v.same_version(&parse_version("0.80.0").unwrap()));
}
