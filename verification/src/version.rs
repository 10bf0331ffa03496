use crate::errors::Error;
use crate::strutil::str_eq;
use vstd::prelude::*;

verus! {

/// Mathematical value of a semantic version: the numeric triple together
/// with the pre-release and build-metadata identifier text.
pub struct VersionV {
    pub major: int,
    pub minor: int,
    pub patch: int,
    pub pre: Seq<char>,
    pub build: Seq<char>,
}

/// A semantic version: `major.minor.patch`, optionally `-pre` and `+build`.
///
/// The fields are private on purpose: every value is built either by
/// [`Version::new`] (empty pre-release and build) or by [`parse_version`],
/// which accepts exactly what the semver grammar accepts.  The pre-release
/// and build text of every reachable value is therefore well-formed, which
/// the trusted comparison and rendering wrappers below depend on.
#[derive(Debug)]
pub struct Version {
    major: u64,
    minor: u64,
    patch: u64,
    pre: String,
    build: String,
}

impl View for Version {
    type V = VersionV;

    closed spec fn view(&self) -> VersionV {
        VersionV {
            major: self.major as int,
            minor: self.minor as int,
            patch: self.patch as int,
            pre: self.pre@,
            build: self.build@,
        }
    }
}

impl Clone for Version {
    fn clone(&self) -> (r: Self)
        ensures
            r@ == self@,
    {
        Version {
            major: self.major,
            minor: self.minor,
            patch: self.patch,
            pre: self.pre.clone(),
            build: self.build.clone(),
        }
    }
}

impl Version {
    /// A plain release version with no pre-release or build metadata.
    pub fn new(major: u64, minor: u64, patch: u64) -> (r: Version)
        ensures
            r@ == (VersionV {
                major: major as int,
                minor: minor as int,
                patch: patch as int,
                pre: Seq::<char>::empty(),
                build: Seq::<char>::empty(),
            }),
    {
        let r = Version { major, minor, patch, pre: String::new(), build: String::new() };
        proof {
            assert(r@ =~= (VersionV {
                major: major as int,
                minor: minor as int,
                patch: patch as int,
                pre: Seq::<char>::empty(),
                build: Seq::<char>::empty(),
            }));
        }
        r
    }

    pub fn major(&self) -> (r: u64)
        ensures
            r as int == self@.major,
    {
        self.major
    }

    pub fn minor(&self) -> (r: u64)
        ensures
            r as int == self@.minor,
    {
        self.minor
    }

    pub fn patch(&self) -> (r: u64)
        ensures
            r as int == self@.patch,
    {
        self.patch
    }

    /// Exact (bit-for-bit) version equality.
    pub fn same_version(&self, other: &Version) -> (r: bool)
        ensures
            r == (self@ == other@),
    {
        let r = self.major == other.major && self.minor == other.minor && self.patch
            == other.patch && self.pre == other.pre && self.build == other.build;
        proof {
            if r {
                assert(self@ =~= other@);
            }
        }
        r
    }
}

/// What `semver::Version::parse` accepts, and the value it returns:
/// a function of the text alone.
pub uninterp spec fn parsed_version(s: Seq<char>) -> Option<VersionV>;

/// Relies on `semver::Version::parse`: whether the text is a semantic
/// version, and which one, depends on the text alone.
#[verifier::external_body]
pub fn parse_version(s: &str) -> (r: Option<Version>)
    ensures
        r is Some <==> parsed_version(s@) is Some,
        r is Some ==> r->0@ == parsed_version(s@)->0,
{
    match semver::Version::parse(s) {
        Ok(v) => Some(
            Version {
                major: v.major,
                minor: v.minor,
                patch: v.patch,
                pre: v.pre.as_str().to_string(),
                build: v.build.as_str().to_string(),
            },
        ),
        Err(_) => None,
    }
}

/// The strict precedence order of `semver::Version`'s `Ord`
/// implementation: SemVer precedence on the numeric triple and the
/// pre-release identifiers, with build metadata as a final tiebreak.
pub uninterp spec fn version_before(a: VersionV, b: VersionV) -> bool;

/// The laws of a strict total order, which `Ord`'s documented contract
/// gives to `semver::Version`'s comparison: transitivity, asymmetry, and
/// connectedness (distinct versions always compare).
pub open spec fn version_order_laws() -> bool {
    &&& forall|x: VersionV, y: VersionV, z: VersionV|
        #[trigger] version_before(x, y) && #[trigger] version_before(y, z) ==> version_before(x, z)
    &&& forall|x: VersionV, y: VersionV| #[trigger] version_before(x, y) ==> !version_before(y, x)
    &&& forall|x: VersionV, y: VersionV|
        x != y ==> #[trigger] version_before(x, y) || #[trigger] version_before(y, x)
}

/// Everything one call of the comparison establishes: the returned
/// outcome, agreement with equality, pointwise totality, and the order
/// laws.
pub open spec fn version_lt_post(r: bool, a: VersionV, b: VersionV) -> bool {
    &&& r == version_before(a, b)
    &&& a == b ==> !r
    &&& !r && a != b ==> version_before(b, a)
    &&& version_order_laws()
}

/// Relies on `semver::Version`'s `Ord` implementation.  `Ord`'s documented
/// contract makes the order strict and total on versions.
#[verifier::external_body]
pub fn version_lt(a: &Version, b: &Version) -> (r: bool)
    ensures
        r == version_before(a@, b@),
        version_lt_post(r, a@, b@),
{
    let av = semver::Version {
        major: a.major,
        minor: a.minor,
        patch: a.patch,
        pre: semver::Prerelease::new(&a.pre).unwrap_or(semver::Prerelease::EMPTY),
        build: semver::BuildMetadata::new(&a.build).unwrap_or(semver::BuildMetadata::EMPTY),
    };
    let bv = semver::Version {
        major: b.major,
        minor: b.minor,
        patch: b.patch,
        pre: semver::Prerelease::new(&b.pre).unwrap_or(semver::Prerelease::EMPTY),
        build: semver::BuildMetadata::new(&b.build).unwrap_or(semver::BuildMetadata::EMPTY),
    };
    av < bv
}

/// The canonical rendering of a version, as `semver::Version`'s `Display`
/// writes it: `major.minor.patch`, then `-pre` if the pre-release is
/// non-empty, then `+build` if the build metadata is non-empty.
pub open spec fn version_text(v: VersionV) -> Seq<char> {
    crate::strutil::dec_str(v.major as nat) + "."@ + crate::strutil::dec_str(v.minor as nat)
        + "."@ + crate::strutil::dec_str(v.patch as nat) + (if v.pre.len() > 0 {
        "-"@ + v.pre
    } else {
        Seq::<char>::empty()
    }) + (if v.build.len() > 0 {
        "+"@ + v.build
    } else {
        Seq::<char>::empty()
    })
}

/// Relies on `semver::Version`'s `Display` implementation: the rendering
/// is a function of the fields alone.
#[verifier::external_body]
pub fn version_to_string(v: &Version) -> (r: String)
    ensures
        r@ == version_text(v@),
{
    semver::Version {
        major: v.major,
        minor: v.minor,
        patch: v.patch,
        pre: semver::Prerelease::new(&v.pre).unwrap_or(semver::Prerelease::EMPTY),
        build: semver::BuildMetadata::new(&v.build).unwrap_or(semver::BuildMetadata::EMPTY),
    }.to_string()
}

/// What `semver::VersionReq::parse` accepts: a function of the text alone.
pub uninterp spec fn req_well_formed(s: Seq<char>) -> bool;

/// Whether a well-formed requirement text matches a version, as decided by
/// `semver::VersionReq::matches`: a function of the text and the version.
pub uninterp spec fn req_matches(req: Seq<char>, v: VersionV) -> bool;

/// Relies on `semver::VersionReq::parse`: acceptance depends on the text
/// alone.
#[verifier::external_body]
fn version_req_parses(s: &str) -> (r: bool)
    ensures
        r == req_well_formed(s@),
{
    semver::VersionReq::parse(s).is_ok()
}

/// Relies on `semver::VersionReq::parse` and `semver::VersionReq::matches`:
/// on well-formed requirement text the outcome is a function of the text
/// and the version alone.
#[verifier::external_body]
fn eval_version_req(req: &str, v: &Version) -> (r: bool)
    ensures
        req_well_formed(req@) ==> r == req_matches(req@, v@),
        !req_well_formed(req@) ==> r == false,
{
    match semver::VersionReq::parse(req) {
        Ok(parsed) => parsed.matches(
            &semver::Version {
                major: v.major,
                minor: v.minor,
                patch: v.patch,
                pre: semver::Prerelease::new(&v.pre).unwrap_or(semver::Prerelease::EMPTY),
                build: semver::BuildMetadata::new(&v.build).unwrap_or(semver::BuildMetadata::EMPTY),
            },
        ),
        Err(_) => false,
    }
}

/// A semver range requirement, kept as its source text.  Construction goes
/// through semver's parser, so the text of every value is well-formed.
#[derive(Debug)]
pub struct VersionReq {
    source: String,
}

impl View for VersionReq {
    type V = Seq<char>;

    closed spec fn view(&self) -> Seq<char> {
        self.source@
    }
}

impl VersionReq {
    #[verifier::type_invariant]
    spec fn type_inv(self) -> bool {
        req_well_formed(self.source@)
    }

    /// Accepts exactly the requirement texts semver's parser accepts.
    pub fn parse(s: &str) -> (r: Option<VersionReq>)
        ensures
            r is Some <==> req_well_formed(s@),
            r is Some ==> r->0@ == s@,
    {
        if version_req_parses(s) {
            Some(VersionReq { source: s.to_owned() })
        } else {
            None
        }
    }

    /// The requirement's source text.
    pub fn source(&self) -> (r: &String)
        ensures
            r@ == self@,
    {
        &self.source
    }

    /// Range containment, as semver decides it.
    pub fn matches(&self, v: &Version) -> (r: bool)
        ensures
            r == req_matches(self@, v@),
    {
        proof {
            use_type_invariant(self);
        }
        eval_version_req(self.source.as_str(), v)
    }
}

impl Clone for VersionReq {
    fn clone(&self) -> (r: Self)
        ensures
            r@ == self@,
    {
        proof {
            use_type_invariant(self);
        }
        VersionReq { source: self.source.clone() }
    }
}

/// Mathematical value of [`VersionReqOrLatest`].
pub enum VersionReqOrLatestV {
    Latest,
    VersionReq(Seq<char>),
}

/// A version requirement as the user states one: the literal `latest`, or
/// a semver range.
#[derive(Debug)]
pub enum VersionReqOrLatest {
    Latest,
    VersionReq(VersionReq),
}

impl View for VersionReqOrLatest {
    type V = VersionReqOrLatestV;

    open spec fn view(&self) -> VersionReqOrLatestV {
        match self {
            VersionReqOrLatest::Latest => VersionReqOrLatestV::Latest,
            VersionReqOrLatest::VersionReq(r) => VersionReqOrLatestV::VersionReq(r@),
        }
    }
}

impl Clone for VersionReqOrLatest {
    fn clone(&self) -> (r: Self)
        ensures
            r@ == self@,
    {
        match self {
            VersionReqOrLatest::Latest => VersionReqOrLatest::Latest,
            VersionReqOrLatest::VersionReq(req) => VersionReqOrLatest::VersionReq(req.clone()),
        }
    }
}

/// Whether a requirement matches a version: `latest` matches exactly the
/// newest known candidate (`None` when there is none), a range matches by
/// containment.
pub open spec fn spec_req_or_latest_matches(
    req: VersionReqOrLatestV,
    v: VersionV,
    latest: Option<VersionV>,
) -> bool {
    match req {
        VersionReqOrLatestV::Latest => latest is Some && v == latest->0,
        VersionReqOrLatestV::VersionReq(s) => req_matches(s, v),
    }
}

impl VersionReqOrLatest {
    /// `latest` maps to `Latest`; anything else must be a semver range.
    pub fn from_str(s: &str) -> (r: Result<VersionReqOrLatest, Error>)
        ensures
            s@ == "latest"@ ==> (r matches Ok(v) && v@ == VersionReqOrLatestV::Latest),
            s@ != "latest"@ && req_well_formed(s@) ==> (r matches Ok(v) && v@
                == VersionReqOrLatestV::VersionReq(s@)),
            s@ != "latest"@ && !req_well_formed(s@) ==> (r matches Err(e)
                && e is InvalidRequirement),
    {
        if str_eq(s, "latest") {
            Ok(VersionReqOrLatest::Latest)
        } else {
            match VersionReq::parse(s) {
                Some(req) => Ok(VersionReqOrLatest::VersionReq(req)),
                None => Err(Error::InvalidRequirement),
            }
        }
    }

    /// The requirement's source text (`latest` for [`Self::Latest`]).
    pub fn to_source_string(&self) -> (r: String)
        ensures
            self@ is Latest ==> r@ == "latest"@,
            self@ matches VersionReqOrLatestV::VersionReq(s) ==> r@ == s,
    {
        match self {
            VersionReqOrLatest::Latest => "latest".to_owned(),
            VersionReqOrLatest::VersionReq(req) => req.source().clone(),
        }
    }

    /// Matching against a version, given the newest known candidate.
    pub fn matches(&self, v: &Version, latest_version: Option<&Version>) -> (r: bool)
        ensures
            r == spec_req_or_latest_matches(
                self@,
                v@,
                match latest_version {
                    Some(l) => Some(l@),
                    None => None,
                },
            ),
    {
        match self {
            VersionReqOrLatest::Latest => match latest_version {
                Some(l) => v.same_version(l),
                None => false,
            },
            VersionReqOrLatest::VersionReq(req) => req.matches(v),
        }
    }
}

/// Mathematical value of [`RepoOrVersion`].
pub enum RepoOrVersionV {
    Version(VersionV),
    Repo(Seq<char>),
}

/// What identifies an installed entry: an exact version, or a repository
/// location.
#[derive(Debug)]
pub enum RepoOrVersion {
    Version(Version),
    Repo(String),
}

impl View for RepoOrVersion {
    type V = RepoOrVersionV;

    open spec fn view(&self) -> RepoOrVersionV {
        match self {
            RepoOrVersion::Version(v) => RepoOrVersionV::Version(v@),
            RepoOrVersion::Repo(s) => RepoOrVersionV::Repo(s@),
        }
    }
}

impl Clone for RepoOrVersion {
    fn clone(&self) -> (r: Self)
        ensures
            r@ == self@,
    {
        match self {
            RepoOrVersion::Version(v) => RepoOrVersion::Version(v.clone()),
            RepoOrVersion::Repo(s) => RepoOrVersion::Repo(s.clone()),
        }
    }
}

/// An exact-version specifier matches only that version; a repository
/// specifier never matches a version.
pub open spec fn spec_repo_or_version_matches_version(spec: RepoOrVersionV, v: VersionV) -> bool {
    match spec {
        RepoOrVersionV::Version(sv) => sv == v,
        RepoOrVersionV::Repo(_) => false,
    }
}

impl RepoOrVersion {
    /// Text that parses as a version is one; anything else is taken as a
    /// repository location.
    pub fn from_str(s: &str) -> (r: RepoOrVersion)
        ensures
            parsed_version(s@) is Some ==> (r matches RepoOrVersion::Version(v) && v@
                == parsed_version(s@)->0),
            parsed_version(s@) is None ==> (r matches RepoOrVersion::Repo(t) && t@ == s@),
    {
        match parse_version(s) {
            Some(v) => RepoOrVersion::Version(v),
            None => RepoOrVersion::Repo(s.to_owned()),
        }
    }

    /// Whether this specifier selects version `v`.
    pub fn matches_version(&self, v: &Version) -> (r: bool)
        ensures
            r == spec_repo_or_version_matches_version(self@, v@),
    {
        match self {
            RepoOrVersion::Version(sv) => sv.same_version(v),
            RepoOrVersion::Repo(_) => false,
        }
    }
}

/// Mathematical value of [`RepoOrVersionReq`].
pub enum RepoOrVersionReqV {
    VersionReqOrLatest(VersionReqOrLatestV),
    Repo(Seq<char>),
}

/// What a user types to select something: a version requirement, or a
/// repository location.
#[derive(Debug)]
pub enum RepoOrVersionReq {
    VersionReqOrLatest(VersionReqOrLatest),
    Repo(String),
}

impl View for RepoOrVersionReq {
    type V = RepoOrVersionReqV;

    open spec fn view(&self) -> RepoOrVersionReqV {
        match self {
            RepoOrVersionReq::VersionReqOrLatest(r) => RepoOrVersionReqV::VersionReqOrLatest(r@),
            RepoOrVersionReq::Repo(s) => RepoOrVersionReqV::Repo(s@),
        }
    }
}

impl Clone for RepoOrVersionReq {
    fn clone(&self) -> (r: Self)
        ensures
            r@ == self@,
    {
        match self {
            RepoOrVersionReq::VersionReqOrLatest(r) => RepoOrVersionReq::VersionReqOrLatest(
                r.clone(),
            ),
            RepoOrVersionReq::Repo(s) => RepoOrVersionReq::Repo(s.clone()),
        }
    }
}

/// A version requirement matches versions by [`spec_req_or_latest_matches`];
/// a repository requirement never matches a version.
pub open spec fn spec_req_matches_version(
    req: RepoOrVersionReqV,
    v: VersionV,
    latest: Option<VersionV>,
) -> bool {
    match req {
        RepoOrVersionReqV::VersionReqOrLatest(r) => spec_req_or_latest_matches(r, v, latest),
        RepoOrVersionReqV::Repo(_) => false,
    }
}

impl RepoOrVersionReq {
    /// Text that parses as a requirement (or is `latest`) is one; anything
    /// else is taken as a repository location.
    pub fn from_str(s: &str) -> (r: RepoOrVersionReq)
        ensures
            s@ == "latest"@ ==> (r matches RepoOrVersionReq::VersionReqOrLatest(v) && v@
                == VersionReqOrLatestV::Latest),
            s@ != "latest"@ && req_well_formed(s@) ==> (r matches
                RepoOrVersionReq::VersionReqOrLatest(v) && v@ == VersionReqOrLatestV::VersionReq(
                s@,
            )),
            s@ != "latest"@ && !req_well_formed(s@) ==> (r matches RepoOrVersionReq::Repo(t) && t@
                == s@),
    {
        match VersionReqOrLatest::from_str(s) {
            Ok(req) => RepoOrVersionReq::VersionReqOrLatest(req),
            Err(_) => RepoOrVersionReq::Repo(s.to_owned()),
        }
    }

    /// Whether this requirement matches version `v`, given the newest known
    /// candidate.
    pub fn matches(&self, v: &Version, latest_version: Option<&Version>) -> (r: bool)
        ensures
            r == spec_req_matches_version(
                self@,
                v@,
                match latest_version {
                    Some(l) => Some(l@),
                    None => None,
                },
            ),
    {
        match self {
            RepoOrVersionReq::VersionReqOrLatest(req) => req.matches(v, latest_version),
            RepoOrVersionReq::Repo(_) => false,
        }
    }
}

} // verus!
