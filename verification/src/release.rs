use crate::errors::Error;
use crate::version::{
    parsed_version, spec_repo_or_version_matches_version, RepoOrVersion, RepoOrVersionV, Version,
    VersionV,
};
use vstd::prelude::*;
use vstd::string::StrSliceExecFns;

verus! {

/// What `target_lexicon::Triple::from_str` accepts: a function of the text
/// alone.
pub uninterp spec fn triple_ok(s: Seq<char>) -> bool;

/// Relies on `target_lexicon::Triple::from_str`: whether the text names a
/// known platform triple depends on the text alone.
#[verifier::external_body]
fn triple_parses(s: &str) -> (r: bool)
    ensures
        r == triple_ok(s@),
{
    <target_lexicon::Triple as core::str::FromStr>::from_str(s).is_ok()
}

/// Characters the asset naming convention allows inside a triple fragment:
/// ASCII letters, digits, underscore and dash.
pub open spec fn word_dash(c: char) -> bool {
    ||| (97 <= c as u32 && c as u32 <= 122)
    ||| (65 <= c as u32 && c as u32 <= 90)
    ||| (48 <= c as u32 && c as u32 <= 57)
    ||| c as u32 == 95
    ||| c as u32 == 45
}

fn word_dash_exec(c: char) -> (r: bool)
    ensures
        r == word_dash(c),
{
    let u = c as u32;
    (97 <= u && u <= 122) || (65 <= u && u <= 90) || (48 <= u && u <= 57) || u == 95 || u == 45
}

/// End of the maximal run of word/dash characters beginning at `j`.
pub open spec fn run_end(s: Seq<char>, j: int) -> int
    decreases s.len() - j,
{
    if 0 <= j && j < s.len() && word_dash(s[j]) {
        run_end(s, j + 1)
    } else {
        j
    }
}

/// The fragment splits into three non-empty dash-separated fields.
pub open spec fn splittable(x: Seq<char>) -> bool {
    exists|p: int, q: int|
        #![trigger x[p], x[q]]
        1 <= p && p + 2 <= q && q + 2 <= x.len() && x[p] == '-' && x[q] == '-'
}

/// A triple-shaped fragment begins right after position `i`: a dash, then
/// a non-empty run of word/dash characters that ends at a dot and splits
/// into three dash-separated fields.
pub open spec fn triple_shape_at(s: Seq<char>, i: int) -> bool {
    &&& 0 <= i < s.len()
    &&& s[i] == '-'
    &&& run_end(s, i + 1) > i + 1
    &&& run_end(s, i + 1) < s.len()
    &&& s[run_end(s, i + 1)] == '.'
    &&& splittable(s.subrange(i + 1, run_end(s, i + 1)))
}

/// The fragment at position `i`.
pub open spec fn triple_fragment(s: Seq<char>, i: int) -> Seq<char> {
    s.subrange(i + 1, run_end(s, i + 1))
}

/// The leftmost triple-shaped fragment at or after position `i`.
pub open spec fn scan_triple_from(s: Seq<char>, i: int) -> Option<Seq<char>>
    decreases s.len() - i,
{
    if i >= s.len() || i < 0 {
        None
    } else if triple_shape_at(s, i) {
        Some(triple_fragment(s, i))
    } else {
        scan_triple_from(s, i + 1)
    }
}

/// The platform triple named by an asset file name: the leftmost
/// triple-shaped fragment, if it parses as a known triple.
pub open spec fn spec_extract_triple(s: Seq<char>) -> Option<Seq<char>> {
    match scan_triple_from(s, 0) {
        Some(x) => if triple_ok(x) {
            Some(x)
        } else {
            None
        },
        None => None,
    }
}

/// Whether the maximal word/dash run beginning at `from` ends at `m`.
fn find_run_end(s: &str, s_len: usize, from: usize) -> (m: usize)
    requires
        s_len == s@.len(),
        from <= s_len,
    ensures
        from <= m <= s_len,
        m as int == run_end(s@, from as int),
{
    let mut m = from;
    while m < s_len && word_dash_exec(s.get_char(m))
        invariant
            s_len == s@.len(),
            from <= m <= s_len,
            run_end(s@, from as int) == run_end(s@, m as int),
        decreases s_len - m,
    {
        m = m + 1;
    }
    proof {
        assert(run_end(s@, m as int) == m as int);
    }
    m
}

/// Whether the fragment has three non-empty dash-separated fields.
fn check_splittable(x: &str) -> (r: bool)
    ensures
        r == splittable(x@),
{
    let len = x.unicode_len();
    if len < 5 {
        proof {
            if splittable(x@) {
                let (p, q) = choose|p: int, q: int|
                    #![trigger x@[p], x@[q]]
                    1 <= p && p + 2 <= q && q + 2 <= x@.len() && x@[p] == '-' && x@[q] == '-';
                assert(q + 2 <= x@.len() && p + 2 <= q && 1 <= p);
            }
        }
        return false;
    }
    // first dash at index >= 1
    let mut p0: usize = 1;
    let mut p_found = false;
    while !p_found && p0 < len
        invariant
            len == x@.len(),
            1 <= p0 <= len,
            forall|j: int| 1 <= j < p0 ==> x@[j] != '-',
            p_found ==> (p0 < len && x@[p0 as int] == '-'),
        decreases len - p0, (if p_found {
            0int
        } else {
            1int
        }),
    {
        if x.get_char(p0) == '-' {
            p_found = true;
        } else {
            p0 = p0 + 1;
        }
    }
    if !p_found {
        proof {
            if splittable(x@) {
                let (p, q) = choose|p: int, q: int|
                    #![trigger x@[p], x@[q]]
                    1 <= p && p + 2 <= q && q + 2 <= x@.len() && x@[p] == '-' && x@[q] == '-';
                assert(x@[p] == '-' && 1 <= p < len);
            }
        }
        return false;
    }
    // last dash at index <= len - 2
    let mut q0: usize = len - 2;
    let mut q_found = false;
    while !q_found && q0 > 0
        invariant
            len == x@.len(),
            len >= 5,
            0 <= q0 <= len - 2,
            forall|j: int| q0 < j <= len - 2 ==> x@[j] != '-',
            q_found ==> x@[q0 as int] == '-',
        decreases q0, (if q_found {
            0int
        } else {
            1int
        }),
    {
        if x.get_char(q0) == '-' {
            q_found = true;
        } else {
            q0 = q0 - 1;
        }
    }
    let r = q_found && q0 >= 2 && p0 <= q0 - 2;
    proof {
        if r {
            assert(x@[p0 as int] == '-' && x@[q0 as int] == '-');
            assert(splittable(x@));
        } else {
            if splittable(x@) {
                let (p, q) = choose|p: int, q: int|
                    #![trigger x@[p], x@[q]]
                    1 <= p && p + 2 <= q && q + 2 <= x@.len() && x@[p] == '-' && x@[q] == '-';
                assert(p0 as int <= p);
                assert(q_found && q <= q0 as int);
                assert(q0 >= p0 + 2);
            }
        }
    }
    r
}

/// Extracts the platform triple from an asset file name, by the naming
/// convention: the leftmost dash-introduced fragment of word/dash
/// characters that ends at a dot and has three dash-separated fields, if
/// it names a known platform triple.
pub fn extract_triple(filename: &str) -> (r: Option<String>)
    ensures
        spec_extract_triple(filename@) matches Some(x) ==> (r matches Some(t) && t@ == x),
        spec_extract_triple(filename@) is None ==> r is None,
{
    let len = filename.unicode_len();
    let mut i: usize = 0;
    while i < len
        invariant
            len == filename@.len(),
            0 <= i <= len,
            scan_triple_from(filename@, 0) == scan_triple_from(filename@, i as int),
        decreases len - i,
    {
        if filename.get_char(i) == '-' {
            let m = find_run_end(filename, len, i + 1);
            if m > i + 1 && m < len && filename.get_char(m) == '.' {
                let frag = filename.substring_char(i + 1, m);
                if check_splittable(frag) {
                    proof {
                        assert(triple_shape_at(filename@, i as int));
                        assert(scan_triple_from(filename@, i as int) == Some(
                            triple_fragment(filename@, i as int),
                        ));
                    }
                    if triple_parses(frag) {
                        return Some(frag.to_owned());
                    } else {
                        return None;
                    }
                }
            }
            proof {
                assert(!triple_shape_at(filename@, i as int));
            }
        } else {
            proof {
                assert(!triple_shape_at(filename@, i as int));
            }
        }
        i = i + 1;
    }
    None
}

/// Mathematical value of [`Asset`].
pub struct AssetV {
    pub target_arch: Option<Seq<char>>,
    pub browser_download_url: Seq<char>,
    pub expected_sha256sum: Option<Seq<char>>,
}

/// A downloadable file attached to a remote release.
pub struct Asset {
    /// The platform triple the file is built for, when its name names one.
    pub target_arch: Option<String>,
    /// Where to fetch the file.
    pub browser_download_url: String,
    /// The hex digest its checksum sidecar published, once known.
    pub expected_sha256sum: Option<String>,
}

impl View for Asset {
    type V = AssetV;

    open spec fn view(&self) -> AssetV {
        AssetV {
            target_arch: match self.target_arch {
                Some(ref s) => Some(s@),
                None => None,
            },
            browser_download_url: self.browser_download_url@,
            expected_sha256sum: match self.expected_sha256sum {
                Some(ref s) => Some(s@),
                None => None,
            },
        }
    }
}

impl Clone for Asset {
    fn clone(&self) -> (r: Self)
        ensures
            r@ == self@,
    {
        Asset {
            target_arch: match self.target_arch {
                Some(ref s) => Some(s.clone()),
                None => None,
            },
            browser_download_url: self.browser_download_url.clone(),
            expected_sha256sum: match self.expected_sha256sum {
                Some(ref s) => Some(s.clone()),
                None => None,
            },
        }
    }
}

/// Mathematical value of [`InstalledAsset`].
pub struct InstalledAssetV {
    pub target_arch: Seq<char>,
    pub local_filepath: Seq<char>,
}

/// A file of an installed release, kept in the cache's storage.
pub struct InstalledAsset {
    /// The platform triple the file was built for.
    pub target_arch: String,
    /// Where the cache keeps the file.
    pub local_filepath: String,
}

impl View for InstalledAsset {
    type V = InstalledAssetV;

    open spec fn view(&self) -> InstalledAssetV {
        InstalledAssetV {
            target_arch: self.target_arch@,
            local_filepath: self.local_filepath@,
        }
    }
}

impl Clone for InstalledAsset {
    fn clone(&self) -> (r: Self)
        ensures
            r@ == self@,
    {
        InstalledAsset {
            target_arch: self.target_arch.clone(),
            local_filepath: self.local_filepath.clone(),
        }
    }
}

/// Mathematical value of [`RawAsset`].
pub struct RawAssetV {
    pub name: Seq<char>,
    pub browser_download_url: Seq<char>,
}

/// Asset information as the remote index reports it, before enriching.
pub struct RawAsset {
    /// The asset's file name.
    pub name: String,
    /// Where to fetch the file.
    pub browser_download_url: String,
}

impl View for RawAsset {
    type V = RawAssetV;

    open spec fn view(&self) -> RawAssetV {
        RawAssetV { name: self.name@, browser_download_url: self.browser_download_url@ }
    }
}

/// Mathematical value of [`RawRelease`].
pub struct RawReleaseV {
    pub tag_name: Seq<char>,
    pub name: Seq<char>,
    pub body: Option<Seq<char>>,
    pub assets: Seq<RawAssetV>,
}

/// Release information as the remote index reports it, before enriching.
pub struct RawRelease {
    /// The release's tag, a `v`-prefixed version.
    pub tag_name: String,
    /// The release's display name.
    pub name: String,
    /// The release notes, when published.
    pub body: Option<String>,
    /// The files attached to the release.
    pub assets: Vec<RawAsset>,
}

impl View for RawRelease {
    type V = RawReleaseV;

    open spec fn view(&self) -> RawReleaseV {
        RawReleaseV {
            tag_name: self.tag_name@,
            name: self.name@,
            body: match self.body {
                Some(ref s) => Some(s@),
                None => None,
            },
            assets: self.assets@.map_values(|a: RawAsset| a@),
        }
    }
}

/// Mathematical value of [`Release`].
pub struct ReleaseV {
    pub version: VersionV,
    pub body: Option<Seq<char>>,
    pub assets: Seq<AssetV>,
    pub name: Seq<char>,
}

/// A remote release enriched with domain types.
pub struct Release {
    /// The version of the release, parsed from its tag.
    pub version: Version,
    /// The release notes, when published.
    pub body: Option<String>,
    /// The attached files, for all platforms.
    pub assets: Vec<Asset>,
    /// The release's display name.
    pub name: String,
}

impl View for Release {
    type V = ReleaseV;

    open spec fn view(&self) -> ReleaseV {
        ReleaseV {
            version: self.version@,
            body: match self.body {
                Some(ref s) => Some(s@),
                None => None,
            },
            assets: self.assets@.map_values(|a: Asset| a@),
            name: self.name@,
        }
    }
}

impl Clone for Release {
    fn clone(&self) -> (r: Self)
        ensures
            r@ == self@,
    {
        let assets = self.assets.clone();
        proof {
            assert forall|i: int| 0 <= i < assets@.len() implies assets@[i]@
                == self.assets@[i]@ by {
                assert(cloned::<Asset>(self.assets@[i], assets@[i]));
            }
            assert(assets@.map_values(|a: Asset| a@) =~= self.assets@.map_values(|a: Asset| a@));
        }
        Release {
            version: self.version.clone(),
            body: match self.body {
                Some(ref s) => Some(s.clone()),
                None => None,
            },
            assets,
            name: self.name.clone(),
        }
    }
}

/// The version a release tag names: the tag with its first character
/// removed, parsed as a semantic version.
pub open spec fn spec_tag_version(tag: Seq<char>) -> Option<VersionV> {
    if tag.len() >= 1 {
        parsed_version(tag.skip(1))
    } else {
        None
    }
}

/// The enrichment of one raw asset: its triple is read from its file name;
/// no checksum is known yet.
pub open spec fn spec_enrich_asset(a: RawAssetV) -> AssetV {
    AssetV {
        target_arch: spec_extract_triple(a.name),
        browser_download_url: a.browser_download_url,
        expected_sha256sum: None,
    }
}

/// Reads the platform triple from the asset's file name.
pub fn enrich_asset(a: &RawAsset) -> (r: Asset)
    ensures
        r@ == spec_enrich_asset(a@),
{
    let target_arch = extract_triple(a.name.as_str());
    let r = Asset {
        target_arch,
        browser_download_url: a.browser_download_url.clone(),
        expected_sha256sum: None,
    };
    proof {
        assert(r@ =~= spec_enrich_asset(a@));
    }
    r
}

/// The enrichment of one raw release, defined when its tag parses.
pub open spec fn spec_enrich_release(raw: RawReleaseV) -> Option<ReleaseV> {
    match spec_tag_version(raw.tag_name) {
        Some(v) => Some(
            ReleaseV {
                version: v,
                body: raw.body,
                assets: raw.assets.map_values(|a: RawAssetV| spec_enrich_asset(a)),
                name: raw.name,
            },
        ),
        None => None,
    }
}

/// Converts one raw release into a domain release; fails when its tag does
/// not name a version.
pub fn release_from_raw(raw: &RawRelease) -> (r: Result<Release, Error>)
    ensures
        spec_enrich_release(raw@) matches Some(rel) ==> (r matches Ok(out) && out@ == rel),
        spec_enrich_release(raw@) is None ==> (r matches Err(e) && e is SerializationFailure),
{
    let tag: &str = raw.tag_name.as_str();
    let tag_len = tag.unicode_len();
    if tag_len == 0 {
        return Err(Error::SerializationFailure);
    }
    let stripped: &str = tag.substring_char(1, tag_len);
    proof {
        assert(stripped@ =~= raw.tag_name@.skip(1));
    }
    let version = match crate::version::parse_version(stripped) {
        Some(v) => v,
        None => {
            return Err(Error::SerializationFailure);
        },
    };
    let mut assets: Vec<Asset> = Vec::new();
    let n = raw.assets.len();
    let mut i: usize = 0;
    while i < n
        invariant
            n == raw.assets@.len(),
            0 <= i <= n,
            assets@.len() == i,
            forall|j: int|
                0 <= j < i ==> assets@[j]@ == spec_enrich_asset(
                    #[trigger] raw.assets@[j]@,
                ),
        decreases n - i,
    {
        let a = enrich_asset(&raw.assets[i]);
        assets.push(a);
        i = i + 1;
    }
    let out = Release {
        version,
        body: match raw.body {
            Some(ref s) => Some(s.clone()),
            None => None,
        },
        assets,
        name: raw.name.clone(),
    };
    proof {
        assert(out@.assets =~= raw@.assets.map_values(|a: RawAssetV| spec_enrich_asset(a)));
        assert(out@ =~= spec_enrich_release(raw@)->0);
    }
    Ok(out)
}

/// Mathematical value of [`InstalledBinaryRelease`].
pub struct InstalledBinaryReleaseV {
    pub version: VersionV,
    pub body: Option<Seq<char>>,
    pub assets: Seq<InstalledAssetV>,
    pub name: Seq<char>,
    pub root_dir: Seq<char>,
}

/// The persisted record of a prebuilt release placed into the cache.
pub struct InstalledBinaryRelease {
    /// The release's version.
    pub version: Version,
    /// The release notes, when published.
    pub body: Option<String>,
    /// The files placed into the cache.
    pub assets: Vec<InstalledAsset>,
    /// The release's display name.
    pub name: String,
    /// The cache directory holding the release.
    pub root_dir: String,
}

impl View for InstalledBinaryRelease {
    type V = InstalledBinaryReleaseV;

    open spec fn view(&self) -> InstalledBinaryReleaseV {
        InstalledBinaryReleaseV {
            version: self.version@,
            body: match self.body {
                Some(ref s) => Some(s@),
                None => None,
            },
            assets: self.assets@.map_values(|a: InstalledAsset| a@),
            name: self.name@,
            root_dir: self.root_dir@,
        }
    }
}

impl Clone for InstalledBinaryRelease {
    fn clone(&self) -> (r: Self)
        ensures
            r@ == self@,
    {
        let assets = self.assets.clone();
        proof {
            assert forall|i: int| 0 <= i < assets@.len() implies assets@[i]@
                == self.assets@[i]@ by {
                assert(cloned::<InstalledAsset>(self.assets@[i], assets@[i]));
            }
            assert(assets@.map_values(|a: InstalledAsset| a@) =~= self.assets@.map_values(
                |a: InstalledAsset| a@,
            ));
        }
        InstalledBinaryRelease {
            version: self.version.clone(),
            body: match self.body {
                Some(ref s) => Some(s.clone()),
                None => None,
            },
            assets,
            name: self.name.clone(),
            root_dir: self.root_dir.clone(),
        }
    }
}

/// Mathematical value of [`CheckoutMetadata`].
pub struct CheckoutMetadataV {
    pub name: Seq<char>,
    pub url: Seq<char>,
    pub install_path: Seq<char>,
}

/// The persisted record of a repository checkout placed into the cache.
pub struct CheckoutMetadata {
    /// The checkout's display name.
    pub name: String,
    /// The repository it was cloned from.
    pub url: String,
    /// The cache directory holding the clone.
    pub install_path: String,
}

impl View for CheckoutMetadata {
    type V = CheckoutMetadataV;

    open spec fn view(&self) -> CheckoutMetadataV {
        CheckoutMetadataV { name: self.name@, url: self.url@, install_path: self.install_path@ }
    }
}

impl Clone for CheckoutMetadata {
    fn clone(&self) -> (r: Self)
        ensures
            r@ == self@,
    {
        CheckoutMetadata {
            name: self.name.clone(),
            url: self.url.clone(),
            install_path: self.install_path.clone(),
        }
    }
}

/// Mathematical value of [`RepoMetadata`].
pub struct RepoMetadataV {
    pub name: Seq<char>,
    pub url: Seq<char>,
    pub checkout_dir: Seq<char>,
}

/// A repository selected for installation, before cloning.
pub struct RepoMetadata {
    /// The repository's display name.
    pub name: String,
    /// Where to clone it from.
    pub url: String,
    /// The directory name its clone will live under.
    pub checkout_dir: String,
}

impl View for RepoMetadata {
    type V = RepoMetadataV;

    open spec fn view(&self) -> RepoMetadataV {
        RepoMetadataV { name: self.name@, url: self.url@, checkout_dir: self.checkout_dir@ }
    }
}

impl Clone for RepoMetadata {
    fn clone(&self) -> (r: Self)
        ensures
            r@ == self@,
    {
        RepoMetadata {
            name: self.name.clone(),
            url: self.url.clone(),
            checkout_dir: self.checkout_dir.clone(),
        }
    }
}

/// Mathematical value of [`InstalledRelease`].
pub enum InstalledReleaseV {
    Binary(InstalledBinaryReleaseV),
    GitCheckout(CheckoutMetadataV),
}

/// A persisted cache record: a prebuilt release, or a repository checkout.
pub enum InstalledRelease {
    Binary(InstalledBinaryRelease),
    GitCheckout(CheckoutMetadata),
}

impl View for InstalledRelease {
    type V = InstalledReleaseV;

    open spec fn view(&self) -> InstalledReleaseV {
        match self {
            InstalledRelease::Binary(r) => InstalledReleaseV::Binary(r@),
            InstalledRelease::GitCheckout(c) => InstalledReleaseV::GitCheckout(c@),
        }
    }
}

impl Clone for InstalledRelease {
    fn clone(&self) -> (r: Self)
        ensures
            r@ == self@,
    {
        match self {
            InstalledRelease::Binary(rel) => InstalledRelease::Binary(rel.clone()),
            InstalledRelease::GitCheckout(c) => InstalledRelease::GitCheckout(c.clone()),
        }
    }
}

/// Whether an installed record is the one a specifier names: a binary
/// record only by exact version equality, a checkout only by exact URL
/// equality; the two families never mix.
pub open spec fn spec_installed_matches(rel: InstalledReleaseV, spec: RepoOrVersionV) -> bool {
    match rel {
        InstalledReleaseV::Binary(b) => spec_repo_or_version_matches_version(spec, b.version),
        InstalledReleaseV::GitCheckout(c) => match spec {
            RepoOrVersionV::Repo(url) => c.url == url,
            RepoOrVersionV::Version(_) => false,
        },
    }
}

impl InstalledRelease {
    /// Whether this record is the one the specifier names.
    pub fn matches(&self, repo_or_version: &RepoOrVersion) -> (r: bool)
        ensures
            r == spec_installed_matches(self@, repo_or_version@),
    {
        match self {
            InstalledRelease::Binary(release) => match repo_or_version {
                RepoOrVersion::Repo(_) => false,
                RepoOrVersion::Version(version) => release.version.same_version(version),
            },
            InstalledRelease::GitCheckout(checkout) => match repo_or_version {
                RepoOrVersion::Repo(repo) => {
                    let r = checkout.url == *repo;
                    r
                },
                RepoOrVersion::Version(_) => false,
            },
        }
    }

    /// The directory tree whose removal uninstalls the record.
    pub fn delete_path(&self) -> (r: &String)
        ensures
            self@ matches InstalledReleaseV::Binary(b) ==> r@ == b.root_dir,
            self@ matches InstalledReleaseV::GitCheckout(c) ==> r@ == c.install_path,
    {
        match self {
            InstalledRelease::Binary(release) => &release.root_dir,
            InstalledRelease::GitCheckout(checkout) => &checkout.install_path,
        }
    }

    /// The files the record placed into the cache; a checkout records none.
    pub fn assets(&self) -> (r: Vec<InstalledAsset>)
        ensures
            self@ matches InstalledReleaseV::Binary(b) ==> r@.map_values(|a: InstalledAsset| a@)
                == b.assets,
            self@ matches InstalledReleaseV::GitCheckout(_) ==> r@.len() == 0,
    {
        match self {
            InstalledRelease::Binary(release) => {
                let assets = release.assets.clone();
                proof {
                    assert forall|i: int| 0 <= i < assets@.len() implies assets@[i]@
                        == release.assets@[i]@ by {
                        assert(cloned::<InstalledAsset>(release.assets@[i], assets@[i]));
                    }
                    assert(assets@.map_values(|a: InstalledAsset| a@) =~= release.assets@.map_values(
                        |a: InstalledAsset| a@,
                    ));
                }
                assets
            },
            InstalledRelease::GitCheckout(_) => Vec::new(),
        }
    }
}

/// Mathematical value of [`InstallableBinaryRelease`].
pub struct InstallableBinaryReleaseV {
    pub pcli: Option<Seq<char>>,
    pub pclientd: Option<Seq<char>>,
    pub pd: Option<Seq<char>>,
    pub target_arch: Seq<char>,
    pub release: ReleaseV,
}

/// A prebuilt release staged in a private temporary area, not yet
/// committed to the cache: the staged path of each managed binary.
pub struct InstallableBinaryRelease {
    /// Staged path of the client binary.
    pub pcli: Option<String>,
    /// Staged path of the view-daemon binary.
    pub pclientd: Option<String>,
    /// Staged path of the full-node binary.
    pub pd: Option<String>,
    /// The platform triple the files were built for.
    pub target_arch: String,
    /// The release the files came from.
    pub release: Release,
}

impl View for InstallableBinaryRelease {
    type V = InstallableBinaryReleaseV;

    open spec fn view(&self) -> InstallableBinaryReleaseV {
        InstallableBinaryReleaseV {
            pcli: match self.pcli {
                Some(ref s) => Some(s@),
                None => None,
            },
            pclientd: match self.pclientd {
                Some(ref s) => Some(s@),
                None => None,
            },
            pd: match self.pd {
                Some(ref s) => Some(s@),
                None => None,
            },
            target_arch: self.target_arch@,
            release: self.release@,
        }
    }
}

impl InstallableBinaryRelease {
    /// The version being installed.
    pub fn version(&self) -> (r: &Version)
        ensures
            r@ == self@.release.version,
    {
        &self.release.version
    }
}

/// Mathematical value of [`CopyOp`].
pub struct CopyOpV {
    pub from: Seq<char>,
    pub to: Seq<char>,
}

/// One file copy for the surrounding process to carry out.
pub struct CopyOp {
    /// The staged file.
    pub from: String,
    /// Its place in the cache.
    pub to: String,
}

impl View for CopyOp {
    type V = CopyOpV;

    open spec fn view(&self) -> CopyOpV {
        CopyOpV { from: self.from@, to: self.to@ }
    }
}

/// Where one staged file lands: under the destination's `bin`, keeping
/// its file name.
pub open spec fn spec_copy_dest(version_path: Seq<char>, staged: Seq<char>) -> Seq<char> {
    version_path + "/"@ + "bin"@ + "/"@ + crate::strutil::last_component(staged)
}

impl InstallableBinaryRelease {
    /// The copies that place the staged binaries into the cache, with the
    /// record to register once every copy succeeded.  All three managed
    /// binaries must have been staged.
    ///
    /// A pre-existing destination (say, left by an aborted earlier
    /// install) is neither cleared nor checksum-verified beforehand: the
    /// chosen retry policy is that every file the record will name is
    /// copied anew, overwriting what is there, and anything else under
    /// the destination is left in place.  A retried install is safe
    /// because the record only ever names freshly copied files.
    pub fn install_plan(&self, version_path: &str) -> (r: Result<
        (Vec<CopyOp>, InstalledRelease),
        Error,
    >)
        ensures
            r matches Ok(out) ==> {
                let ops = out.0@.map_values(|c: CopyOp| c@);
                &&& self@.pcli matches Some(pcli) && self@.pd matches Some(pd)
                    && self@.pclientd matches Some(pclientd) && ops == seq![
                    CopyOpV { from: pcli, to: spec_copy_dest(version_path@, pcli) },
                    CopyOpV { from: pd, to: spec_copy_dest(version_path@, pd) },
                    CopyOpV {
                        from: pclientd,
                        to: spec_copy_dest(version_path@, pclientd),
                    },
                ]
                &&& out.1@ == InstalledReleaseV::Binary(
                    InstalledBinaryReleaseV {
                        version: self@.release.version,
                        body: self@.release.body,
                        assets: seq![
                            InstalledAssetV {
                                target_arch: self@.target_arch,
                                local_filepath: ops[0].to,
                            },
                            InstalledAssetV {
                                target_arch: self@.target_arch,
                                local_filepath: ops[1].to,
                            },
                            InstalledAssetV {
                                target_arch: self@.target_arch,
                                local_filepath: ops[2].to,
                            },
                        ],
                        name: self@.release.name,
                        root_dir: version_path@,
                    },
                )
            },
            r matches Err(e) ==> e is NotFound && (self@.pcli is None || self@.pd is None
                || self@.pclientd is None),
    {
        let pcli = match &self.pcli {
            Some(p) => p,
            None => {
                return Err(Error::NotFound);
            },
        };
        let pd = match &self.pd {
            Some(p) => p,
            None => {
                return Err(Error::NotFound);
            },
        };
        let pclientd = match &self.pclientd {
            Some(p) => p,
            None => {
                return Err(Error::NotFound);
            },
        };
        let base = crate::strutil::path_join(version_path, "bin");
        let mut ops: Vec<CopyOp> = Vec::new();
        let mut assets: Vec<InstalledAsset> = Vec::new();
        let to0 = crate::strutil::path_join(
            base.as_str(),
            crate::strutil::file_name(pcli.as_str()).as_str(),
        );
        ops.push(CopyOp { from: pcli.clone(), to: to0.clone() });
        assets.push(
            InstalledAsset { target_arch: self.target_arch.clone(), local_filepath: to0 },
        );
        let to1 = crate::strutil::path_join(
            base.as_str(),
            crate::strutil::file_name(pd.as_str()).as_str(),
        );
        ops.push(CopyOp { from: pd.clone(), to: to1.clone() });
        assets.push(
            InstalledAsset { target_arch: self.target_arch.clone(), local_filepath: to1 },
        );
        let to2 = crate::strutil::path_join(
            base.as_str(),
            crate::strutil::file_name(pclientd.as_str()).as_str(),
        );
        ops.push(CopyOp { from: pclientd.clone(), to: to2.clone() });
        assets.push(
            InstalledAsset { target_arch: self.target_arch.clone(), local_filepath: to2 },
        );
        let record = InstalledRelease::Binary(
            InstalledBinaryRelease {
                version: self.release.version.clone(),
                body: match &self.release.body {
                    Some(s) => Some(s.clone()),
                    None => None,
                },
                assets,
                name: self.release.name.clone(),
                root_dir: version_path.to_owned(),
            },
        );
        proof {
            assert(ops@.map_values(|c: CopyOp| c@) =~= seq![
                CopyOpV {
                    from: self@.pcli->0,
                    to: spec_copy_dest(version_path@, self@.pcli->0),
                },
                CopyOpV {
                    from: self@.pd->0,
                    to: spec_copy_dest(version_path@, self@.pd->0),
                },
                CopyOpV {
                    from: self@.pclientd->0,
                    to: spec_copy_dest(version_path@, self@.pclientd->0),
                },
            ]);
            assert(record@->Binary_0.assets =~= seq![
                InstalledAssetV {
                    target_arch: self@.target_arch,
                    local_filepath: spec_copy_dest(version_path@, self@.pcli->0),
                },
                InstalledAssetV {
                    target_arch: self@.target_arch,
                    local_filepath: spec_copy_dest(version_path@, self@.pd->0),
                },
                InstalledAssetV {
                    target_arch: self@.target_arch,
                    local_filepath: spec_copy_dest(version_path@, self@.pclientd->0),
                },
            ]);
        }
        Ok((ops, record))
    }
}

/// Mathematical value of [`InstallableRelease`].
pub enum InstallableReleaseV {
    GitRepo(RepoMetadataV),
    Binary(InstallableBinaryReleaseV),
}

/// A release staged locally, not yet committed to the cache.
pub enum InstallableRelease {
    GitRepo(RepoMetadata),
    Binary(InstallableBinaryRelease),
}

impl View for InstallableRelease {
    type V = InstallableReleaseV;

    open spec fn view(&self) -> InstallableReleaseV {
        match self {
            InstallableRelease::GitRepo(m) => InstallableReleaseV::GitRepo(m@),
            InstallableRelease::Binary(b) => InstallableReleaseV::Binary(b@),
        }
    }
}

/// All raw releases enrich, or the whole conversion fails: one bad tag
/// fails the lot, and no partial list is returned.
pub fn releases_from_raw(raws: &Vec<RawRelease>) -> (r: Result<Vec<Release>, Error>)
    ensures
        (forall|j: int|
            0 <= j < raws@.len() ==> (#[trigger] spec_enrich_release(raws@[j]@)) is Some) <==> r is Ok,
        r matches Ok(out) ==> {
            &&& out@.len() == raws@.len()
            &&& forall|j: int|
                0 <= j < raws@.len() ==> out@[j]@ == (#[trigger] spec_enrich_release(
                    raws@[j]@,
                ))->0
        },
        r matches Err(e) ==> e is SerializationFailure,
{
    let mut out: Vec<Release> = Vec::new();
    let n = raws.len();
    let mut i: usize = 0;
    while i < n
        invariant
            n == raws@.len(),
            0 <= i <= n,
            out@.len() == i,
            forall|j: int|
                0 <= j < i ==> (#[trigger] spec_enrich_release(raws@[j]@)) is Some,
            forall|j: int|
                0 <= j < i ==> out@[j]@ == (#[trigger] spec_enrich_release(raws@[j]@))->0,
        decreases n - i,
    {
        match release_from_raw(&raws[i]) {
            Ok(rel) => {
                out.push(rel);
            },
            Err(e) => {
                return Err(e);
            },
        }
        i = i + 1;
    }
    Ok(out)
}

} // verus!
