use crate::cache::{is_max_release, spec_version_installed, Cache};
use crate::errors::Error;
use crate::release::{Asset, AssetV, Release, ReleaseV};
use crate::strutil::{
    contains_seq, contains_str, ends_with, has_suffix, hex_byte_val, last_component, str_eq,
};
use crate::version::{
    req_matches, version_before, Version, VersionReqOrLatest, VersionReqOrLatestV,
};
use vstd::prelude::*;

verus! {

/// The first asset whose URL names the platform, carries the given
/// binary-name fragment, and ends with the given suffix.
pub open spec fn spec_first_asset_url(
    assets: Seq<AssetV>,
    arch: Seq<char>,
    fragment: Seq<char>,
    suffix: Seq<char>,
    r: Option<Seq<char>>,
) -> bool {
    match r {
        Some(url) => exists|i: int|
            {
                &&& 0 <= i < assets.len()
                &&& asset_fits(#[trigger] assets[i], arch, fragment, suffix)
                &&& assets[i].browser_download_url == url
                &&& forall|j: int| 0 <= j < i ==> !asset_fits(#[trigger] assets[j], arch, fragment, suffix)
            },
        None => forall|i: int|
            0 <= i < assets.len() ==> !asset_fits(#[trigger] assets[i], arch, fragment, suffix),
    }
}

/// Whether one asset is the sought file for a binary: platform fragment
/// and binary-name fragment somewhere in its URL, with the right ending.
pub open spec fn asset_fits(
    a: AssetV,
    arch: Seq<char>,
    fragment: Seq<char>,
    suffix: Seq<char>,
) -> bool {
    &&& contains_seq(a.browser_download_url, arch)
    &&& contains_seq(a.browser_download_url, fragment)
    &&& has_suffix(a.browser_download_url, suffix)
}

/// Finds the first fitting asset's URL.
fn find_asset_url(assets: &Vec<Asset>, arch: &str, fragment: &str, suffix: &str) -> (r: Option<
    String,
>)
    ensures
        spec_first_asset_url(
            assets@.map_values(|a: Asset| a@),
            arch@,
            fragment@,
            suffix@,
            match r {
                Some(ref u) => Some(u@),
                None => None,
            },
        ),
{
    let ghost view = assets@.map_values(|a: Asset| a@);
    let n = assets.len();
    let mut i: usize = 0;
    while i < n
        invariant
            n == assets@.len(),
            view == assets@.map_values(|a: Asset| a@),
            0 <= i <= n,
            forall|j: int| 0 <= j < i ==> !asset_fits(#[trigger] view[j], arch@, fragment@, suffix@),
        decreases n - i,
    {
        proof {
            assert(view[i as int] == assets@[i as int]@);
        }
        let url = &assets[i].browser_download_url;
        if contains_str(url.as_str(), arch) && contains_str(url.as_str(), fragment) && ends_with(
            url.as_str(),
            suffix,
        ) {
            return Some(url.clone());
        }
        i = i + 1;
    }
    None
}

/// Mathematical value of [`BinaryDownload`].
pub struct BinaryDownloadV {
    pub archive_url: Option<Seq<char>>,
    pub shasum_url: Option<Seq<char>>,
}

/// What to fetch for one managed binary: its archive, and its checksum
/// sidecar when one is published.
pub struct BinaryDownload {
    /// The gzip+tar archive holding the binary.
    pub archive_url: Option<String>,
    /// The detached checksum sidecar.
    pub shasum_url: Option<String>,
}

impl View for BinaryDownload {
    type V = BinaryDownloadV;

    open spec fn view(&self) -> BinaryDownloadV {
        BinaryDownloadV {
            archive_url: match self.archive_url {
                Some(ref u) => Some(u@),
                None => None,
            },
            shasum_url: match self.shasum_url {
                Some(ref u) => Some(u@),
                None => None,
            },
        }
    }
}

/// Mathematical value of [`DownloadPlan`].
pub struct DownloadPlanV {
    pub pcli: BinaryDownloadV,
    pub pclientd: BinaryDownloadV,
    pub pd: BinaryDownloadV,
}

/// The fetches one release install needs: for each of the three managed
/// binaries, the matching archive and its sidecar.
pub struct DownloadPlan {
    pub pcli: BinaryDownload,
    pub pclientd: BinaryDownload,
    pub pd: BinaryDownload,
}

impl View for DownloadPlan {
    type V = DownloadPlanV;

    open spec fn view(&self) -> DownloadPlanV {
        DownloadPlanV { pcli: self.pcli@, pclientd: self.pclientd@, pd: self.pd@ }
    }
}

/// One binary's part of the plan: the first archive asset and the first
/// sidecar asset whose URLs carry the binary's name fragment and the
/// platform fragment.
pub open spec fn spec_binary_download(
    assets: Seq<AssetV>,
    arch: Seq<char>,
    fragment: Seq<char>,
    d: BinaryDownloadV,
) -> bool {
    &&& spec_first_asset_url(assets, arch, fragment, ".tar.gz"@, d.archive_url)
    &&& spec_first_asset_url(assets, arch, fragment, ".sha256"@, d.shasum_url)
}

/// Plans the downloads for one release on one platform.
pub fn plan_download(release: &Release, target_arch: &str) -> (r: DownloadPlan)
    ensures
        ({
            let assets = release@.assets;
            &&& spec_binary_download(assets, target_arch@, "pcli-"@, r@.pcli)
            &&& spec_binary_download(assets, target_arch@, "pclientd-"@, r@.pclientd)
            &&& spec_binary_download(assets, target_arch@, "pd-"@, r@.pd)
        }),
{
    DownloadPlan {
        pcli: BinaryDownload {
            archive_url: find_asset_url(&release.assets, target_arch, "pcli-", ".tar.gz"),
            shasum_url: find_asset_url(&release.assets, target_arch, "pcli-", ".sha256"),
        },
        pclientd: BinaryDownload {
            archive_url: find_asset_url(&release.assets, target_arch, "pclientd-", ".tar.gz"),
            shasum_url: find_asset_url(&release.assets, target_arch, "pclientd-", ".sha256"),
        },
        pd: BinaryDownload {
            archive_url: find_asset_url(&release.assets, target_arch, "pd-", ".tar.gz"),
            shasum_url: find_asset_url(&release.assets, target_arch, "pd-", ".sha256"),
        },
    }
}

/// The digest a checksum sidecar publishes: its first 64 bytes read as
/// hex digits, or nothing when they are not 64 hex digits.
pub open spec fn spec_sidecar_digest(content: Seq<u8>) -> Option<Seq<u8>> {
    if content.len() >= 64 && (forall|i: int| 0 <= i < 64 ==> hex_byte_val(#[trigger] content[i]) >= 0) {
        Some(
            Seq::new(
                32,
                |i: int| (hex_byte_val(content[2 * i]) * 16 + hex_byte_val(content[2 * i + 1])) as u8,
            ),
        )
    } else {
        None
    }
}

/// Reads the expected digest out of a checksum sidecar's content.
pub fn parse_checksum_sidecar(content: &Vec<u8>) -> (r: Result<Vec<u8>, Error>)
    ensures
        r matches Ok(d) ==> spec_sidecar_digest(content@) == Some(d@),
        r matches Err(e) ==> e is SerializationFailure && spec_sidecar_digest(content@) is None,
{
    if content.len() < 64 {
        return Err(Error::SerializationFailure);
    }
    let mut out: Vec<u8> = Vec::new();
    let mut i: usize = 0;
    while i < 32
        invariant
            content@.len() >= 64,
            0 <= i <= 32,
            out@.len() == i,
            forall|j: int| 0 <= j < 2 * i ==> hex_byte_val(#[trigger] content@[j]) >= 0,
            forall|j: int|
                0 <= j < i ==> out@[j] == (hex_byte_val(content@[2 * j]) * 16 + hex_byte_val(
                    content@[2 * j + 1],
                )) as u8,
        decreases 32 - i,
    {
        let hi = hex_val_exec(content[2 * i]);
        let lo = hex_val_exec(content[2 * i + 1]);
        if hi < 0 || lo < 0 {
            return Err(Error::SerializationFailure);
        }
        out.push((hi * 16 + lo) as u8);
        i = i + 1;
    }
    proof {
        assert(spec_sidecar_digest(content@) == Some(
            Seq::new(
                32,
                |i: int| (hex_byte_val(content@[2 * i]) * 16 + hex_byte_val(
                    content@[2 * i + 1],
                )) as u8,
            ),
        ));
        assert(out@ =~= Seq::new(
            32,
            |i: int| (hex_byte_val(content@[2 * i]) * 16 + hex_byte_val(
                content@[2 * i + 1],
            )) as u8,
        ));
    }
    Ok(out)
}

/// The value of one hex digit byte, `-1` when it is none.
fn hex_val_exec(b: u8) -> (r: i16)
    ensures
        r as int == hex_byte_val(b),
{
    if 48 <= b && b <= 57 {
        (b - 48) as i16
    } else if 97 <= b && b <= 102 {
        (b - 87) as i16
    } else if 65 <= b && b <= 70 {
        (b - 55) as i16
    } else {
        -1
    }
}

/// Decides a downloaded archive's fate: with no published digest,
/// verification is skipped and the archive is accepted; with one, the
/// archive is accepted exactly when its computed digest matches, and
/// rejected with a checksum mismatch otherwise.
pub fn verify_checksum(expected: &Option<Vec<u8>>, computed: &Vec<u8>) -> (r: Result<(), Error>)
    ensures
        ({
            match expected {
                None => r is Ok,
                Some(e) => if e@ == computed@ {
                    r is Ok
                } else {
                    r matches Err(err) && err is ChecksumMismatch
                },
            }
        }),
{
    match expected {
        None => Ok(()),
        Some(e) => {
            if crate::strutil::bytes_eq(e, computed) {
                Ok(())
            } else {
                Err(Error::ChecksumMismatch)
            }
        },
    }
}

/// The first extracted file whose final path component is the binary's
/// name.
pub open spec fn spec_selected_file(
    paths: Seq<Seq<char>>,
    name: Seq<char>,
    r: Option<Seq<char>>,
) -> bool {
    match r {
        Some(p) => exists|i: int|
            {
                &&& 0 <= i < paths.len()
                &&& #[trigger] paths[i] == p
                &&& last_component(p) == name
                &&& forall|j: int| 0 <= j < i ==> last_component(#[trigger] paths[j]) != name
            },
        None => forall|i: int| 0 <= i < paths.len() ==> last_component(#[trigger] paths[i]) != name,
    }
}

/// Picks the extracted file that is the managed binary itself.
pub fn select_binary_file(paths: &Vec<String>, name: &str) -> (r: Option<String>)
    ensures
        spec_selected_file(
            paths@.map_values(|p: String| p@),
            name@,
            match r {
                Some(ref p) => Some(p@),
                None => None,
            },
        ),
{
    let ghost view = paths@.map_values(|p: String| p@);
    let n = paths.len();
    let mut i: usize = 0;
    while i < n
        invariant
            n == paths@.len(),
            view == paths@.map_values(|p: String| p@),
            0 <= i <= n,
            forall|j: int| 0 <= j < i ==> last_component(#[trigger] view[j]) != name@,
        decreases n - i,
    {
        proof {
            assert(view[i as int] == paths@[i as int]@);
        }
        let fname = crate::strutil::file_name(paths[i].as_str());
        if str_eq(fname.as_str(), name) {
            return Some(paths[i].clone());
        }
        i = i + 1;
    }
    None
}

/// A remote release is an install candidate when the requirement keeps it
/// (`latest` keeps only the newest remote release) and it has an asset
/// built for the platform.
pub open spec fn spec_install_candidate(
    rv: ReleaseV,
    vr: VersionReqOrLatestV,
    all: Seq<ReleaseV>,
    arch: Seq<char>,
) -> bool {
    &&& match vr {
        VersionReqOrLatestV::Latest => is_max_release(all, rv.version),
        VersionReqOrLatestV::VersionReq(s) => req_matches(s, rv.version),
    }
    &&& exists|k: int| 0 <= k < rv.assets.len() && (#[trigger] rv.assets[k]).target_arch == Some(arch)
}

/// What installing a version requirement decides.
pub enum InstallDecision {
    /// The chosen release is already in the cache; nothing to download.
    AlreadyInstalled(Version),
    /// Download and install this release.
    Download(Release),
}

/// Chooses the release to install for a version requirement: the newest
/// remote candidate that matches and is built for the platform.  Nothing
/// to choose is `NotFound`; a candidate already in the cache becomes
/// `AlreadyInstalled` instead of a download.
pub fn choose_binary_release(
    cache: &Cache,
    releases: &Vec<Release>,
    requirement: &VersionReqOrLatest,
    target_arch: &str,
) -> (r: Result<InstallDecision, Error>)
    ensures
        ({
            let all = releases@.map_values(|x: Release| x@);
            let rels = cache@.data.installed_releases;
            match r {
                Ok(decision) => exists|best: ReleaseV|
                    {
                        &&& #[trigger] spec_install_candidate(best, requirement@, all, target_arch@)
                        &&& exists|i: int| 0 <= i < all.len() && #[trigger] all[i] == best
                        &&& forall|j: int|
                            0 <= j < all.len() && spec_install_candidate(
                                #[trigger] all[j],
                                requirement@,
                                all,
                                target_arch@,
                            ) ==> (all[j].version != best.version ==> !version_before(
                                best.version,
                                all[j].version,
                            ))
                        &&& match decision {
                            InstallDecision::AlreadyInstalled(v) => v@ == best.version
                                && spec_version_installed(rels, best.version),
                            InstallDecision::Download(rel) => rel@ == best
                                && !spec_version_installed(rels, best.version),
                        }
                    },
                Err(e) => e is NotFound && forall|j: int|
                    0 <= j < all.len() ==> !spec_install_candidate(
                        #[trigger] all[j],
                        requirement@,
                        all,
                        target_arch@,
                    ),
            }
        }),
{
    let ghost all = releases@.map_values(|x: Release| x@);
    let latest = crate::cache::max_release_version(releases);
    let mut best_idx: Option<usize> = None;
    let n = releases.len();
    let mut i: usize = 0;
    while i < n
        invariant
            n == releases@.len(),
            all == releases@.map_values(|x: Release| x@),
            latest is None <==> n == 0,
            latest matches Some(m) ==> is_max_release(all, m@),
            0 <= i <= n,
            best_idx is None ==> forall|j: int|
                0 <= j < i ==> !spec_install_candidate(
                    #[trigger] all[j],
                    requirement@,
                    all,
                    target_arch@,
                ),
            best_idx matches Some(b) ==> {
                &&& 0 <= b < i
                &&& spec_install_candidate(all[b as int], requirement@, all, target_arch@)
                &&& forall|j: int|
                    0 <= j < i && spec_install_candidate(
                        #[trigger] all[j],
                        requirement@,
                        all,
                        target_arch@,
                    ) ==> (all[j].version != all[b as int].version ==> !version_before(
                        all[b as int].version,
                        all[j].version,
                    ))
            },
        decreases n - i,
    {
        proof {
            assert(all[i as int] == releases@[i as int]@);
        }
        let rel = &releases[i];
        let matches_req: bool = match requirement {
            VersionReqOrLatest::Latest => {
                match &latest {
                    Some(l) => crate::cache::release_is_max(rel, l, Ghost(all)),
                    None => {
                        proof {
                            assert(false);
                        }
                        false
                    },
                }
            },
            VersionReqOrLatest::VersionReq(vreq) => vreq.matches(&rel.version),
        };
        let has_arch = has_arch_asset(rel, target_arch);
        let is_candidate = matches_req && has_arch;
        proof {
            assert(is_candidate == spec_install_candidate(
                all[i as int],
                requirement@,
                all,
                target_arch@,
            ));
        }
        if is_candidate {
            match best_idx {
                None => {
                    best_idx = Some(i);
                },
                Some(b) => {
                    if crate::version::version_lt(&releases[b].version, &rel.version) {
                        best_idx = Some(i);
                    }
                },
            }
        }
        i = i + 1;
    }
    let b = match best_idx {
        Some(b) => b,
        None => {
            return Err(Error::NotFound);
        },
    };
    let best = &releases[b];
    proof {
        assert(all[b as int] == releases@[b as int]@);
    }
    let installed = match cache.get_installed_release(
        &crate::version::RepoOrVersion::Version(best.version.clone()),
    ) {
        Some(_) => true,
        None => false,
    };
    proof {
        let rels = cache@.data.installed_releases;
        if !installed {
            if spec_version_installed(rels, best@.version) {
                let j = choose|j: int|
                    0 <= j < rels.len() && crate::release::spec_installed_matches(
                        #[trigger] rels[j],
                        crate::version::RepoOrVersionV::Version(best@.version),
                    );
            }
        }
    }
    if installed {
        Ok(InstallDecision::AlreadyInstalled(best.version.clone()))
    } else {
        Ok(InstallDecision::Download(best.clone()))
    }
}

/// Whether a release has an asset built for the platform.
fn has_arch_asset(rel: &Release, target_arch: &str) -> (r: bool)
    ensures
        r == exists|k: int|
            0 <= k < rel@.assets.len() && (#[trigger] rel@.assets[k]).target_arch == Some(
                target_arch@,
            ),
{
    let n = rel.assets.len();
    let mut k: usize = 0;
    while k < n
        invariant
            n == rel.assets@.len(),
            0 <= k <= n,
            forall|j: int| 0 <= j < k ==> (#[trigger] rel@.assets[j]).target_arch != Some(target_arch@),
        decreases n - k,
    {
        proof {
            assert(rel@.assets[k as int] == rel.assets@[k as int]@);
        }
        match &rel.assets[k].target_arch {
            Some(t) => {
                if str_eq(t.as_str(), target_arch) {
                    return true;
                }
            },
            None => {},
        }
        k = k + 1;
    }
    false
}

} // verus!
