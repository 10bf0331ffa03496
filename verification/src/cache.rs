use crate::digest::{checkout_dir_name, spec_checkout_dir_name};
use crate::errors::Error;
use crate::release::{
    InstallableBinaryRelease, InstallableRelease, InstalledAsset, InstalledBinaryRelease,
    InstalledRelease, InstalledReleaseV,
};
use crate::strutil::{file_name, last_component, path_join};
use crate::version::{
    req_matches, spec_repo_or_version_matches_version, version_before, version_lt, version_text,
    version_to_string, RepoOrVersion, RepoOrVersionReq, RepoOrVersionReqV, Version,
    VersionReqOrLatest, VersionReqOrLatestV, VersionV,
};
use vstd::prelude::*;

verus! {

/// Mathematical value of [`CacheData`].
pub struct CacheDataV {
    pub installed_releases: Seq<InstalledReleaseV>,
}

/// The persisted part of the cache: its list of installed releases.
pub struct CacheData {
    pub installed_releases: Vec<InstalledRelease>,
}

impl View for CacheData {
    type V = CacheDataV;

    open spec fn view(&self) -> CacheDataV {
        CacheDataV {
            installed_releases: self.installed_releases@.map_values(|r: InstalledRelease| r@),
        }
    }
}

/// Mathematical value of [`Cache`].
pub struct CacheV {
    pub home: Seq<char>,
    pub data: CacheDataV,
}

/// The registry of installed releases kept under one home directory.
pub struct Cache {
    /// The home directory all cache storage lives under.
    pub home: String,
    /// The persisted record list.
    pub data: CacheData,
}

impl View for Cache {
    type V = CacheV;

    open spec fn view(&self) -> CacheV {
        CacheV { home: self.home@, data: self.data@ }
    }
}

/// What identifies a record: its exact version for a binary record, its
/// URL for a checkout.
pub open spec fn spec_identity(rel: InstalledReleaseV) -> crate::version::RepoOrVersionV {
    match rel {
        InstalledReleaseV::Binary(b) => crate::version::RepoOrVersionV::Version(b.version),
        InstalledReleaseV::GitCheckout(c) => crate::version::RepoOrVersionV::Repo(c.url),
    }
}

/// The cache's invariant: no two records share an identity, so there is at
/// most one binary record per exact version and at most one checkout per
/// URL.
pub open spec fn cache_records_wf(rels: Seq<InstalledReleaseV>) -> bool {
    forall|i: int, j: int|
        0 <= i < j < rels.len() ==> #[trigger] spec_identity(rels[i]) != #[trigger] spec_identity(
            rels[j],
        )
}

/// The version a binary record holds; a checkout holds none.
pub open spec fn binary_version(rel: InstalledReleaseV) -> Option<VersionV> {
    match rel {
        InstalledReleaseV::Binary(b) => Some(b.version),
        InstalledReleaseV::GitCheckout(_) => None,
    }
}

/// `v` is an installed binary version, and no other installed binary
/// version is newer.
pub open spec fn is_max_installed(rels: Seq<InstalledReleaseV>, v: VersionV) -> bool {
    &&& exists|i: int| 0 <= i < rels.len() && binary_version(#[trigger] rels[i]) == Some(v)
    &&& forall|j: int|
        0 <= j < rels.len() && (#[trigger] binary_version(rels[j])) is Some ==> (binary_version(
            rels[j],
        )->0 != v ==> !version_before(v, binary_version(rels[j])->0))
}

/// Which installed records a requirement keeps: a repository requirement
/// keeps the checkouts with exactly that URL; a range keeps the binary
/// records whose version it contains; `latest` keeps the newest installed
/// binary record.
pub open spec fn spec_installed_req_matches(
    rel: InstalledReleaseV,
    req: RepoOrVersionReqV,
    rels: Seq<InstalledReleaseV>,
) -> bool {
    match req {
        RepoOrVersionReqV::Repo(url) => rel matches InstalledReleaseV::GitCheckout(c) && c.url
            == url,
        RepoOrVersionReqV::VersionReqOrLatest(vr) => match vr {
            VersionReqOrLatestV::Latest => binary_version(rel) matches Some(v) && is_max_installed(
                rels,
                v,
            ),
            VersionReqOrLatestV::VersionReq(s) => binary_version(rel) matches Some(v)
                && req_matches(s, v),
        },
    }
}

/// The newest installed binary version, when any binary record exists.
fn max_installed_version(data: &Vec<InstalledRelease>) -> (r: Option<Version>)
    ensures
        r is None ==> forall|j: int|
            0 <= j < data@.len() ==> (#[trigger] binary_version(data@[j]@)) is None,
        r matches Some(m) ==> is_max_installed(data@.map_values(|x: InstalledRelease| x@), m@),
{
    let ghost rels = data@.map_values(|x: InstalledRelease| x@);
    let mut best: Option<Version> = None;
    let n = data.len();
    let mut i: usize = 0;
    while i < n
        invariant
            n == data@.len(),
            rels == data@.map_values(|x: InstalledRelease| x@),
            0 <= i <= n,
            best is None ==> forall|j: int|
                0 <= j < i ==> (#[trigger] binary_version(data@[j]@)) is None,
            best matches Some(m) ==> exists|k: int|
                0 <= k < i && binary_version(#[trigger] rels[k]) == Some(m@),
            best matches Some(m) ==> forall|j: int|
                0 <= j < i && (#[trigger] binary_version(rels[j])) is Some ==> (binary_version(
                    rels[j],
                )->0 != m@ ==> !version_before(m@, binary_version(rels[j])->0)),
        decreases n - i,
    {
        proof {
            assert(rels[i as int] == data@[i as int]@);
        }
        match &data[i] {
            InstalledRelease::Binary(b) => {
                match best {
                    None => {
                        best = Some(b.version.clone());
                    },
                    Some(ref cur) => {
                        if version_lt(cur, &b.version) {
                            best = Some(b.version.clone());
                        }
                    },
                }
            },
            InstalledRelease::GitCheckout(_) => {},
        }
        i = i + 1;
    }
    proof {
        if best is Some {
            assert(is_max_installed(rels, best->0@));
        }
    }
    best
}

/// Whether one record is kept by a version requirement, given the newest
/// installed binary version.
fn req_keeps_installed(
    rel: &InstalledRelease,
    vr: &VersionReqOrLatest,
    latest: &Option<Version>,
    Ghost(rels): Ghost<Seq<InstalledReleaseV>>,
) -> (r: bool)
    requires
        latest is None ==> !(exists|i: int|
            0 <= i < rels.len() && (#[trigger] binary_version(rels[i])) is Some),
        latest matches Some(m) ==> is_max_installed(rels, m@),
        exists|i: int| 0 <= i < rels.len() && #[trigger] rels[i] == rel@,
    ensures
        r == spec_installed_req_matches(
            rel@,
            RepoOrVersionReqV::VersionReqOrLatest(vr@),
            rels,
        ),
{
    match rel {
        InstalledRelease::GitCheckout(_) => false,
        InstalledRelease::Binary(b) => {
            match vr {
                VersionReqOrLatest::VersionReq(req) => req.matches(&b.version),
                VersionReqOrLatest::Latest => {
                    match latest {
                        None => {
                            proof {
                                let i = choose|i: int|
                                    0 <= i < rels.len() && #[trigger] rels[i] == rel@;
                                assert(binary_version(rels[i]) is Some);
                            }
                            false
                        },
                        Some(l) => {
                            if b.version.same_version(l) {
                                true
                            } else if version_lt(&b.version, l) {
                                // strictly older than the newest: not the maximum
                                proof {
                                    if is_max_installed(rels, b.version@) {
                                        assert(!version_before(b.version@, l@));
                                    }
                                }
                                false
                            } else {
                                // the comparison is total: this cannot be newer
                                // than the newest installed version
                                proof {
                                    assert(version_before(l@, b.version@));
                                    let i = choose|i: int|
                                        0 <= i < rels.len() && #[trigger] rels[i] == rel@;
                                    assert(binary_version(rels[i]) == Some(b.version@));
                                    assert(!version_before(l@, b.version@));
                                }
                                false
                            }
                        },
                    }
                },
            }
        },
    }
}

impl Cache {
    /// The invariant every reachable cache satisfies: record identities are
    /// unique.
    pub open spec fn wf(&self) -> bool {
        cache_records_wf(self@.data.installed_releases)
    }

    /// A cache with no installed releases.
    pub fn empty(home: String) -> (r: Cache)
        ensures
            r@.home == home@,
            r@.data.installed_releases.len() == 0,
            r.wf(),
    {
        let r = Cache { home, data: CacheData { installed_releases: Vec::new() } };
        proof {
            assert(r@.data.installed_releases =~= Seq::<InstalledReleaseV>::empty());
        }
        r
    }

    /// A cache over records read back from the index file.
    pub fn from_data(home: String, data: CacheData) -> (r: Result<Cache, Error>)
        ensures
            r is Ok <==> cache_records_wf(data@.installed_releases),
            r matches Ok(c) ==> {
                &&& c@.home == home@
                &&& c@.data == data@
                &&& c.wf()
            },
            r matches Err(e) ==> e is SerializationFailure,
    {
        let ok = records_unique_check(&data.installed_releases);
        if ok {
            Ok(Cache { home, data })
        } else {
            Err(Error::SerializationFailure)
        }
    }

    /// The path of the cache's index file.
    pub fn config_file_path(&self) -> (r: String)
        ensures
            r@ == self@.home + "/"@ + "cache.toml"@,
    {
        path_join(self.home.as_str(), "cache.toml")
    }
}

impl Cache {
    /// All installed records, optionally narrowed to those a requirement
    /// keeps: exactly the records whose version the requirement contains
    /// (or whose URL it names), in their stored order.
    pub fn list_installed(&self, required_version: Option<&RepoOrVersionReq>) -> (r: Result<
        Vec<InstalledRelease>,
        Error,
    >)
        ensures
            r is Ok,
            r matches Ok(out) ==> {
                let rels = self@.data.installed_releases;
                match required_version {
                    None => out@.map_values(|x: InstalledRelease| x@) == rels,
                    Some(req) => out@.map_values(|x: InstalledRelease| x@) == rels.filter(
                        |rel: InstalledReleaseV| spec_installed_req_matches(rel, req@, rels),
                    ),
                }
            },
    {
        let ghost rels = self@.data.installed_releases;
        match required_version {
            None => {
                let out = self.data.installed_releases.clone();
                proof {
                    assert forall|i: int| 0 <= i < out@.len() implies out@[i]@
                        == self.data.installed_releases@[i]@ by {
                        assert(cloned::<InstalledRelease>(
                            self.data.installed_releases@[i],
                            out@[i],
                        ));
                    }
                    assert(out@.map_values(|x: InstalledRelease| x@) =~= rels);
                }
                Ok(out)
            },
            Some(req) => {
                let ghost pred = |rel: InstalledReleaseV|
                    spec_installed_req_matches(rel, req@, rels);
                let latest: Option<Version> = match req {
                    RepoOrVersionReq::VersionReqOrLatest(VersionReqOrLatest::Latest) => {
                        max_installed_version(&self.data.installed_releases)
                    },
                    _ => None,
                };
                let mut out: Vec<InstalledRelease> = Vec::new();
                let n = self.data.installed_releases.len();
                let mut i: usize = 0;
                proof {
                    assert(rels.subrange(0, 0).filter(pred) =~= Seq::<
                        InstalledReleaseV,
                    >::empty().filter(pred));
                    assert(Seq::<InstalledReleaseV>::empty().filter(pred) =~= Seq::<
                        InstalledReleaseV,
                    >::empty()) by {
                        reveal(Seq::filter);
                    }
                }
                while i < n
                    invariant
                        n == self.data.installed_releases@.len(),
                        rels == self@.data.installed_releases,
                        pred == (|rel: InstalledReleaseV|
                            spec_installed_req_matches(rel, req@, rels)),
                        0 <= i <= n,
                        out@.map_values(|x: InstalledRelease| x@) =~= rels.subrange(
                            0,
                            i as int,
                        ).filter(pred),
                        req@ matches RepoOrVersionReqV::VersionReqOrLatest(
                            VersionReqOrLatestV::Latest,
                        ) ==> {
                            &&& latest is None ==> !(exists|k: int|
                                0 <= k < rels.len() && (#[trigger] binary_version(
                                    rels[k],
                                )) is Some)
                            &&& latest matches Some(m) ==> is_max_installed(rels, m@)
                        },
                    decreases n - i,
                {
                    let rel = &self.data.installed_releases[i];
                    proof {
                        assert(rels[i as int] == self.data.installed_releases@[i as int]@);
                    }
                    let keep: bool = match req {
                        RepoOrVersionReq::Repo(url) => {
                            match rel {
                                InstalledRelease::GitCheckout(c) => {
                                    let e = c.url == *url;
                                    e
                                },
                                InstalledRelease::Binary(_) => false,
                            }
                        },
                        RepoOrVersionReq::VersionReqOrLatest(vr) => {
                            match vr {
                                VersionReqOrLatest::Latest => req_keeps_installed(
                                    rel,
                                    vr,
                                    &latest,
                                    Ghost(rels),
                                ),
                                VersionReqOrLatest::VersionReq(vreq) => {
                                    match rel {
                                        InstalledRelease::Binary(b) => vreq.matches(&b.version),
                                        InstalledRelease::GitCheckout(_) => false,
                                    }
                                },
                            }
                        },
                    };
                    proof {
                        assert(keep == pred(rels[i as int]));
                        reveal(Seq::filter);
                        assert(rels.subrange(0, i + 1).drop_last() =~= rels.subrange(0, i as int));
                        assert(rels.subrange(0, i + 1).last() == rels[i as int]);
                    }
                    if keep {
                        out.push(rel.clone());
                        proof {
                            assert(out@.map_values(|x: InstalledRelease| x@) =~= rels.subrange(
                                0,
                                i + 1,
                            ).filter(pred));
                        }
                    } else {
                        proof {
                            assert(out@.map_values(|x: InstalledRelease| x@) =~= rels.subrange(
                                0,
                                i + 1,
                            ).filter(pred));
                        }
                    }
                    i = i + 1;
                }
                proof {
                    assert(rels.subrange(0, n as int) =~= rels);
                }
                Ok(out)
            },
        }
    }

    /// The best installed match for a requirement: for a version
    /// requirement, a matching binary record no other matching record
    /// beats; for a repository requirement, the checkout with exactly that
    /// URL; `None` when nothing matches.
    pub fn find_best_match(&self, required: &RepoOrVersionReq) -> (r: Option<InstalledRelease>)
        ensures
            spec_best_match(
                self@.data.installed_releases,
                required@,
                match r {
                    Some(ref rel) => Some(rel@),
                    None => None,
                },
            ),
    {
        let ghost rels = self@.data.installed_releases;
        let matching = match self.list_installed(Some(required)) {
            Ok(v) => v,
            Err(_) => {
                return None;
            },
        };
        let ghost pred = |rel: InstalledReleaseV| spec_installed_req_matches(rel, required@, rels);
        let n = matching.len();
        if n == 0 {
            proof {
                assert forall|j: int|
                    0 <= j < rels.len() implies !spec_installed_req_matches(
                    #[trigger] rels[j],
                    required@,
                    rels,
                ) by {
                    if pred(rels[j]) {
                        rels.lemma_filter_contains(pred, j);
                        assert(rels.filter(pred).contains(rels[j]));
                        let ki = choose|ki: int|
                            0 <= ki < rels.filter(pred).len() && rels.filter(pred)[ki] == rels[j];
                    }
                }
            }
            return None;
        }
        let ghost kept = rels.filter(pred);
        // every kept record satisfies the requirement and appears in the list
        let mut best: usize = 0;
        let mut i: usize = 1;
        while i < n
            invariant
                n == matching@.len(),
                rels == self@.data.installed_releases,
                pred == (|rel: InstalledReleaseV|
                    spec_installed_req_matches(rel, required@, rels)),
                kept == rels.filter(pred),
                matching@.map_values(|x: InstalledRelease| x@) == kept,
                0 <= best < n,
                1 <= i <= n,
                forall|k: int|
                    0 <= k < i && binary_version(#[trigger] kept[k]) is Some && binary_version(
                        kept[best as int],
                    ) is Some ==> (binary_version(kept[k])->0 != binary_version(
                        kept[best as int],
                    )->0 ==> !version_before(
                        binary_version(kept[best as int])->0,
                        binary_version(kept[k])->0,
                    )),
            decreases n - i,
        {
            proof {
                assert(matching@[i as int]@ == kept[i as int]);
                assert(matching@[best as int]@ == kept[best as int]);
            }
            match (&matching[best], &matching[i]) {
                (InstalledRelease::Binary(cur), InstalledRelease::Binary(cand)) => {
                    if version_lt(&cur.version, &cand.version) {
                        best = i;
                    }
                },
                _ => {},
            }
            i = i + 1;
        }
        proof {
            assert(matching@[best as int]@ == kept[best as int]);
            assert(kept.contains(kept[best as int]));
            rels.lemma_filter_contains_rev(pred, kept[best as int]);
            assert(rels.contains(matching@[best as int]@));
            rels.lemma_filter_pred(pred, best as int);
            assert(pred(matching@[best as int]@));
            assert forall|j: int|
                0 <= j < rels.len() && spec_installed_req_matches(
                    #[trigger] rels[j],
                    required@,
                    rels,
                ) && binary_version(rels[j]) is Some && binary_version(
                    matching@[best as int]@,
                ) is Some && binary_version(rels[j])->0 != binary_version(
                matching@[best as int]@,
            )->0 implies !version_before(
                binary_version(matching@[best as int]@)->0,
                binary_version(rels[j])->0,
            ) by {
                assert(pred(rels[j]));
                rels.lemma_filter_contains(pred, j);
                assert(kept.contains(rels[j]));
                let ki = choose|ki: int| 0 <= ki < kept.len() && kept[ki] == rels[j];
                assert(kept[ki] == rels[j]);
                assert(binary_version(kept[ki]) is Some);
            }
        }
        Some(matching[best].clone())
    }
}

/// What the best-match search returns: a matching record that no other
/// matching record's version strictly beats, or nothing exactly when no
/// record matches.
pub open spec fn spec_best_match(
    rels: Seq<InstalledReleaseV>,
    required: RepoOrVersionReqV,
    r: Option<InstalledReleaseV>,
) -> bool {
    match r {
        Some(rel) => {
            &&& exists|i: int| 0 <= i < rels.len() && #[trigger] rels[i] == rel
            &&& spec_installed_req_matches(rel, required, rels)
            &&& forall|j: int|
                0 <= j < rels.len() && spec_installed_req_matches(
                    #[trigger] rels[j],
                    required,
                    rels,
                ) && binary_version(rels[j]) is Some && binary_version(rel) is Some
                    ==> (binary_version(rels[j])->0 != binary_version(rel)->0
                    ==> !version_before(
                    binary_version(rel)->0,
                    binary_version(rels[j])->0,
                ))
        },
        None => forall|j: int|
            0 <= j < rels.len() ==> !spec_installed_req_matches(
                #[trigger] rels[j],
                required,
                rels,
            ),
    }
}

/// The first record of `rels` the specifier names, if any.
pub open spec fn spec_lookup(rels: Seq<InstalledReleaseV>, spec: crate::version::RepoOrVersionV, r: Option<
    InstalledReleaseV,
>) -> bool {
    match r {
        Some(rel) => exists|i: int|
            {
                &&& 0 <= i < rels.len()
                &&& #[trigger] rels[i] == rel
                &&& crate::release::spec_installed_matches(rel, spec)
                &&& forall|j: int|
                    0 <= j < i ==> !crate::release::spec_installed_matches(#[trigger] rels[j], spec)
            },
        None => forall|j: int|
            0 <= j < rels.len() ==> !crate::release::spec_installed_matches(
                #[trigger] rels[j],
                spec,
            ),
    }
}

/// What looking a managed binary up in the cache returns: the first
/// suitably-named asset of the record installed at exactly `version`, or
/// nothing when that version is absent or never recorded such a file.
pub open spec fn spec_binary_lookup(
    rels: Seq<InstalledReleaseV>,
    version: VersionV,
    name: Seq<char>,
    r: Option<Seq<char>>,
) -> bool {
    match r {
        Some(path) => exists|rel: InstalledReleaseV|
            {
                &&& #[trigger] spec_lookup(
                    rels,
                    crate::version::RepoOrVersionV::Version(version),
                    Some(rel),
                )
                &&& rel matches InstalledReleaseV::Binary(b)
                &&& exists|k: int|
                    {
                        &&& 0 <= k < b.assets.len()
                        &&& (#[trigger] b.assets[k]).local_filepath == path
                        &&& last_component(b.assets[k].local_filepath) == name
                        &&& forall|k2: int|
                            0 <= k2 < k ==> last_component(
                                (#[trigger] b.assets[k2]).local_filepath,
                            ) != name
                    }
            },
        None => forall|rel: InstalledReleaseV|
            #[trigger] spec_lookup(rels, crate::version::RepoOrVersionV::Version(version), Some(rel))
                ==> (rel matches InstalledReleaseV::Binary(b) ==> forall|k: int|
                0 <= k < b.assets.len() ==> last_component(
                    (#[trigger] b.assets[k]).local_filepath,
                ) != name),
    }
}

/// Two best matches carry the same version: under the order laws, two
/// binary records that both match and are both unbeaten must tie, and
/// distinct versions never tie.
pub proof fn lemma_best_match_version_unique(
    rels: Seq<InstalledReleaseV>,
    req: RepoOrVersionReqV,
    a: InstalledReleaseV,
    b: InstalledReleaseV,
)
    requires
        crate::version::version_order_laws(),
        spec_best_match(rels, req, Some(a)),
        spec_best_match(rels, req, Some(b)),
        binary_version(a) is Some,
        binary_version(b) is Some,
    ensures
        binary_version(a)->0 == binary_version(b)->0,
{
    let ia = choose|i: int| 0 <= i < rels.len() && #[trigger] rels[i] == a;
    let ib = choose|i: int| 0 <= i < rels.len() && #[trigger] rels[i] == b;
    let va = binary_version(a)->0;
    let vb = binary_version(b)->0;
    if va != vb {
        assert(spec_installed_req_matches(rels[ib], req, rels));
        assert(!version_before(va, vb));
        assert(spec_installed_req_matches(rels[ia], req, rels));
        assert(!version_before(vb, va));
        assert(version_before(va, vb) || version_before(vb, va));
    }
}

/// A binary lookup that returned a path cannot also have come up empty.
pub proof fn lemma_binary_lookup_excludes(
    rels: Seq<InstalledReleaseV>,
    version: VersionV,
    name: Seq<char>,
    p: Seq<char>,
)
    requires
        spec_binary_lookup(rels, version, name, Some(p)),
    ensures
        !spec_binary_lookup(rels, version, name, None),
{
    let rel = choose|rel: InstalledReleaseV|
        {
            &&& #[trigger] spec_lookup(
                rels,
                crate::version::RepoOrVersionV::Version(version),
                Some(rel),
            )
            &&& rel matches InstalledReleaseV::Binary(b)
            &&& exists|k: int|
                {
                    &&& 0 <= k < b.assets.len()
                    &&& (#[trigger] b.assets[k]).local_filepath == p
                    &&& last_component(b.assets[k].local_filepath) == name
                    &&& forall|k2: int|
                        0 <= k2 < k ==> last_component(
                            (#[trigger] b.assets[k2]).local_filepath,
                        ) != name
                }
        };
    let b = rel->Binary_0;
    let k = choose|k: int|
        {
            &&& 0 <= k < b.assets.len()
            &&& (#[trigger] b.assets[k]).local_filepath == p
            &&& last_component(b.assets[k].local_filepath) == name
            &&& forall|k2: int|
                0 <= k2 < k ==> last_component((#[trigger] b.assets[k2]).local_filepath) != name
        };
    if spec_binary_lookup(rels, version, name, None) {
        assert(last_component(b.assets[k].local_filepath) != name);
    }
}

/// A lookup result is unique: two records both found first are the same.
pub proof fn lemma_lookup_unique(
    rels: Seq<InstalledReleaseV>,
    spec: crate::version::RepoOrVersionV,
    a: InstalledReleaseV,
    b: InstalledReleaseV,
)
    requires
        spec_lookup(rels, spec, Some(a)),
        spec_lookup(rels, spec, Some(b)),
    ensures
        a == b,
{
    let ia = choose|i: int|
        {
            &&& 0 <= i < rels.len()
            &&& #[trigger] rels[i] == a
            &&& crate::release::spec_installed_matches(a, spec)
            &&& forall|j: int|
                0 <= j < i ==> !crate::release::spec_installed_matches(#[trigger] rels[j], spec)
        };
    let ib = choose|i: int|
        {
            &&& 0 <= i < rels.len()
            &&& #[trigger] rels[i] == b
            &&& crate::release::spec_installed_matches(b, spec)
            &&& forall|j: int|
                0 <= j < i ==> !crate::release::spec_installed_matches(#[trigger] rels[j], spec)
        };
    if ia < ib {
        assert(!crate::release::spec_installed_matches(rels[ia], spec));
    } else if ib < ia {
        assert(!crate::release::spec_installed_matches(rels[ib], spec));
    }
}

impl Cache {
    /// The installed record the specifier names, if one exists: the first
    /// record matching by exact version or exact URL.
    pub fn get_installed_release(&self, repo_or_version: &RepoOrVersion) -> (r: Option<
        InstalledRelease,
    >)
        ensures
            spec_lookup(
                self@.data.installed_releases,
                repo_or_version@,
                match r {
                    Some(ref rel) => Some(rel@),
                    None => None,
                },
            ),
    {
        let ghost rels = self@.data.installed_releases;
        let n = self.data.installed_releases.len();
        let mut i: usize = 0;
        while i < n
            invariant
                n == self.data.installed_releases@.len(),
                rels == self@.data.installed_releases,
                0 <= i <= n,
                forall|j: int|
                    0 <= j < i ==> !crate::release::spec_installed_matches(
                        #[trigger] rels[j],
                        repo_or_version@,
                    ),
            decreases n - i,
        {
            let rel = &self.data.installed_releases[i];
            proof {
                assert(rels[i as int] == self.data.installed_releases@[i as int]@);
            }
            if rel.matches(repo_or_version) {
                return Some(rel.clone());
            }
            i = i + 1;
        }
        None
    }

    /// The cached path of the managed binary called `binary_name` for an
    /// exactly installed version: found in the first record of that
    /// version, as its first asset whose file name is the binary's name.
    pub fn get_binary_for_version(&self, version: &Version, binary_name: &str) -> (r: Option<
        String,
    >)
        ensures
            spec_binary_lookup(
                self@.data.installed_releases,
                version@,
                binary_name@,
                match r {
                    Some(ref p) => Some(p@),
                    None => None,
                },
            ),
    {
        let ghost rels = self@.data.installed_releases;
        let ghost specv = crate::version::RepoOrVersionV::Version(version@);
        let release = match self.get_installed_release(&RepoOrVersion::Version(version.clone())) {
            Some(rel) => rel,
            None => {
                proof {
                    assert forall|rel: InstalledReleaseV|
                        #[trigger] spec_lookup(rels, specv, Some(rel)) implies (rel matches
                        InstalledReleaseV::Binary(b) ==> forall|k: int|
                        0 <= k < b.assets.len() ==> last_component(
                            (#[trigger] b.assets[k]).local_filepath,
                        ) != binary_name@) by {
                        let i = choose|i: int|
                            {
                                &&& 0 <= i < rels.len()
                                &&& #[trigger] rels[i] == rel
                                &&& crate::release::spec_installed_matches(rel, specv)
                                &&& forall|j: int|
                                    0 <= j < i ==> !crate::release::spec_installed_matches(
                                        #[trigger] rels[j],
                                        specv,
                                    )
                            };
                        assert(!crate::release::spec_installed_matches(rels[i], specv));
                    }
                }
                return None;
            },
        };
        match &release {
            InstalledRelease::GitCheckout(_) => {
                proof {
                    assert forall|rel: InstalledReleaseV|
                        #[trigger] spec_lookup(rels, specv, Some(rel)) implies (rel matches
                        InstalledReleaseV::Binary(b) ==> forall|k: int|
                        0 <= k < b.assets.len() ==> last_component(
                            (#[trigger] b.assets[k]).local_filepath,
                        ) != binary_name@) by {
                        lemma_lookup_unique(rels, specv, rel, release@);
                    }
                }
                None
            },
            InstalledRelease::Binary(b) => {
                let n = b.assets.len();
                let mut k: usize = 0;
                while k < n
                    invariant
                        n == b.assets@.len(),
                        0 <= k <= n,
                        rels == self@.data.installed_releases,
                        specv == crate::version::RepoOrVersionV::Version(version@),
                        release@ == InstalledReleaseV::Binary(b@),
                        spec_lookup(rels, specv, Some(release@)),
                        forall|k2: int|
                            0 <= k2 < k ==> last_component(
                                (#[trigger] b.assets@[k2]@).local_filepath,
                            ) != binary_name@,
                    decreases n - k,
                {
                    let fname = file_name(b.assets[k].local_filepath.as_str());
                    if fname == binary_name.to_owned() {
                        proof {
                            let bv = b@;
                            assert(release@ == InstalledReleaseV::Binary(bv));
                            assert(bv.assets[k as int] == b.assets@[k as int]@);
                            assert(bv.assets[k as int].local_filepath
                                == b.assets@[k as int]@.local_filepath);
                            assert(last_component(bv.assets[k as int].local_filepath)
                                == binary_name@);
                            assert forall|k2: int| 0 <= k2 < k implies last_component(
                                (#[trigger] bv.assets[k2]).local_filepath,
                            ) != binary_name@ by {
                                assert(bv.assets[k2] == b.assets@[k2]@);
                            }
                            assert(spec_lookup(rels, specv, Some(release@)));
                            assert(spec_binary_lookup(
                                rels,
                                version@,
                                binary_name@,
                                Some(b.assets@[k as int]@.local_filepath),
                            ));
                        }
                        return Some(b.assets[k].local_filepath.clone());
                    }
                    k = k + 1;
                }
                proof {
                    assert forall|rel: InstalledReleaseV|
                        #[trigger] spec_lookup(rels, specv, Some(rel)) implies (rel matches
                        InstalledReleaseV::Binary(bb) ==> forall|k2: int|
                        0 <= k2 < bb.assets.len() ==> last_component(
                            (#[trigger] bb.assets[k2]).local_filepath,
                        ) != binary_name@) by {
                        lemma_lookup_unique(rels, specv, rel, release@);
                        assert(rel == InstalledReleaseV::Binary(b@));
                        assert forall|k2: int| 0 <= k2 < b@.assets.len() implies last_component(
                            (#[trigger] b@.assets[k2]).local_filepath,
                        ) != binary_name@ by {
                            assert(b@.assets[k2] == b.assets@[k2]@);
                        }
                    }
                }
                None
            },
        }
    }

    /// The cached client binary for an exactly installed version.
    pub fn get_pcli_for_version(&self, version: &Version) -> (r: Option<String>)
        ensures
            spec_binary_lookup(
                self@.data.installed_releases,
                version@,
                "pcli"@,
                match r {
                    Some(ref p) => Some(p@),
                    None => None,
                },
            ),
    {
        self.get_binary_for_version(version, "pcli")
    }

    /// The cached view-daemon binary for an exactly installed version.
    pub fn get_pclientd_for_version(&self, version: &Version) -> (r: Option<String>)
        ensures
            spec_binary_lookup(
                self@.data.installed_releases,
                version@,
                "pclientd"@,
                match r {
                    Some(ref p) => Some(p@),
                    None => None,
                },
            ),
    {
        self.get_binary_for_version(version, "pclientd")
    }

    /// The cached full-node binary for an exactly installed version.
    pub fn get_pd_for_version(&self, version: &Version) -> (r: Option<String>)
        ensures
            spec_binary_lookup(
                self@.data.installed_releases,
                version@,
                "pd"@,
                match r {
                    Some(ref p) => Some(p@),
                    None => None,
                },
            ),
    {
        self.get_binary_for_version(version, "pd")
    }
}

/// Where a staged release will be installed: binary releases under
/// `versions/`, keyed by their rendered version; checkouts under
/// `checkouts/`, keyed by the hex SHA-256 digest of their URL.
pub open spec fn spec_install_path(
    home: Seq<char>,
    rel: crate::release::InstallableReleaseV,
) -> Seq<char> {
    match rel {
        crate::release::InstallableReleaseV::Binary(b) => home + "/"@ + "versions"@ + "/"@
            + version_text(b.release.version),
        crate::release::InstallableReleaseV::GitRepo(m) => home + "/"@ + "checkouts"@ + "/"@
            + spec_checkout_dir_name(m.url),
    }
}

impl Cache {
    /// The deterministic destination directory for a staged release.
    pub fn generate_installed_release_path(&self, release: &InstallableRelease) -> (r: String)
        ensures
            r@ == spec_install_path(self@.home, release@),
    {
        match release {
            InstallableRelease::Binary(b) => {
                let base = path_join(self.home.as_str(), "versions");
                let vtext = version_to_string(&b.release.version);
                path_join(base.as_str(), vtext.as_str())
            },
            InstallableRelease::GitRepo(m) => {
                let base = path_join(self.home.as_str(), "checkouts");
                let dir = checkout_dir_name(m.url.as_str());
                path_join(base.as_str(), dir.as_str())
            },
        }
    }

    /// Appends a freshly materialized record.  Rejected with a conflict
    /// when a record of the same identity is already present, before any
    /// change; the identity-uniqueness invariant is preserved.
    ///
    /// The caller registers the record only after every planned copy
    /// succeeded; the copies themselves overwrite whatever an aborted
    /// earlier install left at the destination (see
    /// [`crate::release::InstallableBinaryRelease::install_plan`] for the
    /// retry policy).
    pub fn install_release(&mut self, installed: InstalledRelease) -> (r: Result<(), Error>)
        requires
            old(self).wf(),
        ensures
            final(self)@.home == old(self)@.home,
            final(self).wf(),
            r matches Ok(_) ==> {
                &&& final(self)@.data.installed_releases == old(
                    self,
                )@.data.installed_releases.push(installed@)
                &&& forall|j: int|
                    0 <= j < old(self)@.data.installed_releases.len()
                        ==> #[trigger] spec_identity(old(self)@.data.installed_releases[j])
                        != spec_identity(installed@)
            },
            r matches Err(e) ==> {
                &&& e is Conflict
                &&& final(self)@ == old(self)@
                &&& exists|j: int|
                    0 <= j < old(self)@.data.installed_releases.len()
                        && #[trigger] spec_identity(old(self)@.data.installed_releases[j])
                        == spec_identity(installed@)
            },
    {
        let ghost rels = self@.data.installed_releases;
        let n = self.data.installed_releases.len();
        let mut i: usize = 0;
        while i < n
            invariant
                n == self.data.installed_releases@.len(),
                rels == self@.data.installed_releases,
                self@ == old(self)@,
                self.wf(),
                0 <= i <= n,
                forall|j: int|
                    0 <= j < i ==> #[trigger] spec_identity(rels[j]) != spec_identity(installed@),
            decreases n - i,
        {
            proof {
                assert(rels[i as int] == self.data.installed_releases@[i as int]@);
            }
            if same_identity(&self.data.installed_releases[i], &installed) {
                return Err(Error::Conflict);
            }
            i = i + 1;
        }
        proof {
            assert(rels == self@.data.installed_releases);
        }
        self.data.installed_releases.push(installed);
        proof {
            assert(self@.data.installed_releases =~= rels.push(installed@));
            assert forall|a: int, b: int|
                0 <= a < b < self@.data.installed_releases.len() implies #[trigger] spec_identity(
                self@.data.installed_releases[a],
            ) != #[trigger] spec_identity(self@.data.installed_releases[b]) by {
                if b < rels.len() {
                    assert(spec_identity(rels[a]) != spec_identity(rels[b]));
                } else {
                    assert(spec_identity(rels[a]) != spec_identity(installed@));
                }
            }
        }
        Ok(())
    }

    /// Removes the record with the given record's identity from the list;
    /// the caller removes the on-disk tree first, and calls this only when
    /// that removal succeeded.
    pub fn delete(&mut self, installed_release: &InstalledRelease) -> (r: Result<(), Error>)
        requires
            old(self).wf(),
        ensures
            r is Ok,
            final(self)@.home == old(self)@.home,
            final(self).wf(),
            final(self)@.data.installed_releases == old(self)@.data.installed_releases.filter(
                |rel: InstalledReleaseV| spec_identity(rel) != spec_identity(installed_release@),
            ),
    {
        let ghost rels = self@.data.installed_releases;
        let ghost pred = |rel: InstalledReleaseV|
            spec_identity(rel) != spec_identity(installed_release@);
        let mut out: Vec<InstalledRelease> = Vec::new();
        let n = self.data.installed_releases.len();
        let mut i: usize = 0;
        proof {
            assert(rels.subrange(0, 0).filter(pred) =~= Seq::<InstalledReleaseV>::empty().filter(
                pred,
            ));
            assert(Seq::<InstalledReleaseV>::empty().filter(pred) =~= Seq::<
                InstalledReleaseV,
            >::empty()) by {
                reveal(Seq::filter);
            }
        }
        while i < n
            invariant
                n == self.data.installed_releases@.len(),
                rels == self@.data.installed_releases,
                pred == (|rel: InstalledReleaseV|
                    spec_identity(rel) != spec_identity(installed_release@)),
                0 <= i <= n,
                out@.map_values(|x: InstalledRelease| x@) =~= rels.subrange(0, i as int).filter(
                    pred,
                ),
            decreases n - i,
        {
            let rel = &self.data.installed_releases[i];
            proof {
                assert(rels[i as int] == self.data.installed_releases@[i as int]@);
                reveal(Seq::filter);
                assert(rels.subrange(0, i + 1).drop_last() =~= rels.subrange(0, i as int));
                assert(rels.subrange(0, i + 1).last() == rels[i as int]);
            }
            if !same_identity(rel, installed_release) {
                out.push(rel.clone());
                proof {
                    assert(out@.map_values(|x: InstalledRelease| x@) =~= rels.subrange(
                        0,
                        i + 1,
                    ).filter(pred));
                }
            } else {
                proof {
                    assert(out@.map_values(|x: InstalledRelease| x@) =~= rels.subrange(
                        0,
                        i + 1,
                    ).filter(pred));
                }
            }
            i = i + 1;
        }
        proof {
            assert(rels.subrange(0, n as int) =~= rels);
        }
        self.data.installed_releases = out;
        proof {
            let newrels = self@.data.installed_releases;
            assert(newrels == rels.filter(pred));
            assert forall|a: int, b: int|
                0 <= a < b < newrels.len() implies #[trigger] spec_identity(newrels[a])
                != #[trigger] spec_identity(newrels[b]) by {
                lemma_filter_distinct_identities(rels, pred, a, b);
            }
        }
        Ok(())
    }
}

/// `v` is among the remote releases, and no remote release is newer.
pub open spec fn is_max_release(all: Seq<crate::release::ReleaseV>, v: VersionV) -> bool {
    &&& exists|i: int| 0 <= i < all.len() && (#[trigger] all[i]).version == v
    &&& forall|j: int|
        0 <= j < all.len() ==> ((#[trigger] all[j]).version != v ==> !version_before(
            v,
            all[j].version,
        ))
}

/// Which remote releases a requirement keeps: none for a repository
/// requirement, range containment for a range, and only the newest remote
/// release for `latest`.
pub open spec fn spec_available_keeps(
    rv: crate::release::ReleaseV,
    req: Option<RepoOrVersionReqV>,
    all: Seq<crate::release::ReleaseV>,
) -> bool {
    match req {
        None => true,
        Some(RepoOrVersionReqV::Repo(_)) => false,
        Some(RepoOrVersionReqV::VersionReqOrLatest(VersionReqOrLatestV::Latest)) => is_max_release(
            all,
            rv.version,
        ),
        Some(RepoOrVersionReqV::VersionReqOrLatest(VersionReqOrLatestV::VersionReq(s))) =>
            req_matches(s, rv.version),
    }
}

/// Some installed record is exactly this version.
pub open spec fn spec_version_installed(rels: Seq<InstalledReleaseV>, v: VersionV) -> bool {
    exists|j: int|
        0 <= j < rels.len() && crate::release::spec_installed_matches(
            #[trigger] rels[j],
            crate::version::RepoOrVersionV::Version(v),
        )
}

/// The newest remote release version, when any release exists.
pub fn max_release_version(releases: &Vec<crate::release::Release>) -> (r: Option<Version>)
    ensures
        r is None <==> releases@.len() == 0,
        r matches Some(m) ==> is_max_release(
            releases@.map_values(|x: crate::release::Release| x@),
            m@,
        ),
{
    let ghost all = releases@.map_values(|x: crate::release::Release| x@);
    let mut best: Option<Version> = None;
    let n = releases.len();
    let mut i: usize = 0;
    while i < n
        invariant
            n == releases@.len(),
            all == releases@.map_values(|x: crate::release::Release| x@),
            0 <= i <= n,
            best is None <==> i == 0,
            best matches Some(m) ==> exists|k: int|
                0 <= k < i && (#[trigger] all[k]).version == m@,
            best matches Some(m) ==> forall|j: int|
                0 <= j < i ==> ((#[trigger] all[j]).version != m@ ==> !version_before(
                    m@,
                    all[j].version,
                )),
        decreases n - i,
    {
        proof {
            assert(all[i as int] == releases@[i as int]@);
        }
        match best {
            None => {
                best = Some(releases[i].version.clone());
            },
            Some(ref cur) => {
                if version_lt(cur, &releases[i].version) {
                    best = Some(releases[i].version.clone());
                }
            },
        }
        i = i + 1;
    }
    best
}

/// Whether this release is the newest of `all`, given that `latest` is.
pub fn release_is_max(
    rel: &crate::release::Release,
    latest: &Version,
    Ghost(all): Ghost<Seq<crate::release::ReleaseV>>,
) -> (r: bool)
    requires
        is_max_release(all, latest@),
        exists|i: int| 0 <= i < all.len() && (#[trigger] all[i]) == rel@,
    ensures
        r == is_max_release(all, rel@.version),
{
    if rel.version.same_version(latest) {
        true
    } else if version_lt(&rel.version, latest) {
        proof {
            if is_max_release(all, rel.version@) {
                assert(!version_before(rel.version@, latest@));
            }
        }
        false
    } else {
        proof {
            assert(version_before(latest@, rel.version@));
            let i = choose|i: int| 0 <= i < all.len() && (#[trigger] all[i]) == rel@;
            assert(all[i].version == rel@.version);
            assert(!version_before(latest@, all[i].version));
        }
        false
    }
}

impl Cache {
    /// Annotates the remote releases a requirement keeps with whether each
    /// one is already installed.  Fails only when the remote list is
    /// empty.
    pub fn annotate_available(
        &self,
        available_releases: Vec<crate::release::Release>,
        required_version: Option<&RepoOrVersionReq>,
    ) -> (r: Result<Vec<(crate::release::Release, bool)>, Error>)
        ensures
            r is Err <==> available_releases@.len() == 0,
            r matches Err(e) ==> e is NotFound,
            r matches Ok(out) ==> {
                let all = available_releases@.map_values(|x: crate::release::Release| x@);
                let reqv = match required_version {
                    Some(req) => Some(req@),
                    None => None,
                };
                let kept = all.filter(
                    |rv: crate::release::ReleaseV| spec_available_keeps(rv, reqv, all),
                );
                &&& out@.len() == kept.len()
                &&& forall|k: int|
                    0 <= k < out@.len() ==> (#[trigger] out@[k]).0@ == kept[k]
                &&& forall|k: int|
                    0 <= k < out@.len() ==> (#[trigger] out@[k]).1 == spec_version_installed(
                        self@.data.installed_releases,
                        kept[k].version,
                    )
            },
    {
        let ghost all = available_releases@.map_values(|x: crate::release::Release| x@);
        let ghost reqv: Option<RepoOrVersionReqV> = match required_version {
            Some(req) => Some(req@),
            None => None,
        };
        let ghost pred = |rv: crate::release::ReleaseV| spec_available_keeps(rv, reqv, all);
        let latest = match max_release_version(&available_releases) {
            Some(l) => l,
            None => {
                return Err(Error::NotFound);
            },
        };
        let mut out: Vec<(crate::release::Release, bool)> = Vec::new();
        let n = available_releases.len();
        let mut i: usize = 0;
        proof {
            assert(all.subrange(0, 0).filter(pred) =~= Seq::<
                crate::release::ReleaseV,
            >::empty().filter(pred));
            assert(Seq::<crate::release::ReleaseV>::empty().filter(pred) =~= Seq::<
                crate::release::ReleaseV,
            >::empty()) by {
                reveal(Seq::filter);
            }
        }
        while i < n
            invariant
                n == available_releases@.len(),
                all == available_releases@.map_values(|x: crate::release::Release| x@),
                reqv == (match required_version {
                    Some(req) => Some(req@),
                    None => None,
                }),
                pred == (|rv: crate::release::ReleaseV| spec_available_keeps(rv, reqv, all)),
                is_max_release(all, latest@),
                0 <= i <= n,
                out@.map_values(|p: (crate::release::Release, bool)| p.0@) =~= all.subrange(
                    0,
                    i as int,
                ).filter(pred),
                forall|k: int|
                    0 <= k < out@.len() ==> (#[trigger] out@[k]).1 == spec_version_installed(
                        self@.data.installed_releases,
                        out@[k].0@.version,
                    ),
            decreases n - i,
        {
            let rel = &available_releases[i];
            proof {
                assert(all[i as int] == available_releases@[i as int]@);
            }
            let keep: bool = match required_version {
                None => true,
                Some(RepoOrVersionReq::Repo(_)) => false,
                Some(RepoOrVersionReq::VersionReqOrLatest(vr)) => {
                    match vr {
                        VersionReqOrLatest::Latest => release_is_max(rel, &latest, Ghost(all)),
                        VersionReqOrLatest::VersionReq(vreq) => vreq.matches(&rel.version),
                    }
                },
            };
            proof {
                assert(keep == pred(all[i as int]));
                reveal(Seq::filter);
                assert(all.subrange(0, i + 1).drop_last() =~= all.subrange(0, i as int));
                assert(all.subrange(0, i + 1).last() == all[i as int]);
            }
            if keep {
                let installed = match self.get_installed_release(
                    &RepoOrVersion::Version(rel.version.clone()),
                ) {
                    Some(_) => true,
                    None => false,
                };
                proof {
                    assert(installed == spec_version_installed(
                        self@.data.installed_releases,
                        all[i as int].version,
                    )) by {
                        let rels = self@.data.installed_releases;
                        let specv = crate::version::RepoOrVersionV::Version(rel.version@);
                        if installed {
                        } else {
                            if spec_version_installed(rels, all[i as int].version) {
                                let j = choose|j: int|
                                    0 <= j < rels.len() && crate::release::spec_installed_matches(
                                        #[trigger] rels[j],
                                        specv,
                                    );
                            }
                        }
                    }
                }
                out.push((rel.clone(), installed));
                proof {
                    assert(out@.map_values(|p: (crate::release::Release, bool)| p.0@)
                        =~= all.subrange(0, i + 1).filter(pred));
                }
            } else {
                proof {
                    assert(out@.map_values(|p: (crate::release::Release, bool)| p.0@)
                        =~= all.subrange(0, i + 1).filter(pred));
                }
            }
            i = i + 1;
        }
        proof {
            assert(all.subrange(0, n as int) =~= all);
            assert forall|k: int| 0 <= k < out@.len() implies (#[trigger] out@[k]).0@
                == all.filter(pred)[k] by {
                assert(out@.map_values(|p: (crate::release::Release, bool)| p.0@)[k]
                    == out@[k].0@);
            }
        }
        Ok(out)
    }
}

/// Two distinct positions of a filtered unique-identity list still hold
/// distinct identities.
proof fn lemma_filter_distinct_identities(
    rels: Seq<InstalledReleaseV>,
    pred: spec_fn(InstalledReleaseV) -> bool,
    a: int,
    b: int,
)
    requires
        cache_records_wf(rels),
        0 <= a < b < rels.filter(pred).len(),
    ensures
        spec_identity(rels.filter(pred)[a]) != spec_identity(rels.filter(pred)[b]),
    decreases rels.len(),
{
    reveal(Seq::filter);
    if rels.len() > 0 {
        let rest = rels.drop_last();
        let kept = rels.filter(pred);
        assert(cache_records_wf(rest)) by {
            assert forall|i: int, j: int|
                0 <= i < j < rest.len() implies #[trigger] spec_identity(rest[i])
                != #[trigger] spec_identity(rest[j]) by {
                assert(rest[i] == rels[i] && rest[j] == rels[j]);
                assert(spec_identity(rels[i]) != spec_identity(rels[j]));
            }
        }
        if pred(rels.last()) && b == kept.len() - 1 {
            // kept[b] is the last record; kept[a] comes from the front
            let front = rest.filter(pred);
            assert(kept == front.push(rels.last()));
            assert(kept[a] == front[a]);
            assert(front.contains(front[a]));
            rest.lemma_filter_contains_rev(pred, front[a]);
            let i = choose|i: int| 0 <= i < rest.len() && rest[i] == front[a];
            assert(rels[i] == front[a]);
            assert(spec_identity(rels[i]) != spec_identity(rels[rels.len() - 1]));
            assert(kept[b] == rels[rels.len() - 1]);
        } else {
            lemma_filter_distinct_identities(rest, pred, a, b);
            assert(rels.filter(pred)[a] == rest.filter(pred)[a]);
            assert(rels.filter(pred)[b] == rest.filter(pred)[b]);
        }
    }
}

/// Whether two records share an identity.
fn same_identity(a: &InstalledRelease, b: &InstalledRelease) -> (r: bool)
    ensures
        r == (spec_identity(a@) == spec_identity(b@)),
{
    match (a, b) {
        (InstalledRelease::Binary(x), InstalledRelease::Binary(y)) => x.version.same_version(
            &y.version,
        ),
        (InstalledRelease::GitCheckout(x), InstalledRelease::GitCheckout(y)) => {
            let r = x.url == y.url;
            r
        },
        _ => false,
    }
}

/// Whether no two records share an identity.
pub fn records_unique_check(rels: &Vec<InstalledRelease>) -> (r: bool)
    ensures
        r == cache_records_wf(rels@.map_values(|x: InstalledRelease| x@)),
{
    let ghost view = rels@.map_values(|x: InstalledRelease| x@);
    let n = rels.len();
    let mut i: usize = 0;
    while i < n
        invariant
            n == rels@.len(),
            view == rels@.map_values(|x: InstalledRelease| x@),
            0 <= i <= n,
            forall|a: int, b: int|
                0 <= a < b < view.len() && a < i ==> #[trigger] spec_identity(view[a])
                    != #[trigger] spec_identity(view[b]),
        decreases n - i,
    {
        let mut j: usize = i + 1;
        while j < n
            invariant
                n == rels@.len(),
                view == rels@.map_values(|x: InstalledRelease| x@),
                0 <= i < j <= n,
                forall|a: int, b: int|
                    0 <= a < b < view.len() && a < i ==> #[trigger] spec_identity(view[a])
                        != #[trigger] spec_identity(view[b]),
                forall|b: int|
                    i < b < j ==> spec_identity(view[i as int]) != #[trigger] spec_identity(
                        view[b],
                    ),
            decreases n - j,
        {
            if same_identity(&rels[i], &rels[j]) {
                proof {
                    assert(view[i as int] == rels@[i as int]@);
                    assert(view[j as int] == rels@[j as int]@);
                    assert(spec_identity(view[i as int]) == spec_identity(view[j as int]));
                }
                return false;
            }
            j = j + 1;
        }
        i = i + 1;
    }
    true
}

} // verus!
