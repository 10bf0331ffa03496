use crate::cache::{records_unique_check, Cache, CacheData, CacheDataV, CacheV};
use crate::environment::{
    spec_has_alias, spec_metadata, Environment, EnvironmentV, Environments, EnvironmentsV,
};
use crate::errors::Error;
use crate::links::{LinkOp, LinkOpV};
use crate::strutil::path_join;
use vstd::pervasive::VecAdditionalExecFns;
use vstd::prelude::*;

verus! {

/// Mathematical value of [`Penv`].
pub struct PenvV {
    pub repository_name: Seq<char>,
    pub home_dir: Seq<char>,
    pub cache: CacheV,
    pub environments: Seq<EnvironmentV>,
    pub active_environment: Option<EnvironmentV>,
}

/// The orchestrator: the cache, the configured environments, and the
/// active-environment slot, all owned by one home directory.
pub struct Penv {
    /// The registry of installed releases.
    pub cache: Cache,
    /// The configured environments.
    pub environments: Environments,
    /// The repository releases are fetched from.
    pub repository_name: String,
    /// The home directory that owns all managed state.
    pub home_dir: String,
    /// The currently activated environment, equal in value to its entry in
    /// the list.
    pub active_environment: Option<Environment>,
}

impl View for Penv {
    type V = PenvV;

    open spec fn view(&self) -> PenvV {
        PenvV {
            repository_name: self.repository_name@,
            home_dir: self.home_dir@,
            cache: self.cache@,
            environments: self.environments@.environments,
            active_environment: match self.active_environment {
                Some(ref e) => Some(e@),
                None => None,
            },
        }
    }
}

/// Environment aliases are unique.
pub open spec fn aliases_unique(envs: Seq<EnvironmentV>) -> bool {
    forall|i: int, j: int|
        0 <= i < j < envs.len() ==> spec_metadata(#[trigger] envs[i]).alias != spec_metadata(
            #[trigger] envs[j],
        ).alias
}

/// The orchestrator's invariant: the cache is well formed and shares the
/// home directory, aliases are unique, and the active slot holds a value
/// equal to one of the list entries.
pub open spec fn penv_wf(p: PenvV) -> bool {
    &&& crate::cache::cache_records_wf(p.cache.data.installed_releases)
    &&& p.cache.home == p.home_dir
    &&& aliases_unique(p.environments)
    &&& match p.active_environment {
        Some(e) => exists|i: int| 0 <= i < p.environments.len() && #[trigger] p.environments[i] == e,
        None => true,
    }
}

/// Mathematical value of [`PersistedPenv`].
pub struct PersistedPenvV {
    pub repository_name: Seq<char>,
    pub home_dir: Seq<char>,
    pub active_environment: Option<Seq<char>>,
    pub cache: CacheDataV,
    pub environments: Seq<EnvironmentV>,
}

/// Exactly what the orchestrator's index file holds: the active
/// environment as its alias, never as a reference.
pub struct PersistedPenv {
    pub repository_name: String,
    pub home_dir: String,
    pub active_environment: Option<String>,
    pub cache: CacheData,
    pub environments: Vec<Environment>,
}

impl View for PersistedPenv {
    type V = PersistedPenvV;

    open spec fn view(&self) -> PersistedPenvV {
        PersistedPenvV {
            repository_name: self.repository_name@,
            home_dir: self.home_dir@,
            active_environment: match self.active_environment {
                Some(ref a) => Some(a@),
                None => None,
            },
            cache: self.cache@,
            environments: self.environments@.map_values(|e: Environment| e@),
        }
    }
}

/// What persisting writes: the same fields, with the active environment
/// reduced to its alias.
pub open spec fn spec_to_persisted(p: PenvV) -> PersistedPenvV {
    PersistedPenvV {
        repository_name: p.repository_name,
        home_dir: p.home_dir,
        active_environment: match p.active_environment {
            Some(e) => Some(spec_metadata(e).alias),
            None => None,
        },
        cache: p.cache.data,
        environments: p.environments,
    }
}

/// The first environment carrying an alias, if any.
pub open spec fn spec_find_env(envs: Seq<EnvironmentV>, alias: Seq<char>) -> Option<EnvironmentV> {
    if spec_has_alias(envs, alias) {
        Some(
            envs[choose|i: int|
                {
                    &&& 0 <= i < envs.len()
                    &&& spec_metadata(#[trigger] envs[i]).alias == alias
                    &&& forall|j: int|
                        0 <= j < i ==> spec_metadata(#[trigger] envs[j]).alias != alias
                }],
        )
    } else {
        None
    }
}

/// What loading reconstructs: the active reference is re-resolved by
/// looking its alias up in the freshly read environments list.
pub open spec fn spec_from_persisted(ps: PersistedPenvV) -> PenvV {
    PenvV {
        repository_name: ps.repository_name,
        home_dir: ps.home_dir,
        cache: CacheV { home: ps.home_dir, data: ps.cache },
        environments: ps.environments,
        active_environment: match ps.active_environment {
            Some(alias) => spec_find_env(ps.environments, alias),
            None => None,
        },
    }
}

/// Persisting and loading reproduce the orchestrator exactly: on any
/// well-formed state, writing the active environment as its alias and
/// re-resolving that alias against the list yields the original state,
/// active reference included.
pub proof fn lemma_persist_load_round_trip(p: PenvV)
    requires
        penv_wf(p),
    ensures
        spec_from_persisted(spec_to_persisted(p)) == p,
{
    let ps = spec_to_persisted(p);
    let q = spec_from_persisted(ps);
    match p.active_environment {
        None => {
            assert(q =~= p);
        },
        Some(e) => {
            let alias = spec_metadata(e).alias;
            let k = choose|k: int| 0 <= k < p.environments.len() && #[trigger] p.environments[k]
                == e;
            assert(spec_metadata(p.environments[k]).alias == alias);
            assert(spec_has_alias(p.environments, alias));
            // the witness for the first index with this alias
            let i0 = choose|i: int|
                {
                    &&& 0 <= i < p.environments.len()
                    &&& spec_metadata(#[trigger] p.environments[i]).alias == alias
                    &&& forall|j: int|
                        0 <= j < i ==> spec_metadata(#[trigger] p.environments[j]).alias != alias
                };
            assert(exists|i: int|
                {
                    &&& 0 <= i < p.environments.len()
                    &&& spec_metadata(#[trigger] p.environments[i]).alias == alias
                    &&& forall|j: int|
                        0 <= j < i ==> spec_metadata(#[trigger] p.environments[j]).alias != alias
                }) by {
                lemma_first_alias_exists(p.environments, alias, k);
            }
            if i0 < k {
                assert(spec_metadata(p.environments[i0]).alias == spec_metadata(
                    p.environments[k],
                ).alias);
                assert(false);
            } else if k < i0 {
                assert(spec_metadata(p.environments[k]).alias == alias);
                assert(false);
            }
            assert(p.environments[i0] == e);
            assert(q.active_environment == Some(e));
            assert(q =~= p);
        },
    }
}

/// Some position holding the alias implies a first such position.
proof fn lemma_first_alias_exists(envs: Seq<EnvironmentV>, alias: Seq<char>, k: int)
    requires
        0 <= k < envs.len(),
        spec_metadata(envs[k]).alias == alias,
    ensures
        exists|i: int|
            {
                &&& 0 <= i < envs.len()
                &&& spec_metadata(#[trigger] envs[i]).alias == alias
                &&& forall|j: int|
                    0 <= j < i ==> spec_metadata(#[trigger] envs[j]).alias != alias
            },
    decreases k,
{
    if forall|j: int| 0 <= j < k ==> spec_metadata(#[trigger] envs[j]).alias != alias {
        assert({
            &&& 0 <= k < envs.len()
            &&& spec_metadata(envs[k]).alias == alias
            &&& forall|j: int| 0 <= j < k ==> spec_metadata(#[trigger] envs[j]).alias != alias
        });
    } else {
        let k2 = choose|j: int| 0 <= j < k && spec_metadata(#[trigger] envs[j]).alias == alias;
        lemma_first_alias_exists(envs, alias, k2);
    }
}

impl Penv {
    /// The orchestrator's invariant.
    pub open spec fn wf(&self) -> bool {
        penv_wf(self@)
    }

    /// A fresh, empty orchestrator for a home directory with no index
    /// file yet.
    pub fn fresh(repository_name: String, home: String) -> (r: Penv)
        ensures
            r@.repository_name == repository_name@,
            r@.home_dir == home@,
            r@.cache.home == home@,
            r@.cache.data.installed_releases.len() == 0,
            r@.environments.len() == 0,
            r@.active_environment is None,
            r.wf(),
    {
        let home_copy = home.clone();
        let r = Penv {
            cache: Cache::empty(home_copy),
            environments: Environments { environments: Vec::new() },
            repository_name,
            home_dir: home,
            active_environment: None,
        };
        proof {
            assert(r@.environments =~= Seq::<EnvironmentV>::empty());
        }
        r
    }

    /// The state to write to the index file.
    pub fn to_persisted(&self) -> (r: PersistedPenv)
        ensures
            r@ == spec_to_persisted(self@),
    {
        let envs = clone_environments(&self.environments.environments);
        let cache_records = clone_records(&self.cache.data.installed_releases);
        let r = PersistedPenv {
            repository_name: self.repository_name.clone(),
            home_dir: self.home_dir.clone(),
            active_environment: match &self.active_environment {
                Some(e) => Some(e.metadata().alias.clone()),
                None => None,
            },
            cache: CacheData { installed_releases: cache_records },
            environments: envs,
        };
        proof {
            assert(r@ =~= spec_to_persisted(self@));
        }
        r
    }

    /// Rebuilds the orchestrator from the index file's contents,
    /// re-resolving the active environment by alias; fails when the data
    /// breaks the invariant (duplicate identities or aliases).
    pub fn from_persisted(ps: PersistedPenv) -> (r: Result<Penv, Error>)
        ensures
            r is Ok <==> crate::cache::cache_records_wf(ps@.cache.installed_releases)
                && aliases_unique(ps@.environments),
            r matches Ok(p) ==> p@ == spec_from_persisted(ps@) && p.wf(),
            r matches Err(e) ==> e is SerializationFailure,
    {
        if !records_unique_check(&ps.cache.installed_releases) {
            return Err(Error::SerializationFailure);
        }
        if !aliases_unique_check(&ps.environments) {
            return Err(Error::SerializationFailure);
        }
        let environments = Environments { environments: ps.environments };
        let active_environment: Option<Environment> = match &ps.active_environment {
            Some(alias) => {
                match environments.get_environment(alias.as_str()) {
                    Some(env) => Some(env.clone()),
                    None => None,
                }
            },
            None => None,
        };
        let home_copy = ps.home_dir.clone();
        let p = Penv {
            cache: Cache { home: home_copy, data: ps.cache },
            environments,
            repository_name: ps.repository_name,
            home_dir: ps.home_dir,
            active_environment,
        };
        proof {
            assert(p@.environments == ps@.environments);
            match ps.active_environment {
                Some(ref alias) => {
                    lemma_get_matches_find(p@.environments, alias@, p@.active_environment);
                },
                None => {},
            }
            assert(p@ =~= spec_from_persisted(ps@));
        }
        Ok(p)
    }
}

/// What one activation does to the link state: remove the shared `bin`
/// link, then create it against the chosen environment's `bin` directory.
pub open spec fn spec_activate_plan(home: Seq<char>, env_root: Seq<char>) -> Seq<LinkOpV> {
    seq![
        LinkOpV::Remove { link: home + "/"@ + "bin"@ },
        LinkOpV::Ensure { link: home + "/"@ + "bin"@, target: env_root + "/"@ + "bin"@ },
    ]
}

impl Penv {
    /// The path of the orchestrator's index file.
    pub fn penv_file_path(&self) -> (r: String)
        ensures
            r@ == self@.home_dir + "/"@ + "penv.toml"@,
    {
        path_join(self.home_dir.as_str(), "penv.toml")
    }

    /// The directory the shell adds to its search path.
    pub fn path_string(&self) -> (r: String)
        ensures
            r@ == self@.home_dir + "/"@ + "bin"@,
    {
        path_join(self.home_dir.as_str(), "bin")
    }

    /// The environment with the given alias.
    pub fn environment_info(&self, environment_alias: &str) -> (r: Result<&Environment, Error>)
        ensures
            r matches Ok(env) ==> spec_has_alias(self@.environments, environment_alias@)
                && spec_metadata(env@).alias == environment_alias@ && exists|i: int|
                0 <= i < self@.environments.len() && #[trigger] self@.environments[i] == env@,
            r matches Err(e) ==> e is NotFound && !spec_has_alias(
                self@.environments,
                environment_alias@,
            ),
    {
        match self.environments.get_environment(environment_alias) {
            Some(env) => Ok(env),
            None => Err(Error::NotFound),
        }
    }

    /// The configured environments.
    pub fn environments(&self) -> (r: Result<&Environments, Error>)
        ensures
            r is Ok,
            r matches Ok(envs) ==> envs@ == (EnvironmentsV { environments: self@.environments }),
    {
        Ok(&self.environments)
    }

    /// Clears the active slot; the returned plan removes the shared `bin`
    /// link.
    pub fn deactivate(&mut self) -> (r: Vec<LinkOp>)
        requires
            old(self).wf(),
        ensures
            final(self).wf(),
            final(self)@ == (PenvV { active_environment: None, ..old(self)@ }),
            r@.map_values(|op: LinkOp| op@) == seq![
                LinkOpV::Remove { link: old(self)@.home_dir + "/"@ + "bin"@ },
            ],
    {
        self.active_environment = None;
        let mut plan: Vec<LinkOp> = Vec::new();
        plan.push(LinkOp::Remove { link: self.path_string() });
        proof {
            assert(plan@.map_values(|op: LinkOp| op@) =~= seq![
                LinkOpV::Remove { link: self@.home_dir + "/"@ + "bin"@ },
            ]);
            assert(self@ =~= (PenvV { active_environment: None, ..old(self)@ }));
        }
        plan
    }

    /// Makes the named environment active.  The returned plan first
    /// removes any prior shared `bin` link, then points it at the chosen
    /// environment's `bin` directory, so exactly one link remains.
    pub fn activate(&mut self, environment_alias: &str) -> (r: Result<Vec<LinkOp>, Error>)
        requires
            old(self).wf(),
        ensures
            final(self).wf(),
            r matches Ok(plan) ==> {
                &&& spec_has_alias(old(self)@.environments, environment_alias@)
                &&& final(self)@.active_environment == spec_find_env(
                    old(self)@.environments,
                    environment_alias@,
                )
                &&& final(self)@ == (PenvV {
                    active_environment: final(self)@.active_environment,
                    ..old(self)@
                })
                &&& plan@.map_values(|op: LinkOp| op@) == spec_activate_plan(
                    old(self)@.home_dir,
                    spec_metadata(final(self)@.active_environment->0).root_dir,
                )
            },
            r matches Err(e) ==> {
                &&& e is NotFound
                &&& !spec_has_alias(old(self)@.environments, environment_alias@)
                &&& final(self)@ == old(self)@
            },
    {
        let env = match self.environments.get_environment(environment_alias) {
            Some(env) => env.clone(),
            None => {
                return Err(Error::NotFound);
            },
        };
        proof {
            lemma_get_matches_find(self@.environments, environment_alias@, Some(env@));
        }
        let link = self.path_string();
        let target = path_join(env.path().as_str(), "bin");
        let mut plan: Vec<LinkOp> = Vec::new();
        plan.push(LinkOp::Remove { link: link.clone() });
        plan.push(LinkOp::Ensure { link, target });
        self.active_environment = Some(env);
        proof {
            assert(plan@.map_values(|op: LinkOp| op@) =~= spec_activate_plan(
                old(self)@.home_dir,
                spec_metadata(self@.active_environment->0).root_dir,
            ));
            assert(self@ =~= (PenvV { active_environment: self@.active_environment, ..old(self)@ }));
        }
        Ok(plan)
    }

    /// Removes the named environment.  Deleting the active environment is
    /// rejected with a conflict before any change; deactivate first.  On
    /// success the environment leaves the list and its directory is
    /// returned for the caller to remove.
    pub fn delete_environment(&mut self, environment_alias: &str) -> (r: Result<String, Error>)
        requires
            old(self).wf(),
        ensures
            final(self).wf(),
            r matches Ok(dir) ==> {
                &&& spec_has_alias(old(self)@.environments, environment_alias@)
                &&& (old(self)@.active_environment matches Some(a) ==> spec_metadata(a).alias
                    != environment_alias@)
                &&& final(self)@ == (PenvV {
                    environments: old(self)@.environments.filter(
                        |e: EnvironmentV| spec_metadata(e).alias != environment_alias@,
                    ),
                    ..old(self)@
                })
                &&& dir@ == spec_metadata(
                    spec_find_env(old(self)@.environments, environment_alias@)->0,
                ).root_dir
            },
            r matches Err(e) ==> {
                &&& final(self)@ == old(self)@
                &&& match e {
                    Error::NotFound => !spec_has_alias(old(self)@.environments, environment_alias@),
                    Error::Conflict => old(self)@.active_environment matches Some(a)
                        && spec_metadata(a).alias == environment_alias@,
                    _ => false,
                }
            },
    {
        let ghost envs0 = self@.environments;
        let env = match self.environments.get_environment(environment_alias) {
            Some(env) => env.clone(),
            None => {
                return Err(Error::NotFound);
            },
        };
        proof {
            lemma_get_matches_find(self@.environments, environment_alias@, Some(env@));
        }
        match &self.active_environment {
            Some(active) => {
                if crate::strutil::str_eq(active.metadata().alias.as_str(), environment_alias) {
                    return Err(Error::Conflict);
                }
            },
            None => {},
        }
        let dir = env.metadata().root_dir.clone();
        let ghost pred = |e: EnvironmentV| spec_metadata(e).alias != environment_alias@;
        let mut out: Vec<Environment> = Vec::new();
        let n = self.environments.environments.len();
        let mut i: usize = 0;
        proof {
            assert(envs0.subrange(0, 0).filter(pred) =~= Seq::<EnvironmentV>::empty().filter(
                pred,
            ));
            assert(Seq::<EnvironmentV>::empty().filter(pred) =~= Seq::<EnvironmentV>::empty()) by {
                reveal(Seq::filter);
            }
        }
        while i < n
            invariant
                n == self.environments.environments@.len(),
                envs0 == self@.environments,
                pred == (|e: EnvironmentV| spec_metadata(e).alias != environment_alias@),
                0 <= i <= n,
                out@.map_values(|e: Environment| e@) =~= envs0.subrange(0, i as int).filter(pred),
            decreases n - i,
        {
            let e = &self.environments.environments[i];
            proof {
                assert(envs0[i as int] == self.environments.environments@[i as int]@);
                reveal(Seq::filter);
                assert(envs0.subrange(0, i + 1).drop_last() =~= envs0.subrange(0, i as int));
                assert(envs0.subrange(0, i + 1).last() == envs0[i as int]);
            }
            if !crate::strutil::str_eq(e.metadata().alias.as_str(), environment_alias) {
                out.push(e.clone());
                proof {
                    assert(out@.map_values(|e: Environment| e@) =~= envs0.subrange(
                        0,
                        i + 1,
                    ).filter(pred));
                }
            } else {
                proof {
                    assert(out@.map_values(|e: Environment| e@) =~= envs0.subrange(
                        0,
                        i + 1,
                    ).filter(pred));
                }
            }
            i = i + 1;
        }
        proof {
            assert(envs0.subrange(0, n as int) =~= envs0);
        }
        self.environments.environments = out;
        proof {
            let newenvs = self@.environments;
            assert(newenvs == envs0.filter(pred));
            assert forall|a: int, b: int|
                0 <= a < b < newenvs.len() implies spec_metadata(
                #[trigger] newenvs[a],
            ).alias != spec_metadata(#[trigger] newenvs[b]).alias by {
                lemma_filter_distinct_aliases(envs0, pred, a, b);
            }
            match self@.active_environment {
                Some(a) => {
                    let k = choose|k: int|
                        0 <= k < envs0.len() && #[trigger] envs0[k] == a;
                    assert(pred(envs0[k]));
                    envs0.lemma_filter_contains(pred, k);
                    assert(newenvs.contains(a));
                    let k2 = choose|k2: int| 0 <= k2 < newenvs.len() && newenvs[k2] == a;
                },
                None => {},
            }
            assert(final(self)@ =~= (PenvV {
                environments: envs0.filter(pred),
                ..old(self)@
            }));
        }
        Ok(dir)
    }

    /// Removes an installed release from the cache, unless an environment
    /// still relies on it: deleting a release any environment's
    /// requirement is satisfied by is rejected with a conflict, and the
    /// cache is left unchanged.  On success the record leaves the list and
    /// its directory is returned for the caller to remove.
    pub fn delete_cache_entry(&mut self, version: &crate::version::RepoOrVersion) -> (r: Result<
        String,
        Error,
    >)
        requires
            old(self).wf(),
        ensures
            final(self).wf(),
            r matches Ok(dir) ==> {
                &&& forall|i: int|
                    0 <= i < old(self)@.environments.len()
                        ==> !crate::environment::spec_satisfied_by(
                        #[trigger] old(self)@.environments[i],
                        version@,
                    )
                &&& exists|rel: crate::release::InstalledReleaseV|
                    #[trigger] crate::cache::spec_lookup(
                        old(self)@.cache.data.installed_releases,
                        version@,
                        Some(rel),
                    ) && final(self)@.cache.data.installed_releases == old(
                        self,
                    )@.cache.data.installed_releases.filter(
                        |r2: crate::release::InstalledReleaseV| crate::cache::spec_identity(r2)
                            != crate::cache::spec_identity(rel),
                    ) && dir@ == (match rel {
                        crate::release::InstalledReleaseV::Binary(b) => b.root_dir,
                        crate::release::InstalledReleaseV::GitCheckout(c) => c.install_path,
                    })
                &&& final(self)@ == (PenvV { cache: final(self)@.cache, ..old(self)@ })
                &&& final(self)@.cache.home == old(self)@.cache.home
            },
            r is Err <==> ((exists|i: int|
                0 <= i < old(self)@.environments.len() && crate::environment::spec_satisfied_by(
                    #[trigger] old(self)@.environments[i],
                    version@,
                )) || crate::cache::spec_lookup(
                old(self)@.cache.data.installed_releases,
                version@,
                None,
            )),
            r matches Err(e) ==> {
                &&& final(self)@ == old(self)@
                &&& (e is Conflict <==> exists|i: int|
                    0 <= i < old(self)@.environments.len()
                        && crate::environment::spec_satisfied_by(
                        #[trigger] old(self)@.environments[i],
                        version@,
                    ))
                &&& (e is NotFound <==> (!(exists|i: int|
                    0 <= i < old(self)@.environments.len()
                        && crate::environment::spec_satisfied_by(
                        #[trigger] old(self)@.environments[i],
                        version@,
                    )) && crate::cache::spec_lookup(
                    old(self)@.cache.data.installed_releases,
                    version@,
                    None,
                )))
            },
    {
        let ghost envs = self@.environments;
        let n = self.environments.environments.len();
        let mut i: usize = 0;
        while i < n
            invariant
                n == self.environments.environments@.len(),
                envs == self@.environments,
                self@ == old(self)@,
                self.wf(),
                0 <= i <= n,
                forall|j: int|
                    0 <= j < i ==> !crate::environment::spec_satisfied_by(
                        #[trigger] envs[j],
                        version@,
                    ),
            decreases n - i,
        {
            proof {
                assert(envs[i as int] == self.environments.environments@[i as int]@);
            }
            if self.environments.environments[i].satisfied_by_version(version) {
                return Err(Error::Conflict);
            }
            i = i + 1;
        }
        let rel = match self.cache.get_installed_release(version) {
            Some(rel) => rel,
            None => {
                return Err(Error::NotFound);
            },
        };
        let dir = rel.delete_path().clone();
        match self.cache.delete(&rel) {
            Ok(_) => {},
            Err(_) => {
                return Err(Error::NotFound);
            },
        }
        proof {
            assert(final(self)@ =~= (PenvV { cache: final(self)@.cache, ..old(self)@ }));
            // the record that was found contradicts an empty lookup
            let rels = old(self)@.cache.data.installed_releases;
            if crate::cache::spec_lookup(rels, version@, None) {
                let i = choose|i: int|
                    {
                        &&& 0 <= i < rels.len()
                        &&& #[trigger] rels[i] == rel@
                        &&& crate::release::spec_installed_matches(rel@, version@)
                        &&& forall|j: int|
                            0 <= j < i ==> !crate::release::spec_installed_matches(
                                #[trigger] rels[j],
                                version@,
                            )
                    };
                assert(!crate::release::spec_installed_matches(rels[i], version@));
            }
        }
        Ok(dir)
    }
}

/// The environment built for a freshly matched installed release: the
/// shared metadata plus, for a binary release, the requirement and the
/// matched version as the pin; for a checkout, the checkout record.
pub open spec fn spec_built_env(
    alias: Seq<char>,
    grpc_url: Seq<char>,
    pd_join_url: Seq<char>,
    client_only: bool,
    generate_network: bool,
    home: Seq<char>,
    req: crate::version::RepoOrVersionReqV,
    rel: crate::release::InstalledReleaseV,
    env: EnvironmentV,
) -> bool {
    let md = crate::environment::EnvironmentMetadataV {
        alias,
        grpc_url,
        root_dir: home + "/"@ + "environments"@ + "/"@ + alias,
        pd_join_url,
        client_only,
        generate_network,
    };
    match rel {
        crate::release::InstalledReleaseV::GitCheckout(c) => env
            == EnvironmentV::CheckoutEnvironment(
            crate::environment::CheckoutEnvironmentV { metadata: md, git_checkout: c },
        ),
        crate::release::InstalledReleaseV::Binary(b) => req matches
            crate::version::RepoOrVersionReqV::VersionReqOrLatest(vr) && env
            == EnvironmentV::BinaryEnvironment(
            crate::environment::BinaryEnvironmentV {
                metadata: md,
                version_requirement: vr,
                pinned_version: b.version,
            },
        ),
    }
}

impl Penv {
    /// Builds, but does not yet register, the environment for a new
    /// alias: the alias must be free, and the requirement must resolve
    /// against the cache (installation is not attempted here).  The
    /// caller initializes the environment on disk, then registers it.
    pub fn prepare_environment(
        &self,
        environment_alias: &str,
        penumbra_version: &crate::version::RepoOrVersionReq,
        grpc_url: &str,
        pd_join_url: &str,
        client_only: bool,
        generate_network: bool,
    ) -> (r: Result<Environment, Error>)
        ensures
            r matches Ok(env) ==> {
                &&& !spec_has_alias(self@.environments, environment_alias@)
                &&& exists|rel: crate::release::InstalledReleaseV|
                    #[trigger] crate::cache::spec_best_match(
                        self@.cache.data.installed_releases,
                        penumbra_version@,
                        Some(rel),
                    ) && spec_built_env(
                        environment_alias@,
                        grpc_url@,
                        pd_join_url@,
                        client_only,
                        generate_network,
                        self@.home_dir,
                        penumbra_version@,
                        rel,
                        env@,
                    )
            },
            r matches Err(e) ==> match e {
                Error::Conflict => spec_has_alias(self@.environments, environment_alias@),
                Error::NotFound => !spec_has_alias(self@.environments, environment_alias@)
                    && crate::cache::spec_best_match(
                    self@.cache.data.installed_releases,
                    penumbra_version@,
                    None,
                ),
                _ => false,
            },
    {
        match self.environments.index_of(environment_alias) {
            Some(_) => {
                return Err(Error::Conflict);
            },
            None => {},
        }
        let matched = match self.cache.find_best_match(penumbra_version) {
            Some(rel) => rel,
            None => {
                return Err(Error::NotFound);
            },
        };
        let ghost mv = matched@;
        let base = path_join(self.home_dir.as_str(), "environments");
        let root_dir = path_join(base.as_str(), environment_alias);
        let metadata = crate::environment::EnvironmentMetadata {
            alias: environment_alias.to_owned(),
            grpc_url: grpc_url.to_owned(),
            root_dir,
            pd_join_url: pd_join_url.to_owned(),
            client_only,
            generate_network,
        };
        let ghost mdv = crate::environment::EnvironmentMetadataV {
            alias: environment_alias@,
            grpc_url: grpc_url@,
            root_dir: self@.home_dir + "/"@ + "environments"@ + "/"@ + environment_alias@,
            pd_join_url: pd_join_url@,
            client_only,
            generate_network,
        };
        proof {
            assert(metadata@ =~= mdv);
        }
        match matched {
            crate::release::InstalledRelease::GitCheckout(checkout) => {
                let env = Environment::CheckoutEnvironment(
                    crate::environment::CheckoutEnvironment { metadata, git_checkout: checkout },
                );
                proof {
                    assert(spec_built_env(
                        environment_alias@,
                        grpc_url@,
                        pd_join_url@,
                        client_only,
                        generate_network,
                        self@.home_dir,
                        penumbra_version@,
                        mv,
                        env@,
                    ));
                    assert(crate::cache::spec_best_match(
                        self@.cache.data.installed_releases,
                        penumbra_version@,
                        Some(mv),
                    ));
                }
                Ok(env)
            },
            crate::release::InstalledRelease::Binary(b) => {
                let vr = match penumbra_version {
                    crate::version::RepoOrVersionReq::VersionReqOrLatest(vr) => vr.clone(),
                    crate::version::RepoOrVersionReq::Repo(_) => {
                        // a repository requirement matches no binary record
                        proof {
                            assert(false);
                        }
                        return Err(Error::NotFound);
                    },
                };
                let env = Environment::BinaryEnvironment(
                    crate::environment::BinaryEnvironment {
                        metadata,
                        version_requirement: vr,
                        pinned_version: b.version,
                    },
                );
                proof {
                    assert(spec_built_env(
                        environment_alias@,
                        grpc_url@,
                        pd_join_url@,
                        client_only,
                        generate_network,
                        self@.home_dir,
                        penumbra_version@,
                        mv,
                        env@,
                    ));
                    assert(crate::cache::spec_best_match(
                        self@.cache.data.installed_releases,
                        penumbra_version@,
                        Some(mv),
                    ));
                }
                Ok(env)
            },
        }
    }

    /// Adds a freshly initialized environment to the list; its alias must
    /// still be free.
    pub fn register_environment(&mut self, environment: Environment) -> (r: Result<(), Error>)
        requires
            old(self).wf(),
        ensures
            final(self).wf(),
            r matches Ok(_) ==> {
                &&& !spec_has_alias(old(self)@.environments, spec_metadata(environment@).alias)
                &&& final(self)@ == (PenvV {
                    environments: old(self)@.environments.push(environment@),
                    ..old(self)@
                })
            },
            r matches Err(e) ==> e is Conflict && spec_has_alias(
                old(self)@.environments,
                spec_metadata(environment@).alias,
            ) && final(self)@ == old(self)@,
    {
        let alias = environment.metadata().alias.clone();
        match self.environments.index_of(alias.as_str()) {
            Some(_) => {
                return Err(Error::Conflict);
            },
            None => {},
        }
        let ghost envs0 = self@.environments;
        self.environments.environments.push(environment);
        proof {
            assert(self@.environments =~= envs0.push(environment@));
            assert forall|a: int, b: int|
                0 <= a < b < self@.environments.len() implies spec_metadata(
                #[trigger] self@.environments[a],
            ).alias != spec_metadata(#[trigger] self@.environments[b]).alias by {
                if b < envs0.len() {
                    assert(spec_metadata(envs0[a]).alias != spec_metadata(envs0[b]).alias);
                } else {
                    assert(self@.environments[b] == environment@);
                }
            }
            match self@.active_environment {
                Some(a) => {
                    let k = choose|k: int| 0 <= k < envs0.len() && #[trigger] envs0[k] == a;
                    assert(self@.environments[k] == a);
                },
                None => {},
            }
            assert(final(self)@ =~= (PenvV {
                environments: envs0.push(environment@),
                ..old(self)@
            }));
        }
        Ok(())
    }

    /// Re-pins a binary environment to a new exact version, in place; the
    /// active slot follows when it holds that environment.  The returned
    /// plans first unlink the environment's managed binaries, then wire
    /// them to the new version's cached copies; both are computed before
    /// anything changes, so a refused call leaves the state untouched.
    /// Refused exactly when the alias is absent, names a checkout, or the
    /// new version's managed binaries are not all cached.
    pub fn replace_version(
        &mut self,
        environment_alias: &str,
        new_version: crate::version::Version,
    ) -> (r: Result<(Vec<LinkOp>, Vec<LinkOp>), Error>)
        requires
            old(self).wf(),
        ensures
            final(self).wf(),
            r matches Ok(plans) ==> spec_replace_post(
                old(self)@,
                final(self)@,
                environment_alias@,
                new_version@,
                plans.0@.map_values(|op: LinkOp| op@),
                plans.1@.map_values(|op: LinkOp| op@),
            ),
            r matches Err(e) ==> final(self)@ == old(self)@,
            r is Err <==> (spec_alias_is_checkout(old(self)@, environment_alias@)
                || spec_replace_refused(old(self)@, environment_alias@, new_version@)),
            r matches Err(e) ==> (e is UnsupportedOperation <==> spec_alias_is_checkout(
                old(self)@,
                environment_alias@,
            )),
            r matches Err(e) ==> (e is NotFound <==> (!spec_alias_is_checkout(
                old(self)@,
                environment_alias@,
            ) && spec_replace_refused(old(self)@, environment_alias@, new_version@))),
    {
        let ghost envs0 = self@.environments;
        let i = match self.environments.index_of(environment_alias) {
            Some(i) => i,
            None => {
                return Err(Error::NotFound);
            },
        };
        proof {
            assert(envs0[i as int] == self.environments.environments@[i as int]@);
            lemma_get_matches_find(envs0, environment_alias@, Some(envs0[i as int]));
        }
        let updated: Environment = match &self.environments.environments[i] {
            Environment::CheckoutEnvironment(_) => {
                return Err(Error::UnsupportedOperation);
            },
            Environment::BinaryEnvironment(b) => {
                let mut nb = b.clone();
                nb.pinned_version = new_version;
                Environment::BinaryEnvironment(nb)
            },
        };
        let remove_plan = self.environments.environments[i].remove_symlinks_plan();
        let create_plan = match updated.create_symlinks_plan(&self.cache) {
            Ok(plan) => plan,
            Err(_) => {
                proof {
                    assert(spec_replace_refused(self@, environment_alias@, new_version@));
                }
                return Err(Error::NotFound);
            },
        };
        proof {
            // the wiring plan resolved, so no managed binary is missing
            assert(!crate::environment::spec_missing_binary(
                self@.cache.data.installed_releases,
                new_version@,
                updated@->BinaryEnvironment_0.metadata.client_only,
            ));
            assert(!spec_replace_refused(self@, environment_alias@, new_version@));
            assert(!spec_alias_is_checkout(self@, environment_alias@));
        }
        self.environments.environments.set(i, updated.clone());
        let new_active: bool = match &self.active_environment {
            Some(active) => crate::strutil::str_eq(
                active.metadata().alias.as_str(),
                environment_alias,
            ),
            None => false,
        };
        if new_active {
            self.active_environment = Some(updated);
        }
        proof {
            let envs1 = self@.environments;
            assert(envs1 =~= envs0.update(i as int, self.environments.environments@[i as int]@));
            assert forall|a: int, b: int|
                0 <= a < b < envs1.len() implies spec_metadata(#[trigger] envs1[a]).alias
                != spec_metadata(#[trigger] envs1[b]).alias by {
                assert(spec_metadata(envs0[a]).alias != spec_metadata(envs0[b]).alias);
                assert(spec_metadata(envs1[a]).alias == spec_metadata(envs0[a]).alias);
                assert(spec_metadata(envs1[b]).alias == spec_metadata(envs0[b]).alias);
            }
            match self@.active_environment {
                Some(a) => {
                    if new_active {
                        assert(envs1[i as int] == a);
                    } else {
                        let k = choose|k: int|
                            0 <= k < envs0.len() && #[trigger] envs0[k] == old(
                                self,
                            )@.active_environment->0;
                        if k == i as int {
                            assert(spec_metadata(envs0[k]).alias == environment_alias@);
                            assert(false);
                        }
                        assert(envs1[k] == a);
                    }
                },
                None => {},
            }
            assert(final(self)@ == (PenvV {
                environments: final(self)@.environments,
                active_environment: final(self)@.active_environment,
                ..old(self)@
            }));
            let new_env = EnvironmentV::BinaryEnvironment(
                crate::environment::BinaryEnvironmentV {
                    pinned_version: new_version@,
                    ..envs0[i as int]->BinaryEnvironment_0
                },
            );
            assert(updated@ =~= new_env);
            assert(envs1 =~= envs0.update(i as int, new_env));
            assert(spec_replace_post(
                old(self)@,
                final(self)@,
                environment_alias@,
                new_version@,
                remove_plan@.map_values(|op: LinkOp| op@),
                create_plan@.map_values(|op: LinkOp| op@),
            ));
        }
        Ok((remove_plan, create_plan))
    }
}

/// Activating one environment and then another leaves the shared `bin`
/// link pointing only at the second one: the stale link is removed before
/// the new one is made, no other link is touched, and nothing dangles.
pub proof fn lemma_activate_switch(
    m: crate::links::LinkMap,
    home: Seq<char>,
    first_root: Seq<char>,
    second_root: Seq<char>,
)
    ensures
        ({
            let m1 = crate::links::apply_ops(m, spec_activate_plan(home, first_root));
            let m2 = crate::links::apply_ops(m1, spec_activate_plan(home, second_root));
            let link = home + "/"@ + "bin"@;
            &&& m2.dom().contains(link)
            &&& m2[link] == second_root + "/"@ + "bin"@
            &&& forall|k: Seq<char>|
                k != link ==> (#[trigger] m2.dom().contains(k) == m.dom().contains(k) && (
                m.dom().contains(k) ==> m2[k] == m[k]))
        }),
{
    let link = home + "/"@ + "bin"@;
    crate::links::lemma_repoint(m, link, first_root + "/"@ + "bin"@);
    let m1 = crate::links::apply_ops(m, spec_activate_plan(home, first_root));
    crate::links::lemma_repoint(m1, link, second_root + "/"@ + "bin"@);
}

/// What a successful re-pin did: the named environment (a binary one)
/// has its pin replaced in place with all other fields kept, the active
/// slot follows when it held that environment, nothing else changes, and
/// the plans first unlink the environment's managed binaries and then
/// wire the new version's cached copies.
pub open spec fn spec_replace_post(
    old_p: PenvV,
    new_p: PenvV,
    alias: Seq<char>,
    new_version: crate::version::VersionV,
    remove_ops: Seq<LinkOpV>,
    create_ops: Seq<LinkOpV>,
) -> bool {
    exists|i: int|
        #![trigger old_p.environments[i]]
        {
            let envs = old_p.environments;
            let old_env = envs[i];
            let new_env = EnvironmentV::BinaryEnvironment(
                crate::environment::BinaryEnvironmentV {
                    pinned_version: new_version,
                    ..old_env->BinaryEnvironment_0
                },
            );
            &&& 0 <= i < envs.len()
            &&& spec_metadata(envs[i]).alias == alias
            &&& old_env is BinaryEnvironment
            &&& new_p.environments == envs.update(i, new_env)
            &&& new_p == (PenvV {
                environments: new_p.environments,
                active_environment: new_p.active_environment,
                ..old_p
            })
            &&& new_p.active_environment == (match old_p.active_environment {
                Some(a) => if spec_metadata(a).alias == alias {
                    Some(new_env)
                } else {
                    Some(a)
                },
                None => None,
            })
            &&& crate::environment::spec_symlink_plan_shape(
                new_env,
                create_ops,
                old_p.cache.data.installed_releases,
            )
            &&& remove_ops == crate::environment::spec_remove_plan(
                spec_metadata(old_env).root_dir,
                spec_metadata(old_env).client_only,
            )
        }
}

/// The alias names a checkout environment, which has no version to
/// replace.
pub open spec fn spec_alias_is_checkout(p: PenvV, alias: Seq<char>) -> bool {
    spec_find_env(p.environments, alias) matches Some(env) && env is CheckoutEnvironment
}

/// A re-pin to `new_version` cannot proceed: the alias is absent, or it
/// names a binary environment whose managed binaries for `new_version`
/// are not all in the cache.
pub open spec fn spec_replace_refused(
    p: PenvV,
    alias: Seq<char>,
    new_version: crate::version::VersionV,
) -> bool {
    ||| !spec_has_alias(p.environments, alias)
    ||| (spec_find_env(p.environments, alias) matches Some(env) && env matches
        EnvironmentV::BinaryEnvironment(b) && crate::environment::spec_missing_binary(
        p.cache.data.installed_releases,
        new_version,
        b.metadata.client_only,
    ))
}

/// The best installed match of the named environment's own requirement
/// carries exactly the pinned version: there is nothing to upgrade to.
pub open spec fn spec_upgrade_current(p: PenvV, alias: Seq<char>) -> bool {
    spec_find_env(p.environments, alias) matches Some(env) && env matches
        EnvironmentV::BinaryEnvironment(b) && exists|rel: crate::release::InstalledReleaseV|
        #[trigger] crate::cache::spec_best_match(
            p.cache.data.installed_releases,
            crate::version::RepoOrVersionReqV::VersionReqOrLatest(b.version_requirement),
            Some(rel),
        ) && crate::cache::binary_version(rel) == Some(b.pinned_version)
}

/// No installed release matches the named environment's own requirement.
pub open spec fn spec_upgrade_no_match(p: PenvV, alias: Seq<char>) -> bool {
    spec_find_env(p.environments, alias) matches Some(env) && env matches
        EnvironmentV::BinaryEnvironment(b) && crate::cache::spec_best_match(
        p.cache.data.installed_releases,
        crate::version::RepoOrVersionReqV::VersionReqOrLatest(b.version_requirement),
        None,
    )
}

/// `rel` is a best installed match of the named environment's own
/// requirement, and is not the version already pinned.
pub open spec fn spec_upgrade_newer(
    p: PenvV,
    alias: Seq<char>,
    rel: crate::release::InstalledReleaseV,
) -> bool {
    spec_find_env(p.environments, alias) matches Some(env) && env matches
        EnvironmentV::BinaryEnvironment(b) && crate::cache::spec_best_match(
        p.cache.data.installed_releases,
        crate::version::RepoOrVersionReqV::VersionReqOrLatest(b.version_requirement),
        Some(rel),
    ) && crate::cache::binary_version(rel) is Some && crate::cache::binary_version(rel)->0
        != b.pinned_version
}

/// An upgrade found `rel` to move to, but the cache is missing one of
/// its managed binaries.
pub open spec fn spec_upgrade_blocked(
    p: PenvV,
    alias: Seq<char>,
    rel: crate::release::InstalledReleaseV,
) -> bool {
    &&& spec_upgrade_newer(p, alias, rel)
    &&& spec_find_env(p.environments, alias) matches Some(env) && env matches
        EnvironmentV::BinaryEnvironment(b) && crate::environment::spec_missing_binary(
        p.cache.data.installed_releases,
        crate::cache::binary_version(rel)->0,
        b.metadata.client_only,
    )
}

/// The outcome of an upgrade request.
pub enum UpgradeOutcome {
    /// The pinned version already is the newest installed match.
    AlreadyCurrent,
    /// The environment was re-pinned; the plans unlink the old binaries
    /// and wire the new ones.
    Replaced { remove_plan: Vec<LinkOp>, create_plan: Vec<LinkOp> },
}

impl Penv {
    /// The active environment's client state directory.
    pub fn pcli_home(&self) -> (r: Option<String>)
        ensures
            match r {
                Some(p) => self@.active_environment matches Some(e) && p@ == spec_metadata(
                    e,
                ).root_dir + "/"@ + "pcli"@,
                None => self@.active_environment is None,
            },
    {
        match &self.active_environment {
            Some(env) => Some(path_join(env.path().as_str(), "pcli")),
            None => None,
        }
    }

    /// The active environment's view-daemon state directory.
    pub fn pclientd_home(&self) -> (r: Option<String>)
        ensures
            match r {
                Some(p) => self@.active_environment matches Some(e) && p@ == spec_metadata(
                    e,
                ).root_dir + "/"@ + "pclientd"@,
                None => self@.active_environment is None,
            },
    {
        match &self.active_environment {
            Some(env) => Some(path_join(env.path().as_str(), "pclientd")),
            None => None,
        }
    }

    /// The active environment's full-node state directory.
    pub fn pd_home(&self) -> (r: Option<String>)
        ensures
            match r {
                Some(p) => self@.active_environment matches Some(e) && p@ == spec_metadata(
                    e,
                ).root_dir + "/"@ + "network_data"@ + "/"@ + "node0"@ + "/"@ + "pd"@,
                None => self@.active_environment is None,
            },
    {
        match &self.active_environment {
            Some(env) => {
                let a = path_join(env.path().as_str(), "network_data");
                let b = path_join(a.as_str(), "node0");
                Some(path_join(b.as_str(), "pd"))
            },
            None => None,
        }
    }

    /// The active environment's consensus-engine state directory.
    pub fn cometbft_home(&self) -> (r: Option<String>)
        ensures
            match r {
                Some(p) => self@.active_environment matches Some(e) && p@ == spec_metadata(
                    e,
                ).root_dir + "/"@ + "network_data"@ + "/"@ + "node0"@ + "/"@ + "cometbft"@,
                None => self@.active_environment is None,
            },
    {
        match &self.active_environment {
            Some(env) => {
                let a = path_join(env.path().as_str(), "network_data");
                let b = path_join(a.as_str(), "node0");
                Some(path_join(b.as_str(), "cometbft"))
            },
            None => None,
        }
    }

    /// Selects a repository for installation: rejected with a conflict
    /// when a checkout of the same URL is already installed; otherwise the
    /// staging record, whose clone will live under the URL-keyed checkout
    /// directory.
    pub fn plan_repo_install(&self, repo_url: &str) -> (r: Result<
        crate::release::InstallableRelease,
        Error,
    >)
        ensures
            r matches Ok(rel) ==> {
                &&& crate::cache::spec_lookup(
                    self@.cache.data.installed_releases,
                    crate::version::RepoOrVersionV::Repo(repo_url@),
                    None,
                )
                &&& rel@ == crate::release::InstallableReleaseV::GitRepo(
                    crate::release::RepoMetadataV {
                        name: repo_url@,
                        url: repo_url@,
                        checkout_dir: crate::digest::spec_checkout_dir_name(repo_url@),
                    },
                )
            },
            r matches Err(e) ==> e is Conflict && exists|rel: crate::release::InstalledReleaseV|
                #[trigger] crate::cache::spec_lookup(
                    self@.cache.data.installed_releases,
                    crate::version::RepoOrVersionV::Repo(repo_url@),
                    Some(rel),
                ),
    {
        let spec = crate::version::RepoOrVersion::Repo(repo_url.to_owned());
        match self.cache.get_installed_release(&spec) {
            Some(found) => {
                proof {
                    assert(crate::cache::spec_lookup(
                        self@.cache.data.installed_releases,
                        crate::version::RepoOrVersionV::Repo(repo_url@),
                        Some(found@),
                    ));
                }
                Err(Error::Conflict)
            },
            None => {
                let dir = crate::digest::checkout_dir_name(repo_url);
                let rel = crate::release::InstallableRelease::GitRepo(
                    crate::release::RepoMetadata {
                        name: repo_url.to_owned(),
                        url: repo_url.to_owned(),
                        checkout_dir: dir,
                    },
                );
                proof {
                    assert(rel@ =~= crate::release::InstallableReleaseV::GitRepo(
                        crate::release::RepoMetadataV {
                            name: repo_url@,
                            url: repo_url@,
                            checkout_dir: crate::digest::spec_checkout_dir_name(repo_url@),
                        },
                    ));
                }
                Ok(rel)
            },
        }
    }

    /// Re-pins the named environment to the newest installed release its
    /// own requirement matches: a no-op exactly when the best installed
    /// match already is the pin, otherwise a replacement.  Refused
    /// exactly when the alias is absent or names a checkout, nothing
    /// installed matches, or the found release's binaries are not all
    /// cached.
    pub fn upgrade_environment(&mut self, environment_alias: &str) -> (r: Result<
        UpgradeOutcome,
        Error,
    >)
        requires
            old(self).wf(),
        ensures
            final(self).wf(),
            r matches Err(e) ==> final(self)@ == old(self)@ && (e is NotFound
                || e is UnsupportedOperation),
            r matches Err(e) ==> (e is UnsupportedOperation <==> spec_alias_is_checkout(
                old(self)@,
                environment_alias@,
            )),
            r matches Ok(o) ==> (o is AlreadyCurrent <==> spec_upgrade_current(
                old(self)@,
                environment_alias@,
            )),
            r matches Ok(o) ==> (o is AlreadyCurrent ==> final(self)@ == old(self)@),
            r matches Ok(o) ==> (o matches UpgradeOutcome::Replaced {
                remove_plan,
                create_plan,
            } ==> exists|rel: crate::release::InstalledReleaseV|
                #[trigger] spec_upgrade_newer(old(self)@, environment_alias@, rel)
                    && spec_replace_post(
                    old(self)@,
                    final(self)@,
                    environment_alias@,
                    crate::cache::binary_version(rel)->0,
                    remove_plan@.map_values(|op: LinkOp| op@),
                    create_plan@.map_values(|op: LinkOp| op@),
                )),
            r is Err <==> (!spec_has_alias(old(self)@.environments, environment_alias@)
                || spec_alias_is_checkout(old(self)@, environment_alias@)
                || spec_upgrade_no_match(old(self)@, environment_alias@) || (exists|rel:
                crate::release::InstalledReleaseV|
                #[trigger] spec_upgrade_blocked(old(self)@, environment_alias@, rel))),
    {
        let ghost envs0 = self@.environments;
        let ghost rels = self@.cache.data.installed_releases;
        let i = match self.environments.index_of(environment_alias) {
            Some(i) => i,
            None => {
                return Err(Error::NotFound);
            },
        };
        proof {
            assert(envs0[i as int] == self.environments.environments@[i as int]@);
            lemma_get_matches_find(envs0, environment_alias@, Some(envs0[i as int]));
        }
        let (req, pinned) = match &self.environments.environments[i] {
            Environment::CheckoutEnvironment(_) => {
                return Err(Error::UnsupportedOperation);
            },
            Environment::BinaryEnvironment(b) => (
                b.version_requirement.clone(),
                b.pinned_version.clone(),
            ),
        };
        let ghost reqv = crate::version::RepoOrVersionReqV::VersionReqOrLatest(req@);
        let wanted = crate::version::RepoOrVersionReq::VersionReqOrLatest(req);
        let best = match self.cache.find_best_match(&wanted) {
            Some(rel) => rel,
            None => {
                proof {
                    assert(spec_upgrade_no_match(self@, environment_alias@));
                }
                return Err(Error::NotFound);
            },
        };
        let ghost bestv = best@;
        proof {
            // a version requirement only ever matches a binary record
            let bi = choose|bi: int| 0 <= bi < rels.len() && #[trigger] rels[bi] == bestv;
            assert(crate::cache::spec_installed_req_matches(bestv, reqv, rels));
            assert(crate::cache::binary_version(bestv) is Some);
        }
        match best {
            crate::release::InstalledRelease::GitCheckout(_) => {
                proof {
                    assert(false);
                }
                Err(Error::NotFound)
            },
            crate::release::InstalledRelease::Binary(b) => {
                let newer = crate::version::version_lt(&pinned, &b.version);
                let older = crate::version::version_lt(&b.version, &pinned);
                if !newer && !older {
                    proof {
                        // neither strictly compares, so the versions are equal
                        assert(b.version@ == pinned@);
                        assert(spec_upgrade_current(self@, environment_alias@));
                        lemma_upgrade_target_unique(self@, environment_alias@, bestv);
                    }
                    Ok(UpgradeOutcome::AlreadyCurrent)
                } else {
                    proof {
                        assert(b.version@ != pinned@);
                        assert(spec_upgrade_newer(self@, environment_alias@, bestv));
                        lemma_upgrade_target_unique(self@, environment_alias@, bestv);
                    }
                    let ghost before = self@;
                    match self.replace_version(environment_alias, b.version) {
                        Ok((remove_plan, create_plan)) => {
                            proof {
                                assert(!spec_replace_refused(before, environment_alias@, b.version@));
                                assert(!(exists|rel: crate::release::InstalledReleaseV|
                                    #[trigger] spec_upgrade_blocked(
                                        before,
                                        environment_alias@,
                                        rel,
                                    ))) by {
                                    if exists|rel: crate::release::InstalledReleaseV|
                                        #[trigger] spec_upgrade_blocked(
                                            before,
                                            environment_alias@,
                                            rel,
                                        ) {
                                        let rel = choose|
                                            rel: crate::release::InstalledReleaseV,
                                        | #[trigger] spec_upgrade_blocked(
                                            before,
                                            environment_alias@,
                                            rel,
                                        );
                                    }
                                }
                            }
                            Ok(UpgradeOutcome::Replaced { remove_plan, create_plan })
                        },
                        Err(e) => {
                            proof {
                                assert(spec_replace_refused(before, environment_alias@, b.version@));
                                assert(spec_upgrade_blocked(before, environment_alias@, bestv));
                            }
                            Err(e)
                        },
                    }
                }
            },
        }
    }
}

/// Every best match of the named environment's requirement ties with any
/// other: their versions are equal.
proof fn lemma_upgrade_target_unique(
    p: PenvV,
    alias: Seq<char>,
    witness: crate::release::InstalledReleaseV,
)
    requires
        crate::version::version_order_laws(),
        spec_find_env(p.environments, alias) matches Some(env) && env is BinaryEnvironment,
        crate::cache::spec_best_match(
            p.cache.data.installed_releases,
            crate::version::RepoOrVersionReqV::VersionReqOrLatest(
                spec_find_env(p.environments, alias)->0->BinaryEnvironment_0.version_requirement,
            ),
            Some(witness),
        ),
        crate::cache::binary_version(witness) is Some,
    ensures
        forall|rel: crate::release::InstalledReleaseV|
            #[trigger] crate::cache::spec_best_match(
                p.cache.data.installed_releases,
                crate::version::RepoOrVersionReqV::VersionReqOrLatest(
                    spec_find_env(
                        p.environments,
                        alias,
                    )->0->BinaryEnvironment_0.version_requirement,
                ),
                Some(rel),
            ) && crate::cache::binary_version(rel) is Some ==> crate::cache::binary_version(
                rel,
            )->0 == crate::cache::binary_version(witness)->0,
{
    let rels = p.cache.data.installed_releases;
    let reqv = crate::version::RepoOrVersionReqV::VersionReqOrLatest(
        spec_find_env(p.environments, alias)->0->BinaryEnvironment_0.version_requirement,
    );
    assert forall|rel: crate::release::InstalledReleaseV|
        #[trigger] crate::cache::spec_best_match(rels, reqv, Some(rel))
            && crate::cache::binary_version(rel) is Some implies crate::cache::binary_version(
        rel,
    )->0 == crate::cache::binary_version(witness)->0 by {
        crate::cache::lemma_best_match_version_unique(rels, reqv, rel, witness);
    }
}

/// Two distinct positions of an alias-unique filtered list still hold
/// distinct aliases.
proof fn lemma_filter_distinct_aliases(
    envs: Seq<EnvironmentV>,
    pred: spec_fn(EnvironmentV) -> bool,
    a: int,
    b: int,
)
    requires
        aliases_unique(envs),
        0 <= a < b < envs.filter(pred).len(),
    ensures
        spec_metadata(envs.filter(pred)[a]).alias != spec_metadata(envs.filter(pred)[b]).alias,
    decreases envs.len(),
{
    reveal(Seq::filter);
    if envs.len() > 0 {
        let rest = envs.drop_last();
        let kept = envs.filter(pred);
        assert(aliases_unique(rest)) by {
            assert forall|i: int, j: int|
                0 <= i < j < rest.len() implies spec_metadata(#[trigger] rest[i]).alias
                != spec_metadata(#[trigger] rest[j]).alias by {
                assert(rest[i] == envs[i] && rest[j] == envs[j]);
                assert(spec_metadata(envs[i]).alias != spec_metadata(envs[j]).alias);
            }
        }
        if pred(envs.last()) && b == kept.len() - 1 {
            let front = rest.filter(pred);
            assert(kept == front.push(envs.last()));
            assert(kept[a] == front[a]);
            assert(front.contains(front[a]));
            rest.lemma_filter_contains_rev(pred, front[a]);
            let i = choose|i: int| 0 <= i < rest.len() && rest[i] == front[a];
            assert(envs[i] == front[a]);
            assert(spec_metadata(envs[i]).alias != spec_metadata(envs[envs.len() - 1]).alias);
            assert(kept[b] == envs[envs.len() - 1]);
        } else {
            lemma_filter_distinct_aliases(rest, pred, a, b);
            assert(envs.filter(pred)[a] == rest.filter(pred)[a]);
            assert(envs.filter(pred)[b] == rest.filter(pred)[b]);
        }
    }
}

/// A found environment with first-match evidence equals `spec_find_env`.
proof fn lemma_get_matches_find(
    envs: Seq<EnvironmentV>,
    alias: Seq<char>,
    found: Option<EnvironmentV>,
)
    requires
        aliases_unique(envs),
        match found {
            Some(e) => spec_has_alias(envs, alias) && exists|i: int|
                0 <= i < envs.len() && #[trigger] envs[i] == e && spec_metadata(e).alias == alias,
            None => !spec_has_alias(envs, alias),
        },
    ensures
        found == spec_find_env(envs, alias),
{
    match found {
        None => {},
        Some(e) => {
            let k = choose|i: int|
                0 <= i < envs.len() && #[trigger] envs[i] == e && spec_metadata(e).alias == alias;
            lemma_first_alias_exists(envs, alias, k);
            let i0 = choose|i: int|
                {
                    &&& 0 <= i < envs.len()
                    &&& spec_metadata(#[trigger] envs[i]).alias == alias
                    &&& forall|j: int|
                        0 <= j < i ==> spec_metadata(#[trigger] envs[j]).alias != alias
                };
            if i0 < k {
                assert(spec_metadata(envs[i0]).alias != spec_metadata(envs[k]).alias);
                assert(false);
            } else if k < i0 {
                assert(false);
            }
            assert(spec_find_env(envs, alias) == Some(envs[i0]));
        },
    }
}

/// Whether all aliases are distinct.
fn aliases_unique_check(envs: &Vec<Environment>) -> (r: bool)
    ensures
        r == aliases_unique(envs@.map_values(|e: Environment| e@)),
{
    let ghost view = envs@.map_values(|e: Environment| e@);
    let n = envs.len();
    let mut i: usize = 0;
    while i < n
        invariant
            n == envs@.len(),
            view == envs@.map_values(|e: Environment| e@),
            0 <= i <= n,
            forall|a: int, b: int|
                0 <= a < b < view.len() && a < i ==> spec_metadata(#[trigger] view[a]).alias
                    != spec_metadata(#[trigger] view[b]).alias,
        decreases n - i,
    {
        let mut j: usize = i + 1;
        while j < n
            invariant
                n == envs@.len(),
                view == envs@.map_values(|e: Environment| e@),
                0 <= i < j <= n,
                forall|a: int, b: int|
                    0 <= a < b < view.len() && a < i ==> spec_metadata(#[trigger] view[a]).alias
                        != spec_metadata(#[trigger] view[b]).alias,
                forall|b: int|
                    i < b < j ==> spec_metadata(view[i as int]).alias != spec_metadata(
                        #[trigger] view[b],
                    ).alias,
            decreases n - j,
        {
            proof {
                assert(view[i as int] == envs@[i as int]@);
                assert(view[j as int] == envs@[j as int]@);
            }
            let a = envs[i].metadata();
            let b = envs[j].metadata();
            if a.alias == b.alias {
                return false;
            }
            j = j + 1;
        }
        i = i + 1;
    }
    true
}

/// A deep copy of an environment list.
fn clone_environments(envs: &Vec<Environment>) -> (r: Vec<Environment>)
    ensures
        r@.map_values(|e: Environment| e@) == envs@.map_values(|e: Environment| e@),
{
    let r = envs.clone();
    proof {
        assert forall|i: int| 0 <= i < r@.len() implies r@[i]@ == envs@[i]@ by {
            assert(cloned::<Environment>(envs@[i], r@[i]));
        }
        assert(r@.map_values(|e: Environment| e@) =~= envs@.map_values(|e: Environment| e@));
    }
    r
}

/// A deep copy of a record list.
fn clone_records(rels: &Vec<crate::release::InstalledRelease>) -> (r: Vec<
    crate::release::InstalledRelease,
>)
    ensures
        r@.map_values(|x: crate::release::InstalledRelease| x@) == rels@.map_values(
            |x: crate::release::InstalledRelease| x@,
        ),
{
    let r = rels.clone();
    proof {
        assert forall|i: int| 0 <= i < r@.len() implies r@[i]@ == rels@[i]@ by {
            assert(cloned::<crate::release::InstalledRelease>(rels@[i], r@[i]));
        }
        assert(r@.map_values(|x: crate::release::InstalledRelease| x@) =~= rels@.map_values(
            |x: crate::release::InstalledRelease| x@,
        ));
    }
    r
}

} // verus!
