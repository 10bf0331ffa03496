use crate::cache::{spec_binary_lookup, Cache};
use crate::errors::Error;
use crate::links::{all_creates, LinkOp, LinkOpV};
use crate::release::{CheckoutMetadata, CheckoutMetadataV};
use crate::strutil::path_join;
use crate::version::{
    req_matches, RepoOrVersion, RepoOrVersionV, Version, VersionReqOrLatest, VersionReqOrLatestV,
    VersionV,
};
use vstd::prelude::*;

verus! {

/// Mathematical value of [`EnvironmentMetadata`].
pub struct EnvironmentMetadataV {
    pub alias: Seq<char>,
    pub grpc_url: Seq<char>,
    pub root_dir: Seq<char>,
    pub pd_join_url: Seq<char>,
    pub client_only: bool,
    pub generate_network: bool,
}

/// Fields common to all environment kinds.
pub struct EnvironmentMetadata {
    /// The environment's unique name.
    pub alias: String,
    /// The GRPC URL its client connects to.
    pub grpc_url: String,
    /// The directory the environment owns.
    pub root_dir: String,
    /// The URL used to join an existing network.
    pub pd_join_url: String,
    /// Whether no full node is set up.
    pub client_only: bool,
    /// Whether a dev network is generated instead of joining one.
    pub generate_network: bool,
}

impl View for EnvironmentMetadata {
    type V = EnvironmentMetadataV;

    open spec fn view(&self) -> EnvironmentMetadataV {
        EnvironmentMetadataV {
            alias: self.alias@,
            grpc_url: self.grpc_url@,
            root_dir: self.root_dir@,
            pd_join_url: self.pd_join_url@,
            client_only: self.client_only,
            generate_network: self.generate_network,
        }
    }
}

impl Clone for EnvironmentMetadata {
    fn clone(&self) -> (r: Self)
        ensures
            r@ == self@,
    {
        EnvironmentMetadata {
            alias: self.alias.clone(),
            grpc_url: self.grpc_url.clone(),
            root_dir: self.root_dir.clone(),
            pd_join_url: self.pd_join_url.clone(),
            client_only: self.client_only,
            generate_network: self.generate_network,
        }
    }
}

/// Mathematical value of [`BinaryEnvironment`].
pub struct BinaryEnvironmentV {
    pub metadata: EnvironmentMetadataV,
    pub version_requirement: VersionReqOrLatestV,
    pub pinned_version: VersionV,
}

/// An environment backed by an installed prebuilt release.
pub struct BinaryEnvironment {
    /// Fields common to all environment kinds.
    pub metadata: EnvironmentMetadata,
    /// The requirement the environment was created with.
    pub version_requirement: VersionReqOrLatest,
    /// The exact installed version the environment is locked to.
    pub pinned_version: Version,
}

impl View for BinaryEnvironment {
    type V = BinaryEnvironmentV;

    open spec fn view(&self) -> BinaryEnvironmentV {
        BinaryEnvironmentV {
            metadata: self.metadata@,
            version_requirement: self.version_requirement@,
            pinned_version: self.pinned_version@,
        }
    }
}

impl Clone for BinaryEnvironment {
    fn clone(&self) -> (r: Self)
        ensures
            r@ == self@,
    {
        BinaryEnvironment {
            metadata: self.metadata.clone(),
            version_requirement: self.version_requirement.clone(),
            pinned_version: self.pinned_version.clone(),
        }
    }
}

/// Mathematical value of [`CheckoutEnvironment`].
pub struct CheckoutEnvironmentV {
    pub metadata: EnvironmentMetadataV,
    pub git_checkout: CheckoutMetadataV,
}

/// An environment backed by a repository checkout.
pub struct CheckoutEnvironment {
    /// Fields common to all environment kinds.
    pub metadata: EnvironmentMetadata,
    /// The cache record of the checkout the environment copies.
    pub git_checkout: CheckoutMetadata,
}

impl View for CheckoutEnvironment {
    type V = CheckoutEnvironmentV;

    open spec fn view(&self) -> CheckoutEnvironmentV {
        CheckoutEnvironmentV { metadata: self.metadata@, git_checkout: self.git_checkout@ }
    }
}

impl Clone for CheckoutEnvironment {
    fn clone(&self) -> (r: Self)
        ensures
            r@ == self@,
    {
        CheckoutEnvironment {
            metadata: self.metadata.clone(),
            git_checkout: self.git_checkout.clone(),
        }
    }
}

/// Mathematical value of [`Environment`].
pub enum EnvironmentV {
    CheckoutEnvironment(CheckoutEnvironmentV),
    BinaryEnvironment(BinaryEnvironmentV),
}

/// A named runnable configuration, pinned to one installed release.
pub enum Environment {
    CheckoutEnvironment(CheckoutEnvironment),
    BinaryEnvironment(BinaryEnvironment),
}

impl View for Environment {
    type V = EnvironmentV;

    open spec fn view(&self) -> EnvironmentV {
        match self {
            Environment::CheckoutEnvironment(e) => EnvironmentV::CheckoutEnvironment(e@),
            Environment::BinaryEnvironment(e) => EnvironmentV::BinaryEnvironment(e@),
        }
    }
}

impl Clone for Environment {
    fn clone(&self) -> (r: Self)
        ensures
            r@ == self@,
    {
        match self {
            Environment::CheckoutEnvironment(e) => Environment::CheckoutEnvironment(e.clone()),
            Environment::BinaryEnvironment(e) => Environment::BinaryEnvironment(e.clone()),
        }
    }
}

/// The metadata of either kind of environment.
pub open spec fn spec_metadata(env: EnvironmentV) -> EnvironmentMetadataV {
    match env {
        EnvironmentV::CheckoutEnvironment(e) => e.metadata,
        EnvironmentV::BinaryEnvironment(e) => e.metadata,
    }
}

/// Whether an installed-release specifier satisfies an environment:
/// a binary environment accepts a version its requirement contains
/// (a `latest` requirement accepts exactly its pinned version), and
/// never a repository; a checkout environment accepts exactly its own
/// repository URL, and never a version.
pub open spec fn spec_satisfied_by(env: EnvironmentV, spec: RepoOrVersionV) -> bool {
    match env {
        EnvironmentV::CheckoutEnvironment(c) => match spec {
            RepoOrVersionV::Repo(url) => c.git_checkout.url == url,
            RepoOrVersionV::Version(_) => false,
        },
        EnvironmentV::BinaryEnvironment(b) => match spec {
            RepoOrVersionV::Repo(_) => false,
            RepoOrVersionV::Version(v) => match b.version_requirement {
                VersionReqOrLatestV::Latest => v == b.pinned_version,
                VersionReqOrLatestV::VersionReq(s) => req_matches(s, v),
            },
        },
    }
}

impl Environment {
    /// The directory the environment owns.
    pub fn path(&self) -> (r: &String)
        ensures
            r@ == spec_metadata(self@).root_dir,
    {
        match self {
            Environment::CheckoutEnvironment(e) => &e.metadata.root_dir,
            Environment::BinaryEnvironment(e) => &e.metadata.root_dir,
        }
    }

    /// The environment's shared metadata.
    pub fn metadata(&self) -> (r: &EnvironmentMetadata)
        ensures
            r@ == spec_metadata(self@),
    {
        match self {
            Environment::CheckoutEnvironment(e) => &e.metadata,
            Environment::BinaryEnvironment(e) => &e.metadata,
        }
    }

    /// Where the environment's client binary is wired.
    pub fn pcli_path(&self) -> (r: String)
        ensures
            r@ == spec_metadata(self@).root_dir + "/"@ + "bin/pcli"@,
    {
        path_join(self.path().as_str(), "bin/pcli")
    }

    /// Where the environment's view-daemon binary is wired.
    pub fn pclientd_path(&self) -> (r: String)
        ensures
            r@ == spec_metadata(self@).root_dir + "/"@ + "bin/pclientd"@,
    {
        path_join(self.path().as_str(), "bin/pclientd")
    }

    /// Where the environment's full-node binary is wired.
    pub fn pd_path(&self) -> (r: String)
        ensures
            r@ == spec_metadata(self@).root_dir + "/"@ + "bin/pd"@,
    {
        path_join(self.path().as_str(), "bin/pd")
    }

    /// Total over every combination of environment kind and specifier
    /// kind; see [`spec_satisfied_by`].
    pub fn satisfied_by_version(&self, version: &RepoOrVersion) -> (r: bool)
        ensures
            r == spec_satisfied_by(self@, version@),
    {
        match self {
            Environment::CheckoutEnvironment(c) => match version {
                RepoOrVersion::Repo(url) => {
                    let e = c.git_checkout.url == *url;
                    e
                },
                RepoOrVersion::Version(_) => false,
            },
            Environment::BinaryEnvironment(b) => match version {
                RepoOrVersion::Repo(_) => false,
                RepoOrVersion::Version(v) => match &b.version_requirement {
                    VersionReqOrLatest::Latest => v.same_version(&b.pinned_version),
                    VersionReqOrLatest::VersionReq(req) => req.matches(v),
                },
            },
        }
    }
}

/// The plan that unlinks a binary environment's managed binaries: one
/// unconditional removal per wired link.
pub open spec fn spec_remove_plan(root: Seq<char>, client_only: bool) -> Seq<LinkOpV> {
    if client_only {
        seq![
            LinkOpV::Remove { link: root + "/"@ + "bin/pcli"@ },
            LinkOpV::Remove { link: root + "/"@ + "bin/pclientd"@ },
        ]
    } else {
        seq![
            LinkOpV::Remove { link: root + "/"@ + "bin/pcli"@ },
            LinkOpV::Remove { link: root + "/"@ + "bin/pclientd"@ },
            LinkOpV::Remove { link: root + "/"@ + "bin/pd"@ },
        ]
    }
}

/// The cache is missing a managed binary of this version: wiring (and so
/// re-pinning) cannot proceed.
pub open spec fn spec_missing_binary(
    rels: Seq<crate::release::InstalledReleaseV>,
    v: VersionV,
    client_only: bool,
) -> bool {
    ||| spec_binary_lookup(rels, v, "pcli"@, None)
    ||| spec_binary_lookup(rels, v, "pclientd"@, None)
    ||| (!client_only && spec_binary_lookup(rels, v, "pd"@, None))
}

/// The link plan of a binary environment: one creation per managed
/// binary, each from its cache path, the full-node binary only when the
/// environment is not client-only.
pub open spec fn spec_symlink_plan_shape(
    env: EnvironmentV,
    plan: Seq<LinkOpV>,
    rels: Seq<crate::release::InstalledReleaseV>,
) -> bool {
    match env {
        EnvironmentV::CheckoutEnvironment(_) => plan.len() == 0,
        EnvironmentV::BinaryEnvironment(b) => {
            let root = b.metadata.root_dir;
            let v = b.pinned_version;
            &&& all_creates(plan)
            &&& plan.len() == (if b.metadata.client_only {
                2int
            } else {
                3int
            })
            &&& plan[0] matches LinkOpV::Ensure { link, target } && link == root + "/"@
                + "bin/pcli"@ && spec_binary_lookup(rels, v, "pcli"@, Some(target))
            &&& plan[1] matches LinkOpV::Ensure { link, target } && link == root + "/"@
                + "bin/pclientd"@ && spec_binary_lookup(rels, v, "pclientd"@, Some(target))
            &&& !b.metadata.client_only ==> (plan[2] matches LinkOpV::Ensure { link, target }
                && link == root + "/"@ + "bin/pd"@ && spec_binary_lookup(
                rels,
                v,
                "pd"@,
                Some(target),
            ))
        },
    }
}

impl Environment {
    /// The plan that wires the environment's managed binaries to their
    /// cached copies.  A checkout environment needs none (its wrapper
    /// scripts serve the role); a binary environment gets one create-or-
    /// skip link per managed binary, and the call fails with `NotFound`
    /// when the pinned version's binaries are not all in the cache.
    pub fn create_symlinks_plan(&self, cache: &Cache) -> (r: Result<Vec<LinkOp>, Error>)
        ensures
            r is Err <==> (self@ matches EnvironmentV::BinaryEnvironment(b) && spec_missing_binary(
                cache@.data.installed_releases,
                b.pinned_version,
                b.metadata.client_only,
            )),
            r matches Ok(plan) ==> spec_symlink_plan_shape(
                self@,
                plan@.map_values(|op: LinkOp| op@),
                cache@.data.installed_releases,
            ),
            r matches Err(e) ==> e is NotFound,
    {
        let ghost rels = cache@.data.installed_releases;
        match self {
            Environment::CheckoutEnvironment(_) => {
                let plan: Vec<LinkOp> = Vec::new();
                proof {
                    assert(plan@.map_values(|op: LinkOp| op@) =~= Seq::<LinkOpV>::empty());
                }
                Ok(plan)
            },
            Environment::BinaryEnvironment(b) => {
                let ghost v = b.pinned_version@;
                let pcli_target = match cache.get_pcli_for_version(&b.pinned_version) {
                    Some(p) => p,
                    None => {
                        return Err(Error::NotFound);
                    },
                };
                let pclientd_target = match cache.get_pclientd_for_version(&b.pinned_version) {
                    Some(p) => p,
                    None => {
                        return Err(Error::NotFound);
                    },
                };
                let ghost pcli_t = pcli_target@;
                let ghost pclientd_t = pclientd_target@;
                let mut plan: Vec<LinkOp> = Vec::new();
                plan.push(LinkOp::Ensure { link: self.pcli_path(), target: pcli_target });
                plan.push(LinkOp::Ensure { link: self.pclientd_path(), target: pclientd_target });
                let ghost mut pd_t = Seq::<char>::empty();
                if !b.metadata.client_only {
                    let pd_target = match cache.get_pd_for_version(&b.pinned_version) {
                        Some(p) => p,
                        None => {
                            return Err(Error::NotFound);
                        },
                    };
                    proof {
                        pd_t = pd_target@;
                    }
                    plan.push(LinkOp::Ensure { link: self.pd_path(), target: pd_target });
                }
                proof {
                    let ops = plan@.map_values(|op: LinkOp| op@);
                    assert forall|i: int| 0 <= i < ops.len() implies (#[trigger] ops[i]) is Ensure by {
                        assert(ops[i] == plan@[i]@);
                    }
                    assert(ops[0] == plan@[0]@);
                    assert(ops[1] == plan@[1]@);
                    if !b.metadata.client_only {
                        assert(ops[2] == plan@[2]@);
                    }
                    // every lookup succeeded, so none can also come up empty
                    crate::cache::lemma_binary_lookup_excludes(rels, v, "pcli"@, pcli_t);
                    crate::cache::lemma_binary_lookup_excludes(rels, v, "pclientd"@, pclientd_t);
                    if !b.metadata.client_only {
                        crate::cache::lemma_binary_lookup_excludes(rels, v, "pd"@, pd_t);
                    }
                }
                Ok(plan)
            },
        }
    }

    /// The plan that unlinks the environment's managed binaries
    /// unconditionally; a checkout environment has none.
    pub fn remove_symlinks_plan(&self) -> (r: Vec<LinkOp>)
        ensures
            ({
                let ops = r@.map_values(|op: LinkOp| op@);
                match self@ {
                    EnvironmentV::CheckoutEnvironment(_) => ops.len() == 0,
                    EnvironmentV::BinaryEnvironment(b) => ops == spec_remove_plan(
                        b.metadata.root_dir,
                        b.metadata.client_only,
                    ),
                }
            }),
    {
        match self {
            Environment::CheckoutEnvironment(_) => {
                let plan: Vec<LinkOp> = Vec::new();
                proof {
                    assert(plan@.map_values(|op: LinkOp| op@) =~= Seq::<LinkOpV>::empty());
                }
                plan
            },
            Environment::BinaryEnvironment(b) => {
                let mut plan: Vec<LinkOp> = Vec::new();
                plan.push(LinkOp::Remove { link: self.pcli_path() });
                plan.push(LinkOp::Remove { link: self.pclientd_path() });
                if !b.metadata.client_only {
                    plan.push(LinkOp::Remove { link: self.pd_path() });
                }
                proof {
                    let ops = plan@.map_values(|op: LinkOp| op@);
                    assert(ops[0] == plan@[0]@);
                    assert(ops[1] == plan@[1]@);
                    if !b.metadata.client_only {
                        assert(ops[2] == plan@[2]@);
                    }
                    assert(ops =~= spec_remove_plan(b@.metadata.root_dir, b.metadata.client_only));
                }
                plan
            },
        }
    }
}

/// What resetting an environment's application state touches.
pub struct ResetPlan {
    /// Node state directories to remove, when node state is reset.
    pub dirs_to_remove: Vec<String>,
    /// The consensus engine's validator-state file to re-initialize with
    /// an empty record, when node state is reset.
    pub validator_state_file: Option<String>,
    /// Whether the client's view state is reset through its own binary.
    pub run_client_reset: bool,
}

impl Environment {
    /// The node state directories under the environment's network data.
    fn node_state_dir(&self, name: &str) -> (r: String)
        ensures
            r@ == spec_metadata(self@).root_dir + "/"@ + "network_data"@ + "/"@ + "node0"@ + "/"@
                + name@,
    {
        let a = path_join(self.path().as_str(), "network_data");
        let b = path_join(a.as_str(), "node0");
        path_join(b.as_str(), name)
    }

    /// Plans a state reset: the consensus and node databases leave unless
    /// node state is kept (or the environment is client-only), and the
    /// client's view state is reset through its own binary unless kept.
    pub fn reset_plan(&self, leave_client_state: bool, leave_node_state: bool) -> (r: ResetPlan)
        ensures
            ({
                let node = spec_metadata(self@).root_dir + "/"@ + "network_data"@ + "/"@ + "node0"@;
                let resets_node = !spec_metadata(self@).client_only && !leave_node_state;
                &&& r.run_client_reset == !leave_client_state
                &&& !resets_node ==> r.dirs_to_remove@.len() == 0 && r.validator_state_file is None
                &&& resets_node ==> {
                    &&& r.dirs_to_remove@.len() == 6
                    &&& r.dirs_to_remove@[0]@ == node + "/"@ + "cometbft/data/state.db"@
                    &&& r.dirs_to_remove@[1]@ == node + "/"@ + "cometbft/data/tx_index.db"@
                    &&& r.dirs_to_remove@[2]@ == node + "/"@ + "cometbft/data/blockstore.db"@
                    &&& r.dirs_to_remove@[3]@ == node + "/"@ + "cometbft/data/cs.wal"@
                    &&& r.dirs_to_remove@[4]@ == node + "/"@ + "cometbft/data/evidence.db"@
                    &&& r.dirs_to_remove@[5]@ == node + "/"@ + "pd/rocksdb"@
                    &&& r.validator_state_file matches Some(f) && f@ == node + "/"@
                        + "cometbft/data/priv_validator_state.json"@
                }
            }),
    {
        let resets_node = !self.metadata().client_only && !leave_node_state;
        let mut dirs_to_remove: Vec<String> = Vec::new();
        let mut validator_state_file: Option<String> = None;
        if resets_node {
            dirs_to_remove.push(self.node_state_dir("cometbft/data/state.db"));
            dirs_to_remove.push(self.node_state_dir("cometbft/data/tx_index.db"));
            dirs_to_remove.push(self.node_state_dir("cometbft/data/blockstore.db"));
            dirs_to_remove.push(self.node_state_dir("cometbft/data/cs.wal"));
            dirs_to_remove.push(self.node_state_dir("cometbft/data/evidence.db"));
            dirs_to_remove.push(self.node_state_dir("pd/rocksdb"));
            validator_state_file = Some(
                self.node_state_dir("cometbft/data/priv_validator_state.json"),
            );
        }
        ResetPlan { dirs_to_remove, validator_state_file, run_client_reset: !leave_client_state }
    }
}

/// Wiring an environment's symlinks is idempotent: running the same
/// create-or-skip plan a second time changes nothing, so exactly the
/// links of the first run remain.
pub proof fn lemma_symlink_plan_idempotent(
    env: EnvironmentV,
    plan: Seq<LinkOpV>,
    rels: Seq<crate::release::InstalledReleaseV>,
    m: crate::links::LinkMap,
)
    requires
        spec_symlink_plan_shape(env, plan, rels),
    ensures
        crate::links::apply_ops(crate::links::apply_ops(m, plan), plan) == crate::links::apply_ops(
            m,
            plan,
        ),
{
    match env {
        EnvironmentV::CheckoutEnvironment(_) => {
            assert(crate::links::apply_ops(m, plan) == m);
        },
        EnvironmentV::BinaryEnvironment(_) => {
            crate::links::lemma_creates_idempotent(m, plan);
        },
    }
}

/// On a clean environment, wiring a binary environment's symlinks leaves
/// each managed link pointing at its cached copy.
pub proof fn lemma_symlink_plan_binds(
    env: EnvironmentV,
    plan: Seq<LinkOpV>,
    rels: Seq<crate::release::InstalledReleaseV>,
    m: crate::links::LinkMap,
)
    requires
        spec_symlink_plan_shape(env, plan, rels),
        env is BinaryEnvironment,
        forall|i: int| 0 <= i < plan.len() ==> !m.dom().contains(crate::links::op_link(#[trigger] plan[i])),
    ensures
        forall|i: int|
            0 <= i < plan.len() ==> {
                let m2 = crate::links::apply_ops(m, plan);
                &&& m2.dom().contains(crate::links::op_link(#[trigger] plan[i]))
                &&& m2[crate::links::op_link(plan[i])] == plan[i]->Ensure_target
            },
{
    let b = env->BinaryEnvironment_0;
    let root = b.metadata.root_dir;
    proof_links_distinct(root);
    assert forall|i: int| 0 <= i < plan.len() implies {
        let m2 = crate::links::apply_ops(m, plan);
        &&& m2.dom().contains(crate::links::op_link(#[trigger] plan[i]))
        &&& m2[crate::links::op_link(plan[i])] == plan[i]->Ensure_target
    } by {
        assert forall|j: int| 0 <= j < i implies crate::links::op_link(#[trigger] plan[j])
            != crate::links::op_link(plan[i]) by {
            assert(crate::links::op_link(plan[0]) == root + "/"@ + "bin/pcli"@);
            assert(crate::links::op_link(plan[1]) == root + "/"@ + "bin/pclientd"@);
            if plan.len() == 3 {
                assert(crate::links::op_link(plan[2]) == root + "/"@ + "bin/pd"@);
            }
        }
        crate::links::lemma_create_binds(m, plan, i);
    }
}

/// The three managed link names under one root differ.
proof fn proof_links_distinct(root: Seq<char>)
    ensures
        root + "/"@ + "bin/pcli"@ != root + "/"@ + "bin/pclientd"@,
        root + "/"@ + "bin/pcli"@ != root + "/"@ + "bin/pd"@,
        root + "/"@ + "bin/pclientd"@ != root + "/"@ + "bin/pd"@,
{
    reveal_strlit("/");
    reveal_strlit("bin/pcli");
    reveal_strlit("bin/pclientd");
    reveal_strlit("bin/pd");
    assert((root + "/"@ + "bin/pcli"@).len() == root.len() + 1 + 8);
    assert((root + "/"@ + "bin/pclientd"@).len() == root.len() + 1 + 12);
    assert((root + "/"@ + "bin/pd"@).len() == root.len() + 1 + 6);
}

/// Mathematical value of [`Environments`].
pub struct EnvironmentsV {
    pub environments: Seq<EnvironmentV>,
}

/// The ordered collection of configured environments.
pub struct Environments {
    pub environments: Vec<Environment>,
}

impl View for Environments {
    type V = EnvironmentsV;

    open spec fn view(&self) -> EnvironmentsV {
        EnvironmentsV { environments: self.environments@.map_values(|e: Environment| e@) }
    }
}

/// The position of the first environment with the given alias.
pub open spec fn spec_env_index_of(envs: Seq<EnvironmentV>, alias: Seq<char>) -> Option<int> {
    if exists|i: int| 0 <= i < envs.len() && spec_metadata(#[trigger] envs[i]).alias == alias {
        Some(
            choose|i: int|
                {
                    &&& 0 <= i < envs.len()
                    &&& spec_metadata(#[trigger] envs[i]).alias == alias
                    &&& forall|j: int|
                        0 <= j < i ==> spec_metadata(#[trigger] envs[j]).alias != alias
                },
        )
    } else {
        None
    }
}

/// Whether some environment carries the alias.
pub open spec fn spec_has_alias(envs: Seq<EnvironmentV>, alias: Seq<char>) -> bool {
    exists|i: int| 0 <= i < envs.len() && spec_metadata(#[trigger] envs[i]).alias == alias
}

impl Environments {
    /// How many environments are configured.
    pub fn len(&self) -> (r: usize)
        ensures
            r == self@.environments.len(),
    {
        self.environments.len()
    }

    /// The position of the first environment with the given alias.
    pub fn index_of(&self, alias: &str) -> (r: Option<usize>)
        ensures
            ({
                let envs = self@.environments;
                match r {
                    Some(i) => {
                        &&& 0 <= i < envs.len()
                        &&& spec_metadata(envs[i as int]).alias == alias@
                        &&& forall|j: int|
                            0 <= j < i ==> spec_metadata(#[trigger] envs[j]).alias != alias@
                    },
                    None => !spec_has_alias(envs, alias@),
                }
            }),
    {
        let ghost envs = self@.environments;
        let n = self.environments.len();
        let mut i: usize = 0;
        while i < n
            invariant
                n == self.environments@.len(),
                envs == self@.environments,
                0 <= i <= n,
                forall|j: int| 0 <= j < i ==> spec_metadata(#[trigger] envs[j]).alias != alias@,
            decreases n - i,
        {
            proof {
                assert(envs[i as int] == self.environments@[i as int]@);
            }
            let m = self.environments[i].metadata();
            if crate::strutil::str_eq(m.alias.as_str(), alias) {
                return Some(i);
            }
            i = i + 1;
        }
        None
    }

    /// The first environment with the given alias.
    pub fn get_environment(&self, alias: &str) -> (r: Option<&Environment>)
        ensures
            ({
                let envs = self@.environments;
                match r {
                    Some(env) => spec_has_alias(envs, alias@) && exists|i: int|
                        0 <= i < envs.len() && #[trigger] envs[i] == env@ && spec_metadata(
                            env@,
                        ).alias == alias@,
                    None => !spec_has_alias(envs, alias@),
                }
            }),
    {
        match self.index_of(alias) {
            Some(i) => {
                let env = &self.environments[i];
                proof {
                    assert(self@.environments[i as int] == env@);
                }
                Some(env)
            },
            None => None,
        }
    }
}

} // verus!
