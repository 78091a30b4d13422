//! The lifecycle controller: the CRI runtime service over the sandbox and
//! container registries, the module store and the running-set. Each call
//! mutates the in-memory state and reports what the embedding must still do
//! outside (stop an actor, run an engine); the embedding performs the
//! blocking work and feeds results back in.
use vstd::prelude::*;

use crate::cri::{
    container_from, renders_container, renders_sandbox_status, renders_stats, sandbox_status_from,
    stats_from, Container, ContainerConfig, ContainerFilter, ContainerState, ContainerStateValue,
    ContainerStats, ContainerStatsFilter, ContainerStatsRequest, ContainerStatsResponse,
    ContainerStatus, ContainerStatusRequest, ContainerStatusResponse, CreateContainerRequest,
    CreateContainerResponse, ErrorCode, KeyValue, ListContainerStatsRequest, ListContainerStatsResponse,
    ListContainersRequest, ListContainersResponse, ListPodSandboxRequest, ListPodSandboxResponse,
    Mount, PodSandbox, PodSandboxConfig, PodSandboxFilter, PodSandboxState, PodSandboxStateValue,
    PodSandboxStatusRequest, PodSandboxStatusResponse, RemoveContainerRequest,
    RemovePodSandboxRequest, RunPodSandboxRequest, RunPodSandboxResponse, RuntimeCondition,
    RuntimeStatus, StartContainerRequest, StartContainerResponse, StatusRequest, StatusResponse,
    StopContainerRequest, StopPodSandboxRequest, StopPodSandboxResponse,
    UpdateRuntimeConfigRequest, UpdateRuntimeConfigResponse, UserContainer, VersionRequest,
    VersionResponse,
};
use crate::foreign::{cidr_ok, fresh_uuid, is_uuid_text, utc_now_nanos, valid_cidr};
use crate::handler::RuntimeHandler;
use crate::reference::Reference;
use crate::registry::{
    all_containers_wf, all_sandboxes_wf, container_ids_unique, container_index, has_container,
    has_sandbox, sandbox_ids_unique, sandbox_index, ContainerRegistry, SandboxRegistry,
    UserSandbox,
};
use crate::store::{ModuleStore, ModuleView};
use crate::strmap::{has_labels, submap_of, StringMap};
use crate::text::{spec_decimal, u64_to_decimal};

verus! {

/// The handle kept for a started container. Stopping a WASI instance is a
/// no-op in this revision (the engine has no interrupt); a waSCC actor is
/// stopped by its public key through the actor host, which the embedding
/// drives.
#[derive(Debug)]
pub enum ContainerCancellationToken {
    WasiCancelationToken,
    WasccCancelationToken(String),
}

impl ContainerCancellationToken {
    /// The actor key to hand to the host, where stopping is possible.
    pub open spec fn spec_key(&self) -> Option<Seq<char>> {
        match self {
            ContainerCancellationToken::WasiCancelationToken => None,
            ContainerCancellationToken::WasccCancelationToken(k) => Some(k@),
        }
    }

    /// What stopping this container asks of the embedding: the actor key to
    /// remove from the host, or nothing.
    pub fn stop(&self) -> (r: Option<&String>)
        ensures
            match r {
                Some(k) => self.spec_key() == Some(k@),
                None => self.spec_key() is None,
            },
    {
        match self {
            ContainerCancellationToken::WasiCancelationToken => None,
            ContainerCancellationToken::WasccCancelationToken(k) => Some(k),
        }
    }

    /// Removing asks the same of the embedding as stopping does, in this
    /// revision.
    pub fn remove(&self) -> (r: Option<&String>)
        ensures
            match r {
                Some(k) => self.spec_key() == Some(k@),
                None => self.spec_key() is None,
            },
    {
        self.stop()
    }
}

impl Clone for ContainerCancellationToken {
    fn clone(&self) -> (r: Self)
        ensures
            r == *self,
    {
        match self {
            ContainerCancellationToken::WasiCancelationToken =>
                ContainerCancellationToken::WasiCancelationToken,
            ContainerCancellationToken::WasccCancelationToken(k) =>
                ContainerCancellationToken::WasccCancelationToken(k.clone()),
        }
    }
}

pub open spec fn token_keys_unique(s: Seq<(String, ContainerCancellationToken)>) -> bool {
    forall|i: int, j: int|
        0 <= i < j < s.len() ==> s[i].0@ != s[j].0@
}

pub open spec fn has_token(s: Seq<(String, ContainerCancellationToken)>, id: Seq<char>) -> bool {
    exists|i: int| 0 <= i < s.len() && (#[trigger] s[i]).0@ == id
}

/// The index of the entry for this container id, where one exists.
pub open spec fn token_index(s: Seq<(String, ContainerCancellationToken)>, id: Seq<char>) -> int {
    choose|i: int| 0 <= i < s.len() && (#[trigger] s[i]).0@ == id
}

pub proof fn lemma_token_index_unique(
    s: Seq<(String, ContainerCancellationToken)>,
    id: Seq<char>,
    i: int,
)
    requires
        token_keys_unique(s),
        0 <= i < s.len(),
        s[i].0@ == id,
    ensures
        has_token(s, id),
        token_index(s, id) == i,
{
    assert(has_token(s, id));
    let j = token_index(s, id);
    assert(0 <= j < s.len() && s[j].0@ == id);
    if i < j {
        assert(s[i].0@ != s[j].0@);
    }
    if j < i {
        assert(s[j].0@ != s[i].0@);
    }
}

/// The running-set: one cancellation token per started container.
pub struct TokenMap {
    entries: Vec<(String, ContainerCancellationToken)>,
}

impl View for TokenMap {
    type V = Seq<(String, ContainerCancellationToken)>;

    closed spec fn view(&self) -> Seq<(String, ContainerCancellationToken)> {
        self.entries@
    }
}

impl TokenMap {
    pub open spec fn wf(&self) -> bool {
        token_keys_unique(self@)
    }

    pub fn new() -> (r: TokenMap)
        ensures
            r@ == Seq::<(String, ContainerCancellationToken)>::empty(),
            r.wf(),
    {
        let r = TokenMap { entries: Vec::new() };
        proof {
            assert(r@ =~= Seq::<(String, ContainerCancellationToken)>::empty());
        }
        r
    }

    /// The index of the entry for this container id.
    pub fn find(&self, id: &String) -> (r: Option<usize>)
        requires
            self.wf(),
        ensures
            match r {
                Some(i) => has_token(self@, id@) && i as int == token_index(self@, id@)
                    && i < self@.len() && self@[i as int].0@ == id@,
                None => !has_token(self@, id@),
            },
    {
        let n = self.entries.len();
        let mut i: usize = 0;
        while i < n
            invariant
                self.wf(),
                n == self@.len(),
                0 <= i <= n,
                forall|j: int| 0 <= j < i ==> (#[trigger] self@[j]).0@ != id@,
            decreases n - i,
        {
            if self.entries[i].0 == *id {
                proof {
                    lemma_token_index_unique(self@, id@, i as int);
                }
                return Some(i);
            }
            i = i + 1;
        }
        None
    }

    /// The token held for this container id.
    pub fn get(&self, id: &String) -> (r: Option<&ContainerCancellationToken>)
        requires
            self.wf(),
        ensures
            match r {
                Some(t) => has_token(self@, id@) && *t == self@[token_index(self@, id@)].1,
                None => !has_token(self@, id@),
            },
    {
        match self.find(id) {
            Some(i) => Some(&self.entries[i].1),
            None => None,
        }
    }

    /// Hold a token for this container id, in place of any earlier one.
    pub fn insert(&mut self, id: String, token: ContainerCancellationToken)
        requires
            old(self).wf(),
        ensures
            final(self).wf(),
            !has_token(old(self)@, id@) ==> final(self)@ == old(self)@.push((id, token)),
            has_token(old(self)@, id@) ==> final(self)@ == old(self)@.update(
                token_index(old(self)@, id@),
                (id, token),
            ),
    {
        match self.find(&id) {
            Some(i) => {
                proof {
                    let updated = self@.update(i as int, (id, token));
                    assert(forall|k: int| 0 <= k < self@.len() && k != i ==> updated[k]
                        == self@[k]);
                }
                self.entries.set(i, (id, token));
            },
            None => {
                self.entries.push((id, token));
            },
        }
    }

    /// Drop the entry for this container id, where one exists.
    pub fn evict(&mut self, id: &String)
        requires
            old(self).wf(),
        ensures
            final(self).wf(),
            !has_token(old(self)@, id@) ==> final(self)@ == old(self)@,
            has_token(old(self)@, id@) ==> final(self)@ == old(self)@.remove(
                token_index(old(self)@, id@),
            ),
    {
        match self.find(id) {
            Some(i) => {
                self.entries.remove(i);
            },
            None => {},
        }
    }
}

/// The CRI runtime service: every registry the lifecycle touches, plus the
/// pod network range handed down by the orchestrator.
pub struct CriRuntimeService {
    module_store: ModuleStore,
    sandboxes: SandboxRegistry,
    containers: ContainerRegistry,
    running_containers: TokenMap,
    pod_cidr: Option<String>,
}

impl CriRuntimeService {
    pub closed spec fn spec_sandboxes(&self) -> Seq<UserSandbox> {
        self.sandboxes@
    }

    pub closed spec fn spec_containers(&self) -> Seq<UserContainer> {
        self.containers@
    }

    pub closed spec fn spec_tokens(&self) -> Seq<(String, ContainerCancellationToken)> {
        self.running_containers@
    }

    pub closed spec fn spec_pod_cidr(&self) -> Option<Seq<char>> {
        match self.pod_cidr {
            Some(s) => Some(s@),
            None => None,
        }
    }

    pub closed spec fn spec_store(&self) -> Seq<ModuleView> {
        self.module_store@
    }

    pub closed spec fn spec_root_dir(&self) -> Seq<char> {
        self.module_store.spec_root_dir()
    }

    pub closed spec fn wf(&self) -> bool {
        &&& self.sandboxes.wf()
        &&& self.containers.wf()
        &&& self.running_containers.wf()
        &&& match self.pod_cidr {
            Some(s) => cidr_ok(s@),
            None => true,
        }
    }

    /// Every running container holds an entry in the running-set.
    /// Committing a start establishes this for the started container, and
    /// removing a container evicts its entry along with it.
    pub open spec fn running_tracked(&self) -> bool {
        forall|i: int|
            0 <= i < self.spec_containers().len() && (#[trigger] self.spec_containers()[i]).state
                == ContainerState::Running ==> has_token(
                self.spec_tokens(),
                self.spec_containers()[i].id@,
            )
    }

    /// Both states hold the very same sandboxes, containers, tokens,
    /// catalog and network range.
    pub open spec fn same_state(&self, other: &Self) -> bool {
        &&& self.spec_sandboxes() == other.spec_sandboxes()
        &&& self.spec_containers() == other.spec_containers()
        &&& self.spec_tokens() == other.spec_tokens()
        &&& self.spec_pod_cidr() == other.spec_pod_cidr()
        &&& self.spec_store() == other.spec_store()
        &&& self.spec_root_dir() == other.spec_root_dir()
    }

    /// A fresh service over a root directory, with no sandboxes, containers
    /// or running instances; a network range, when given, must read as a
    /// CIDR literal. The root directory on disk is the embedding's to make.
    pub fn new(dir: String, pod_cidr: Option<String>) -> (r: Result<CriRuntimeService, ErrorCode>)
        ensures
            match r {
                Ok(svc) => {
                    &&& svc.wf()
                    &&& svc.spec_root_dir() == dir@
                    &&& svc.spec_sandboxes().len() == 0
                    &&& svc.spec_containers().len() == 0
                    &&& svc.spec_tokens().len() == 0
                    &&& svc.spec_store().len() == 0
                    &&& match pod_cidr {
                        Some(s) => svc.spec_pod_cidr() == Some(s@) && cidr_ok(s@),
                        None => svc.spec_pod_cidr() is None,
                    }
                },
                Err(e) => e == ErrorCode::InvalidArgument && match pod_cidr {
                    Some(s) => !cidr_ok(s@),
                    None => false,
                },
            },
    {
        let cidr = match pod_cidr {
            Some(s) => {
                if valid_cidr(s.as_str()) {
                    Some(s)
                } else {
                    return Err(ErrorCode::InvalidArgument);
                }
            },
            None => None,
        };
        Ok(CriRuntimeService {
            module_store: ModuleStore::new(dir),
            sandboxes: SandboxRegistry::new(),
            containers: ContainerRegistry::new(),
            running_containers: TokenMap::new(),
            pod_cidr: cidr,
        })
    }

    /// The sandbox registry.
    pub fn sandboxes(&self) -> (r: &SandboxRegistry)
        ensures
            r@ == self.spec_sandboxes(),
            self.wf() ==> r.wf(),
    {
        &self.sandboxes
    }

    /// The container registry.
    pub fn containers(&self) -> (r: &ContainerRegistry)
        ensures
            r@ == self.spec_containers(),
            self.wf() ==> r.wf(),
    {
        &self.containers
    }

    /// The running-set.
    pub fn running_containers(&self) -> (r: &TokenMap)
        ensures
            r@ == self.spec_tokens(),
            self.wf() ==> r.wf(),
    {
        &self.running_containers
    }

    /// The module store this service resolves images through.
    pub fn module_store(&self) -> (r: &ModuleStore)
        ensures
            r@ == self.spec_store(),
            r.spec_root_dir() == self.spec_root_dir(),
    {
        &self.module_store
    }

    /// The pod network range currently configured.
    pub fn pod_cidr(&self) -> (r: Option<&String>)
        ensures
            match r {
                Some(s) => self.spec_pod_cidr() == Some(s@),
                None => self.spec_pod_cidr() is None,
            },
    {
        match &self.pod_cidr {
            Some(s) => Some(s),
            None => None,
        }
    }

    /// Put a sandbox into the registry directly, as the embedding does when
    /// rebuilding state.
    pub fn insert_sandbox(&mut self, sandbox: UserSandbox)
        requires
            old(self).wf(),
            sandbox.wf(),
        ensures
            final(self).wf(),
            !has_sandbox(old(self).spec_sandboxes(), sandbox.inner.id@) ==> final(self).spec_sandboxes() == old(self).spec_sandboxes().push(sandbox),
            has_sandbox(old(self).spec_sandboxes(), sandbox.inner.id@) ==> final(self).spec_sandboxes() == old(self).spec_sandboxes().update(
                sandbox_index(old(self).spec_sandboxes(), sandbox.inner.id@),
                sandbox,
            ),
            final(self).spec_containers() == old(self).spec_containers(),
            final(self).spec_tokens() == old(self).spec_tokens(),
            final(self).spec_pod_cidr() == old(self).spec_pod_cidr(),
            final(self).spec_store() == old(self).spec_store(),
            final(self).spec_root_dir() == old(self).spec_root_dir(),
    {
        self.sandboxes.insert(sandbox);
    }

    /// Put a container into the registry directly.
    pub fn insert_container(&mut self, container: UserContainer)
        requires
            old(self).wf(),
            container.wf(),
        ensures
            final(self).wf(),
            !has_container(old(self).spec_containers(), container.id@) ==> final(self).spec_containers() == old(self).spec_containers().push(container),
            has_container(old(self).spec_containers(), container.id@) ==> final(self).spec_containers() == old(self).spec_containers().update(
                container_index(old(self).spec_containers(), container.id@),
                container,
            ),
            final(self).spec_sandboxes() == old(self).spec_sandboxes(),
            final(self).spec_tokens() == old(self).spec_tokens(),
            final(self).spec_pod_cidr() == old(self).spec_pod_cidr(),
            final(self).spec_store() == old(self).spec_store(),
            final(self).spec_root_dir() == old(self).spec_root_dir(),
    {
        self.containers.insert(container);
    }

    /// Hold a token in the running-set directly.
    pub fn insert_token(&mut self, id: String, token: ContainerCancellationToken)
        requires
            old(self).wf(),
        ensures
            final(self).wf(),
            !has_token(old(self).spec_tokens(), id@) ==> final(self).spec_tokens() == old(self).spec_tokens().push((id, token)),
            has_token(old(self).spec_tokens(), id@) ==> final(self).spec_tokens() == old(self).spec_tokens().update(token_index(old(self).spec_tokens(), id@), (id, token)),
            final(self).spec_sandboxes() == old(self).spec_sandboxes(),
            final(self).spec_containers() == old(self).spec_containers(),
            final(self).spec_pod_cidr() == old(self).spec_pod_cidr(),
            final(self).spec_store() == old(self).spec_store(),
            final(self).spec_root_dir() == old(self).spec_root_dir(),
    {
        self.running_containers.insert(id, token);
    }

    /// The fixed version report: the API version of this runtime, its name
    /// and build version, and the protocol version it speaks.
    pub fn version(&self, _req: VersionRequest) -> (r: VersionResponse)
        ensures
            r.version@ == "0.1.0"@,
            r.runtime_name@ == "wok"@,
            r.runtime_version@ == "0.1.0"@,
            r.runtime_api_version@ == "v1alpha2"@,
    {
        VersionResponse {
            version: String::from_str("0.1.0"),
            runtime_name: String::from_str("wok"),
            runtime_version: String::from_str("0.1.0"),
            runtime_api_version: String::from_str("v1alpha2"),
        }
    }

    /// The runtime's two fixed conditions, and, when verbose, the counts of
    /// sandboxes and containers as text.
    pub fn status(&self, req: StatusRequest) -> (r: StatusResponse)
        requires
            self.wf(),
        ensures
            r.status is Some,
            r.status.unwrap().conditions@.len() == 2,
            r.status.unwrap().conditions@[0].condition_type@ == "RuntimeReady"@,
            r.status.unwrap().conditions@[0].status == true,
            r.status.unwrap().conditions@[0].reason@ == "RuntimeStarted"@,
            r.status.unwrap().conditions@[0].message@
                == "Runtime has been started and is ready to run modules"@,
            r.status.unwrap().conditions@[1].condition_type@ == "NetworkReady"@,
            r.status.unwrap().conditions@[1].status == false,
            r.status.unwrap().conditions@[1].reason@ == "Unimplemented"@,
            r.status.unwrap().conditions@[1].message@ == "Networking is currently unimplemented"@,
            r.info.wf(),
            req.verbose ==> r.info@ == Map::<Seq<char>, Seq<char>>::empty().insert(
                "running_sandboxes"@,
                spec_decimal(self.spec_sandboxes().len()),
            ).insert("running_containers"@, spec_decimal(self.spec_containers().len())),
            !req.verbose ==> r.info@ == Map::<Seq<char>, Seq<char>>::empty(),
    {
        let mut info = StringMap::new();
        if req.verbose {
            info.insert(
                String::from_str("running_sandboxes"),
                u64_to_decimal(self.sandboxes.len() as u64),
            );
            info.insert(
                String::from_str("running_containers"),
                u64_to_decimal(self.containers.len() as u64),
            );
        }
        let mut conditions: Vec<RuntimeCondition> = Vec::new();
        conditions.push(RuntimeCondition {
            condition_type: String::from_str("RuntimeReady"),
            status: true,
            reason: String::from_str("RuntimeStarted"),
            message: String::from_str("Runtime has been started and is ready to run modules"),
        });
        conditions.push(RuntimeCondition {
            condition_type: String::from_str("NetworkReady"),
            status: false,
            reason: String::from_str("Unimplemented"),
            message: String::from_str("Networking is currently unimplemented"),
        });
        StatusResponse { status: Some(RuntimeStatus { conditions }), info }
    }

    /// Record the pod network range: an empty string clears it, anything
    /// else must read as a CIDR literal or the call is refused.
    pub fn update_runtime_config(&mut self, req: UpdateRuntimeConfigRequest) -> (r: Result<
        UpdateRuntimeConfigResponse,
        ErrorCode,
    >)
        requires
            old(self).wf(),
        ensures
            final(self).wf(),
            final(self).spec_sandboxes() == old(self).spec_sandboxes(),
            final(self).spec_containers() == old(self).spec_containers(),
            final(self).spec_tokens() == old(self).spec_tokens(),
            final(self).spec_store() == old(self).spec_store(),
            final(self).spec_root_dir() == old(self).spec_root_dir(),
            ({
                let raw = requested_cidr(&req);
                &&& raw.len() == 0 ==> r is Ok && final(self).spec_pod_cidr() is None
                &&& raw.len() > 0 && cidr_ok(raw) ==> r is Ok && final(self).spec_pod_cidr()
                    == Some(raw)
                &&& raw.len() > 0 && !cidr_ok(raw) ==> r == Err::<
                    UpdateRuntimeConfigResponse,
                    ErrorCode,
                >(ErrorCode::InvalidArgument) && final(self).spec_pod_cidr() == old(self).spec_pod_cidr()
            }),
    {
        let raw = match req.runtime_config {
            Some(rc) => match rc.network_config {
                Some(nc) => nc.pod_cidr,
                None => String::new(),
            },
            None => String::new(),
        };
        if raw.as_str().is_empty() {
            self.pod_cidr = None;
            Ok(UpdateRuntimeConfigResponse {})
        } else if valid_cidr(raw.as_str()) {
            self.pod_cidr = Some(raw);
            Ok(UpdateRuntimeConfigResponse {})
        } else {
            Err(ErrorCode::InvalidArgument)
        }
    }

    /// The token held for a container, for the embedding to signal; stopping
    /// never fails, and the timeout is accepted and ignored in this
    /// revision.
    pub fn stop_container(&self, req: StopContainerRequest) -> (r: Option<
        ContainerCancellationToken,
    >)
        requires
            self.wf(),
        ensures
            match r {
                Some(t) => has_token(self.spec_tokens(), req.container_id@) && t
                    == self.spec_tokens()[token_index(self.spec_tokens(), req.container_id@)].1,
                None => !has_token(self.spec_tokens(), req.container_id@),
            },
    {
        match self.running_containers.get(&req.container_id) {
            Some(t) => Some(t.clone()),
            None => None,
        }
    }

    /// Make a sandbox: resolve the handler, allot a fresh id, and record it
    /// ready with no containers. The log directory named by the
    /// configuration is the embedding's to create.
    pub fn run_pod_sandbox(&mut self, req: RunPodSandboxRequest) -> (r: Result<
        RunPodSandboxResponse,
        ErrorCode,
    >)
        requires
            old(self).wf(),
            match req.config {
                Some(c) => c.wf(),
                None => true,
            },
        ensures
            final(self).wf(),
            final(self).spec_containers() == old(self).spec_containers(),
            final(self).spec_tokens() == old(self).spec_tokens(),
            final(self).spec_pod_cidr() == old(self).spec_pod_cidr(),
            final(self).spec_store() == old(self).spec_store(),
            final(self).spec_root_dir() == old(self).spec_root_dir(),
            match r {
                Ok(resp) => {
                    &&& req.config is Some
                    &&& handler_ok(req.runtime_handler@)
                    &&& is_uuid_text(resp.pod_sandbox_id@)
                    &&& ({
                        let oldsb = old(self).spec_sandboxes();
                        let id = resp.pod_sandbox_id@;
                        let idx = if has_sandbox(oldsb, id) {
                            sandbox_index(oldsb, id)
                        } else {
                            oldsb.len() as int
                        };
                        let ns = final(self).spec_sandboxes()[idx];
                        &&& final(self).spec_sandboxes() == (if has_sandbox(oldsb, id) {
                            oldsb.update(idx, ns)
                        } else {
                            oldsb.push(ns)
                        })
                        &&& sandbox_created(
                            ns,
                            req.config.unwrap(),
                            req.runtime_handler@,
                            resp.pod_sandbox_id,
                        )
                    })
                },
                Err(e) => {
                    &&& e == ErrorCode::InvalidArgument
                    &&& req.config is None || !handler_ok(req.runtime_handler@)
                    &&& final(self).spec_sandboxes() == old(self).spec_sandboxes()
                },
            },
    {
        let config = match req.config {
            Some(c) => c,
            None => {
                return Err(ErrorCode::InvalidArgument);
            },
        };
        let handler = match RuntimeHandler::from_string(req.runtime_handler.as_str()) {
            Ok(h) => h,
            Err(_) => {
                return Err(ErrorCode::InvalidArgument);
            },
        };
        let id = fresh_uuid();
        let created_at = match utc_now_nanos() {
            Some(n) => n,
            None => 0,
        };
        let sandbox = UserSandbox {
            inner: PodSandbox {
                id: id.clone(),
                metadata: config.metadata,
                state: PodSandboxState::Ready,
                created_at,
                labels: config.labels,
                annotations: config.annotations,
                runtime_handler: handler.to_string(),
            },
            running_containers: Vec::new(),
        };
        self.sandboxes.insert(sandbox);
        Ok(RunPodSandboxResponse { pod_sandbox_id: id })
    }

    /// The sandboxes that pass the request's filter, rendered in registry
    /// order.
    pub fn list_pod_sandbox(&self, req: ListPodSandboxRequest) -> (r: ListPodSandboxResponse)
        requires
            self.wf(),
            match req.filter {
                Some(f) => f.wf(),
                None => true,
            },
        ensures
            ({
                let kept = self.spec_sandboxes().filter(
                    |us: UserSandbox| list_sandbox_keeps(req, us),
                );
                &&& r.items@.len() == kept.len()
                &&& forall|i: int| 0 <= i < kept.len() ==> (#[trigger] r.items@[i]).like(
                    &kept[i].inner,
                )
            }),
    {
        let ghost pred = |us: UserSandbox| list_sandbox_keeps(req, us);
        let items = self.sandboxes.items();
        let n = items.len();
        let mut out: Vec<PodSandbox> = Vec::new();
        let mut i: usize = 0;
        proof {
            assert(self.spec_sandboxes().subrange(0, 0) =~= Seq::<UserSandbox>::empty());
            reveal_with_fuel(Seq::<_>::filter, 2);
        }
        while i < n
            invariant
                self.wf(),
                match req.filter {
                    Some(f) => f.wf(),
                    None => true,
                },
                items@ == self.spec_sandboxes(),
                pred == (|us: UserSandbox| list_sandbox_keeps(req, us)),
                n == items@.len(),
                0 <= i <= n,
                out@.len() == self.spec_sandboxes().subrange(0, i as int).filter(pred).len(),
                forall|j: int|
                    0 <= j < out@.len() ==> (#[trigger] out@[j]).like(
                        &self.spec_sandboxes().subrange(0, i as int).filter(pred)[j].inner,
                    ),
            decreases n - i,
        {
            let ghost prefix = self.spec_sandboxes().subrange(0, i as int);
            let ghost next_prefix = self.spec_sandboxes().subrange(0, i as int + 1);
            proof {
                reveal_with_fuel(Seq::<_>::filter, 2);
                assert(next_prefix.drop_last() =~= prefix);
                assert(next_prefix.last() == self.spec_sandboxes()[i as int]);
            }
            let keep = match &req.filter {
                Some(f) => sandbox_matches_exec(&items[i], f),
                None => true,
            };
            if keep {
                out.push(items[i].inner.clone());
            }
            proof {
                assert(next_prefix.filter(pred) == if pred(next_prefix.last()) {
                    prefix.filter(pred).push(next_prefix.last())
                } else {
                    prefix.filter(pred)
                });
            }
            i = i + 1;
        }
        proof {
            assert(self.spec_sandboxes().subrange(0, n as int) =~= self.spec_sandboxes());
        }
        ListPodSandboxResponse { items: out }
    }

    /// The sandbox rendered as a status; its network and platform parts are
    /// unset in this revision.
    pub fn pod_sandbox_status(&self, req: PodSandboxStatusRequest) -> (r: Result<
        PodSandboxStatusResponse,
        ErrorCode,
    >)
        requires
            self.wf(),
        ensures
            match r {
                Ok(resp) => {
                    &&& has_sandbox(self.spec_sandboxes(), req.pod_sandbox_id@)
                    &&& resp.status is Some
                    &&& renders_sandbox_status(
                        resp.status.unwrap(),
                        self.spec_sandboxes()[sandbox_index(
                            self.spec_sandboxes(),
                            req.pod_sandbox_id@,
                        )].inner,
                    )
                    &&& resp.info@ == Map::<Seq<char>, Seq<char>>::empty()
                    &&& resp.info.wf()
                },
                Err(e) => e == ErrorCode::NotFound && !has_sandbox(
                    self.spec_sandboxes(),
                    req.pod_sandbox_id@,
                ),
            },
    {
        match self.sandboxes.get(&req.pod_sandbox_id) {
            Some(sandbox) => Ok(PodSandboxStatusResponse {
                status: Some(sandbox_status_from(&sandbox.inner)),
                info: StringMap::new(),
            }),
            None => Err(ErrorCode::NotFound),
        }
    }

    /// Drive a sandbox to not ready: detach its containers and return the
    /// tokens of those that were running, for the embedding to signal. A
    /// sandbox that is already stopped stops again without complaint.
    pub fn stop_pod_sandbox(&mut self, req: StopPodSandboxRequest) -> (r: Result<
        Vec<ContainerCancellationToken>,
        ErrorCode,
    >)
        requires
            old(self).wf(),
        ensures
            final(self).wf(),
            final(self).spec_containers() == old(self).spec_containers(),
            final(self).spec_tokens() == old(self).spec_tokens(),
            final(self).spec_pod_cidr() == old(self).spec_pod_cidr(),
            final(self).spec_store() == old(self).spec_store(),
            final(self).spec_root_dir() == old(self).spec_root_dir(),
            match r {
                Ok(signals) => {
                    &&& has_sandbox(old(self).spec_sandboxes(), req.pod_sandbox_id@)
                    &&& ({
                        let oldsb = old(self).spec_sandboxes();
                        let idx = sandbox_index(oldsb, req.pod_sandbox_id@);
                        let s0 = oldsb[idx];
                        &&& final(self).spec_sandboxes() == oldsb.update(
                            idx,
                            final(self).spec_sandboxes()[idx],
                        )
                        &&& sandbox_stopped(final(self).spec_sandboxes()[idx], s0)
                        &&& signals@ == collect_tokens(
                            old(self).spec_tokens(),
                            s0.running_containers@,
                        )
                        &&& forall|k: int|
                            0 <= k < s0.running_containers@.len() && has_token(
                                old(self).spec_tokens(),
                                (#[trigger] s0.running_containers@[k])@,
                            ) ==> signals@.contains(
                                old(self).spec_tokens()[token_index(
                                    old(self).spec_tokens(),
                                    s0.running_containers@[k]@,
                                )].1,
                            )
                    })
                },
                Err(e) => {
                    &&& e == ErrorCode::NotFound
                    &&& !has_sandbox(old(self).spec_sandboxes(), req.pod_sandbox_id@)
                    &&& final(self).spec_sandboxes() == old(self).spec_sandboxes()
                },
            },
    {
        let idx = match self.sandboxes.find(&req.pod_sandbox_id) {
            Some(i) => i,
            None => {
                return Err(ErrorCode::NotFound);
            },
        };
        let sandbox = self.sandboxes.at(idx);
        let ids = &sandbox.running_containers;
        let n = ids.len();
        let mut signals: Vec<ContainerCancellationToken> = Vec::new();
        let mut k: usize = 0;
        proof {
            assert(ids@.subrange(0, 0) =~= Seq::<String>::empty());
        }
        while k < n
            invariant
                self.wf(),
                idx < self.spec_sandboxes().len(),
                ids@ == self.spec_sandboxes()[idx as int].running_containers@,
                n == ids@.len(),
                0 <= k <= n,
                signals@ == collect_tokens(self.spec_tokens(), ids@.subrange(0, k as int)),
            decreases n - k,
        {
            let ghost prefix = ids@.subrange(0, k as int);
            let ghost next_prefix = ids@.subrange(0, k as int + 1);
            proof {
                assert(next_prefix.drop_last() =~= prefix);
                assert(next_prefix.last() == ids@[k as int]);
            }
            match self.running_containers.get(&ids[k]) {
                Some(t) => {
                    signals.push(t.clone());
                },
                None => {},
            }
            k = k + 1;
        }
        proof {
            assert(ids@.subrange(0, n as int) =~= ids@);
        }
        let stopped = UserSandbox {
            inner: PodSandbox {
                id: sandbox.inner.id.clone(),
                metadata: sandbox.inner.metadata.clone(),
                state: PodSandboxState::NotReady,
                created_at: sandbox.inner.created_at,
                labels: sandbox.inner.labels.clone(),
                annotations: sandbox.inner.annotations.clone(),
                runtime_handler: sandbox.inner.runtime_handler.clone(),
            },
            running_containers: Vec::new(),
        };
        proof {
            assert(stopped.running_containers@ =~= Seq::<String>::empty());
            assert forall|m: int| 0 <= m < self.spec_sandboxes().len() implies #[trigger] self
                .spec_sandboxes()[m].running_containers@ == self.spec_sandboxes()[
                m
            ].running_containers@ by {}
        }
        let ghost signal_snapshot = signals@;
        self.sandboxes.replace(idx, stopped);
        proof {
            assert(signal_snapshot == collect_tokens(
                old(self).spec_tokens(),
                old(self).spec_sandboxes()[idx as int].running_containers@,
            ));
            assert forall|k2: int|
                0 <= k2 < old(self).spec_sandboxes()[idx as int].running_containers@.len()
                    && has_token(
                    old(self).spec_tokens(),
                    (#[trigger] old(self).spec_sandboxes()[idx as int].running_containers@[k2])@,
                ) implies signal_snapshot.contains(
                old(self).spec_tokens()[token_index(
                    old(self).spec_tokens(),
                    old(self).spec_sandboxes()[idx as int].running_containers@[k2]@,
                )].1,
            ) by {
                lemma_collect_tokens_complete(
                    old(self).spec_tokens(),
                    old(self).spec_sandboxes()[idx as int].running_containers@,
                    k2,
                );
            }
        }
        Ok(signals)
    }

    /// Take a stopped sandbox out: its attached containers leave the
    /// registry and the running-set, and the tokens met on the way are
    /// returned for the embedding to signal. A sandbox still ready is
    /// refused.
    pub fn remove_pod_sandbox(&mut self, req: RemovePodSandboxRequest) -> (r: Result<
        Vec<ContainerCancellationToken>,
        ErrorCode,
    >)
        requires
            old(self).wf(),
        ensures
            final(self).wf(),
            final(self).spec_pod_cidr() == old(self).spec_pod_cidr(),
            final(self).spec_store() == old(self).spec_store(),
            final(self).spec_root_dir() == old(self).spec_root_dir(),
            match r {
                Ok(signals) => {
                    &&& has_sandbox(old(self).spec_sandboxes(), req.pod_sandbox_id@)
                    &&& ({
                        let oldsb = old(self).spec_sandboxes();
                        let idx = sandbox_index(oldsb, req.pod_sandbox_id@);
                        let ids = oldsb[idx].running_containers@;
                        &&& oldsb[idx].inner.state != PodSandboxState::Ready
                        &&& final(self).spec_sandboxes() == oldsb.remove(idx)
                        &&& final(self).spec_containers() == remove_containers(
                            old(self).spec_containers(),
                            ids,
                        )
                        &&& final(self).spec_tokens() == remove_tokens(
                            old(self).spec_tokens(),
                            ids,
                        )
                        &&& signals@ == collected_signals(old(self).spec_tokens(), ids)
                    })
                },
                Err(e) => {
                    &&& final(self).same_state(old(self))
                    &&& (e == ErrorCode::NotFound <==> !has_sandbox(
                        old(self).spec_sandboxes(),
                        req.pod_sandbox_id@,
                    ))
                    &&& (e == ErrorCode::FailedPrecondition <==> has_sandbox(
                        old(self).spec_sandboxes(),
                        req.pod_sandbox_id@,
                    ) && old(self).spec_sandboxes()[sandbox_index(
                        old(self).spec_sandboxes(),
                        req.pod_sandbox_id@,
                    )].inner.state == PodSandboxState::Ready)
                    &&& (e == ErrorCode::NotFound || e == ErrorCode::FailedPrecondition)
                },
            },
    {
        let idx = match self.sandboxes.find(&req.pod_sandbox_id) {
            Some(i) => i,
            None => {
                return Err(ErrorCode::NotFound);
            },
        };
        if matches!(self.sandboxes.at(idx).inner.state, PodSandboxState::Ready) {
            return Err(ErrorCode::FailedPrecondition);
        }
        let ids = self.sandboxes.at(idx).running_containers.clone();
        proof {
            assert(ids@ =~= old(self).spec_sandboxes()[idx as int].running_containers@);
            assert(ids@.subrange(0, 0) =~= Seq::<String>::empty());
        }
        let n = ids.len();
        let mut signals: Vec<ContainerCancellationToken> = Vec::new();
        let mut k: usize = 0;
        while k < n
            invariant
                self.sandboxes == old(self).sandboxes,
                self.module_store == old(self).module_store,
                self.pod_cidr == old(self).pod_cidr,
                self.containers.wf(),
                self.running_containers.wf(),
                n == ids@.len(),
                0 <= k <= n,
                self.spec_containers() == remove_containers(
                    old(self).spec_containers(),
                    ids@.subrange(0, k as int),
                ),
                self.spec_tokens() == remove_tokens(
                    old(self).spec_tokens(),
                    ids@.subrange(0, k as int),
                ),
                signals@ == collected_signals(old(self).spec_tokens(), ids@.subrange(0, k as int)),
            decreases n - k,
        {
            let ghost prefix = ids@.subrange(0, k as int);
            let ghost next_prefix = ids@.subrange(0, k as int + 1);
            proof {
                assert(next_prefix.drop_last() =~= prefix);
                assert(next_prefix.last() == ids@[k as int]);
            }
            match self.running_containers.get(&ids[k]) {
                Some(t) => {
                    signals.push(t.clone());
                },
                None => {},
            }
            self.running_containers.evict(&ids[k]);
            match self.containers.find(&ids[k]) {
                Some(ci) => {
                    self.containers.remove_at(ci);
                },
                None => {},
            }
            k = k + 1;
        }
        proof {
            assert(ids@.subrange(0, n as int) =~= ids@);
        }
        self.sandboxes.remove_at(idx);
        Ok(signals)
    }

    /// Take one container out: evict and return its token for the
    /// embedding to signal, drop it from the registry, and strike it off
    /// its sandbox's attached list.
    pub fn remove_container(&mut self, req: RemoveContainerRequest) -> (r: Result<
        Option<ContainerCancellationToken>,
        ErrorCode,
    >)
        requires
            old(self).wf(),
        ensures
            final(self).wf(),
            final(self).spec_pod_cidr() == old(self).spec_pod_cidr(),
            final(self).spec_store() == old(self).spec_store(),
            final(self).spec_root_dir() == old(self).spec_root_dir(),
            match r {
                Ok(signal) => {
                    &&& has_container(old(self).spec_containers(), req.container_id@)
                    &&& ({
                        let oldc = old(self).spec_containers();
                        let oldt = old(self).spec_tokens();
                        let oldsb = old(self).spec_sandboxes();
                        let cidx = container_index(oldc, req.container_id@);
                        let c = oldc[cidx];
                        &&& final(self).spec_containers() == oldc.remove(cidx)
                        &&& (has_token(oldt, req.container_id@) ==> final(self).spec_tokens()
                            == oldt.remove(token_index(oldt, req.container_id@)) && signal
                            == Some(oldt[token_index(oldt, req.container_id@)].1))
                        &&& (!has_token(oldt, req.container_id@) ==> final(self).spec_tokens()
                            == oldt && signal is None)
                        &&& (has_sandbox(oldsb, c.pod_sandbox_id@) ==> ({
                            let sidx = sandbox_index(oldsb, c.pod_sandbox_id@);
                            &&& final(self).spec_sandboxes() == oldsb.update(
                                sidx,
                                final(self).spec_sandboxes()[sidx],
                            )
                            &&& sandbox_without_container(
                                final(self).spec_sandboxes()[sidx],
                                oldsb[sidx],
                                req.container_id@,
                            )
                        }))
                        &&& (!has_sandbox(oldsb, c.pod_sandbox_id@) ==> final(self).spec_sandboxes()
                            == oldsb)
                    })
                },
                Err(e) => {
                    &&& e == ErrorCode::NotFound
                    &&& !has_container(old(self).spec_containers(), req.container_id@)
                    &&& final(self).same_state(old(self))
                },
            },
            old(self).running_tracked() ==> final(self).running_tracked(),
    {
        let cidx = match self.containers.find(&req.container_id) {
            Some(i) => i,
            None => {
                return Err(ErrorCode::NotFound);
            },
        };
        let signal = match self.running_containers.get(&req.container_id) {
            Some(t) => Some(t.clone()),
            None => None,
        };
        self.running_containers.evict(&req.container_id);
        let pod_sandbox_id = self.containers.at(cidx).pod_sandbox_id.clone();
        proof {
            assert(pod_sandbox_id@ == old(self).spec_containers()[cidx as int].pod_sandbox_id@);
        }
        match self.sandboxes.find(&pod_sandbox_id) {
            Some(sidx) => {
                let s0 = self.sandboxes.at(sidx);
                let mut list = s0.running_containers.clone();
                proof {
                    assert(list@ =~= s0.running_containers@);
                }
                match find_id_pos(&list, &req.container_id) {
                    Some(pos) => {
                        proof {
                            let w = choose|i: int|
                                #[trigger] id_found_at(list@, req.container_id@, i);
                            lemma_id_found_at_unique(list@, req.container_id@, pos as int, w);
                        }
                        list.remove(pos);
                    },
                    None => {
                        proof {
                            if exists|i: int| #[trigger] id_found_at(list@, req.container_id@, i) {
                                let w = choose|i: int|
                                    #[trigger] id_found_at(list@, req.container_id@, i);
                                assert(list@[w]@ != req.container_id@);
                            }
                        }
                    },
                }
                let updated = UserSandbox {
                    inner: s0.inner.clone(),
                    running_containers: list,
                };
                self.sandboxes.replace(sidx, updated);
            },
            None => {},
        }
        self.containers.remove_at(cidx);
        proof {
            if old(self).running_tracked() {
                let oldc = old(self).spec_containers();
                let oldt = old(self).spec_tokens();
                let newt = self.spec_tokens();
                assert forall|i: int|
                    0 <= i < self.spec_containers().len()
                        && (#[trigger] self.spec_containers()[i]).state
                        == ContainerState::Running implies has_token(
                    newt,
                    self.spec_containers()[i].id@,
                ) by {
                    let oi = if i < cidx as int {
                        i
                    } else {
                        i + 1
                    };
                    assert(self.spec_containers()[i] == oldc[oi]);
                    let cid = oldc[oi].id@;
                    assert(has_token(oldt, cid));
                    let w = choose|w: int| 0 <= w < oldt.len() && (#[trigger] oldt[w]).0@ == cid;
                    if has_token(oldt, req.container_id@) {
                        let ti = token_index(oldt, req.container_id@);
                        assert(oldt[ti].0@ == req.container_id@);
                        if w == ti {
                            // then this container would share the removed
                            // container's id, against the registry's
                            // uniqueness
                            assert(oldc[cidx as int].id@ == req.container_id@);
                            assert(oi != cidx as int);
                            assert(false);
                        } else if w < ti {
                            assert(newt[w] == oldt[w]);
                        } else {
                            assert(newt[w - 1] == oldt[w]);
                        }
                    } else {
                        assert(newt[w] == oldt[w]);
                    }
                }
            }
        }
        Ok(signal)
    }

    /// Make a container inside a sandbox: allot a fresh id, generate its
    /// volume paths, compose its log file, record it created, and attach it
    /// to the sandbox. Its working directory on disk is the embedding's to
    /// make.
    pub fn create_container(&mut self, req: CreateContainerRequest) -> (r: Result<
        CreateContainerResponse,
        ErrorCode,
    >)
        requires
            old(self).wf(),
            match req.config {
                Some(c) => c.wf(),
                None => true,
            },
        ensures
            final(self).wf(),
            final(self).spec_tokens() == old(self).spec_tokens(),
            final(self).spec_pod_cidr() == old(self).spec_pod_cidr(),
            final(self).spec_store() == old(self).spec_store(),
            final(self).spec_root_dir() == old(self).spec_root_dir(),
            match r {
                Ok(resp) => {
                    &&& req.config is Some && req.config.unwrap().image is Some
                    &&& has_sandbox(old(self).spec_sandboxes(), req.pod_sandbox_id@)
                    &&& is_uuid_text(resp.container_id@)
                    &&& ({
                        let conf = req.config.unwrap();
                        let oldc = old(self).spec_containers();
                        let cid = resp.container_id@;
                        let cidx = if has_container(oldc, cid) {
                            container_index(oldc, cid)
                        } else {
                            oldc.len() as int
                        };
                        let nc = final(self).spec_containers()[cidx];
                        &&& final(self).spec_containers() == (if has_container(oldc, cid) {
                            oldc.update(cidx, nc)
                        } else {
                            oldc.push(nc)
                        })
                        &&& container_created(
                            nc,
                            resp.container_id,
                            req.pod_sandbox_id,
                            conf,
                            req.sandbox_config,
                        )
                    })
                    &&& ({
                        let oldsb = old(self).spec_sandboxes();
                        let sidx = sandbox_index(oldsb, req.pod_sandbox_id@);
                        &&& final(self).spec_sandboxes() == oldsb.update(
                            sidx,
                            final(self).spec_sandboxes()[sidx],
                        )
                        &&& sandbox_with_container(
                            final(self).spec_sandboxes()[sidx],
                            oldsb[sidx],
                            resp.container_id,
                        )
                    })
                },
                Err(e) => {
                    &&& final(self).same_state(old(self))
                    &&& (e == ErrorCode::InvalidArgument <==> req.config is None || req.config
                        .unwrap().image is None)
                    &&& (e == ErrorCode::NotFound <==> req.config is Some && req.config.unwrap()
                        .image is Some && !has_sandbox(
                        old(self).spec_sandboxes(),
                        req.pod_sandbox_id@,
                    ))
                    &&& (e == ErrorCode::InvalidArgument || e == ErrorCode::NotFound)
                },
            },
            old(self).running_tracked() ==> final(self).running_tracked(),
    {
        let conf = match req.config {
            Some(c) => c,
            None => {
                return Err(ErrorCode::InvalidArgument);
            },
        };
        let image_ref = match &conf.image {
            Some(im) => im.image.clone(),
            None => {
                return Err(ErrorCode::InvalidArgument);
            },
        };
        let sidx = match self.sandboxes.find(&req.pod_sandbox_id) {
            Some(i) => i,
            None => {
                return Err(ErrorCode::NotFound);
            },
        };
        let id = fresh_uuid();
        let created_at = match utc_now_nanos() {
            Some(n) => n,
            None => 0,
        };
        proof {
            reveal_strlit("volumes/");
        }
        let n = conf.mounts.len();
        let mut volumes: Vec<Mount> = Vec::new();
        let mut k: usize = 0;
        while k < n
            invariant
                n == conf.mounts@.len(),
                0 <= k <= n,
                volumes@.len() == k,
                forall|j: int|
                    0 <= j < k ==> volume_generated(#[trigger] volumes@[j], conf.mounts@[j]),
            decreases n - k,
        {
            let vid = fresh_uuid();
            let mut host_path = String::from_str("volumes/");
            proof {
                reveal_strlit("volumes/");
                assert(host_path@.len() == 8);
            }
            host_path.append(vid.as_str());
            proof {
                assert(host_path@.subrange(0, 8) =~= "volumes/"@);
                assert(host_path@.skip(8) =~= vid@);
            }
            volumes.push(Mount {
                container_path: conf.mounts[k].container_path.clone(),
                host_path,
                propagation: conf.mounts[k].propagation,
                readonly: conf.mounts[k].readonly,
                selinux_relabel: conf.mounts[k].selinux_relabel,
            });
            k = k + 1;
        }
        let log_path = match &req.sandbox_config {
            Some(sc) => {
                if !sc.log_directory.as_str().is_empty() && !conf.log_path.as_str().is_empty() {
                    let mut p = sc.log_directory.clone();
                    p.append("/");
                    p.append(conf.log_path.as_str());
                    Some(p)
                } else {
                    None
                }
            },
            None => None,
        };
        let container = UserContainer {
            id: id.clone(),
            pod_sandbox_id: req.pod_sandbox_id.clone(),
            image_ref,
            created_at,
            state: ContainerState::Created,
            config: conf,
            log_path,
            volumes,
        };
        let s0 = self.sandboxes.at(sidx);
        let mut attached = s0.running_containers.clone();
        proof {
            assert(attached@ =~= s0.running_containers@);
        }
        attached.push(id.clone());
        let updated = UserSandbox { inner: s0.inner.clone(), running_containers: attached };
        self.sandboxes.replace(sidx, updated);
        let ghost cid = container.id@;
        self.containers.insert(container);
        proof {
            if old(self).running_tracked() {
                let oldc = old(self).spec_containers();
                let newc = self.spec_containers();
                assert forall|i: int|
                    0 <= i < newc.len() && (#[trigger] newc[i]).state == ContainerState::Running
                        implies has_token(self.spec_tokens(), newc[i].id@) by {
                    if has_container(oldc, cid) {
                        if i != container_index(oldc, cid) {
                            assert(newc[i] == oldc[i]);
                        }
                    } else {
                        if i < oldc.len() {
                            assert(newc[i] == oldc[i]);
                        }
                    }
                }
            }
        }
        Ok(CreateContainerResponse { container_id: id })
    }

    /// Resolve everything a start needs: the sandbox's handler, the module
    /// file path through the store, the environment map, and, for the actor
    /// runtime, the key the container's annotations must carry.
    pub fn prepare_start(&self, req: StartContainerRequest) -> (r: Result<StartPlan, ErrorCode>)
        requires
            self.wf(),
        ensures
            match r {
                Ok(plan) => {
                    &&& has_container(self.spec_containers(), req.container_id@)
                    &&& ({
                        let c = self.spec_containers()[container_index(
                            self.spec_containers(),
                            req.container_id@,
                        )];
                        &&& has_sandbox(self.spec_sandboxes(), c.pod_sandbox_id@)
                        &&& ({
                            let s = self.spec_sandboxes()[sandbox_index(
                                self.spec_sandboxes(),
                                c.pod_sandbox_id@,
                            )];
                            &&& handler_ok(s.inner.runtime_handler@)
                            &&& plan.handler == (if s.inner.runtime_handler@ == "WASCC"@ {
                                RuntimeHandler::WASCC
                            } else {
                                RuntimeHandler::WASI
                            })
                        })
                        &&& crate::reference::valid_reference(c.image_ref@)
                        &&& plan.container_id == req.container_id
                        &&& plan.wasm_path@ == self.spec_root_dir() + "/"@
                            + crate::reference::registry_of(c.image_ref@) + "/"@
                            + crate::reference::repository_of(c.image_ref@) + "/"@
                            + crate::reference::tag_of(c.image_ref@) + "/module.wasm"@
                        &&& plan.args@ == c.config.args@
                        &&& plan.env.wf() && plan.env@ == env_map_of(c.config.envs@)
                        &&& plan.log_path == c.log_path
                        &&& (plan.handler == RuntimeHandler::WASCC ==> plan.actor_key is Some
                            && c.config.annotations@.contains_key("deislabs.io/actor-key"@)
                            && plan.actor_key.unwrap()@ == c.config.annotations@.index(
                            "deislabs.io/actor-key"@,
                        ))
                        &&& (plan.handler == RuntimeHandler::WASI ==> plan.actor_key is None)
                    })
                },
                Err(e) => {
                    &&& (!has_container(self.spec_containers(), req.container_id@) ==> e
                        == ErrorCode::NotFound)
                    &&& (has_container(self.spec_containers(), req.container_id@) ==> ({
                        let c = self.spec_containers()[container_index(
                            self.spec_containers(),
                            req.container_id@,
                        )];
                        &&& (!has_sandbox(self.spec_sandboxes(), c.pod_sandbox_id@) ==> e
                            == ErrorCode::NotFound)
                        &&& (has_sandbox(self.spec_sandboxes(), c.pod_sandbox_id@) ==> e
                            == ErrorCode::InvalidArgument && ({
                            let s = self.spec_sandboxes()[sandbox_index(
                                self.spec_sandboxes(),
                                c.pod_sandbox_id@,
                            )];
                            ||| !handler_ok(s.inner.runtime_handler@)
                            ||| !crate::reference::valid_reference(c.image_ref@)
                            ||| (s.inner.runtime_handler@ == "WASCC"@ && !c.config.annotations@
                                .contains_key("deislabs.io/actor-key"@))
                        }))
                    }))
                },
            },
    {
        let cidx = match self.containers.find(&req.container_id) {
            Some(i) => i,
            None => {
                return Err(ErrorCode::NotFound);
            },
        };
        let c = self.containers.at(cidx);
        let sidx = match self.sandboxes.find(&c.pod_sandbox_id) {
            Some(i) => i,
            None => {
                return Err(ErrorCode::NotFound);
            },
        };
        let sandbox = self.sandboxes.at(sidx);
        let handler = match RuntimeHandler::from_string(sandbox.inner.runtime_handler.as_str()) {
            Ok(h) => h,
            Err(_) => {
                return Err(ErrorCode::InvalidArgument);
            },
        };
        let reference = match Reference::parse(c.image_ref.clone()) {
            Ok(rf) => rf,
            Err(_) => {
                return Err(ErrorCode::InvalidArgument);
            },
        };
        let wasm_path = self.module_store.pull_file_path(&reference);
        let envs = &c.config.envs;
        let m = envs.len();
        let mut env = StringMap::new();
        let mut k: usize = 0;
        proof {
            assert(envs@.subrange(0, 0) =~= Seq::<KeyValue>::empty());
        }
        while k < m
            invariant
                env.wf(),
                envs@ == self.spec_containers()[cidx as int].config.envs@,
                m == envs@.len(),
                0 <= k <= m,
                env@ == env_map_of(envs@.subrange(0, k as int)),
            decreases m - k,
        {
            let ghost prefix = envs@.subrange(0, k as int);
            let ghost next_prefix = envs@.subrange(0, k as int + 1);
            proof {
                assert(next_prefix.drop_last() =~= prefix);
                assert(next_prefix.last() == envs@[k as int]);
            }
            env.insert(envs[k].key.clone(), envs[k].value.clone());
            k = k + 1;
        }
        proof {
            assert(envs@.subrange(0, m as int) =~= envs@);
        }
        let args = c.config.args.clone();
        proof {
            assert(args@ =~= c.config.args@);
        }
        let log_path = c.log_path.clone();
        let actor_key = match handler {
            RuntimeHandler::WASCC => {
                match c.config.annotations.get(&String::from_str("deislabs.io/actor-key")) {
                    Some(key) => Some(key.clone()),
                    None => {
                        return Err(ErrorCode::InvalidArgument);
                    },
                }
            },
            RuntimeHandler::WASI => None,
        };
        Ok(StartPlan {
            container_id: req.container_id,
            handler,
            wasm_path,
            args,
            env,
            log_path,
            actor_key,
        })
    }

    /// Commit a start the embedding performed: hold the token in the
    /// running-set and drive the container to running.
    pub fn finish_start(
        &mut self,
        container_id: &String,
        token: ContainerCancellationToken,
    ) -> (r: Result<StartContainerResponse, ErrorCode>)
        requires
            old(self).wf(),
        ensures
            final(self).wf(),
            final(self).spec_sandboxes() == old(self).spec_sandboxes(),
            final(self).spec_pod_cidr() == old(self).spec_pod_cidr(),
            final(self).spec_store() == old(self).spec_store(),
            final(self).spec_root_dir() == old(self).spec_root_dir(),
            match r {
                Ok(_) => {
                    &&& has_container(old(self).spec_containers(), container_id@)
                    &&& ({
                        let oldc = old(self).spec_containers();
                        let cidx = container_index(oldc, container_id@);
                        &&& final(self).spec_containers() == oldc.update(
                            cidx,
                            final(self).spec_containers()[cidx],
                        )
                        &&& container_running(final(self).spec_containers()[cidx], oldc[cidx])
                    })
                    &&& ({
                        let oldt = old(self).spec_tokens();
                        &&& (!has_token(oldt, container_id@) ==> final(self).spec_tokens()
                            == oldt.push((*container_id, token)))
                        &&& (has_token(oldt, container_id@) ==> final(self).spec_tokens()
                            == oldt.update(token_index(oldt, container_id@), (*container_id, token)))
                    })
                },
                Err(e) => {
                    &&& e == ErrorCode::NotFound
                    &&& !has_container(old(self).spec_containers(), container_id@)
                    &&& final(self).same_state(old(self))
                },
            },
            old(self).running_tracked() ==> final(self).running_tracked(),
    {
        let cidx = match self.containers.find(container_id) {
            Some(i) => i,
            None => {
                return Err(ErrorCode::NotFound);
            },
        };
        let c0 = self.containers.at(cidx);
        let updated = UserContainer {
            id: c0.id.clone(),
            pod_sandbox_id: c0.pod_sandbox_id.clone(),
            image_ref: c0.image_ref.clone(),
            created_at: c0.created_at,
            state: ContainerState::Running,
            config: c0.config.clone(),
            log_path: c0.log_path.clone(),
            volumes: c0.volumes.clone(),
        };
        proof {
            assert(updated.volumes@ =~= c0.volumes@);
        }
        self.containers.replace(cidx, updated);
        self.running_containers.insert(container_id.clone(), token);
        proof {
            if old(self).running_tracked() {
                let oldc = old(self).spec_containers();
                let oldt = old(self).spec_tokens();
                let newt = self.spec_tokens();
                assert forall|i: int|
                    0 <= i < self.spec_containers().len()
                        && (#[trigger] self.spec_containers()[i]).state
                        == ContainerState::Running implies has_token(
                    newt,
                    self.spec_containers()[i].id@,
                ) by {
                    let cid = self.spec_containers()[i].id@;
                    if i == cidx as int {
                        assert(cid == container_id@);
                        if has_token(oldt, container_id@) {
                            let ti = token_index(oldt, container_id@);
                            assert(newt[ti].0@ == container_id@);
                        } else {
                            assert(newt[newt.len() - 1].0@ == container_id@);
                        }
                    } else {
                        assert(self.spec_containers()[i] == oldc[i]);
                        assert(has_token(oldt, cid));
                        let w = choose|w: int| 0 <= w < oldt.len() && (#[trigger] oldt[w]).0@
                            == cid;
                        if has_token(oldt, container_id@) {
                            let ti = token_index(oldt, container_id@);
                            if w == ti {
                                assert(oldt[ti].0@ == container_id@);
                                assert(newt[ti].0@ == container_id@);
                                assert(newt[ti].0@ == cid);
                            } else {
                                assert(newt[w] == oldt[w]);
                            }
                        } else {
                            assert(newt[w] == oldt[w]);
                        }
                    }
                }
            }
        }
        Ok(StartContainerResponse {})
    }

    /// The containers that pass the request's filter, rendered in registry
    /// order.
    pub fn list_containers(&self, req: ListContainersRequest) -> (r: ListContainersResponse)
        requires
            self.wf(),
            match req.filter {
                Some(f) => f.wf(),
                None => true,
            },
        ensures
            ({
                let kept = self.spec_containers().filter(
                    |c: UserContainer| list_container_keeps(req, c),
                );
                &&& r.containers@.len() == kept.len()
                &&& forall|i: int| 0 <= i < kept.len() ==> renders_container(
                    #[trigger] r.containers@[i],
                    kept[i],
                )
            }),
    {
        let ghost pred = |c: UserContainer| list_container_keeps(req, c);
        let items = self.containers.items();
        let n = items.len();
        let mut out: Vec<Container> = Vec::new();
        let mut i: usize = 0;
        proof {
            assert(self.spec_containers().subrange(0, 0) =~= Seq::<UserContainer>::empty());
            reveal_with_fuel(Seq::<_>::filter, 2);
        }
        while i < n
            invariant
                self.wf(),
                match req.filter {
                    Some(f) => f.wf(),
                    None => true,
                },
                items@ == self.spec_containers(),
                pred == (|c: UserContainer| list_container_keeps(req, c)),
                n == items@.len(),
                0 <= i <= n,
                out@.len() == self.spec_containers().subrange(0, i as int).filter(pred).len(),
                forall|j: int|
                    0 <= j < out@.len() ==> renders_container(
                        #[trigger] out@[j],
                        self.spec_containers().subrange(0, i as int).filter(pred)[j],
                    ),
            decreases n - i,
        {
            let ghost prefix = self.spec_containers().subrange(0, i as int);
            let ghost next_prefix = self.spec_containers().subrange(0, i as int + 1);
            proof {
                reveal_with_fuel(Seq::<_>::filter, 2);
                assert(next_prefix.drop_last() =~= prefix);
                assert(next_prefix.last() == self.spec_containers()[i as int]);
            }
            let keep = match &req.filter {
                Some(f) => container_matches_exec(&items[i], f),
                None => true,
            };
            if keep {
                out.push(container_from(&items[i]));
            }
            proof {
                assert(next_prefix.filter(pred) == if pred(next_prefix.last()) {
                    prefix.filter(pred).push(next_prefix.last())
                } else {
                    prefix.filter(pred)
                });
            }
            i = i + 1;
        }
        proof {
            assert(self.spec_containers().subrange(0, n as int) =~= self.spec_containers());
        }
        ListContainersResponse { containers: out }
    }

    /// The container rendered as a status; timing, exit and mount details
    /// are placeholders in this revision.
    pub fn container_status(&self, req: ContainerStatusRequest) -> (r: Result<
        ContainerStatusResponse,
        ErrorCode,
    >)
        requires
            self.wf(),
        ensures
            match r {
                Ok(resp) => {
                    &&& has_container(self.spec_containers(), req.container_id@)
                    &&& resp.status is Some
                    &&& ({
                        let c = self.spec_containers()[container_index(
                            self.spec_containers(),
                            req.container_id@,
                        )];
                        let st = resp.status.unwrap();
                        &&& st.id == c.id
                        &&& st.metadata == c.config.metadata
                        &&& st.state == c.state
                        &&& st.created_at == c.created_at
                        &&& st.started_at == 0 && st.finished_at == 0 && st.exit_code == 0
                        &&& st.image == c.config.image
                        &&& st.image_ref == c.image_ref
                        &&& st.reason@ == "because I said so"@
                        &&& st.message@ == "hello earthlings"@
                        &&& st.labels@ == c.config.labels@
                        &&& st.annotations@ == c.config.annotations@
                        &&& st.mounts@ == Seq::<Mount>::empty()
                        &&& match c.log_path {
                            Some(p) => st.log_path@ == p@,
                            None => st.log_path@.len() == 0,
                        }
                    })
                    &&& resp.info@ == Map::<Seq<char>, Seq<char>>::empty()
                    &&& resp.info.wf()
                },
                Err(e) => e == ErrorCode::NotFound && !has_container(
                    self.spec_containers(),
                    req.container_id@,
                ),
            },
    {
        let cidx = match self.containers.find(&req.container_id) {
            Some(i) => i,
            None => {
                return Err(ErrorCode::NotFound);
            },
        };
        let c = self.containers.at(cidx);
        let log_path = match &c.log_path {
            Some(p) => p.clone(),
            None => String::new(),
        };
        Ok(ContainerStatusResponse {
            status: Some(ContainerStatus {
                id: c.id.clone(),
                metadata: c.config.metadata.clone(),
                state: c.state,
                created_at: c.created_at,
                started_at: 0,
                finished_at: 0,
                exit_code: 0,
                image: c.config.image.clone(),
                image_ref: c.image_ref.clone(),
                reason: String::from_str("because I said so"),
                message: String::from_str("hello earthlings"),
                labels: c.config.labels.clone(),
                annotations: c.config.annotations.clone(),
                mounts: Vec::new(),
                log_path,
            }),
            info: StringMap::new(),
        })
    }

    /// One container's stats: attributes only, the measurements pending
    /// runtime instrumentation.
    pub fn container_stats(&self, req: ContainerStatsRequest) -> (r: Result<
        ContainerStatsResponse,
        ErrorCode,
    >)
        requires
            self.wf(),
        ensures
            match r {
                Ok(resp) => {
                    &&& has_container(self.spec_containers(), req.container_id@)
                    &&& resp.stats is Some
                    &&& renders_stats(
                        resp.stats.unwrap(),
                        self.spec_containers()[container_index(
                            self.spec_containers(),
                            req.container_id@,
                        )],
                    )
                },
                Err(e) => e == ErrorCode::NotFound && !has_container(
                    self.spec_containers(),
                    req.container_id@,
                ),
            },
    {
        match self.containers.find(&req.container_id) {
            Some(cidx) => Ok(ContainerStatsResponse {
                stats: Some(stats_from(self.containers.at(cidx))),
            }),
            None => Err(ErrorCode::NotFound),
        }
    }

    /// The stats of every container that passes the request's filter.
    pub fn list_container_stats(&self, req: ListContainerStatsRequest) -> (r:
        ListContainerStatsResponse)
        requires
            self.wf(),
            match req.filter {
                Some(f) => f.wf(),
                None => true,
            },
        ensures
            ({
                let kept = self.spec_containers().filter(
                    |c: UserContainer| list_stats_keeps(req, c),
                );
                &&& r.stats@.len() == kept.len()
                &&& forall|i: int| 0 <= i < kept.len() ==> renders_stats(
                    #[trigger] r.stats@[i],
                    kept[i],
                )
            }),
    {
        let ghost pred = |c: UserContainer| list_stats_keeps(req, c);
        let items = self.containers.items();
        let n = items.len();
        let mut out: Vec<ContainerStats> = Vec::new();
        let mut i: usize = 0;
        proof {
            assert(self.spec_containers().subrange(0, 0) =~= Seq::<UserContainer>::empty());
            reveal_with_fuel(Seq::<_>::filter, 2);
        }
        while i < n
            invariant
                self.wf(),
                match req.filter {
                    Some(f) => f.wf(),
                    None => true,
                },
                items@ == self.spec_containers(),
                pred == (|c: UserContainer| list_stats_keeps(req, c)),
                n == items@.len(),
                0 <= i <= n,
                out@.len() == self.spec_containers().subrange(0, i as int).filter(pred).len(),
                forall|j: int|
                    0 <= j < out@.len() ==> renders_stats(
                        #[trigger] out@[j],
                        self.spec_containers().subrange(0, i as int).filter(pred)[j],
                    ),
            decreases n - i,
        {
            let ghost prefix = self.spec_containers().subrange(0, i as int);
            let ghost next_prefix = self.spec_containers().subrange(0, i as int + 1);
            proof {
                reveal_with_fuel(Seq::<_>::filter, 2);
                assert(next_prefix.drop_last() =~= prefix);
                assert(next_prefix.last() == self.spec_containers()[i as int]);
            }
            let keep = match &req.filter {
                Some(f) => stats_matches_exec(&items[i], f),
                None => true,
            };
            if keep {
                out.push(stats_from(&items[i]));
            }
            proof {
                assert(next_prefix.filter(pred) == if pred(next_prefix.last()) {
                    prefix.filter(pred).push(next_prefix.last())
                } else {
                    prefix.filter(pred)
                });
            }
            i = i + 1;
        }
        proof {
            assert(self.spec_containers().subrange(0, n as int) =~= self.spec_containers());
        }
        ListContainerStatsResponse { stats: out }
    }
}

/// Whether the container passes the filter, computed.
fn container_matches_exec(c: &UserContainer, f: &ContainerFilter) -> (r: bool)
    requires
        c.wf(),
        f.wf(),
    ensures
        r == container_matches(*c, *f),
{
    let id_ok = f.id.as_str().is_empty() || c.id == f.id;
    let state_ok = match &f.state {
        Some(sv) => sv.state == c.state,
        None => true,
    };
    let sandbox_ok = f.pod_sandbox_id.as_str().is_empty() || c.pod_sandbox_id == f.pod_sandbox_id;
    let labels_ok = f.label_selector.is_empty() || has_labels(&f.label_selector, &c.config.labels);
    id_ok && state_ok && sandbox_ok && labels_ok
}

/// Whether the container passes the stats filter, computed.
fn stats_matches_exec(c: &UserContainer, f: &ContainerStatsFilter) -> (r: bool)
    requires
        c.wf(),
        f.wf(),
    ensures
        r == stats_matches(*c, *f),
{
    let id_ok = f.id.as_str().is_empty() || c.id == f.id;
    let sandbox_ok = f.pod_sandbox_id.as_str().is_empty() || c.pod_sandbox_id == f.pod_sandbox_id;
    let labels_ok = f.label_selector.is_empty() || has_labels(&f.label_selector, &c.config.labels);
    id_ok && sandbox_ok && labels_ok
}

/// In a well-formed service, container ids and sandbox ids are pairwise
/// distinct: two different registry entries never share an id. Each fresh
/// id is drawn as a version-4 identifier, whose text shape the creating
/// calls promise; that two draws differ rests on the generator's
/// randomness.
pub proof fn lemma_ids_distinct(svc: &CriRuntimeService)
    requires
        svc.wf(),
    ensures
        forall|i: int, j: int|
            0 <= i < j < svc.spec_sandboxes().len() ==> svc.spec_sandboxes()[i].inner.id@
                != svc.spec_sandboxes()[j].inner.id@,
        forall|i: int, j: int|
            0 <= i < j < svc.spec_containers().len() ==> svc.spec_containers()[i].id@
                != svc.spec_containers()[j].id@,
{
}

/// A member of a filtered sequence is a member of the unfiltered one that
/// the predicate keeps, and the other way round.
pub proof fn lemma_filter_membership<A>(s: Seq<A>, pred: spec_fn(A) -> bool, x: A)
    ensures
        s.filter(pred).contains(x) <==> s.contains(x) && pred(x),
    decreases s.len(),
{
    reveal_with_fuel(Seq::<_>::filter, 2);
    if s.len() == 0 {
    } else {
        lemma_filter_membership(s.drop_last(), pred, x);
        assert(s.drop_last().contains(x) || s.last() == x <==> s.contains(x)) by {
            if s.contains(x) {
                let i = choose|i: int| 0 <= i < s.len() && s[i] == x;
                if i < s.len() - 1 {
                    assert(s.drop_last()[i] == x);
                }
            }
            if s.drop_last().contains(x) {
                let i = choose|i: int| 0 <= i < s.drop_last().len() && s.drop_last()[i] == x;
                assert(s[i] == x);
            }
        }
        if pred(s.last()) {
            let kept = s.drop_last().filter(pred);
            assert(s.filter(pred) == kept.push(s.last()));
            assert(kept.push(s.last()).contains(x) <==> kept.contains(x) || s.last() == x) by {
                if kept.push(s.last()).contains(x) {
                    let i = choose|i: int|
                        0 <= i < kept.push(s.last()).len() && kept.push(s.last())[i] == x;
                    if i < kept.len() {
                        assert(kept[i] == x);
                    }
                }
                if kept.contains(x) {
                    let i = choose|i: int| 0 <= i < kept.len() && kept[i] == x;
                    assert(kept.push(s.last())[i] == x);
                }
                assert(kept.push(s.last())[kept.len() as int] == s.last());
            }
        }
    }
}

/// A container appears in a listing under a labels-only filter exactly
/// when it is registered and every label the filter asks for is on it with
/// the asked value.
pub proof fn lemma_label_filter_semantics(
    cs: Seq<UserContainer>,
    f: ContainerFilter,
    c: UserContainer,
)
    requires
        f.id@.len() == 0,
        f.state is None,
        f.pod_sandbox_id@.len() == 0,
    ensures
        cs.filter(|x: UserContainer| container_matches(x, f)).contains(c) <==> cs.contains(c)
            && submap_of(f.label_selector@, c.config.labels@),
{
    let pred = |x: UserContainer| container_matches(x, f);
    lemma_filter_membership(cs, pred, c);
    if f.label_selector@ == Map::<Seq<char>, Seq<char>>::empty() {
        assert(submap_of(f.label_selector@, c.config.labels@));
    }
}

/// The first position of an id in a list of ids.
fn find_id_pos(list: &Vec<String>, id: &String) -> (r: Option<usize>)
    ensures
        match r {
            Some(i) => id_found_at(list@, id@, i as int),
            None => forall|j: int| 0 <= j < list@.len() ==> list@[j]@ != id@,
        },
{
    let m = list.len();
    let mut pos: usize = 0;
    while pos < m
        invariant
            m == list@.len(),
            0 <= pos <= m,
            forall|j: int| 0 <= j < pos ==> list@[j]@ != id@,
        decreases m - pos,
    {
        if list[pos] == *id {
            return Some(pos);
        }
        pos = pos + 1;
    }
    None
}

/// Whether the sandbox passes the filter, computed.
fn sandbox_matches_exec(s: &UserSandbox, f: &PodSandboxFilter) -> (r: bool)
    requires
        s.wf(),
        f.wf(),
    ensures
        r == sandbox_matches(*s, *f),
{
    let id_ok = f.id.as_str().is_empty() || s.inner.id == f.id;
    let state_ok = match &f.state {
        Some(sv) => sv.state == s.inner.state,
        None => true,
    };
    let labels_ok = f.label_selector.is_empty() || has_labels(&f.label_selector, &s.inner.labels);
    id_ok && state_ok && labels_ok
}

/// The requested handler name is one the runtime knows.
pub open spec fn handler_ok(requested: Seq<char>) -> bool {
    requested == ""@ || requested == "WASI"@ || requested == "WASCC"@
}

/// The handler name a sandbox records for a request: the default unless
/// the actor runtime was asked for.
pub open spec fn resolved_handler(requested: Seq<char>) -> Seq<char> {
    if requested == "WASCC"@ {
        "WASCC"@
    } else {
        "WASI"@
    }
}

/// `ns` is the sandbox a successful run call makes: ready, empty, carrying
/// the configuration's descriptor and maps under the fresh id.
pub open spec fn sandbox_created(
    ns: UserSandbox,
    conf: PodSandboxConfig,
    requested: Seq<char>,
    id: String,
) -> bool {
    &&& ns.inner.id == id
    &&& ns.inner.metadata == conf.metadata
    &&& ns.inner.state == PodSandboxState::Ready
    &&& ns.inner.labels@ == conf.labels@
    &&& ns.inner.annotations@ == conf.annotations@
    &&& ns.inner.runtime_handler@ == resolved_handler(requested)
    &&& ns.running_containers@ == Seq::<String>::empty()
}

/// The sandbox passes the filter: id equality when asked, state equality
/// when asked, and every selector label present.
pub open spec fn sandbox_matches(s: UserSandbox, f: PodSandboxFilter) -> bool {
    &&& f.id@.len() == 0 || s.inner.id@ == f.id@
    &&& match f.state {
        Some(sv) => s.inner.state == sv.state,
        None => true,
    }
    &&& f.label_selector@ == Map::<Seq<char>, Seq<char>>::empty() || submap_of(
        f.label_selector@,
        s.inner.labels@,
    )
}

/// The sandbox a listing keeps under the request's filter; no filter keeps
/// everything.
pub open spec fn list_sandbox_keeps(req: ListPodSandboxRequest, s: UserSandbox) -> bool {
    match req.filter {
        Some(f) => sandbox_matches(s, f),
        None => true,
    }
}

/// `ns` is `s0` driven to not ready, its attached containers drained.
pub open spec fn sandbox_stopped(ns: UserSandbox, s0: UserSandbox) -> bool {
    &&& ns.inner.id == s0.inner.id
    &&& ns.inner.metadata == s0.inner.metadata
    &&& ns.inner.state == PodSandboxState::NotReady
    &&& ns.inner.created_at == s0.inner.created_at
    &&& ns.inner.labels@ == s0.inner.labels@
    &&& ns.inner.annotations@ == s0.inner.annotations@
    &&& ns.inner.runtime_handler == s0.inner.runtime_handler
    &&& ns.running_containers@ == Seq::<String>::empty()
}

/// The tokens held for the given container ids, in order; ids without a
/// token contribute nothing.
pub open spec fn collect_tokens(
    tokens: Seq<(String, ContainerCancellationToken)>,
    ids: Seq<String>,
) -> Seq<ContainerCancellationToken>
    decreases ids.len(),
{
    if ids.len() == 0 {
        Seq::empty()
    } else {
        let rest = collect_tokens(tokens, ids.drop_last());
        if has_token(tokens, ids.last()@) {
            rest.push(tokens[token_index(tokens, ids.last()@)].1)
        } else {
            rest
        }
    }
}

/// Every id of the list that holds a token has that token among the
/// collected ones.
pub proof fn lemma_collect_tokens_complete(
    tokens: Seq<(String, ContainerCancellationToken)>,
    ids: Seq<String>,
    k: int,
)
    requires
        0 <= k < ids.len(),
        has_token(tokens, ids[k]@),
    ensures
        collect_tokens(tokens, ids).contains(tokens[token_index(tokens, ids[k]@)].1),
    decreases ids.len(),
{
    if k == ids.len() - 1 {
        let rest = collect_tokens(tokens, ids.drop_last());
        assert(collect_tokens(tokens, ids).last() == tokens[token_index(tokens, ids[k]@)].1);
    } else {
        assert(ids.drop_last()[k] == ids[k]);
        lemma_collect_tokens_complete(tokens, ids.drop_last(), k);
        let t = tokens[token_index(tokens, ids[k]@)].1;
        let rest = collect_tokens(tokens, ids.drop_last());
        let j = choose|j: int| 0 <= j < rest.len() && rest[j] == t;
        assert(collect_tokens(tokens, ids)[j] == t);
    }
}

/// The containers left after removing the entries with the given ids, in
/// order; ids without an entry remove nothing.
pub open spec fn remove_containers(cs: Seq<UserContainer>, ids: Seq<String>) -> Seq<UserContainer>
    decreases ids.len(),
{
    if ids.len() == 0 {
        cs
    } else {
        let prev = remove_containers(cs, ids.drop_last());
        if has_container(prev, ids.last()@) {
            prev.remove(container_index(prev, ids.last()@))
        } else {
            prev
        }
    }
}

/// The running-set left after evicting the entries for the given ids, in
/// order.
pub open spec fn remove_tokens(
    ts: Seq<(String, ContainerCancellationToken)>,
    ids: Seq<String>,
) -> Seq<(String, ContainerCancellationToken)>
    decreases ids.len(),
{
    if ids.len() == 0 {
        ts
    } else {
        let prev = remove_tokens(ts, ids.drop_last());
        if has_token(prev, ids.last()@) {
            prev.remove(token_index(prev, ids.last()@))
        } else {
            prev
        }
    }
}

/// The tokens met while evicting the given ids in order: what the
/// embedding must still signal after a removal sweep.
pub open spec fn collected_signals(
    ts: Seq<(String, ContainerCancellationToken)>,
    ids: Seq<String>,
) -> Seq<ContainerCancellationToken>
    decreases ids.len(),
{
    if ids.len() == 0 {
        Seq::empty()
    } else {
        let prev = remove_tokens(ts, ids.drop_last());
        let rest = collected_signals(ts, ids.drop_last());
        if has_token(prev, ids.last()@) {
            rest.push(prev[token_index(prev, ids.last()@)].1)
        } else {
            rest
        }
    }
}

/// `i` is the first position of `id` in the list.
pub open spec fn id_found_at(ids: Seq<String>, id: Seq<char>, i: int) -> bool {
    &&& 0 <= i < ids.len()
    &&& ids[i]@ == id
    &&& forall|j: int| 0 <= j < i ==> ids[j]@ != id
}

/// The list with the first occurrence of `id` taken out, where one exists.
pub open spec fn remove_first_id(ids: Seq<String>, id: Seq<char>) -> Seq<String> {
    if exists|i: int| #[trigger] id_found_at(ids, id, i) {
        ids.remove(choose|i: int| #[trigger] id_found_at(ids, id, i))
    } else {
        ids
    }
}

pub proof fn lemma_id_found_at_unique(ids: Seq<String>, id: Seq<char>, i1: int, i2: int)
    requires
        id_found_at(ids, id, i1),
        id_found_at(ids, id, i2),
    ensures
        i1 == i2,
{
    if i1 < i2 {
        assert(ids[i1]@ != id);
    }
    if i2 < i1 {
        assert(ids[i2]@ != id);
    }
}

/// `ns` is `s0` with one attached container struck off.
pub open spec fn sandbox_without_container(ns: UserSandbox, s0: UserSandbox, id: Seq<char>) -> bool {
    &&& ns.inner.like(&s0.inner)
    &&& ns.running_containers@ == remove_first_id(s0.running_containers@, id)
}

/// One generated volume mount: the host path is `volumes/` plus a fresh
/// identifier, the rest copies the requested mount.
pub open spec fn volume_generated(v: Mount, m: Mount) -> bool {
    &&& v.container_path == m.container_path
    &&& v.propagation == m.propagation
    &&& v.readonly == m.readonly
    &&& v.selinux_relabel == m.selinux_relabel
    &&& v.host_path@.len() == 44
    &&& v.host_path@.subrange(0, 8) == "volumes/"@
    &&& is_uuid_text(v.host_path@.skip(8))
}

pub open spec fn volumes_generated(vols: Seq<Mount>, mounts: Seq<Mount>) -> bool {
    &&& vols.len() == mounts.len()
    &&& forall|k: int| 0 <= k < mounts.len() ==> volume_generated(#[trigger] vols[k], mounts[k])
}

/// The log file a container writes to: the sandbox's log directory joined
/// with the container's log path, or nothing when either is empty.
pub open spec fn composed_log_path(
    sandbox_config: Option<PodSandboxConfig>,
    config_log_path: Seq<char>,
) -> Option<Seq<char>> {
    match sandbox_config {
        Some(sc) => if sc.log_directory@.len() > 0 && config_log_path.len() > 0 {
            Some(sc.log_directory@ + "/"@ + config_log_path)
        } else {
            None
        },
        None => None,
    }
}

/// `nc` is the container a successful create call makes.
pub open spec fn container_created(
    nc: UserContainer,
    id: String,
    pod_sandbox_id: String,
    conf: ContainerConfig,
    sandbox_config: Option<PodSandboxConfig>,
) -> bool {
    &&& nc.id == id
    &&& nc.pod_sandbox_id == pod_sandbox_id
    &&& nc.state == ContainerState::Created
    &&& nc.config.like(&conf)
    &&& conf.image is Some && nc.image_ref == conf.image.unwrap().image
    &&& match nc.log_path {
        Some(p) => composed_log_path(sandbox_config, conf.log_path@) == Some(p@),
        None => composed_log_path(sandbox_config, conf.log_path@) is None,
    }
    &&& volumes_generated(nc.volumes@, conf.mounts@)
}

/// `ns` is `s0` with one more container attached.
pub open spec fn sandbox_with_container(ns: UserSandbox, s0: UserSandbox, cid: String) -> bool {
    &&& ns.inner.like(&s0.inner)
    &&& ns.running_containers@ == s0.running_containers@.push(cid)
}

/// `nc` is `c0` driven to running.
pub open spec fn container_running(nc: UserContainer, c0: UserContainer) -> bool {
    &&& nc.id == c0.id
    &&& nc.pod_sandbox_id == c0.pod_sandbox_id
    &&& nc.image_ref == c0.image_ref
    &&& nc.created_at == c0.created_at
    &&& nc.state == ContainerState::Running
    &&& nc.config.like(&c0.config)
    &&& nc.log_path == c0.log_path
    &&& nc.volumes@ == c0.volumes@
}

/// The environment list projected into a map; a later entry for the same
/// key wins.
pub open spec fn env_map_of(envs: Seq<KeyValue>) -> Map<Seq<char>, Seq<char>>
    decreases envs.len(),
{
    if envs.len() == 0 {
        Map::empty()
    } else {
        env_map_of(envs.drop_last()).insert(envs.last().key@, envs.last().value@)
    }
}

/// The container passes the filter: id, state and sandbox equality when
/// asked, and every selector label present.
pub open spec fn container_matches(c: UserContainer, f: ContainerFilter) -> bool {
    &&& f.id@.len() == 0 || c.id@ == f.id@
    &&& match f.state {
        Some(sv) => c.state == sv.state,
        None => true,
    }
    &&& f.pod_sandbox_id@.len() == 0 || c.pod_sandbox_id@ == f.pod_sandbox_id@
    &&& f.label_selector@ == Map::<Seq<char>, Seq<char>>::empty() || submap_of(
        f.label_selector@,
        c.config.labels@,
    )
}

pub open spec fn list_container_keeps(req: ListContainersRequest, c: UserContainer) -> bool {
    match req.filter {
        Some(f) => container_matches(c, f),
        None => true,
    }
}

/// The stats filter: as the container filter, without a state.
pub open spec fn stats_matches(c: UserContainer, f: ContainerStatsFilter) -> bool {
    &&& f.id@.len() == 0 || c.id@ == f.id@
    &&& f.pod_sandbox_id@.len() == 0 || c.pod_sandbox_id@ == f.pod_sandbox_id@
    &&& f.label_selector@ == Map::<Seq<char>, Seq<char>>::empty() || submap_of(
        f.label_selector@,
        c.config.labels@,
    )
}

pub open spec fn list_stats_keeps(req: ListContainerStatsRequest, c: UserContainer) -> bool {
    match req.filter {
        Some(f) => stats_matches(c, f),
        None => true,
    }
}

/// What starting a container needs from the engines: which family to run,
/// where the module file lies, and the environment, arguments, log file
/// and actor key to bind. The embedding loads and runs the module, then
/// commits the start with a token.
#[derive(Debug)]
pub struct StartPlan {
    pub container_id: String,
    pub handler: RuntimeHandler,
    pub wasm_path: String,
    pub args: Vec<String>,
    pub env: StringMap,
    pub log_path: Option<String>,
    pub actor_key: Option<String>,
}

/// The network range a configuration update carries; empty when any layer
/// of the request leaves it out.
pub open spec fn requested_cidr(req: &UpdateRuntimeConfigRequest) -> Seq<char> {
    match req.runtime_config {
        Some(rc) => match rc.network_config {
            Some(nc) => nc.pod_cidr@,
            None => Seq::empty(),
        },
        None => Seq::empty(),
    }
}

} // verus!
