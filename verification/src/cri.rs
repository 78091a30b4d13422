//! The data model of the RPC surface: sandboxes, containers, their
//! configurations, filters, and the request and response records. These are
//! plain values; the wire machinery around them lives outside the library.
use vstd::prelude::*;

use crate::store::Module;
use crate::strmap::StringMap;

verus! {

/// What a call can fail with, named after the protocol's status codes.
#[derive(Clone, Copy, Debug, PartialEq, Eq, Structural)]
pub enum ErrorCode {
    InvalidArgument,
    NotFound,
    FailedPrecondition,
    Internal,
    Unimplemented,
}

/// The state a sandbox is in; a fresh sandbox is ready.
#[derive(Clone, Copy, Debug, PartialEq, Eq, Structural)]
pub enum PodSandboxState {
    Ready,
    NotReady,
}

/// The state a container is in; a fresh container is created, not running.
#[derive(Clone, Copy, Debug, PartialEq, Eq, Structural)]
pub enum ContainerState {
    Created,
    Running,
    Exited,
    Unknown,
}

/// An image name as the orchestrator spells it.
#[derive(Debug)]
pub struct ImageSpec {
    pub image: String,
}

impl Clone for ImageSpec {
    fn clone(&self) -> (r: Self)
        ensures
            r == *self,
    {
        ImageSpec { image: self.image.clone() }
    }
}

/// One environment entry.
#[derive(Debug)]
pub struct KeyValue {
    pub key: String,
    pub value: String,
}

impl Clone for KeyValue {
    fn clone(&self) -> (r: Self)
        ensures
            r == *self,
    {
        KeyValue { key: self.key.clone(), value: self.value.clone() }
    }
}

/// A volume mount: where the host path appears inside the container.
#[derive(Debug)]
pub struct Mount {
    pub container_path: String,
    pub host_path: String,
    pub propagation: i32,
    pub readonly: bool,
    pub selinux_relabel: bool,
}

impl Clone for Mount {
    fn clone(&self) -> (r: Self)
        ensures
            r == *self,
    {
        Mount {
            container_path: self.container_path.clone(),
            host_path: self.host_path.clone(),
            propagation: self.propagation,
            readonly: self.readonly,
            selinux_relabel: self.selinux_relabel,
        }
    }
}

/// The orchestrator's name and attempt counter for a container.
#[derive(Debug)]
pub struct ContainerMetadata {
    pub name: String,
    pub attempt: u32,
}

impl Clone for ContainerMetadata {
    fn clone(&self) -> (r: Self)
        ensures
            r == *self,
    {
        ContainerMetadata { name: self.name.clone(), attempt: self.attempt }
    }
}

/// The orchestrator's descriptor for a sandbox.
#[derive(Debug)]
pub struct PodSandboxMetadata {
    pub name: String,
    pub uid: String,
    pub namespace: String,
    pub attempt: u32,
}

impl Clone for PodSandboxMetadata {
    fn clone(&self) -> (r: Self)
        ensures
            r == *self,
    {
        PodSandboxMetadata {
            name: self.name.clone(),
            uid: self.uid.clone(),
            namespace: self.namespace.clone(),
            attempt: self.attempt,
        }
    }
}

/// One condition of the runtime's status report.
#[derive(Debug)]
pub struct RuntimeCondition {
    pub condition_type: String,
    pub status: bool,
    pub reason: String,
    pub message: String,
}

impl Clone for RuntimeCondition {
    fn clone(&self) -> (r: Self)
        ensures
            r == *self,
    {
        RuntimeCondition {
            condition_type: self.condition_type.clone(),
            status: self.status,
            reason: self.reason.clone(),
            message: self.message.clone(),
        }
    }
}

/// The sandbox configuration the orchestrator hands to `run_pod_sandbox`.
#[derive(Debug)]
pub struct PodSandboxConfig {
    pub metadata: Option<PodSandboxMetadata>,
    pub log_directory: String,
    pub labels: StringMap,
    pub annotations: StringMap,
}

impl PodSandboxConfig {
    pub open spec fn wf(&self) -> bool {
        self.labels.wf() && self.annotations.wf()
    }
}

impl Default for PodSandboxConfig {
    fn default() -> (r: Self)
        ensures
            r.wf(),
            r.metadata is None,
            r.log_directory@ == Seq::<char>::empty(),
            r.labels@ == Map::<Seq<char>, Seq<char>>::empty(),
            r.annotations@ == Map::<Seq<char>, Seq<char>>::empty(),
    {
        PodSandboxConfig {
            metadata: None,
            log_directory: String::new(),
            labels: StringMap::new(),
            annotations: StringMap::new(),
        }
    }
}

/// The container configuration the orchestrator hands to `create_container`.
#[derive(Debug)]
pub struct ContainerConfig {
    pub metadata: Option<ContainerMetadata>,
    pub image: Option<ImageSpec>,
    pub args: Vec<String>,
    pub envs: Vec<KeyValue>,
    pub mounts: Vec<Mount>,
    pub labels: StringMap,
    pub annotations: StringMap,
    pub log_path: String,
}

impl ContainerConfig {
    pub open spec fn wf(&self) -> bool {
        self.labels.wf() && self.annotations.wf()
    }

    /// Field-for-field sameness, up to map and vector contents.
    pub open spec fn like(&self, other: &ContainerConfig) -> bool {
        &&& self.metadata == other.metadata
        &&& self.image == other.image
        &&& self.args@ == other.args@
        &&& self.envs@ == other.envs@
        &&& self.mounts@ == other.mounts@
        &&& self.labels@ == other.labels@
        &&& self.labels.wf() == other.labels.wf()
        &&& self.annotations@ == other.annotations@
        &&& self.annotations.wf() == other.annotations.wf()
        &&& self.log_path == other.log_path
    }
}

impl Default for ContainerConfig {
    fn default() -> (r: Self)
        ensures
            r.wf(),
            r.metadata is None,
            r.image is None,
            r.args@ == Seq::<String>::empty(),
            r.envs@ == Seq::<KeyValue>::empty(),
            r.mounts@ == Seq::<Mount>::empty(),
            r.labels@ == Map::<Seq<char>, Seq<char>>::empty(),
            r.annotations@ == Map::<Seq<char>, Seq<char>>::empty(),
            r.log_path@ == Seq::<char>::empty(),
    {
        ContainerConfig {
            metadata: None,
            image: None,
            args: Vec::new(),
            envs: Vec::new(),
            mounts: Vec::new(),
            labels: StringMap::new(),
            annotations: StringMap::new(),
            log_path: String::new(),
        }
    }
}

impl Clone for ContainerConfig {
    fn clone(&self) -> (r: Self)
        ensures
            r.like(self),
    {
        let mut args: Vec<String> = Vec::new();
        let mut i: usize = 0;
        let n = self.args.len();
        while i < n
            invariant
                n == self.args@.len(),
                0 <= i <= n,
                args@.len() == i,
                forall|j: int| 0 <= j < i ==> args@[j] == self.args@[j],
            decreases n - i,
        {
            args.push(self.args[i].clone());
            i = i + 1;
        }
        let mut envs: Vec<KeyValue> = Vec::new();
        let mut i: usize = 0;
        let n = self.envs.len();
        while i < n
            invariant
                n == self.envs@.len(),
                0 <= i <= n,
                envs@.len() == i,
                forall|j: int| 0 <= j < i ==> envs@[j] == self.envs@[j],
            decreases n - i,
        {
            envs.push(self.envs[i].clone());
            i = i + 1;
        }
        let mut mounts: Vec<Mount> = Vec::new();
        let mut i: usize = 0;
        let n = self.mounts.len();
        while i < n
            invariant
                n == self.mounts@.len(),
                0 <= i <= n,
                mounts@.len() == i,
                forall|j: int| 0 <= j < i ==> mounts@[j] == self.mounts@[j],
            decreases n - i,
        {
            mounts.push(self.mounts[i].clone());
            i = i + 1;
        }
        let r = ContainerConfig {
            metadata: self.metadata.clone(),
            image: self.image.clone(),
            args,
            envs,
            mounts,
            labels: self.labels.clone(),
            annotations: self.annotations.clone(),
            log_path: self.log_path.clone(),
        };
        proof {
            assert(r.args@ =~= self.args@);
            assert(r.envs@ =~= self.envs@);
            assert(r.mounts@ =~= self.mounts@);
            assert(r.metadata == self.metadata);
            assert(r.image == self.image);
        }
        r
    }
}

/// A pod sandbox as the registry holds it.
#[derive(Debug)]
pub struct PodSandbox {
    pub id: String,
    pub metadata: Option<PodSandboxMetadata>,
    pub state: PodSandboxState,
    pub created_at: i64,
    pub labels: StringMap,
    pub annotations: StringMap,
    pub runtime_handler: String,
}

impl PodSandbox {
    pub open spec fn wf(&self) -> bool {
        self.labels.wf() && self.annotations.wf()
    }

    /// Field-for-field sameness, up to map contents.
    pub open spec fn like(&self, other: &PodSandbox) -> bool {
        &&& self.id == other.id
        &&& self.metadata == other.metadata
        &&& self.state == other.state
        &&& self.created_at == other.created_at
        &&& self.labels@ == other.labels@
        &&& self.labels.wf() == other.labels.wf()
        &&& self.annotations@ == other.annotations@
        &&& self.annotations.wf() == other.annotations.wf()
        &&& self.runtime_handler == other.runtime_handler
    }
}

impl Clone for PodSandbox {
    fn clone(&self) -> (r: Self)
        ensures
            r.like(self),
    {
        PodSandbox {
            id: self.id.clone(),
            metadata: self.metadata.clone(),
            state: self.state,
            created_at: self.created_at,
            labels: self.labels.clone(),
            annotations: self.annotations.clone(),
            runtime_handler: self.runtime_handler.clone(),
        }
    }
}

impl Default for PodSandbox {
    fn default() -> (r: Self)
        ensures
            r.wf(),
            r.id@ == Seq::<char>::empty(),
            r.metadata is None,
            r.state == PodSandboxState::Ready,
            r.created_at == 0,
            r.labels@ == Map::<Seq<char>, Seq<char>>::empty(),
            r.annotations@ == Map::<Seq<char>, Seq<char>>::empty(),
            r.runtime_handler@ == Seq::<char>::empty(),
    {
        PodSandbox {
            id: String::new(),
            metadata: None,
            state: PodSandboxState::Ready,
            created_at: 0,
            labels: StringMap::new(),
            annotations: StringMap::new(),
            runtime_handler: String::new(),
        }
    }
}

/// A container as the registry holds it: the orchestrator's configuration
/// plus what the runtime decided for it.
#[derive(Debug)]
pub struct UserContainer {
    pub id: String,
    pub pod_sandbox_id: String,
    pub image_ref: String,
    pub created_at: i64,
    pub state: ContainerState,
    pub config: ContainerConfig,
    pub log_path: Option<String>,
    pub volumes: Vec<Mount>,
}

impl UserContainer {
    pub open spec fn wf(&self) -> bool {
        self.config.wf()
    }
}

impl Default for UserContainer {
    fn default() -> (r: Self)
        ensures
            r.wf(),
            r.id@ == Seq::<char>::empty(),
            r.pod_sandbox_id@ == Seq::<char>::empty(),
            r.image_ref@ == Seq::<char>::empty(),
            r.created_at == 0,
            r.state == ContainerState::Created,
            r.config.metadata is None && r.config.image is None,
            r.config.labels@ == Map::<Seq<char>, Seq<char>>::empty(),
            r.config.annotations@ == Map::<Seq<char>, Seq<char>>::empty(),
            r.log_path is None,
            r.volumes@ == Seq::<Mount>::empty(),
    {
        UserContainer {
            id: String::new(),
            pod_sandbox_id: String::new(),
            image_ref: String::new(),
            created_at: 0,
            state: ContainerState::Created,
            config: ContainerConfig::default(),
            log_path: None,
            volumes: Vec::new(),
        }
    }
}

/// A container as listings report it.
#[derive(Debug)]
pub struct Container {
    pub id: String,
    pub pod_sandbox_id: String,
    pub image: Option<ImageSpec>,
    pub created_at: i64,
    pub image_ref: String,
    pub annotations: StringMap,
    pub labels: StringMap,
    pub state: ContainerState,
    pub metadata: Option<ContainerMetadata>,
}

/// `r` reports exactly the container `u`.
pub open spec fn renders_container(r: Container, u: UserContainer) -> bool {
    &&& r.id == u.id
    &&& r.pod_sandbox_id == u.pod_sandbox_id
    &&& r.image == u.config.image
    &&& r.created_at == u.created_at
    &&& r.image_ref == u.image_ref
    &&& r.annotations@ == u.config.annotations@
    &&& r.labels@ == u.config.labels@
    &&& r.state == u.state
    &&& r.metadata == u.config.metadata
}

/// Render one container for a listing.
pub fn container_from(item: &UserContainer) -> (r: Container)
    ensures
        renders_container(r, *item),
{
    Container {
        id: item.id.clone(),
        pod_sandbox_id: item.pod_sandbox_id.clone(),
        image: item.config.image.clone(),
        created_at: item.created_at,
        image_ref: item.image_ref.clone(),
        annotations: item.config.annotations.clone(),
        labels: item.config.labels.clone(),
        state: item.state,
        metadata: item.config.metadata.clone(),
    }
}

/// A 64-bit counter wrapped the way the protocol carries it.
#[derive(Debug)]
pub struct UInt64Value {
    pub value: u64,
}

impl Clone for UInt64Value {
    fn clone(&self) -> (r: Self)
        ensures
            r == *self,
    {
        UInt64Value { value: self.value }
    }
}

/// Processor time consumed, by timestamp.
#[derive(Debug)]
pub struct CpuUsage {
    pub timestamp: i64,
    pub usage_core_nano_seconds: Option<UInt64Value>,
}

/// Resident memory, by timestamp.
#[derive(Debug)]
pub struct MemoryUsage {
    pub timestamp: i64,
    pub working_set_bytes: Option<UInt64Value>,
}

/// The filesystem a store keeps its artifacts on.
#[derive(Debug)]
pub struct FilesystemIdentifier {
    pub mountpoint: String,
}

/// Usage of one filesystem at one moment.
#[derive(Debug)]
pub struct FilesystemUsage {
    pub timestamp: i64,
    pub fs_id: Option<FilesystemIdentifier>,
    pub used_bytes: Option<UInt64Value>,
    pub inodes_used: Option<UInt64Value>,
}

/// The identifying part of a container's stats.
#[derive(Debug)]
pub struct ContainerAttributes {
    pub id: String,
    pub metadata: Option<ContainerMetadata>,
    pub labels: StringMap,
    pub annotations: StringMap,
}

/// A container's stats record: attributes only in this revision, the
/// measurements pending runtime instrumentation.
#[derive(Debug)]
pub struct ContainerStats {
    pub attributes: Option<ContainerAttributes>,
    pub cpu: Option<CpuUsage>,
    pub memory: Option<MemoryUsage>,
    pub writable_layer: Option<FilesystemUsage>,
}

/// `r` reports exactly the attributes of `u`, and no measurements.
pub open spec fn renders_stats(r: ContainerStats, u: UserContainer) -> bool {
    &&& r.attributes is Some
    &&& r.attributes.unwrap().id == u.id
    &&& r.attributes.unwrap().metadata == u.config.metadata
    &&& r.attributes.unwrap().labels@ == u.config.labels@
    &&& r.attributes.unwrap().annotations@ == u.config.annotations@
    &&& r.cpu is None
    &&& r.memory is None
    &&& r.writable_layer is None
}

/// Render one container's stats.
pub fn stats_from(item: &UserContainer) -> (r: ContainerStats)
    ensures
        renders_stats(r, *item),
{
    ContainerStats {
        attributes: Some(ContainerAttributes {
            id: item.id.clone(),
            metadata: item.config.metadata.clone(),
            labels: item.config.labels.clone(),
            annotations: item.config.annotations.clone(),
        }),
        cpu: None,
        memory: None,
        writable_layer: None,
    }
}

/// A sandbox's reported address; unset while networking is unimplemented.
#[derive(Debug)]
pub struct PodSandboxNetworkStatus {
    pub ip: String,
}

/// The platform-specific part of a sandbox status; unused here.
#[derive(Debug)]
pub struct LinuxPodSandboxStatus {
}

/// A sandbox rendered as a status.
#[derive(Debug)]
pub struct PodSandboxStatus {
    pub id: String,
    pub metadata: Option<PodSandboxMetadata>,
    pub state: PodSandboxState,
    pub created_at: i64,
    pub labels: StringMap,
    pub annotations: StringMap,
    pub runtime_handler: String,
    pub network: Option<PodSandboxNetworkStatus>,
    pub linux: Option<LinuxPodSandboxStatus>,
}

/// `r` reports exactly the sandbox `s`, network and platform parts unset.
pub open spec fn renders_sandbox_status(r: PodSandboxStatus, s: PodSandbox) -> bool {
    &&& r.id == s.id
    &&& r.metadata == s.metadata
    &&& r.state == s.state
    &&& r.created_at == s.created_at
    &&& r.labels@ == s.labels@
    &&& r.annotations@ == s.annotations@
    &&& r.runtime_handler == s.runtime_handler
    &&& r.network is None
    &&& r.linux is None
}

/// Render one sandbox as a status.
pub fn sandbox_status_from(item: &PodSandbox) -> (r: PodSandboxStatus)
    ensures
        renders_sandbox_status(r, *item),
{
    PodSandboxStatus {
        id: item.id.clone(),
        metadata: item.metadata.clone(),
        state: item.state,
        created_at: item.created_at,
        labels: item.labels.clone(),
        annotations: item.annotations.clone(),
        runtime_handler: item.runtime_handler.clone(),
        network: None,
        linux: None,
    }
}

/// A container rendered as a status.
#[derive(Debug)]
pub struct ContainerStatus {
    pub id: String,
    pub metadata: Option<ContainerMetadata>,
    pub state: ContainerState,
    pub created_at: i64,
    pub started_at: i64,
    pub finished_at: i64,
    pub exit_code: i32,
    pub image: Option<ImageSpec>,
    pub image_ref: String,
    pub reason: String,
    pub message: String,
    pub labels: StringMap,
    pub annotations: StringMap,
    pub mounts: Vec<Mount>,
    pub log_path: String,
}

/// The filter of sandbox listings.
#[derive(Debug)]
pub struct PodSandboxStateValue {
    pub state: PodSandboxState,
}

#[derive(Debug)]
pub struct PodSandboxFilter {
    pub id: String,
    pub state: Option<PodSandboxStateValue>,
    pub label_selector: StringMap,
}

impl PodSandboxFilter {
    pub open spec fn wf(&self) -> bool {
        self.label_selector.wf()
    }
}

impl Default for PodSandboxFilter {
    fn default() -> (r: Self)
        ensures
            r.wf(),
            r.id@ == Seq::<char>::empty(),
            r.state is None,
            r.label_selector@ == Map::<Seq<char>, Seq<char>>::empty(),
    {
        PodSandboxFilter { id: String::new(), state: None, label_selector: StringMap::new() }
    }
}

/// The filter of container listings.
#[derive(Debug)]
pub struct ContainerStateValue {
    pub state: ContainerState,
}

#[derive(Debug)]
pub struct ContainerFilter {
    pub id: String,
    pub state: Option<ContainerStateValue>,
    pub pod_sandbox_id: String,
    pub label_selector: StringMap,
}

impl ContainerFilter {
    pub open spec fn wf(&self) -> bool {
        self.label_selector.wf()
    }
}

impl Default for ContainerFilter {
    fn default() -> (r: Self)
        ensures
            r.wf(),
            r.id@ == Seq::<char>::empty(),
            r.state is None,
            r.pod_sandbox_id@ == Seq::<char>::empty(),
            r.label_selector@ == Map::<Seq<char>, Seq<char>>::empty(),
    {
        ContainerFilter {
            id: String::new(),
            state: None,
            pod_sandbox_id: String::new(),
            label_selector: StringMap::new(),
        }
    }
}

/// The filter of stats listings: as the container filter, without a state.
#[derive(Debug)]
pub struct ContainerStatsFilter {
    pub id: String,
    pub pod_sandbox_id: String,
    pub label_selector: StringMap,
}

impl ContainerStatsFilter {
    pub open spec fn wf(&self) -> bool {
        self.label_selector.wf()
    }
}

impl Default for ContainerStatsFilter {
    fn default() -> (r: Self)
        ensures
            r.wf(),
            r.id@ == Seq::<char>::empty(),
            r.pod_sandbox_id@ == Seq::<char>::empty(),
            r.label_selector@ == Map::<Seq<char>, Seq<char>>::empty(),
    {
        ContainerStatsFilter {
            id: String::new(),
            pod_sandbox_id: String::new(),
            label_selector: StringMap::new(),
        }
    }
}

#[derive(Debug)]
pub struct VersionRequest {
}

#[derive(Debug)]
pub struct StatusRequest {
    pub verbose: bool,
}

/// The network piece of a runtime configuration update.
#[derive(Debug)]
pub struct NetworkConfig {
    pub pod_cidr: String,
}

#[derive(Debug)]
pub struct RuntimeConfig {
    pub network_config: Option<NetworkConfig>,
}

#[derive(Debug)]
pub struct UpdateRuntimeConfigRequest {
    pub runtime_config: Option<RuntimeConfig>,
}

#[derive(Debug)]
pub struct UpdateRuntimeConfigResponse {
}

#[derive(Debug)]
pub struct ListPodSandboxRequest {
    pub filter: Option<PodSandboxFilter>,
}

#[derive(Debug)]
pub struct StopPodSandboxRequest {
    pub pod_sandbox_id: String,
}

#[derive(Debug)]
pub struct StopPodSandboxResponse {
}

#[derive(Debug)]
pub struct RemovePodSandboxRequest {
    pub pod_sandbox_id: String,
}

#[derive(Debug)]
pub struct RemovePodSandboxResponse {
}

#[derive(Debug)]
pub struct PodSandboxStatusRequest {
    pub pod_sandbox_id: String,
    pub verbose: bool,
}

#[derive(Debug)]
pub struct StartContainerRequest {
    pub container_id: String,
}

#[derive(Debug)]
pub struct StartContainerResponse {
}

#[derive(Debug)]
pub struct StopContainerRequest {
    pub container_id: String,
    pub timeout: i64,
}

#[derive(Debug)]
pub struct StopContainerResponse {
}

#[derive(Debug)]
pub struct RemoveContainerRequest {
    pub container_id: String,
}

#[derive(Debug)]
pub struct RemoveContainerResponse {
}

#[derive(Debug)]
pub struct ListContainersRequest {
    pub filter: Option<ContainerFilter>,
}

#[derive(Debug)]
pub struct ContainerStatusRequest {
    pub container_id: String,
    pub verbose: bool,
}

#[derive(Debug)]
pub struct ContainerStatsRequest {
    pub container_id: String,
}

#[derive(Debug)]
pub struct ListContainerStatsRequest {
    pub filter: Option<ContainerStatsFilter>,
}

#[derive(Debug)]
pub struct ListImagesRequest {
}

#[derive(Debug)]
pub struct ImageStatusRequest {
    pub image: Option<ImageSpec>,
    pub verbose: bool,
}

#[derive(Debug)]
pub struct PullImageRequest {
    pub image: Option<ImageSpec>,
}

#[derive(Debug)]
pub struct ImageFsInfoRequest {
}

#[derive(Debug)]
pub struct RemoveImageRequest {
    pub image: Option<ImageSpec>,
}

#[derive(Debug)]
pub struct RemoveImageResponse {
}

/// The version report.
#[derive(Debug)]
pub struct VersionResponse {
    pub version: String,
    pub runtime_name: String,
    pub runtime_version: String,
    pub runtime_api_version: String,
}

/// The runtime's status report.
#[derive(Debug)]
pub struct RuntimeStatus {
    pub conditions: Vec<RuntimeCondition>,
}

#[derive(Debug)]
pub struct StatusResponse {
    pub status: Option<RuntimeStatus>,
    pub info: StringMap,
}

#[derive(Debug)]
pub struct RunPodSandboxRequest {
    pub config: Option<PodSandboxConfig>,
    pub runtime_handler: String,
}

#[derive(Debug)]
pub struct RunPodSandboxResponse {
    pub pod_sandbox_id: String,
}

#[derive(Debug)]
pub struct CreateContainerRequest {
    pub pod_sandbox_id: String,
    pub config: Option<ContainerConfig>,
    pub sandbox_config: Option<PodSandboxConfig>,
}

#[derive(Debug)]
pub struct CreateContainerResponse {
    pub container_id: String,
}

#[derive(Debug)]
pub struct ListPodSandboxResponse {
    pub items: Vec<PodSandbox>,
}

#[derive(Debug)]
pub struct ListContainersResponse {
    pub containers: Vec<Container>,
}

#[derive(Debug)]
pub struct PodSandboxStatusResponse {
    pub status: Option<PodSandboxStatus>,
    pub info: StringMap,
}

#[derive(Debug)]
pub struct ContainerStatusResponse {
    pub status: Option<ContainerStatus>,
    pub info: StringMap,
}

#[derive(Debug)]
pub struct ContainerStatsResponse {
    pub stats: Option<ContainerStats>,
}

#[derive(Debug)]
pub struct ListContainerStatsResponse {
    pub stats: Vec<ContainerStats>,
}

/// The image service's filesystem report.
#[derive(Debug)]
pub struct ImageFsInfoResponse {
    pub image_filesystems: Vec<FilesystemUsage>,
}

#[derive(Debug)]
pub struct ImageStatusResponse {
    pub image: Option<Module>,
    pub info: StringMap,
}

#[derive(Debug)]
pub struct PullImageResponse {
    pub image_ref: String,
}

#[derive(Debug)]
pub struct ListImagesResponse {
    pub images: Vec<Module>,
}

} // verus!
