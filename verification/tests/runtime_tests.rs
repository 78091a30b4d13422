use wok::cri::{
    ContainerConfig, ContainerFilter, ContainerMetadata, ContainerState, ContainerStateValue,
    ContainerStatsFilter, ContainerStatsRequest, ContainerStatusRequest, CreateContainerRequest,
    ErrorCode, ImageSpec, KeyValue, ListContainerStatsRequest, ListContainersRequest,
    ListPodSandboxRequest, NetworkConfig, PodSandbox, PodSandboxFilter, PodSandboxState,
    PodSandboxStateValue, PodSandboxStatusRequest, RemoveContainerRequest,
    RemovePodSandboxRequest, RunPodSandboxRequest, PodSandboxConfig, StartContainerRequest,
    StatusRequest, StopContainerRequest, StopPodSandboxRequest, RuntimeConfig,
    UpdateRuntimeConfigRequest, UserContainer, VersionRequest,
};
use wok::handler::RuntimeHandler;
use wok::registry::UserSandbox;
use wok::runtime::{ContainerCancellationToken, CriRuntimeService};
use wok::strmap::StringMap;

fn service() -> CriRuntimeService {
    CriRuntimeService::new("".to_owned(), None).expect("service over an empty root")
}

fn sandbox(id: &str, state: PodSandboxState) -> UserSandbox {
    UserSandbox {
        inner: PodSandbox {
            id: id.to_owned(),
            state,
            runtime_handler: RuntimeHandler::WASI.to_string(),
            ..Default::default()
        },
        running_containers: vec![],
    }
}

fn container(id: &str, pod: &str, state: ContainerState) -> UserContainer {
    UserContainer {
        id: id.to_owned(),
        pod_sandbox_id: pod.to_owned(),
        image_ref: "doesntmatter".to_owned(),
        state,
        ..Default::default()
    }
}

#[test]
fn test_version() {
    let svc = service();
    let res = svc.version(VersionRequest {});
    assert_eq!(res.version, "0.1.0");
    assert_eq!(res.runtime_api_version, "v1alpha2");
}

#[test]
fn test_update_runtime_config() {
    let mut svc = service();
    svc.update_runtime_config(UpdateRuntimeConfigRequest {
        runtime_config: Some(RuntimeConfig {
            network_config: Some(NetworkConfig { pod_cidr: "192.168.1.0/24".to_owned() }),
        }),
    })
    .expect("successful update config request");
    assert_eq!(svc.pod_cidr().expect("a network range is set"), "192.168.1.0/24");

    // An empty string clears the range again.
    svc.update_runtime_config(UpdateRuntimeConfigRequest {
        runtime_config: Some(RuntimeConfig {
            network_config: Some(NetworkConfig { pod_cidr: "".to_owned() }),
        }),
    })
    .expect("successful clearing update");
    assert!(svc.pod_cidr().is_none());
}

#[test]
fn update_runtime_config_rejects_bad_literals() {
    let mut svc = service();
    let err = svc
        .update_runtime_config(UpdateRuntimeConfigRequest {
            runtime_config: Some(RuntimeConfig {
                network_config: Some(NetworkConfig { pod_cidr: "not-a-network".to_owned() }),
            }),
        })
        .unwrap_err();
    assert_eq!(err, ErrorCode::InvalidArgument);
    assert!(svc.pod_cidr().is_none());
}

#[test]
fn new_service_validates_its_cidr() {
    assert!(CriRuntimeService::new("/tmp".to_owned(), Some("10.0.0.0/8".to_owned())).is_ok());
    match CriRuntimeService::new("/tmp".to_owned(), Some("bogus".to_owned())) {
        Ok(_) => panic!("an invalid network range must be refused"),
        Err(e) => assert_eq!(e, ErrorCode::InvalidArgument),
    }
}

#[test]
fn test_status() {
    let svc = service();
    let res = svc.status(StatusRequest { verbose: false });
    let conditions = res.status.expect("successful status request").conditions;
    assert_eq!(conditions.len(), 2);
    assert_eq!(conditions[0].condition_type, "RuntimeReady");
    assert!(conditions[0].status);
    assert_eq!(conditions[0].reason, "RuntimeStarted");
    assert_eq!(
        conditions[0].message,
        "Runtime has been started and is ready to run modules"
    );
    assert_eq!(conditions[1].condition_type, "NetworkReady");
    assert!(!conditions[1].status);
    assert_eq!(conditions[1].reason, "Unimplemented");
    assert_eq!(conditions[1].message, "Networking is currently unimplemented");

    // Make sure info is empty because it wasn't verbose
    assert!(res.info.is_empty());

    // now double check that info gets data if verbose is requested
    let res = svc.status(StatusRequest { verbose: true });
    let info = res.info;
    assert!(!info.is_empty());
    assert!(info.contains_key(&"running_sandboxes".to_owned()));
    assert!(info.contains_key(&"running_containers".to_owned()));
    assert_eq!(info.get(&"running_sandboxes".to_owned()).unwrap(), "0");
    assert_eq!(info.get(&"running_containers".to_owned()).unwrap(), "0");
}

#[test]
fn test_list_pod_sandbox() {
    let mut svc = service();
    let mut labels = StringMap::new();
    labels.insert("test1".to_owned(), "testing".to_owned());
    let mut first = sandbox("test", PodSandboxState::Ready);
    first.inner.labels = labels.clone();
    svc.insert_sandbox(first);
    svc.insert_sandbox(sandbox("test2", PodSandboxState::Ready));
    svc.insert_sandbox(sandbox("test3", PodSandboxState::NotReady));

    // Nothing set should return all
    let res = svc.list_pod_sandbox(ListPodSandboxRequest {
        filter: Some(PodSandboxFilter::default()),
    });
    assert_eq!(3, res.items.len());

    // Labels should only return matching sandboxes
    let res = svc.list_pod_sandbox(ListPodSandboxRequest {
        filter: Some(PodSandboxFilter { label_selector: labels, ..Default::default() }),
    });
    assert_eq!(1, res.items.len());

    // ID should return a specific sandbox
    let res = svc.list_pod_sandbox(ListPodSandboxRequest {
        filter: Some(PodSandboxFilter { id: "test2".to_owned(), ..Default::default() }),
    });
    assert_eq!(1, res.items.len());

    // Status should return a specific sandbox
    let res = svc.list_pod_sandbox(ListPodSandboxRequest {
        filter: Some(PodSandboxFilter {
            state: Some(PodSandboxStateValue { state: PodSandboxState::NotReady }),
            ..Default::default()
        }),
    });
    assert_eq!(1, res.items.len());
}

#[test]
fn test_pod_sandbox_status() {
    let mut svc = service();
    svc.insert_sandbox(sandbox("1", PodSandboxState::NotReady));
    let res = svc.pod_sandbox_status(PodSandboxStatusRequest {
        pod_sandbox_id: "1".to_owned(),
        verbose: true,
    });
    assert_eq!(
        "1",
        res.expect("status result").status.as_ref().expect("status result").id
    );
}

#[test]
fn pod_sandbox_status_unknown_is_not_found() {
    let svc = service();
    let err = svc
        .pod_sandbox_status(PodSandboxStatusRequest {
            pod_sandbox_id: "nope".to_owned(),
            verbose: false,
        })
        .unwrap_err();
    assert_eq!(err, ErrorCode::NotFound);
}

#[test]
fn test_remove_pod_sandbox() {
    let mut svc = service();
    svc.insert_container(container("test", "1", ContainerState::Created));
    let mut stopped = sandbox("1", PodSandboxState::NotReady);
    stopped.running_containers = vec!["test".to_owned()];
    svc.insert_sandbox(stopped);

    svc.remove_pod_sandbox(RemovePodSandboxRequest { pod_sandbox_id: "1".to_owned() })
        .expect("remove sandbox result");

    assert_eq!(0, svc.sandboxes().len());
    // The attached container leaves the registry with its sandbox.
    assert_eq!(0, svc.containers().len());
}

#[test]
fn remove_pod_sandbox_refuses_a_ready_sandbox() {
    let mut svc = service();
    svc.insert_sandbox(sandbox("ready", PodSandboxState::Ready));
    let err = svc
        .remove_pod_sandbox(RemovePodSandboxRequest { pod_sandbox_id: "ready".to_owned() })
        .unwrap_err();
    assert_eq!(err, ErrorCode::FailedPrecondition);
    assert_eq!(1, svc.sandboxes().len());

    let err = svc
        .remove_pod_sandbox(RemovePodSandboxRequest { pod_sandbox_id: "absent".to_owned() })
        .unwrap_err();
    assert_eq!(err, ErrorCode::NotFound);
}

#[test]
fn test_stop_pod_sandbox() {
    let mut svc = service();
    svc.insert_sandbox(sandbox("test", PodSandboxState::Ready));
    svc.stop_pod_sandbox(StopPodSandboxRequest { pod_sandbox_id: "test".to_owned() })
        .expect("empty stop result");

    // test what happens when the requested pod sandbox doesn't exist
    let res = svc.stop_pod_sandbox(StopPodSandboxRequest {
        pod_sandbox_id: "doesnotexist".to_owned(),
    });
    res.expect_err("pod sandbox does not exist");
}

#[test]
fn stop_pod_sandbox_drains_and_signals() {
    let mut svc = service();
    let mut ready = sandbox("s", PodSandboxState::Ready);
    ready.running_containers = vec!["c1".to_owned(), "c2".to_owned()];
    svc.insert_sandbox(ready);
    svc.insert_token(
        "c1".to_owned(),
        ContainerCancellationToken::WasccCancelationToken("ACTORKEY".to_owned()),
    );

    let signals = svc
        .stop_pod_sandbox(StopPodSandboxRequest { pod_sandbox_id: "s".to_owned() })
        .expect("stop succeeds");
    // Only the container that was running contributes a signal.
    assert_eq!(signals.len(), 1);
    assert_eq!(signals[0].stop().unwrap(), "ACTORKEY");

    let s = svc.sandboxes().get(&"s".to_owned()).unwrap();
    assert_eq!(s.inner.state, PodSandboxState::NotReady);
    assert!(s.running_containers.is_empty());

    // Stopping again still succeeds and has nothing left to signal.
    let signals = svc
        .stop_pod_sandbox(StopPodSandboxRequest { pod_sandbox_id: "s".to_owned() })
        .expect("idempotent stop");
    assert!(signals.is_empty());
}

#[test]
fn test_create_container() {
    let mut svc = service();
    svc.insert_sandbox(sandbox("test", PodSandboxState::Ready));
    let config = ContainerConfig {
        image: Some(ImageSpec { image: "foo/bar:baz".to_owned() }),
        ..Default::default()
    };
    let res = svc.create_container(CreateContainerRequest {
        pod_sandbox_id: "test".to_owned(),
        config: Some(config),
        sandbox_config: None,
    });
    // We can't have a deterministic container id, so just check it is a valid uuid
    uuid::Uuid::parse_str(&res.expect("successful create container").container_id).unwrap();
    assert_eq!(1, svc.containers().len());
}

#[test]
fn create_container_attaches_and_generates_volumes() {
    let mut svc = service();
    svc.insert_sandbox(sandbox("test", PodSandboxState::Ready));
    let config = ContainerConfig {
        image: Some(ImageSpec { image: "foo/bar:baz".to_owned() }),
        mounts: vec![wok::cri::Mount {
            container_path: "/app".to_owned(),
            host_path: "/tmp/app".to_owned(),
            propagation: 0,
            readonly: false,
            selinux_relabel: false,
        }],
        log_path: "c.log".to_owned(),
        ..Default::default()
    };
    let sandbox_config = PodSandboxConfig {
        log_directory: "/var/log/pods".to_owned(),
        ..Default::default()
    };
    let id = svc
        .create_container(CreateContainerRequest {
            pod_sandbox_id: "test".to_owned(),
            config: Some(config),
            sandbox_config: Some(sandbox_config),
        })
        .unwrap()
        .container_id;

    let c = svc.containers().get(&id).expect("container stored");
    assert_eq!(c.pod_sandbox_id, "test");
    assert_eq!(c.image_ref, "foo/bar:baz");
    assert_eq!(c.state, ContainerState::Created);
    assert_eq!(c.log_path.as_ref().unwrap(), "/var/log/pods/c.log");
    assert_eq!(c.volumes.len(), 1);
    assert_eq!(c.volumes[0].container_path, "/app");
    let host_path = &c.volumes[0].host_path;
    assert!(host_path.starts_with("volumes/"));
    uuid::Uuid::parse_str(&host_path["volumes/".len()..]).unwrap();

    let s = svc.sandboxes().get(&"test".to_owned()).unwrap();
    assert_eq!(s.running_containers, vec![id]);
}

#[test]
fn create_container_needs_config_image_and_sandbox() {
    let mut svc = service();
    let err = svc
        .create_container(CreateContainerRequest {
            pod_sandbox_id: "test".to_owned(),
            config: None,
            sandbox_config: None,
        })
        .unwrap_err();
    assert_eq!(err, ErrorCode::InvalidArgument);

    let err = svc
        .create_container(CreateContainerRequest {
            pod_sandbox_id: "test".to_owned(),
            config: Some(ContainerConfig::default()),
            sandbox_config: None,
        })
        .unwrap_err();
    assert_eq!(err, ErrorCode::InvalidArgument);

    let err = svc
        .create_container(CreateContainerRequest {
            pod_sandbox_id: "missing".to_owned(),
            config: Some(ContainerConfig {
                image: Some(ImageSpec { image: "foo/bar:baz".to_owned() }),
                ..Default::default()
            }),
            sandbox_config: None,
        })
        .unwrap_err();
    assert_eq!(err, ErrorCode::NotFound);
}

#[test]
fn test_start_container() {
    let mut svc = service();
    svc.insert_sandbox(sandbox("", PodSandboxState::Ready));
    let mut c = container("c", "", ContainerState::Created);
    c.image_ref = "foo/bar:baz".to_owned();
    svc.insert_container(c);

    let plan = svc
        .prepare_start(StartContainerRequest { container_id: "c".to_owned() })
        .expect("start container result");
    assert_eq!(plan.handler, RuntimeHandler::WASI);
    assert_eq!(plan.wasm_path, "/foo/bar/baz/module.wasm");
    assert!(plan.actor_key.is_none());

    svc.finish_start(&"c".to_owned(), ContainerCancellationToken::WasiCancelationToken)
        .expect("start commits");
    // We should also expect the container to be in the running state
    assert_eq!(
        svc.containers().get(&"c".to_owned()).unwrap().state,
        ContainerState::Running
    );
    assert!(svc.running_containers().get(&"c".to_owned()).is_some());
}

#[test]
fn prepare_start_projects_the_environment() {
    let mut svc = service();
    svc.insert_sandbox(sandbox("s", PodSandboxState::Ready));
    let mut c = container("c", "s", ContainerState::Created);
    c.image_ref = "foo/bar:baz".to_owned();
    c.config.envs = vec![
        KeyValue { key: "A".to_owned(), value: "1".to_owned() },
        KeyValue { key: "B".to_owned(), value: "2".to_owned() },
        KeyValue { key: "A".to_owned(), value: "3".to_owned() },
    ];
    c.config.args = vec!["run".to_owned()];
    svc.insert_container(c);

    let plan = svc
        .prepare_start(StartContainerRequest { container_id: "c".to_owned() })
        .unwrap();
    // The later entry for a repeated key wins.
    assert_eq!(plan.env.get(&"A".to_owned()).unwrap(), "3");
    assert_eq!(plan.env.get(&"B".to_owned()).unwrap(), "2");
    assert_eq!(plan.args, vec!["run".to_owned()]);
}

#[test]
fn prepare_start_wascc_needs_the_actor_key() {
    let mut svc = service();
    let mut s = sandbox("s", PodSandboxState::Ready);
    s.inner.runtime_handler = RuntimeHandler::WASCC.to_string();
    svc.insert_sandbox(s);
    let mut c = container("c", "s", ContainerState::Created);
    c.image_ref = "foo/bar:baz".to_owned();
    svc.insert_container(c);

    let err = svc
        .prepare_start(StartContainerRequest { container_id: "c".to_owned() })
        .unwrap_err();
    assert_eq!(err, ErrorCode::InvalidArgument);

    let mut c2 = container("c2", "s", ContainerState::Created);
    c2.image_ref = "foo/bar:baz".to_owned();
    c2.config.annotations.insert("deislabs.io/actor-key".to_owned(), "MKEY".to_owned());
    svc.insert_container(c2);
    let plan = svc
        .prepare_start(StartContainerRequest { container_id: "c2".to_owned() })
        .unwrap();
    assert_eq!(plan.handler, RuntimeHandler::WASCC);
    assert_eq!(plan.actor_key.unwrap(), "MKEY");
}

#[test]
fn prepare_start_unknown_ids_are_not_found() {
    let mut svc = service();
    let err = svc
        .prepare_start(StartContainerRequest { container_id: "c".to_owned() })
        .unwrap_err();
    assert_eq!(err, ErrorCode::NotFound);

    // A container whose sandbox is gone is also not found.
    svc.insert_container(container("c", "ghost", ContainerState::Created));
    let err = svc
        .prepare_start(StartContainerRequest { container_id: "c".to_owned() })
        .unwrap_err();
    assert_eq!(err, ErrorCode::NotFound);
}

#[test]
fn test_stop_container() {
    let svc = service();
    let res = svc.stop_container(StopContainerRequest {
        container_id: "".to_owned(),
        timeout: 0,
    });
    // With nothing running there is nothing to signal.
    assert!(res.is_none());
}

#[test]
fn stop_container_hands_back_the_token() {
    let mut svc = service();
    svc.insert_token(
        "c".to_owned(),
        ContainerCancellationToken::WasccCancelationToken("KEY".to_owned()),
    );
    let token = svc
        .stop_container(StopContainerRequest { container_id: "c".to_owned(), timeout: 0 })
        .expect("a token is held");
    assert_eq!(token.stop().unwrap(), "KEY");

    // Stopping a WASI instance asks nothing of the embedding.
    assert!(ContainerCancellationToken::WasiCancelationToken.stop().is_none());
    assert!(ContainerCancellationToken::WasiCancelationToken.remove().is_none());
}

#[test]
fn test_remove_container() {
    let mut svc = service();
    svc.insert_container(container("test", "test", ContainerState::Running));
    svc.insert_container(container("foo", "foo", ContainerState::Running));

    svc.remove_container(RemoveContainerRequest { container_id: "test".to_owned() })
        .expect("remove container result");
    // Check for the container to be gone and that we still have one left
    assert_eq!(1, svc.containers().len());
}

#[test]
fn remove_container_detaches_and_evicts() {
    let mut svc = service();
    let mut s = sandbox("s", PodSandboxState::Ready);
    s.running_containers = vec!["c".to_owned(), "other".to_owned()];
    svc.insert_sandbox(s);
    svc.insert_container(container("c", "s", ContainerState::Running));
    svc.insert_token(
        "c".to_owned(),
        ContainerCancellationToken::WasccCancelationToken("KEY".to_owned()),
    );

    let signal = svc
        .remove_container(RemoveContainerRequest { container_id: "c".to_owned() })
        .expect("remove succeeds");
    assert_eq!(signal.unwrap().remove().unwrap(), "KEY");
    assert!(svc.containers().get(&"c".to_owned()).is_none());
    assert!(svc.running_containers().get(&"c".to_owned()).is_none());
    let s = svc.sandboxes().get(&"s".to_owned()).unwrap();
    assert_eq!(s.running_containers, vec!["other".to_owned()]);

    let err = svc
        .remove_container(RemoveContainerRequest { container_id: "c".to_owned() })
        .unwrap_err();
    assert_eq!(err, ErrorCode::NotFound);
}

fn three_listed_containers(svc: &mut CriRuntimeService) -> StringMap {
    let mut labels = StringMap::new();
    labels.insert("test1".to_owned(), "testing".to_owned());
    let mut c1 = container("test", "test", ContainerState::Running);
    c1.config.metadata = Some(ContainerMetadata { name: "test".to_owned(), attempt: 1 });
    c1.config.labels = labels.clone();
    svc.insert_container(c1);
    let mut c2 = container("test2", "test2", ContainerState::Running);
    c2.config.metadata = Some(ContainerMetadata { name: "test2".to_owned(), attempt: 1 });
    svc.insert_container(c2);
    let mut c3 = container("test3", "test2", ContainerState::Created);
    c3.config.metadata = Some(ContainerMetadata { name: "test2".to_owned(), attempt: 1 });
    svc.insert_container(c3);
    labels
}

#[test]
fn test_list_containers() {
    let mut svc = service();
    let labels = three_listed_containers(&mut svc);

    // Nothing set should return all
    let res = svc.list_containers(ListContainersRequest {
        filter: Some(ContainerFilter::default()),
    });
    assert_eq!(3, res.containers.len());

    // Pod sandbox ID should return all containers in the given sandbox
    let res = svc.list_containers(ListContainersRequest {
        filter: Some(ContainerFilter { pod_sandbox_id: "test2".to_owned(), ..Default::default() }),
    });
    assert_eq!(2, res.containers.len());

    // Labels should only return matching containers
    let res = svc.list_containers(ListContainersRequest {
        filter: Some(ContainerFilter { label_selector: labels, ..Default::default() }),
    });
    assert_eq!(1, res.containers.len());

    // ID and sandbox ID should return a specific container
    let res = svc.list_containers(ListContainersRequest {
        filter: Some(ContainerFilter {
            id: "test2".to_owned(),
            pod_sandbox_id: "test2".to_owned(),
            ..Default::default()
        }),
    });
    assert_eq!(1, res.containers.len());

    // Status should return a specific container
    let res = svc.list_containers(ListContainersRequest {
        filter: Some(ContainerFilter {
            state: Some(ContainerStateValue { state: ContainerState::Created }),
            ..Default::default()
        }),
    });
    assert_eq!(1, res.containers.len());
}

#[test]
fn test_container_status() {
    let mut svc = service();
    let mut c = container("test", "test", ContainerState::Created);
    c.config.metadata = Some(ContainerMetadata { name: "test".to_owned(), attempt: 1 });
    svc.insert_container(c);
    let res = svc.container_status(ContainerStatusRequest {
        container_id: "test".to_owned(),
        verbose: false,
    });
    assert_eq!(
        "because I said so",
        res.expect("successful container status").status.unwrap().reason
    );
}

#[test]
fn test_container_stats() {
    let mut svc = service();
    let mut labels = StringMap::new();
    labels.insert("test1".to_owned(), "testing".to_owned());
    let mut c = container("test", "test", ContainerState::Created);
    c.config.metadata = Some(ContainerMetadata { name: "test".to_owned(), attempt: 1 });
    c.config.labels = labels.clone();
    svc.insert_container(c);

    let stats = svc
        .container_stats(ContainerStatsRequest { container_id: "test".to_owned() })
        .expect("remove container result")
        .stats
        .unwrap();
    let attributes = stats.attributes.unwrap();
    assert_eq!(attributes.id, "test");
    let metadata = attributes.metadata.unwrap();
    assert_eq!(metadata.name, "test");
    assert_eq!(metadata.attempt, 1);
    assert_eq!(attributes.labels.get(&"test1".to_owned()).unwrap(), "testing");
    assert!(stats.cpu.is_none());
    assert!(stats.memory.is_none());
    assert!(stats.writable_layer.is_none());
}

#[test]
fn test_list_container_stats() {
    let mut svc = service();
    let labels = three_listed_containers(&mut svc);

    // Nothing set should return all
    let res = svc.list_container_stats(ListContainerStatsRequest {
        filter: Some(ContainerStatsFilter::default()),
    });
    assert_eq!(3, res.stats.len());

    // Pod sandbox ID should return all containers in the given sandbox
    let res = svc.list_container_stats(ListContainerStatsRequest {
        filter: Some(ContainerStatsFilter {
            pod_sandbox_id: "test2".to_owned(),
            ..Default::default()
        }),
    });
    assert_eq!(2, res.stats.len());

    // Labels should only return matching containers
    let res = svc.list_container_stats(ListContainerStatsRequest {
        filter: Some(ContainerStatsFilter { label_selector: labels, ..Default::default() }),
    });
    assert_eq!(1, res.stats.len());

    // ID and sandbox ID should return a specific container
    let res = svc.list_container_stats(ListContainerStatsRequest {
        filter: Some(ContainerStatsFilter {
            id: "test2".to_owned(),
            pod_sandbox_id: "test2".to_owned(),
            ..Default::default()
        }),
    });
    assert_eq!(1, res.stats.len());
}

#[test]
fn test_run_pod_sandbox() {
    let mut svc = service();
    let res = svc.run_pod_sandbox(RunPodSandboxRequest {
        config: Some(PodSandboxConfig {
            log_directory: "testdir".to_owned(),
            ..Default::default()
        }),
        runtime_handler: RuntimeHandler::WASI.to_string(),
    });
    // Make sure we receive back a valid UUID
    uuid::Uuid::parse_str(&res.unwrap().pod_sandbox_id).unwrap();
}

#[test]
fn run_pod_sandbox_needs_config_and_handler() {
    let mut svc = service();
    let err = svc
        .run_pod_sandbox(RunPodSandboxRequest {
            config: None,
            runtime_handler: "".to_owned(),
        })
        .unwrap_err();
    assert_eq!(err, ErrorCode::InvalidArgument);

    let err = svc
        .run_pod_sandbox(RunPodSandboxRequest {
            config: Some(PodSandboxConfig::default()),
            runtime_handler: "LUCET".to_owned(),
        })
        .unwrap_err();
    assert_eq!(err, ErrorCode::InvalidArgument);
    assert_eq!(0, svc.sandboxes().len());
}

#[test]
fn test_create_and_list() {
    let mut svc = service();
    let res = svc.run_pod_sandbox(RunPodSandboxRequest {
        config: Some(PodSandboxConfig {
            log_directory: "testdir".to_owned(),
            ..Default::default()
        }),
        runtime_handler: RuntimeHandler::WASI.to_string(),
    });
    let id = res.unwrap().pod_sandbox_id;
    let res = svc.list_pod_sandbox(ListPodSandboxRequest { filter: None });
    let sandboxes = res.items;
    assert_eq!(1, sandboxes.len());
    // And make sure the UID returned actually exists
    assert_eq!(id, sandboxes[0].id);
    // A fresh sandbox is ready and carries the resolved handler.
    assert_eq!(sandboxes[0].state, PodSandboxState::Ready);
    assert_eq!(sandboxes[0].runtime_handler, "WASI");
}

#[test]
fn sandbox_ids_parse_and_differ() {
    let mut svc = service();
    let mut ids = Vec::new();
    for _ in 0..8 {
        let id = svc
            .run_pod_sandbox(RunPodSandboxRequest {
                config: Some(PodSandboxConfig::default()),
                runtime_handler: "".to_owned(),
            })
            .unwrap()
            .pod_sandbox_id;
        uuid::Uuid::parse_str(&id).unwrap();
        assert!(!ids.contains(&id));
        ids.push(id);
    }
    assert_eq!(8, svc.sandboxes().len());
}

#[test]
fn create_container_disables_logging_on_empty_paths() {
    let mut svc = service();
    svc.insert_sandbox(sandbox("s", PodSandboxState::Ready));

    // A log path without a sandbox log directory stays disabled.
    let id = svc
        .create_container(CreateContainerRequest {
            pod_sandbox_id: "s".to_owned(),
            config: Some(ContainerConfig {
                image: Some(ImageSpec { image: "foo/bar:baz".to_owned() }),
                log_path: "c.log".to_owned(),
                ..Default::default()
            }),
            sandbox_config: Some(PodSandboxConfig::default()),
        })
        .unwrap()
        .container_id;
    assert!(svc.containers().get(&id).unwrap().log_path.is_none());

    // A sandbox log directory without a container log path stays disabled.
    let id = svc
        .create_container(CreateContainerRequest {
            pod_sandbox_id: "s".to_owned(),
            config: Some(ContainerConfig {
                image: Some(ImageSpec { image: "foo/bar:baz".to_owned() }),
                ..Default::default()
            }),
            sandbox_config: Some(PodSandboxConfig {
                log_directory: "/var/log".to_owned(),
                ..Default::default()
            }),
        })
        .unwrap()
        .container_id;
    assert!(svc.containers().get(&id).unwrap().log_path.is_none());
}

#[test]
fn status_counts_follow_the_registries() {
    let mut svc = service();
    svc.insert_sandbox(sandbox("a", PodSandboxState::Ready));
    svc.insert_sandbox(sandbox("b", PodSandboxState::Ready));
    svc.insert_container(container("c", "a", ContainerState::Created));
    let res = svc.status(StatusRequest { verbose: true });
    assert_eq!(res.info.get(&"running_sandboxes".to_owned()).unwrap(), "2");
    assert_eq!(res.info.get(&"running_containers".to_owned()).unwrap(), "1");
}
