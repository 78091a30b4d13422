use wok::cri::VersionRequest;
use wok::handler::RuntimeHandler;
use wok::strmap::StringMap;
use wok::text::{str_eq, u64_to_decimal};
use wok::version::CRIRuntimeService;
use wok::wascc::wascc_run_http;

#[test]
fn decimal_renders_exactly() {
    assert_eq!(u64_to_decimal(0), "0");
    assert_eq!(u64_to_decimal(7), "7");
    assert_eq!(u64_to_decimal(10), "10");
    assert_eq!(u64_to_decimal(12345), "12345");
    assert_eq!(u64_to_decimal(u64::MAX), "18446744073709551615");
}

#[test]
fn str_eq_compares_contents() {
    assert!(str_eq("abc", "abc"));
    assert!(!str_eq("abc", "abd"));
    assert!(!str_eq("abc", "abcd"));
    assert!(str_eq("", ""));
}

#[test]
fn handler_names_round_trip() {
    assert_eq!(RuntimeHandler::WASI.to_string(), "WASI");
    assert_eq!(RuntimeHandler::WASCC.to_string(), "WASCC");
    assert_eq!(RuntimeHandler::from_string("").unwrap(), RuntimeHandler::WASI);
    assert_eq!(RuntimeHandler::from_string("WASI").unwrap(), RuntimeHandler::WASI);
    assert_eq!(RuntimeHandler::from_string("WASCC").unwrap(), RuntimeHandler::WASCC);
    assert!(RuntimeHandler::from_string("LUCET").is_err());
    assert!(RuntimeHandler::from_string("wasi").is_err());
    assert_eq!(RuntimeHandler::default(), RuntimeHandler::WASI);
}

#[test]
fn version_service_reports_protocol() {
    let svc = CRIRuntimeService {};
    let res = svc.version(VersionRequest {});
    assert_eq!(res.version, "v1alpha2");
    assert_eq!(res.runtime_name, "wok");
    assert_eq!(res.runtime_api_version, "0.1.0-alpha.2");
}

#[test]
fn wascc_http_defaults_the_port() {
    let env = StringMap::new();
    let start = wascc_run_http(vec![0u8, 1, 2], env, "MKEY");
    assert_eq!(start.wasm, vec![0u8, 1, 2]);
    assert_eq!(start.key, "MKEY");
    assert_eq!(start.capabilities.len(), 1);
    assert_eq!(start.capabilities[0].name, "wascc:http_server");
    assert_eq!(start.capabilities[0].env.get(&"PORT".to_owned()).unwrap(), "80");
}

#[test]
fn wascc_http_keeps_a_given_port() {
    let mut env = StringMap::new();
    env.insert("PORT".to_owned(), "8707".to_owned());
    env.insert("OTHER".to_owned(), "x".to_owned());
    let start = wascc_run_http(Vec::new(), env, "MKEY");
    let cap_env = &start.capabilities[0].env;
    assert_eq!(cap_env.get(&"PORT".to_owned()).unwrap(), "8707");
    assert_eq!(cap_env.get(&"OTHER".to_owned()).unwrap(), "x");
}
