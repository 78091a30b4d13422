//! The actor-runtime side of starting a container: which capabilities a
//! signed actor is configured with. The actor host that loads and runs the
//! module lives outside; what is assembled here is exactly what it must be
//! handed.
use vstd::prelude::*;

use crate::strmap::StringMap;

verus! {

/// Environment variables, as the orchestrator sees them: a map from name
/// to value.
pub type EnvVars = StringMap;

/// One capability an actor is configured with: its name and the
/// environment handed to it.
#[derive(Debug)]
pub struct Capability {
    pub name: String,
    pub env: EnvVars,
}

/// Everything the actor host must be handed to run one actor: the module
/// bytes, the public key it is signed with, and its capabilities.
#[derive(Debug)]
pub struct ActorStart {
    pub wasm: Vec<u8>,
    pub key: String,
    pub capabilities: Vec<Capability>,
}

/// The environment of the HTTP capability: the given variables, with
/// `PORT` defaulting to `80` when absent.
pub open spec fn http_env_of(env: Map<Seq<char>, Seq<char>>) -> Map<Seq<char>, Seq<char>> {
    if env.contains_key("PORT"@) {
        env
    } else {
        env.insert("PORT"@, "80"@)
    }
}

/// Describe running WASM data as an actor that serves HTTP: one capability,
/// the HTTP server, bound to the `PORT` of the environment, port `80` when
/// none is given. The actor host performing the run is the embedding's.
pub fn wascc_run_http(data: Vec<u8>, env: EnvVars, key: &str) -> (r: ActorStart)
    requires
        env.wf(),
    ensures
        r.wasm@ == data@,
        r.key@ == key@,
        r.capabilities@.len() == 1,
        r.capabilities@[0].name@ == "wascc:http_server"@,
        r.capabilities@[0].env.wf(),
        r.capabilities@[0].env@ == http_env_of(env@),
{
    let mut httpenv = env;
    let port_key = String::from_str("PORT");
    let has_port = httpenv.contains_key(&port_key);
    if !has_port {
        httpenv.insert(port_key, String::from_str("80"));
    }
    let mut capabilities: Vec<Capability> = Vec::new();
    capabilities.push(Capability { name: String::from_str("wascc:http_server"), env: httpenv });
    ActorStart { wasm: data, key: key.to_owned(), capabilities }
}

} // verus!
