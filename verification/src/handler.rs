//! The runtime handler carried on a sandbox: which engine family its
//! containers run under. The empty string means the default.
use vstd::prelude::*;

use crate::text::str_eq;

verus! {

#[derive(Clone, Copy, Debug, PartialEq, Eq, Structural)]
pub enum RuntimeHandler {
    WASI,
    WASCC,
}

impl RuntimeHandler {
    /// The handler's name as a sandbox records it.
    pub fn to_string(&self) -> (r: String)
        ensures
            *self == RuntimeHandler::WASI ==> r@ == "WASI"@,
            *self == RuntimeHandler::WASCC ==> r@ == "WASCC"@,
    {
        match *self {
            RuntimeHandler::WASI => String::from_str("WASI"),
            RuntimeHandler::WASCC => String::from_str("WASCC"),
        }
    }

    /// Read a handler name; the empty string selects the default, anything
    /// besides the two known names is refused.
    pub fn from_string(s: &str) -> (r: Result<RuntimeHandler, ()>)
        ensures
            match r {
                Ok(h) => {
                    &&& s@ == ""@ || s@ == "WASI"@ || s@ == "WASCC"@
                    &&& h == RuntimeHandler::WASI <==> (s@ == ""@ || s@ == "WASI"@)
                    &&& h == RuntimeHandler::WASCC <==> s@ == "WASCC"@
                },
                Err(_) => s@ != ""@ && s@ != "WASI"@ && s@ != "WASCC"@,
            },
    {
        proof {
            reveal_strlit("");
            reveal_strlit("WASI");
            reveal_strlit("WASCC");
            assert(""@.len() == 0);
            assert("WASI"@.len() == 4);
            assert("WASCC"@.len() == 5);
        }
        if str_eq(s, "") {
            Ok(RuntimeHandler::default())
        } else if str_eq(s, "WASI") {
            Ok(RuntimeHandler::WASI)
        } else if str_eq(s, "WASCC") {
            Ok(RuntimeHandler::WASCC)
        } else {
            Err(())
        }
    }
}

impl Default for RuntimeHandler {
    /// The default handler, chosen when a request leaves the name empty.
    fn default() -> (r: Self)
        ensures
            r == RuntimeHandler::WASI,
    {
        RuntimeHandler::WASI
    }
}

} // verus!
