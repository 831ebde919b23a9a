//! The JavaScript API surface: the global `wasm` object gathers the
//! exported functions under camelCase names.

use vstd::prelude::*;

verus! {

/// One entry of the global `wasm` object: the name under which
/// `wasm-bindgen` exported a function, and the property it is exposed as.
pub struct Binding {
    pub export_name: &'static str,
    pub property: &'static str,
}

/// The entries of the global `wasm` object, in the order they are set:
/// `initialize_worker` as `initializeWorker`, then `open`, `close`, `exec`
/// and `query` under their own names.
pub fn exported_bindings() -> (b: Vec<Binding>)
    ensures
        b@.len() == 5,
        b@[0].export_name@ == "initialize_worker"@ && b@[0].property@ == "initializeWorker"@,
        b@[1].export_name@ == "open"@ && b@[1].property@ == "open"@,
        b@[2].export_name@ == "close"@ && b@[2].property@ == "close"@,
        b@[3].export_name@ == "exec"@ && b@[3].property@ == "exec"@,
        b@[4].export_name@ == "query"@ && b@[4].property@ == "query"@,
{
    let mut b: Vec<Binding> = Vec::new();
    b.push(Binding { export_name: "initialize_worker", property: "initializeWorker" });
    b.push(Binding { export_name: "open", property: "open" });
    b.push(Binding { export_name: "close", property: "close" });
    b.push(Binding { export_name: "exec", property: "exec" });
    b.push(Binding { export_name: "query", property: "query" });
    b
}

/// The name of the global that holds the bindings object (`window.wasm`).
pub const GLOBAL_NAME: &'static str = "wasm";

} // verus!
