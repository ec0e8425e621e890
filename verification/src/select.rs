//! The selection boundary's contract: resolving the operator's menu choice
//! and instance choice. An unrecognised choice yields `None` and the caller
//! must terminate without touching the runtime; there is no fallback to a
//! default.

use vstd::prelude::*;
use crate::naming::{qualified_name, str_eq};
use crate::registry::Registry;

verus! {

/// The operations the opening menu offers.
#[derive(Clone, Copy, Debug, PartialEq, Eq, Structural)]
pub enum Operation {
    Export,
    Import,
}

/// Resolves the operator's menu input: `"1"` is export, `"2"` is import,
/// anything else is invalid and must terminate the program.
pub fn parse_operation(input: &str) -> (r: Option<Operation>)
    ensures
        r == Some(Operation::Export) <==> input@ == "1"@,
        r == Some(Operation::Import) <==> input@ == "2"@,
        r is None <==> (input@ != "1"@ && input@ != "2"@),
{
    proof {
        reveal_strlit("1");
        reveal_strlit("2");
        assert("1"@[0] == '1');
        assert("2"@[0] == '2');
        assert("1"@ != "2"@);
    }
    if str_eq(input, "1") {
        Some(Operation::Export)
    } else if str_eq(input, "2") {
        Some(Operation::Import)
    } else {
        None
    }
}

/// Resolves the operator's instance choice against the registry: the
/// choice is qualified with the database-role suffix and looked up. The
/// result is the qualified name and its container identity exactly when
/// the qualified name is a registry key; otherwise `None`, and the caller
/// must exit without any runtime call.
pub fn resolve_selection(registry: &Registry, choice: &str) -> (r: Option<(String, String)>)
    ensures
        match r {
            Some(selected) => {
                &&& selected.0@ == choice@ + "-postgres-db-1"@
                &&& registry@.contains_key(selected.0@)
                &&& selected.1@ == registry@[selected.0@]
            },
            None => !registry@.contains_key(choice@ + "-postgres-db-1"@),
        },
{
    let qualified = qualified_name(choice);
    match registry.get(qualified.as_str()) {
        Some(id) => {
            let id = id.clone();
            Some((qualified, id))
        },
        None => None,
    }
}

} // verus!
