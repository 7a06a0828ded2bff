//! The tool registry's data: the built-in default entries and the messages
//! of its service.
use crate::text::owned;
use vstd::prelude::*;

verus! {

/// A request to register a tool.
pub struct RegisterRequest {
    pub name: String,
    pub url: String,
}

/// The answer to a registration or removal.
pub struct RegisterResponse {
    pub success: bool,
}

/// The registry used when none is configured: document search, ground
/// verification and the SQLite memory store on their local ports.
pub fn default_registry() -> (r: Vec<(String, String)>)
    ensures
        r@.len() == 3,
        r@[0].0@ == "doc.search.local"@ && r@[0].1@ == "http://localhost:7401"@,
        r@[1].0@ == "ground.verify"@ && r@[1].1@ == "http://localhost:7402"@,
        r@[2].0@ == "mesh.mem.sqlite"@ && r@[2].1@ == "http://localhost:7403"@,
{
    let mut entries: Vec<(String, String)> = Vec::new();
    entries.push((owned("doc.search.local"), owned("http://localhost:7401")));
    entries.push((owned("ground.verify"), owned("http://localhost:7402")));
    entries.push((owned("mesh.mem.sqlite"), owned("http://localhost:7403")));
    entries
}

/// Registers `name` at `url` in `entries`, replacing an earlier URL of
/// that name.
pub fn register(entries: &mut Vec<(String, String)>, name: String, url: String)
    ensures
        crate::table::entry(final(entries)@, name@) == Some(url),
        forall|n: Seq<char>| n != name@ ==> crate::table::entry(final(entries)@, n) == crate::table::entry(old(entries)@, n),
{
    crate::table::set_entry(entries, name, url);
}

} // verus!
