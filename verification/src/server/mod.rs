//! The server side: reading requests and serving files.
pub mod file_server;
pub mod helpers;

use helpers::{entries_map, keys_distinct, query_decodes, query_map};
use vstd::prelude::*;

verus! {

/// The names and values of the query of a request, `None` if it has no
/// query; the same as `helpers::get_query`.
pub fn get_query(query: Option<&str>) -> (r: Option<Vec<(String, Option<String>)>>)
    requires
        query matches Some(q) ==> query_decodes(q@),
    ensures
        r is Some <==> query is Some,
        r matches Some(v) ==> keys_distinct(v@) && entries_map(v@) == query_map(query->0@),
{
    helpers::get_query(query)
}

} // verus!
