//! The text expansion behind the dashboard-panel generator: a panel
//! template instantiated for one query.  Reading the template and query
//! files and generating the fresh panel id happen in the surrounding
//! process; the expansion itself is exact.

use vstd::prelude::*;
use crate::text::{replace_all, replace_all_spec};

verus! {

/// Instantiates a panel template: every `@@query_name` token becomes the
/// query's name, then every `@@uuid` token becomes the panel id.
pub fn kibana_panel(template: &str, query_name: &str, uuid: &str) -> (r: String)
    ensures
        r@ == replace_all_spec(
            replace_all_spec(template@, "@@query_name"@, query_name@),
            "@@uuid"@,
            uuid@,
        ),
{
    proof {
        reveal_strlit("@@query_name");
        reveal_strlit("@@uuid");
    }
    let step = replace_all(template, "@@query_name", query_name);
    replace_all(step.as_str(), "@@uuid", uuid)
}

} // verus!
