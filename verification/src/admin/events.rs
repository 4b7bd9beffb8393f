use vstd::prelude::*;

use crate::textmap::TextMap;

verus! {

/// One event of the qubesd event stream: a subject (a qube's name), the
/// event's type, and its named properties.
#[derive(Debug, Clone)]
pub struct AdminEvent {
    pub subject: String,
    pub event_type: String,
    pub properties: TextMap<String>,
}

} // verus!
