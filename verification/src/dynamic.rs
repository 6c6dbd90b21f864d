//! What a dynamic page receives about the request it answers.
use vstd::prelude::*;
use crate::fields::Fields;

verus! {

/// The request method of a dynamic page's request, with what the page may read of it.
pub enum RequestData<'a> {
    Get { params: &'a Option<Fields>, headers: &'a Fields },
    Post { headers: &'a Fields, data: &'a Option<String> },
    Head { headers: &'a Fields },
}

} // verus!
