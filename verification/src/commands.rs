//! Checks behind the application's commands: which usage events may be
//! stored and what the status report says.

use std::sync::{Arc, Mutex};

use vstd::prelude::*;

use crate::models::UsageEvent;
use crate::text::{is_white_space, lemma_trim_empty_iff_all_white_space, trim, trim_spec};

verus! {

/// What the application reports about itself.
#[derive(Debug, PartialEq, Eq)]
pub struct AppStatus {
    pub ingest_server_error: Option<String>,
}

/// Whether an event lacks its domain or its timestamp: either is empty or
/// white space only.
pub open spec fn lacks_required_fields(domain: Seq<char>, timestamp: Seq<char>) -> bool {
    trim_spec(domain).len() == 0 || trim_spec(timestamp).len() == 0
}

/// An event is refused exactly when its domain or its timestamp consists of
/// white space only (the empty text included).
pub proof fn lemma_refused_iff_blank(domain: Seq<char>, timestamp: Seq<char>)
    ensures
        lacks_required_fields(domain, timestamp) <==> (
            (forall|i: int| 0 <= i < domain.len() ==> is_white_space(#[trigger] domain[i]))
            || (forall|i: int| 0 <= i < timestamp.len() ==> is_white_space(#[trigger] timestamp[i]))
        ),
{
    lemma_trim_empty_iff_all_white_space(domain);
    lemma_trim_empty_iff_all_white_space(timestamp);
}

/// Refuses an event whose domain or timestamp is blank, with the message
/// `domain and timestamp are required`.
pub fn check_usage_event(event: &UsageEvent) -> (r: Result<(), String>)
    ensures
        r is Err <==> lacks_required_fields(event.domain@, event.timestamp@),
        r matches Err(message) ==> message@ == "domain and timestamp are required"@,
{
    if trim(event.domain.as_str()).is_empty() || trim(event.timestamp.as_str()).is_empty() {
        return Err(String::from_str("domain and timestamp are required"));
    }
    Ok(())
}

/// Declares `std::sync::Mutex` to Verus; values of it are only carried.
#[verifier::external_type_specification]
#[verifier::external_body]
#[verifier::reject_recursive_types(T)]
pub struct ExMutex<T: ?Sized>(std::sync::Mutex<T>);

/// Calls `Mutex::lock` on the slot that holds the ingest server's startup
/// error and copies out what it holds; `None` when the lock is poisoned.
/// Nothing is claimed of the copy: it is whatever another part of the
/// program last stored.
#[verifier::external_body]
fn read_error_slot(slot: &Arc<Mutex<Option<String>>>) -> Option<Option<String>> {
    match slot.lock() {
        Ok(guard) => Some((*guard).clone()),
        Err(_) => None,
    }
}

/// The status report from what was read out of the startup-error slot
/// (`None` when it could not be locked).
pub fn app_status_from(slot_contents: Option<Option<String>>) -> (r: Result<AppStatus, String>)
    ensures
        match slot_contents {
            Some(error) => r matches Ok(status) && status.ingest_server_error == error,
            None => r matches Err(message) && message@ == "app status lock failed"@,
        },
{
    match slot_contents {
        Some(error) => Ok(AppStatus { ingest_server_error: error }),
        None => Err(String::from_str("app status lock failed")),
    }
}

/// Reports the ingest server's startup error, if one was stored.
pub fn current_app_status(ingest_server_error: &Arc<Mutex<Option<String>>>) -> (r: Result<AppStatus, String>)
    ensures
        r matches Err(message) ==> message@ == "app status lock failed"@,
{
    app_status_from(read_error_slot(ingest_server_error))
}

} // verus!
