//! The usage event that the browser extension reports.

use vstd::prelude::*;

verus! {

/// One observation of browser activity, as the extension sends it.
#[derive(Debug)]
pub struct UsageEvent {
    pub url: String,
    pub domain: String,
    pub title: String,
    pub browser: String,
    pub event_type: String,
    pub timestamp: String,
}

} // verus!
