use vstd::prelude::*;

verus! {

/// Body of a request asking the webhook-management collaborator to create
/// a webhook delivering to the given URL.
#[derive(Debug)]
pub struct WebhookForCreate {
    pub url: String,
}

} // verus!
