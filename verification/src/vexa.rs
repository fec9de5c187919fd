//! The endpoints of the Vexa meeting-bot service that the API forwards
//! to, with the admin token sent in the `X-API-Key` header.

use vstd::prelude::*;
use crate::config::Settings;

verus! {

/// The URL that bot requests are posted to: `{vexa_api_url}/bots`.
pub fn vexa_bots_url(settings: &Settings) -> (r: String)
    ensures
        r@ == settings.vexa_api_url@ + "/bots"@,
{
    let base = settings.vexa_api_url.clone();
    base.concat("/bots")
}

/// The URL that meetings are listed from: `{vexa_api_url}/meetings`.
pub fn vexa_meetings_url(settings: &Settings) -> (r: String)
    ensures
        r@ == settings.vexa_api_url@ + "/meetings"@,
{
    let base = settings.vexa_api_url.clone();
    base.concat("/meetings")
}

} // verus!
