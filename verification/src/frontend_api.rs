//! Client-side API plumbing that is pure computation: request endpoint
//! construction, the realtime endpoint's address, and the reconnect
//! backoff schedule. The HTTP and socket traffic itself is the runtime's.

use vstd::prelude::*;
use vstd::string::StringExecFns;
use crate::frontend_auth::AuthService;
use crate::strutil::dec_str;
use crate::strutil::strip_prefix_chars;
use crate::strutil::u32_to_dec;

verus! {

#[derive(Debug, Clone)]
pub struct MeetingRequest {
    pub user_id: String,
    pub topic: String,
}

#[derive(Debug, Clone)]
pub struct FathomMeeting {
    pub id: String,
    pub title: String,
    pub start_time: String,
    pub duration: u32,
    pub participants: Vec<String>,
}

#[derive(Debug, Clone)]
pub struct ApiKeyRequest {
    pub name: String,
    pub value: String,
}

/// Issues authenticated API calls on behalf of the session.
#[derive(Debug)]
pub struct ApiService {
    auth_service: AuthService,
}

impl ApiService {
    pub closed spec fn spec_auth(&self) -> AuthService {
        self.auth_service
    }

    pub fn new(auth_service: AuthService) -> (r: ApiService)
        ensures
            r.spec_auth() == auth_service,
    {
        ApiService { auth_service }
    }

    /// The session's authorization header, if signed in.
    pub fn auth_header(&self) -> (r: Option<String>)
        ensures
            match self.spec_auth().spec_token() {
                Some(t) => r matches Some(h) && h@ == "Bearer "@ + t@,
                None => r is None,
            },
    {
        self.auth_service.get_auth_header()
    }
}

/// The meetings endpoint with its optional paging parameters.
pub open spec fn meetings_endpoint_spec(limit: Option<u32>, offset: Option<u32>) -> Seq<char> {
    match limit {
        Some(l) => match offset {
            Some(o) => "/meetings?limit="@ + dec_str(l as int) + "&offset="@ + dec_str(o as int),
            None => "/meetings?limit="@ + dec_str(l as int),
        },
        None => match offset {
            Some(o) => "/meetings?offset="@ + dec_str(o as int),
            None => "/meetings"@,
        },
    }
}

/// Build the meetings endpoint: paging parameters are appended as a query
/// string exactly when present.
pub fn build_meetings_endpoint(limit: Option<u32>, offset: Option<u32>) -> (r: String)
    ensures
        r@ == meetings_endpoint_spec(limit, offset),
{
    match limit {
        Some(l) => match offset {
            Some(o) => {
                let mut r = "/meetings?limit=".to_owned();
                let ld = u32_to_dec(l);
                r.append(ld.as_str());
                r.append("&offset=");
                let od = u32_to_dec(o);
                r.append(od.as_str());
                r
            },
            None => {
                let mut r = "/meetings?limit=".to_owned();
                let ld = u32_to_dec(l);
                r.append(ld.as_str());
                r
            },
        },
        None => match offset {
            Some(o) => {
                let mut r = "/meetings?offset=".to_owned();
                let od = u32_to_dec(o);
                r.append(od.as_str());
                r
            },
            None => "/meetings".to_owned(),
        },
    }
}

/// The realtime endpoint for an API base address: the scheme switches
/// from `http` to `ws` (and `https` to `wss`) and the update path is
/// appended.
pub open spec fn ws_url_spec(base: Seq<char>) -> Seq<char> {
    if base.len() >= 8 && base.subrange(0, 8) == "https://"@ {
        "wss://"@ + base.subrange(8, base.len() as int) + "/queue_updates"@
    } else if base.len() >= 7 && base.subrange(0, 7) == "http://"@ {
        "ws://"@ + base.subrange(7, base.len() as int) + "/queue_updates"@
    } else {
        base + "/queue_updates"@
    }
}

pub fn derive_ws_url(base: &str) -> (r: String)
    ensures
        r@ == ws_url_spec(base@),
{
    proof {
        reveal_strlit("https://");
        reveal_strlit("http://");
    }
    match strip_prefix_chars(base, "https://") {
        Some(rest) => {
            let mut r = "wss://".to_owned();
            r.append(rest.as_str());
            r.append("/queue_updates");
            r
        },
        None => match strip_prefix_chars(base, "http://") {
            Some(rest) => {
                let mut r = "ws://".to_owned();
                r.append(rest.as_str());
                r.append("/queue_updates");
                r
            },
            None => {
                let mut r = base.to_owned();
                r.append("/queue_updates");
                r
            },
        },
    }
}

/// The next reconnect delay: double, capped at thirty seconds.
pub fn next_backoff_delay(delay_ms: u64) -> (r: u64)
    ensures
        r == if 2 * (delay_ms as int) <= 30000 {
            2 * (delay_ms as int)
        } else {
            30000int
        },
{
    if delay_ms <= 15000 {
        2 * delay_ms
    } else {
        30000
    }
}

} // verus!
