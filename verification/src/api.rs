//! The compute side of the HTTP API: request validation, bearer-token
//! extraction, and the construction of response bodies. Marshaling and the
//! proxied identity-provider calls stay in the runtime.

use vstd::prelude::*;
use vstd::string::StringExecFns;
use crate::chars::char_whitespace;
use crate::instance::PocketBaseError;
use crate::instance::PocketBaseInstance;
use crate::queue_state::Meeting;
use crate::strutil::dec_str;
use crate::strutil::first_index_of;
use crate::strutil::strip_prefix_chars;
use crate::strutil::u16_to_dec;
use vstd::string::StrSliceExecFns;

verus! {

/// Credentials presented to the login proxy.
#[derive(Debug)]
pub struct LoginRequest {
    pub email: String,
    pub password: String,
}

/// A registration submitted to the registration proxy.
#[derive(Debug)]
pub struct RegisterRequest {
    pub email: String,
    pub password: String,
    pub password_confirm: String,
    pub name: Option<String>,
}

/// An authenticated caller, as resolved from a bearer token.
#[derive(Debug, Clone)]
pub struct AuthUser {
    pub id: String,
    pub email: String,
    pub name: Option<String>,
    pub token: String,
}

/// Why a request's authentication was rejected.
#[derive(Debug)]
pub struct AuthError {
    pub error: String,
    pub message: String,
}

/// An authenticated caller when one was presented, without failing
/// otherwise.
#[derive(Debug, Clone)]
pub struct OptionalAuthUser(pub Option<AuthUser>);

/// Extract the bearer token from an authorization header: the header must
/// carry the literal prefix `Bearer ` and a nonempty token after it; the
/// two failure shapes are distinguished.
pub fn parse_bearer_header(header: &str) -> (r: Result<String, AuthError>)
    ensures
        ({
            let has_prefix = header@.len() >= 7 && header@.subrange(0, 7) == "Bearer "@;
            match r {
                Ok(t) => has_prefix && header@.len() > 7 && t@ == header@.subrange(
                    7,
                    header@.len() as int,
                ),
                Err(e) => if !has_prefix {
                    e.error@ == "invalid_authorization"@
                } else {
                    header@.len() == 7 && e.error@ == "empty_token"@
                },
            }
        }),
{
    proof {
        reveal_strlit("Bearer ");
    }
    match strip_prefix_chars(header, "Bearer ") {
        Some(token) => {
            if token.as_str().is_empty() {
                Err(
                    AuthError {
                        error: "empty_token".to_owned(),
                        message: "Token cannot be empty".to_owned(),
                    },
                )
            } else {
                Ok(token)
            }
        },
        None => Err(
            AuthError {
                error: "invalid_authorization".to_owned(),
                message: "Authorization header must be a Bearer token".to_owned(),
            },
        ),
    }
}

/// Whether a login submission passes the local checks: an email that is
/// not blank and a nonempty password.
pub fn login_request_valid(request: &LoginRequest) -> (r: bool)
    ensures
        r == ((exists|k: int|
            0 <= k < request.email@.len() && !char_whitespace(#[trigger] request.email@[k]))
            && request.password@.len() > 0),
{
    let email_blank = {
        let trimmed = crate::strutil::trim_chars(request.email.as_str());
        let b = trimmed.as_str().is_empty();
        proof {
            lemma_trim_empty_means_all_ws(request.email@);
        }
        b
    };
    !email_blank && request.password.as_str().unicode_len() > 0
}

/// An empty trim means every character was whitespace, and conversely.
proof fn lemma_trim_empty_means_all_ws(s: Seq<char>)
    ensures
        (crate::strutil::trim_spec(s).len() == 0) == (forall|k: int|
            0 <= k < s.len() ==> char_whitespace(#[trigger] s[k])),
{
    lemma_drop_leading_all_ws(s);
}

proof fn lemma_drop_leading_all_ws(s: Seq<char>)
    ensures
        (crate::strutil::drop_leading_ws(s).len() == 0) == (forall|k: int|
            0 <= k < s.len() ==> char_whitespace(#[trigger] s[k])),
        crate::strutil::drop_leading_ws(s).len() == 0 ==> crate::strutil::trim_spec(s).len() == 0,
        crate::strutil::drop_leading_ws(s).len() > 0 ==> crate::strutil::trim_spec(s).len() > 0,
    decreases s.len(),
{
    if s.len() > 0 && char_whitespace(s[0]) {
        lemma_drop_leading_all_ws(s.drop_first());
        assert(forall|k: int|
            0 <= k < s.drop_first().len() ==> s.drop_first()[k] == s[k + 1]);
        if crate::strutil::drop_leading_ws(s).len() == 0 {
            assert forall|k: int| 0 <= k < s.len() implies char_whitespace(#[trigger] s[k]) by {
                if k > 0 {
                    assert(char_whitespace(s.drop_first()[k - 1]));
                }
            }
        }
    } else if s.len() > 0 {
        assert(!char_whitespace(s[0]));
        lemma_drop_trailing_keeps_head(s);
    }
}

/// Dropping trailing whitespace from a string whose head is not
/// whitespace leaves a nonempty string.
proof fn lemma_drop_trailing_keeps_head(s: Seq<char>)
    requires
        s.len() > 0,
        !char_whitespace(s[0]),
    ensures
        crate::strutil::drop_trailing_ws(s).len() > 0,
        crate::strutil::drop_trailing_ws(s)[0] == s[0],
    decreases s.len(),
{
    if s.len() > 0 && char_whitespace(s.last()) {
        lemma_drop_trailing_keeps_head(s.drop_last());
    }
}

/// Whether the two passwords of a registration agree.
pub fn passwords_match(request: &RegisterRequest) -> (r: bool)
    ensures
        r == (request.password@ == request.password_confirm@),
{
    crate::strutil::str_eq(request.password.as_str(), request.password_confirm.as_str())
}

/// The display name defaulted from an email address: everything before
/// the first `@`, or the whole address when it has none.
pub fn default_name_from_email(email: &str) -> (r: String)
    ensures
        r@ == if first_index_of(email@, '@') == -1 {
            email@
        } else {
            email@.subrange(0, first_index_of(email@, '@'))
        },
{
    let n = email.unicode_len();
    let mut j: usize = 0;
    while j < n && !(email.get_char(j) as u32 == '@' as u32)
        invariant
            0 <= j <= n,
            n == email@.len(),
            forall|k: int| 0 <= k < j ==> email@[k] != '@',
        decreases n - j,
    {
        j = j + 1;
    }
    if j == n {
        proof {
            crate::strutil::lemma_first_index_absent(email@, '@');
            assert(email@.subrange(0, n as int) =~= email@);
        }
        email.to_owned()
    } else {
        proof {
            crate::strutil::lemma_first_index_found(email@, '@', j as int);
        }
        email.substring_char(0, j).to_owned()
    }
}

/// Paging and filtering of the meetings listing.
#[derive(Debug)]
pub struct MeetingsQuery {
    pub limit: Option<u32>,
    pub offset: Option<u32>,
    pub user_id: Option<String>,
}

/// Body of an instance-initialization request.
#[derive(Debug)]
pub struct InitPbRequest {
    pub force_restart: Option<bool>,
}

impl InitPbRequest {
    /// Whether a restart was asked for; absent means no.
    pub fn wants_restart(&self) -> (r: bool)
        ensures
            r == (self.force_restart == Some(true)),
    {
        match self.force_restart {
            Some(b) => b,
            None => false,
        }
    }
}

/// Response to an instance-initialization request.
#[derive(Debug)]
pub struct InitPbResponse {
    pub success: bool,
    pub message: String,
    pub instance: Option<PocketBaseInstance>,
}

impl InitPbResponse {
    /// The rejection for a blank user id.
    pub fn invalid_user() -> (r: InitPbResponse)
        ensures
            r.success == false,
            r.message@ == "Invalid user ID"@,
            r.instance is None,
    {
        InitPbResponse {
            success: false,
            message: "Invalid user ID".to_owned(),
            instance: None,
        }
    }

    /// The success response naming the instance's port.
    pub fn initialized(instance: PocketBaseInstance) -> (r: InitPbResponse)
        ensures
            r.success == true,
            r.message@ == "PocketBase instance initialized on port "@ + dec_str(
                instance.port as int,
            ),
            r.instance == Some(instance),
    {
        let mut message = "PocketBase instance initialized on port ".to_owned();
        let digits = u16_to_dec(instance.port);
        message.append(digits.as_str());
        InitPbResponse { success: true, message, instance: Some(instance) }
    }

    /// The failure response, with a distinguishable reason per error: port
    /// exhaustion, process-start failure and storage failure each read
    /// differently.
    pub fn failed(error: &PocketBaseError) -> (r: InitPbResponse)
        ensures
            r.success == false,
            r.instance is None,
            match error {
                PocketBaseError::NoPortsAvailable => r.message@
                    == "No available ports for PocketBase instance"@,
                PocketBaseError::ProcessError(m) => r.message@ == "Process error: "@ + m@,
                PocketBaseError::IoError(m) => r.message@ == "IO error: "@ + m@,
                PocketBaseError::InstanceNotFound(u) => r.message@ == "Initialization failed: "@
                    + "Instance not found for user: "@ + u@,
                PocketBaseError::HealthCheckFailed => r.message@ == "Initialization failed: "@
                    + "Health check failed"@,
            },
    {
        let message = match error {
            PocketBaseError::NoPortsAvailable => "No available ports for PocketBase instance".to_owned(),
            PocketBaseError::ProcessError(m) => {
                let mut s = "Process error: ".to_owned();
                s.append(m.as_str());
                s
            },
            PocketBaseError::IoError(m) => {
                let mut s = "IO error: ".to_owned();
                s.append(m.as_str());
                s
            },
            PocketBaseError::InstanceNotFound(_) => {
                let mut s = "Initialization failed: ".to_owned();
                let detail = error.message();
                s.append(detail.as_str());
                proof {
                    match error {
                        PocketBaseError::InstanceNotFound(u) => {
                            assert(s@ =~= "Initialization failed: "@
                                + "Instance not found for user: "@ + u@);
                        },
                        _ => {},
                    }
                }
                s
            },
            PocketBaseError::HealthCheckFailed => {
                let mut s = "Initialization failed: ".to_owned();
                let detail = error.message();
                s.append(detail.as_str());
                s
            },
        };
        InitPbResponse { success: false, message, instance: None }
    }
}

/// Whether a user id passes the instance-API check: not blank.
pub fn init_user_id_valid(user_id: &str) -> (r: bool)
    ensures
        r == exists|k: int| 0 <= k < user_id@.len() && !char_whitespace(#[trigger] user_id@[k]),
{
    let n = user_id.unicode_len();
    let mut k: usize = 0;
    while k < n
        invariant
            0 <= k <= n,
            n == user_id@.len(),
            forall|l: int| 0 <= l < k ==> char_whitespace(#[trigger] user_id@[l]),
        decreases n - k,
    {
        if !user_id.get_char(k).is_whitespace() {
            return true;
        }
        k = k + 1;
    }
    false
}

/// Body of a request to enqueue a meeting.
#[derive(Debug)]
pub struct MeetingRequest {
    pub user_id: String,
    pub topic: String,
}

/// Response of the queue endpoints: an outcome, a message, and the queue
/// snapshot taken at the operation.
#[derive(Debug)]
pub struct QueueResponse {
    pub success: bool,
    pub message: String,
    pub data: Option<Vec<Meeting>>,
}

impl QueueResponse {
    pub fn added(data: Vec<Meeting>) -> (r: QueueResponse)
        ensures
            r.success == true,
            r.message@ == "Meeting added to queue"@,
            r.data == Some(data),
    {
        QueueResponse {
            success: true,
            message: "Meeting added to queue".to_owned(),
            data: Some(data),
        }
    }

    pub fn removed(data: Vec<Meeting>) -> (r: QueueResponse)
        ensures
            r.success == true,
            r.message@ == "Meeting removed from queue"@,
            r.data == Some(data),
    {
        QueueResponse {
            success: true,
            message: "Meeting removed from queue".to_owned(),
            data: Some(data),
        }
    }

    pub fn not_found(data: Vec<Meeting>) -> (r: QueueResponse)
        ensures
            r.success == false,
            r.message@ == "Meeting not found"@,
            r.data == Some(data),
    {
        QueueResponse {
            success: false,
            message: "Meeting not found".to_owned(),
            data: Some(data),
        }
    }

    pub fn current(data: Vec<Meeting>) -> (r: QueueResponse)
        ensures
            r.success == true,
            r.message@ == "Current queue"@,
            r.data == Some(data),
    {
        QueueResponse { success: true, message: "Current queue".to_owned(), data: Some(data) }
    }
}

} // verus!
