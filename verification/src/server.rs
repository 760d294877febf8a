use vstd::prelude::*;
use vstd::std_specs::iter::IteratorSpec;
use vstd::string::StringSliceAdditionalSpecFns;

pub use crate::strings::str_equals;

verus! {

broadcast use {
    vstd::utf8::encode_utf8_decode_utf8,
    vstd::string::axiom_spec_iter,
    vstd::string::next_postcondition,
};

// ---------------------------------------------------------------------------
// Outside calls.
// ---------------------------------------------------------------------------

#[verifier::external_type_specification]
#[verifier::external_body]
pub struct ExUuidError(uuid::Error);

/// Whether std counts `c` as alphanumeric (alphabetic or numeric, in the
/// sense of Unicode).
pub uninterp spec fn char_is_alphanumeric(c: char) -> bool;

/// The value of the UUID that `uuid::Uuid::parse_str` reads from `s`, or
/// `None` where it reads none.
pub uninterp spec fn uuid_parse(s: Seq<char>) -> Option<u128>;

/// Whether `semver::Version::parse` accepts `s` as a version.
pub uninterp spec fn semver_parses(s: Seq<char>) -> bool;

/// Calls std's `char::is_alphanumeric`. Claimed: the result is
/// `char_is_alphanumeric(c)`.
#[verifier::external_body]
fn is_alphanumeric(c: char) -> (result: bool)
    ensures
        result == char_is_alphanumeric(c),
{
    c.is_alphanumeric()
}

/// Calls `uuid::Uuid::parse_str` and gives the parsed UUID as its 128-bit
/// value (`Uuid::as_u128`). Claimed: it succeeds exactly when
/// `uuid_parse(s@)` is a value, and then gives that value.
#[verifier::external_body]
fn uuid_parse_str(s: &str) -> (result: Result<u128, uuid::Error>)
    ensures
        match result {
            Ok(value) => uuid_parse(s@) == Some(value),
            Err(_) => uuid_parse(s@) is None,
        },
{
    match uuid::Uuid::parse_str(s) {
        Ok(uuid) => Ok(uuid.as_u128()),
        Err(e) => Err(e),
    }
}

/// Calls `semver::Version::parse` and tells whether it succeeded. Claimed: the
/// result is `semver_parses(s@)`.
#[verifier::external_body]
fn semver_version_parses(s: &str) -> (result: bool)
    ensures
        result == semver_parses(s@),
{
    semver::Version::parse(s).is_ok()
}

// ---------------------------------------------------------------------------
// Checking the fields of a request.
// ---------------------------------------------------------------------------

/// `value` where it holds a non-empty string, `None` otherwise.
pub open spec fn nonempty_string_spec(value: Option<String>) -> Option<String> {
    match value {
        Some(s) => if s@.len() > 0 {
            value
        } else {
            None
        },
        None => None,
    }
}

/// `value` where it holds a non-empty string, `None` otherwise.
pub fn nonempty_string(value: &Option<String>) -> (result: Option<&String>)
    ensures
        match nonempty_string_spec(*value) {
            Some(s) => result == Some(&s),
            None => result is None,
        },
{
    match value {
        Some(value_string) => {
            if !value_string.as_str().is_empty() {
                Some(value_string)
            } else {
                None
            }
        },
        None => None,
    }
}

/// Why an id could not be read as a UUID.
#[derive(Debug, Clone, Copy, PartialEq, Eq, Structural)]
pub struct InvalidUuid;

/// The UUID that an optional id names: none for no id or an empty one.
pub open spec fn parse_uuid_spec(value: Option<String>) -> Result<Option<u128>, InvalidUuid> {
    match nonempty_string_spec(value) {
        Some(s) => match uuid_parse(s@) {
            Some(v) => Ok(Some(v)),
            None => Err(InvalidUuid),
        },
        None => Ok(None),
    }
}

/// Reads an optional id as a UUID, given as its 128-bit value: `None` for no
/// id or an empty one, an error where the id is no UUID.
pub fn parse_uuid_string(value: &Option<String>) -> (result: Result<Option<u128>, InvalidUuid>)
    ensures
        result == parse_uuid_spec(*value),
{
    match nonempty_string(value) {
        Some(value_string) => match uuid_parse_str(value_string.as_str()) {
            Ok(uuid) => Ok(Some(uuid)),
            Err(_) => Err(InvalidUuid),
        },
        None => Ok(None),
    }
}

/// Whether `value` is a semantic version.
pub fn is_version_valid(value: &String) -> (result: bool)
    ensures
        result == semver_parses(value@),
{
    semver_version_parses(value.as_str())
}

/// Whether a tracking tag is acceptable: at most 10 bytes long, and made of
/// alphanumeric characters only.
pub open spec fn tracking_tag_valid(tag: Seq<char>) -> bool {
    &&& vstd::utf8::encode_utf8(tag).len() <= 10
    &&& forall|i: int| 0 <= i < tag.len() ==> char_is_alphanumeric(#[trigger] tag[i])
}

/// Whether a tracking tag is acceptable: at most 10 bytes long, and made of
/// alphanumeric characters only.
pub fn is_tracking_tag_valid(value: &String) -> (result: bool)
    ensures
        result == tracking_tag_valid(value@),
{
    let text = value.as_str();
    assert(text.spec_bytes() == vstd::utf8::encode_utf8(value@));
    if text.as_bytes().len() > 10 {
        return false;
    }
    let mut chars = text.chars();
    let ghost mut k: int = 0;
    assert(value@.skip(0) =~= value@);
    loop
        invariant
            0 <= k <= value@.len(),
            chars.remaining() == value@.skip(k),
            chars.obeys_prophetic_iter_laws(),
            forall|j: int| 0 <= j < k ==> char_is_alphanumeric(#[trigger] value@[j]),
        ensures
            k == value@.len(),
        decreases value@.len() - k,
    {
        let ghost before = chars.remaining();
        match chars.next() {
            None => {
                break;
            },
            Some(ch) => {
                assert(ch == value@[k]);
                if !is_alphanumeric(ch) {
                    return false;
                }
                proof {
                    assert(before.drop_first() =~= value@.skip(k + 1));
                    k = k + 1;
                }
            },
        }
    }
    true
}

// ---------------------------------------------------------------------------
// Deciding what to do with a request.
// ---------------------------------------------------------------------------

/// What the server does with a request, given its path and method.
#[derive(Debug, Clone, Copy, PartialEq, Eq, Structural)]
pub enum Route {
    /// `/`: answer with a greeting.
    Greeting,
    /// `POST /record`: append to a recording.
    Record,
    /// `/record` with another method.
    MethodNotAllowed,
    /// Any other path.
    NotFound,
}

/// The route for a request to `url` with method `method`.
pub open spec fn route_spec(url: Seq<char>, method: Seq<char>) -> Route {
    if url == "/"@ {
        Route::Greeting
    } else if url == "/record"@ {
        if method == "POST"@ {
            Route::Record
        } else {
            Route::MethodNotAllowed
        }
    } else {
        Route::NotFound
    }
}

/// The route for a request to `url` with method `method`.
pub fn route_request(url: &str, method: &str) -> (result: Route)
    ensures
        result == route_spec(url@, method@),
{
    if str_equals(url, "/") {
        Route::Greeting
    } else if str_equals(url, "/record") {
        if str_equals(method, "POST") {
            Route::Record
        } else {
            Route::MethodNotAllowed
        }
    } else {
        Route::NotFound
    }
}

/// The fields of a request to append to a recording.
pub struct RecordRequest {
    /// Version of the client, such as "1.0.1".
    pub version: String,
    /// Tracking tag of the client, if any.
    pub tracking_tag: Option<String>,
    /// Length of the recording so far, in bytes (0 for a new recording).
    pub prev_len: usize,
    /// The recording's UUID (needed to append to an existing recording).
    pub id: Option<String>,
}

/// Why a request to append to a recording was refused.
#[derive(Debug, Clone, Copy, PartialEq, Eq, Structural)]
pub enum RecordRejection {
    /// It continues a recording but does not say which.
    MissingId,
    /// Its version is not a semantic version.
    InvalidVersion,
    /// Its tracking tag is not acceptable.
    InvalidTrackingTag,
    /// Its id is not a UUID.
    InvalidUuid,
}

/// Where an accepted request appends its bytes: the recording of this
/// tracking tag, client version and UUID (`None`: a new, random UUID).
pub struct RecordTarget {
    pub tracking_tag: String,
    pub version: String,
    pub uuid: Option<u128>,
}

/// The refusal, if any, of a request to append to a recording; the checks
/// are made in this order.
pub open spec fn record_rejection(
    version: Seq<char>,
    tracking_tag: Option<String>,
    prev_len: usize,
    id: Option<String>,
) -> Option<RecordRejection> {
    if prev_len > 0 && id is None {
        Some(RecordRejection::MissingId)
    } else if !semver_parses(version) {
        Some(RecordRejection::InvalidVersion)
    } else if tracking_tag matches Some(t) && !tracking_tag_valid(t@) {
        Some(RecordRejection::InvalidTrackingTag)
    } else if parse_uuid_spec(id) is Err {
        Some(RecordRejection::InvalidUuid)
    } else {
        None
    }
}

/// What the server refuses: a request that continues a recording without
/// naming it is refused for that; any other request whose client version is
/// not a semantic version is refused for its version, however long the
/// recording is; one with a tracking tag that is too long or not
/// alphanumeric is refused for its tag once its version is good; and a request
/// is accepted only if its version is good, its tag (if any) is acceptable and
/// its id (if any) is a UUID.
pub proof fn record_refusals(
    version: Seq<char>,
    tracking_tag: Option<String>,
    prev_len: usize,
    id: Option<String>,
)
    ensures
        prev_len > 0 && id is None ==> record_rejection(version, tracking_tag, prev_len, id)
            == Some(RecordRejection::MissingId),
        !(prev_len > 0 && id is None) && !semver_parses(version) ==> record_rejection(
            version,
            tracking_tag,
            prev_len,
            id,
        ) == Some(RecordRejection::InvalidVersion),
        !(prev_len > 0 && id is None) && semver_parses(version) && (tracking_tag matches Some(t)
            && (vstd::utf8::encode_utf8(t@).len() > 10 || exists|i: int|
            0 <= i < t@.len() && !char_is_alphanumeric(#[trigger] t@[i]))) ==> record_rejection(
            version,
            tracking_tag,
            prev_len,
            id,
        ) == Some(RecordRejection::InvalidTrackingTag),
        record_rejection(version, tracking_tag, prev_len, id) is None ==> {
            &&& semver_parses(version)
            &&& !(prev_len > 0 && id is None)
            &&& tracking_tag matches Some(t) ==> vstd::utf8::encode_utf8(t@).len() <= 10
                && forall|i: int| 0 <= i < t@.len() ==> char_is_alphanumeric(#[trigger] t@[i])
            &&& id matches Some(s) ==> s@.len() == 0 || uuid_parse(s@) is Some
        },
{
}

/// Checks a request to append to a recording, and says which recording it
/// appends to; a request without a tracking tag counts as "anonymous".
pub fn check_record_request(request: &RecordRequest) -> (result: Result<RecordTarget, RecordRejection>)
    ensures
        match record_rejection(request.version@, request.tracking_tag, request.prev_len, request.id) {
            Some(rejection) => result matches Err(r) && r == rejection,
            None => result matches Ok(target) && {
                &&& target.version@ == request.version@
                &&& target.tracking_tag@ == match request.tracking_tag {
                    Some(t) => t@,
                    None => "anonymous"@,
                }
                &&& parse_uuid_spec(request.id) == Ok::<Option<u128>, InvalidUuid>(target.uuid)
            },
        },
{
    if request.prev_len > 0 && request.id.is_none() {
        return Err(RecordRejection::MissingId);
    }
    if !is_version_valid(&request.version) {
        return Err(RecordRejection::InvalidVersion);
    }
    let tracking_tag = match &request.tracking_tag {
        Some(t) => {
            if !is_tracking_tag_valid(t) {
                return Err(RecordRejection::InvalidTrackingTag);
            }
            t.clone()
        },
        None => "anonymous".to_owned(),
    };
    let uuid = match parse_uuid_string(&request.id) {
        Ok(uuid) => uuid,
        Err(_) => {
            return Err(RecordRejection::InvalidUuid);
        },
    };
    Ok(RecordTarget { tracking_tag, version: request.version.clone(), uuid })
}

/// Whether bytes sent after a recording of `prev_len` bytes are appended to a
/// recording that holds `recording_len` bytes: only where the lengths agree.
pub open spec fn appends(recording_len: int, prev_len: int) -> bool {
    recording_len == prev_len
}

/// Whether bytes sent after a recording of `prev_len` bytes are appended to a
/// recording that now holds `recording_len` bytes: only where the lengths
/// agree, so that a request delivered twice is applied once.
pub fn should_append(recording_len: u64, prev_len: usize) -> (result: bool)
    ensures
        result == appends(recording_len as int, prev_len as int),
{
    recording_len == prev_len as u64
}

/// Requests may be delivered more than once, and all deliveries after the
/// first are no-ops: once a request's `sent` bytes (at least one) have been
/// appended to a recording, the same request delivered again is ignored.
pub proof fn repeated_request_is_ignored(recording_len: int, prev_len: int, sent: int)
    requires
        appends(recording_len, prev_len),
        sent > 0,
    ensures
        !appends(recording_len + sent, prev_len),
{
}

} // verus!
