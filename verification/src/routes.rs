//! The service's observable contract: four routes over method and path,
//! each reply pinned down as a function of the request.  The listener that
//! carries the requests is outside the library; it hands the method, the
//! path and the raw body in, and sends the `Reply` back out unchanged.

use crate::json::{encode_json_object2, encode_json_string, json_object2, json_string};
use crate::text::{decimal_digits, parse_u32, parse_u32_spec, u32_to_decimal};
use vstd::prelude::*;

verus! {

/// The request methods the service routes.  Anything else never matches
/// a route and is answered by the listener's own not-found default.
#[derive(Clone, Copy, Debug, PartialEq, Eq, Structural)]
pub enum Method {
    Get,
    Post,
}

/// How a reply body is labelled on the wire.
#[derive(Clone, Copy, Debug, PartialEq, Eq, Structural)]
pub enum BodyKind {
    Text,
    Json,
}

/// One HTTP reply: a status code, a body label, and the body text.
#[derive(Debug)]
pub struct Reply {
    pub status: u16,
    pub kind: BodyKind,
    pub body: String,
}

/// The mathematical value of a `Reply`.
#[verifier::ext_equal]
pub struct ReplyView {
    pub status: int,
    pub kind: BodyKind,
    pub body: Seq<char>,
}

impl View for Reply {
    type V = ReplyView;

    open spec fn view(&self) -> ReplyView {
        ReplyView { status: self.status as int, kind: self.kind, body: self.body@ }
    }
}

/// The fixed record the listing route serializes on every call.
pub struct Person {
    pub name: String,
    pub age: String,
}

/// A decoded submission body: its `name` member.
pub struct Info {
    pub name: String,
}

/// The JSON object for a `Person`, members in declaration order.
pub open spec fn person_json(name: Seq<char>, age: Seq<char>) -> Seq<char> {
    json_object2("name"@, name, "age"@, age)
}

impl Person {
    /// The record the listing route answers with: fresh on every call,
    /// always the same two literal values.
    pub fn listing() -> (p: Person)
        ensures
            p.name@ == "Good!"@,
            p.age@ == "21"@,
    {
        Person { name: String::from_str("Good!"), age: String::from_str("21") }
    }

    /// Serialize the record as a JSON object.
    pub fn to_json(&self) -> (r: String)
        ensures
            r@ == person_json(self.name@, self.age@),
    {
        encode_json_object2("name", self.name.as_str(), "age", self.age.as_str())
    }
}

/// The `name` member that decoding a submission body yields: `Some` when
/// the body is JSON whose `name` member is a string, `None` otherwise.
/// What it is on a given body only the decoder can say; it depends on the
/// characters of the body alone.
pub uninterp spec fn json_name_of(body: Seq<char>) -> Option<Seq<char>>;

/// Relies on serde_json: `from_str::<Value>` parses the body, `Value::get`
/// looks up the `"name"` member of an object (`None` for other values and
/// missing members), and `Value::as_str` gives the member's text exactly
/// when it is a string.  The outcome is a function of the body alone.
#[verifier::external_body]
fn extract_name(body: &str) -> (r: Option<String>)
    ensures
        r matches Some(s) ==> json_name_of(body@) == Some(s@),
        r is None ==> json_name_of(body@) is None,
{
    match serde_json::from_str::<serde_json::Value>(body) {
        Ok(value) => match value.get("name") {
            Some(member) => member.as_str().map(|name| name.to_string()),
            None => None,
        },
        Err(_) => None,
    }
}

/// Decode a submission body into its record, exactly when the decoder
/// finds a string `name` member.
pub fn decode_info(body: &str) -> (r: Option<Info>)
    ensures
        r matches Some(info) ==> json_name_of(body@) == Some(info.name@),
        r is None ==> json_name_of(body@) is None,
{
    match extract_name(body) {
        Some(name) => Some(Info { name }),
        None => None,
    }
}

pub open spec fn spec_hello_reply() -> ReplyView {
    ReplyView { status: 200, kind: BodyKind::Text, body: "Hello World!"@ }
}

pub open spec fn spec_users_reply() -> ReplyView {
    ReplyView { status: 200, kind: BodyKind::Json, body: person_json("Good!"@, "21"@) }
}

pub open spec fn spec_user_reply(segment: Seq<char>) -> ReplyView {
    match parse_u32_spec(segment) {
        Some(n) => ReplyView {
            status: 200,
            kind: BodyKind::Text,
            body: "User ID is "@ + decimal_digits(n as nat),
        },
        None => spec_not_found_reply(),
    }
}

pub open spec fn spec_post_reply(name: Option<Seq<char>>) -> ReplyView {
    match name {
        Some(n) => ReplyView {
            status: 200,
            kind: BodyKind::Json,
            body: json_string("Received name: "@ + n),
        },
        None => spec_bad_request_reply(),
    }
}

/// The listener's default answer for a request no route matches.
pub open spec fn spec_not_found_reply() -> ReplyView {
    ReplyView { status: 404, kind: BodyKind::Text, body: Seq::empty() }
}

/// The decoder's answer for a body it rejects: a plain client error.
pub open spec fn spec_bad_request_reply() -> ReplyView {
    ReplyView { status: 400, kind: BodyKind::Text, body: Seq::empty() }
}

/// The greeting route.
pub fn hello_reply() -> (r: Reply)
    ensures
        r@ == spec_hello_reply(),
{
    Reply { status: 200, kind: BodyKind::Text, body: String::from_str("Hello World!") }
}

/// The listing route: the fixed record, serialized fresh on every call.
pub fn users_reply() -> (r: Reply)
    ensures
        r@ == spec_users_reply(),
{
    let person = Person::listing();
    let body = person.to_json();
    Reply { status: 200, kind: BodyKind::Json, body }
}

/// The lookup route, given the raw path segment standing for the id:
/// echoes the parsed value, or the not-found default when the segment is
/// not an unsigned integer.
pub fn user_reply(segment: &str) -> (r: Reply)
    ensures
        r@ == spec_user_reply(segment@),
{
    match parse_u32(segment) {
        Some(n) => {
            let mut body = String::from_str("User ID is ");
            let digits = u32_to_decimal(n);
            body.append(digits.as_str());
            Reply { status: 200, kind: BodyKind::Text, body }
        },
        None => not_found_reply(),
    }
}

/// The submission route, given a decoded record: echoes the name inside
/// a JSON string.
pub fn info_reply(info: &Info) -> (r: Reply)
    ensures
        r@ == spec_post_reply(Some(info.name@)),
{
    let mut text = String::from_str("Received name: ");
    text.append(info.name.as_str());
    let body = encode_json_string(text.as_str());
    Reply { status: 200, kind: BodyKind::Json, body }
}

/// The submission route, given the raw body: decodes it, echoes the name
/// on success, and answers the client-error default when the decoder
/// rejects the body.
pub fn post_users_reply(body: &str) -> (r: Reply)
    ensures
        r@ == spec_post_reply(json_name_of(body@)),
{
    match decode_info(body) {
        Some(info) => info_reply(&info),
        None => bad_request_reply(),
    }
}

pub fn not_found_reply() -> (r: Reply)
    ensures
        r@ == spec_not_found_reply(),
{
    Reply { status: 404, kind: BodyKind::Text, body: String::new() }
}

pub fn bad_request_reply() -> (r: Reply)
    ensures
        r@ == spec_bad_request_reply(),
{
    Reply { status: 400, kind: BodyKind::Text, body: String::new() }
}

/// Whether a path is the lookup route: the `/users/` prefix followed by
/// one non-empty segment with no further slash.
pub open spec fn is_user_route_path(path: Seq<char>) -> bool {
    let prefix = "/users/"@;
    path.len() > prefix.len() && path.take(prefix.len() as int) == prefix && (forall|i: int|
        prefix.len() <= i < path.len() ==> path[i] != '/')
}

/// The id segment of a lookup-route path.
pub open spec fn user_route_segment(path: Seq<char>) -> Seq<char> {
    path.skip("/users/"@.len() as int)
}

/// The whole route table: what the service answers to a request, as a
/// function of its method, its path, and its raw body.
pub open spec fn spec_dispatch(m: Method, path: Seq<char>, body: Seq<char>) -> ReplyView {
    if m == Method::Get && path == "/"@ {
        spec_hello_reply()
    } else if m == Method::Get && path == "/users"@ {
        spec_users_reply()
    } else if m == Method::Post && path == "/users"@ {
        spec_post_reply(json_name_of(body))
    } else if m == Method::Get && is_user_route_path(path) {
        spec_user_reply(user_route_segment(path))
    } else {
        spec_not_found_reply()
    }
}

fn str_equal(a: &str, b: &str) -> (r: bool)
    ensures
        r == (a@ == b@),
{
    let na = a.unicode_len();
    let nb = b.unicode_len();
    if na != nb {
        return false;
    }
    let mut i: usize = 0;
    while i < na
        invariant
            i <= na,
            na == a@.len(),
            na == b@.len(),
            forall|j: int| 0 <= j < i ==> a@[j] == b@[j],
        decreases na - i,
    {
        if a.get_char(i) != b.get_char(i) {
            return false;
        }
        i += 1;
    }
    proof {
        assert(a@ =~= b@);
    }
    true
}

/// Match a path against the lookup route and hand its segment out.
fn user_path_segment(path: &str) -> (r: Option<String>)
    ensures
        r matches Some(seg) ==> is_user_route_path(path@) && seg@ == user_route_segment(path@),
        r is None ==> !is_user_route_path(path@),
{
    let prefix = "/users/";
    proof {
        reveal_strlit("/users/");
        assert(prefix@ =~= "/users/"@);
    }
    let np = prefix.unicode_len();
    let n = path.unicode_len();
    if n <= np {
        return None;
    }
    let mut i: usize = 0;
    while i < np
        invariant
            i <= np,
            prefix@ == "/users/"@,
            np == prefix@.len(),
            n == path@.len(),
            n > np,
            forall|j: int| 0 <= j < i ==> path@[j] == prefix@[j],
        decreases np - i,
    {
        if path.get_char(i) != prefix.get_char(i) {
            proof {
                assert(!is_user_route_path(path@)) by {
                    if is_user_route_path(path@) {
                        assert(path@.take(np as int) == "/users/"@);
                        assert(path@.take(np as int)[i as int] == path@[i as int]);
                    }
                }
            }
            return None;
        }
        i += 1;
    }
    proof {
        assert(path@.take(np as int) =~= prefix@);
    }
    let mut j: usize = np;
    while j < n
        invariant
            np <= j <= n,
            prefix@ == "/users/"@,
            np == prefix@.len(),
            path@.take(np as int) == "/users/"@,
            n == path@.len(),
            forall|k: int| np <= k < j ==> path@[k] != '/',
        decreases n - j,
    {
        if path.get_char(j) == '/' {
            proof {
                assert(!is_user_route_path(path@)) by {
                    if is_user_route_path(path@) {
                        assert(path@[j as int] != '/');
                    }
                }
            }
            return None;
        }
        j += 1;
    }
    let segment = path.substring_char(np, n);
    proof {
        assert(segment@ =~= user_route_segment(path@));
    }
    Some(String::from_str(segment))
}

/// Answer one request, exactly as the route table says.
pub fn dispatch(m: Method, path: &str, body: &str) -> (r: Reply)
    ensures
        r@ == spec_dispatch(m, path@, body@),
{
    match m {
        Method::Get => {
            if str_equal(path, "/") {
                hello_reply()
            } else if str_equal(path, "/users") {
                users_reply()
            } else {
                match user_path_segment(path) {
                    Some(segment) => user_reply(segment.as_str()),
                    None => not_found_reply(),
                }
            }
        },
        Method::Post => {
            if str_equal(path, "/users") {
                post_users_reply(body)
            } else {
                not_found_reply()
            }
        },
    }
}

} // verus!
