//! The service-wide guarantees, each proved over the route table: what
//! every request to each route is answered with, for every input the
//! route accepts, and that a reply depends on nothing but its own
//! request.

use crate::json::{json_string, lemma_escape_plain, needs_escape};
use crate::routes::{
    is_user_route_path, json_name_of, person_json, spec_dispatch, spec_hello_reply,
    spec_not_found_reply, spec_post_reply, spec_user_reply, spec_users_reply, user_route_segment,
    BodyKind, Method,
};
use crate::text::{
    decimal_digits, is_ascii_digit_char, lemma_decimal_digits_are_digits, lemma_decimal_round_trip,
    lemma_parse_rejects_non_digit,
};
use vstd::prelude::*;

verus! {

/// Every request to `GET /` is answered with the greeting, status 200,
/// whatever its body.
pub proof fn lemma_hello_route(body: Seq<char>)
    ensures
        spec_dispatch(Method::Get, "/"@, body) == spec_hello_reply(),
        spec_dispatch(Method::Get, "/"@, body).status == 200,
        spec_dispatch(Method::Get, "/"@, body).body == "Hello World!"@,
        spec_dispatch(Method::Get, "/"@, body).kind == BodyKind::Text,
{
}

/// The listing reply is exactly the fixed JSON object.
pub proof fn lemma_users_listing_literal()
    ensures
        spec_users_reply().status == 200,
        spec_users_reply().kind == BodyKind::Json,
        spec_users_reply().body == "{\"name\":\"Good!\",\"age\":\"21\"}"@,
{
    reveal_strlit("name");
    reveal_strlit("age");
    reveal_strlit("Good!");
    reveal_strlit("21");
    reveal_strlit("{\"name\":\"Good!\",\"age\":\"21\"}");
    assert forall|i: int| 0 <= i < "name"@.len() implies !needs_escape(#[trigger] "name"@[i]) by {
        assert("name"@.len() == 4);
    }
    assert forall|i: int| 0 <= i < "age"@.len() implies !needs_escape(#[trigger] "age"@[i]) by {
        assert("age"@.len() == 3);
    }
    assert forall|i: int| 0 <= i < "Good!"@.len() implies !needs_escape(#[trigger] "Good!"@[i]) by {
        assert("Good!"@.len() == 5);
    }
    assert forall|i: int| 0 <= i < "21"@.len() implies !needs_escape(#[trigger] "21"@[i]) by {
        assert("21"@.len() == 2);
    }
    lemma_escape_plain("name"@);
    lemma_escape_plain("age"@);
    lemma_escape_plain("Good!"@);
    lemma_escape_plain("21"@);
    assert(person_json("Good!"@, "21"@) =~= "{\"name\":\"Good!\",\"age\":\"21\"}"@);
}

/// Every request to `GET /users` gets that same listing, whatever its
/// body: the reply is identical across calls.
pub proof fn lemma_users_route(body1: Seq<char>, body2: Seq<char>)
    ensures
        spec_dispatch(Method::Get, "/users"@, body1) == spec_users_reply(),
        spec_dispatch(Method::Get, "/users"@, body1) == spec_dispatch(
            Method::Get,
            "/users"@,
            body2,
        ),
{
    reveal_strlit("/");
    reveal_strlit("/users");
    assert("/users"@.len() != "/"@.len());
    assert("/users"@ != "/"@);
}

/// Every unsigned 32-bit id, written in decimal, is served: the lookup
/// route answers 200 and echoes the id.
pub proof fn lemma_user_id_round_trip(n: u32, body: Seq<char>)
    ensures
        spec_dispatch(Method::Get, "/users/"@ + decimal_digits(n as nat), body).status == 200,
        spec_dispatch(Method::Get, "/users/"@ + decimal_digits(n as nat), body).body
            == "User ID is "@ + decimal_digits(n as nat),
{
    let digits = decimal_digits(n as nat);
    let path = "/users/"@ + digits;
    reveal_strlit("/");
    reveal_strlit("/users");
    reveal_strlit("/users/");
    lemma_decimal_digits_are_digits(n as nat);
    assert(path.len() > "/users/"@.len());
    assert(path != "/"@);
    assert(path != "/users"@);
    assert(path.take("/users/"@.len() as int) =~= "/users/"@);
    assert forall|i: int| "/users/"@.len() <= i < path.len() implies path[i] != '/' by {
        assert(path[i] == digits[i - 7]);
        assert(is_ascii_digit_char(digits[i - 7]));
    }
    assert(is_user_route_path(path));
    assert(user_route_segment(path) =~= digits);
    lemma_decimal_round_trip(n);
}

/// A path segment that is not a decimal numeral is turned away with the
/// not-found status, never 200.  The segment is any single path piece
/// (non-empty, no slash) with a character that is neither an ASCII digit
/// nor a leading `+`.
pub proof fn lemma_non_numeric_segment_rejected(segment: Seq<char>, body: Seq<char>, i: int)
    requires
        segment.len() > 0,
        forall|k: int| 0 <= k < segment.len() ==> segment[k] != '/',
        0 <= i < segment.len(),
        !is_ascii_digit_char(segment[i]),
        !(i == 0 && segment[i] == '+'),
    ensures
        spec_dispatch(Method::Get, "/users/"@ + segment, body) == spec_not_found_reply(),
        spec_dispatch(Method::Get, "/users/"@ + segment, body).status != 200,
{
    let path = "/users/"@ + segment;
    reveal_strlit("/");
    reveal_strlit("/users");
    reveal_strlit("/users/");
    assert(path.len() > "/users/"@.len());
    assert(path != "/"@);
    assert(path != "/users"@);
    assert(path.take("/users/"@.len() as int) =~= "/users/"@);
    assert forall|k: int| "/users/"@.len() <= k < path.len() implies path[k] != '/' by {
        assert(path[k] == segment[k - 7]);
    }
    assert(is_user_route_path(path));
    assert(user_route_segment(path) =~= segment);
    lemma_parse_rejects_non_digit(segment, i);
}

/// A submission whose decoded name needs no escaping is echoed verbatim:
/// status 200 and the quoted echo text.
pub proof fn lemma_post_echo_plain(body: Seq<char>, name: Seq<char>)
    requires
        json_name_of(body) == Some(name),
        forall|i: int| 0 <= i < name.len() ==> !needs_escape(#[trigger] name[i]),
    ensures
        spec_dispatch(Method::Post, "/users"@, body).status == 200,
        spec_dispatch(Method::Post, "/users"@, body).kind == BodyKind::Json,
        spec_dispatch(Method::Post, "/users"@, body).body == seq!['"'] + "Received name: "@ + name
            + seq!['"'],
{
    reveal_strlit("Received name: ");
    let text = "Received name: "@ + name;
    assert forall|i: int| 0 <= i < text.len() implies !needs_escape(#[trigger] text[i]) by {
        if i < "Received name: "@.len() {
            assert(text[i] == "Received name: "@[i]);
            assert("Received name: "@.len() == 15);
        } else {
            assert(text[i] == name[i - "Received name: "@.len()]);
        }
    }
    lemma_escape_plain(text);
    assert(json_string(text) =~= seq!['"'] + "Received name: "@ + name + seq!['"']);
}

/// A submission the decoder rejects — no JSON, or no string `name`
/// member — is turned away with the client-error status, never 200.
pub proof fn lemma_post_malformed_rejected(body: Seq<char>)
    requires
        json_name_of(body) is None,
    ensures
        spec_dispatch(Method::Post, "/users"@, body).status == 400,
        spec_dispatch(Method::Post, "/users"@, body).status != 200,
{
}

/// A reply is a function of its own request alone.  The service keeps no
/// state, so requests served concurrently, in any order, cannot affect
/// one another's replies.
pub proof fn lemma_reply_depends_on_request_alone(
    m1: Method,
    path1: Seq<char>,
    body1: Seq<char>,
    m2: Method,
    path2: Seq<char>,
    body2: Seq<char>,
)
    requires
        m1 == m2,
        path1 == path2,
        body1 == body2,
    ensures
        spec_dispatch(m1, path1, body1) == spec_dispatch(m2, path2, body2),
{
}

} // verus!
