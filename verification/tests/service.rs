use hello_routes::routes::{
    bad_request_reply, decode_info, dispatch, hello_reply, not_found_reply, post_users_reply,
    user_reply, users_reply, BodyKind, Info, Method, Person, Reply,
};

fn get(path: &str) -> Reply {
    dispatch(Method::Get, path, "")
}

fn post(path: &str, body: &str) -> Reply {
    dispatch(Method::Post, path, body)
}

#[test]
fn hello_route_returns_greeting() {
    let r = get("/");
    assert_eq!(r.status, 200);
    assert_eq!(r.kind, BodyKind::Text);
    assert_eq!(r.body, "Hello World!");
}

#[test]
fn hello_route_ignores_body() {
    let r = dispatch(Method::Get, "/", "{\"name\":\"x\"}");
    assert_eq!(r.status, 200);
    assert_eq!(r.body, "Hello World!");
}

#[test]
fn users_route_returns_fixed_json() {
    let r = get("/users");
    assert_eq!(r.status, 200);
    assert_eq!(r.kind, BodyKind::Json);
    assert_eq!(r.body, "{\"name\":\"Good!\",\"age\":\"21\"}");
}

#[test]
fn users_route_is_stable_across_calls() {
    let first = get("/users");
    let second = get("/users");
    let third = dispatch(Method::Get, "/users", "anything");
    assert_eq!(first.status, second.status);
    assert_eq!(first.body, second.body);
    assert_eq!(second.body, third.body);
}

#[test]
fn users_listing_parses_back_to_the_record() {
    let person = Person::listing();
    let parsed: serde_json::Value = serde_json::from_str(&person.to_json()).unwrap();
    let expected = serde_json::Value::Object(serde_json::Map::from_iter([
        ("name".to_string(), serde_json::Value::String(person.name.clone())),
        ("age".to_string(), serde_json::Value::String(person.age.clone())),
    ]));
    assert_eq!(parsed, expected);
}

#[test]
fn user_route_echoes_id() {
    let r = get("/users/42");
    assert_eq!(r.status, 200);
    assert_eq!(r.kind, BodyKind::Text);
    assert_eq!(r.body, "User ID is 42");
}

#[test]
fn user_route_zero() {
    let r = get("/users/0");
    assert_eq!(r.status, 200);
    assert_eq!(r.body, "User ID is 0");
}

#[test]
fn user_route_largest_id() {
    let r = get("/users/4294967295");
    assert_eq!(r.status, 200);
    assert_eq!(r.body, "User ID is 4294967295");
}

#[test]
fn user_route_accepts_plus_sign() {
    let r = get("/users/+7");
    assert_eq!(r.status, 200);
    assert_eq!(r.body, "User ID is 7");
}

#[test]
fn user_route_drops_leading_zeros() {
    let r = get("/users/0042");
    assert_eq!(r.status, 200);
    assert_eq!(r.body, "User ID is 42");
}

#[test]
fn user_route_rejects_letters() {
    let r = get("/users/abc");
    assert_eq!(r.status, 404);
}

#[test]
fn user_route_rejects_negative() {
    let r = get("/users/-1");
    assert_eq!(r.status, 404);
}

#[test]
fn user_route_rejects_decimal_point() {
    let r = get("/users/1.5");
    assert_eq!(r.status, 404);
}

#[test]
fn user_route_rejects_overflow() {
    let r = get("/users/4294967296");
    assert_eq!(r.status, 404);
}

#[test]
fn user_route_rejects_empty_segment() {
    let r = get("/users/");
    assert_eq!(r.status, 404);
}

#[test]
fn user_route_rejects_extra_segment() {
    let r = get("/users/1/2");
    assert_eq!(r.status, 404);
}

#[test]
fn unknown_path_is_not_found() {
    let r = get("/nope");
    assert_eq!(r.status, 404);
}

#[test]
fn post_to_root_is_not_found() {
    let r = post("/", "{}");
    assert_eq!(r.status, 404);
}

#[test]
fn post_users_echoes_name() {
    let r = post("/users", "{\"name\":\"Verus\"}");
    assert_eq!(r.status, 200);
    assert_eq!(r.kind, BodyKind::Json);
    assert_eq!(r.body, "\"Received name: Verus\"");
}

#[test]
fn post_users_accepts_whitespace_and_extra_members() {
    let r = post("/users", "{ \"name\" : \"x\" , \"extra\" : [1, 2] }");
    assert_eq!(r.status, 200);
    assert_eq!(r.body, "\"Received name: x\"");
}

#[test]
fn post_users_escapes_echoed_name() {
    let r = post("/users", "{\"name\":\"a\\\"b\\\\c\\nd\"}");
    assert_eq!(r.status, 200);
    assert_eq!(r.body, "\"Received name: a\\\"b\\\\c\\nd\"");
}

#[test]
fn post_users_matches_serde_serialization() {
    for name in ["plain", "quote \" backslash \\", "control \u{1} \u{1f} \t\r\n", "unicode é日"] {
        let body = serde_json::to_string(&serde_json::Map::from_iter([(
            "name".to_string(),
            serde_json::Value::String(name.to_string()),
        )]))
        .unwrap();
        let r = post("/users", &body);
        assert_eq!(r.status, 200);
        let echoed = format!("Received name: {}", name);
        assert_eq!(r.body, serde_json::to_string(&echoed).unwrap());
    }
}

#[test]
fn post_users_rejects_missing_name() {
    let r = post("/users", "{\"age\":\"21\"}");
    assert_eq!(r.status, 400);
}

#[test]
fn post_users_rejects_non_json() {
    let r = post("/users", "not json");
    assert_eq!(r.status, 400);
}

#[test]
fn post_users_rejects_non_string_name() {
    let r = post("/users", "{\"name\":5}");
    assert_eq!(r.status, 400);
}

#[test]
fn post_users_rejects_array_body() {
    let r = post("/users", "[\"name\"]");
    assert_eq!(r.status, 400);
}

#[test]
fn post_users_rejects_empty_body() {
    let r = post("/users", "");
    assert_eq!(r.status, 400);
}

#[test]
fn decode_info_reads_name_member() {
    let info = decode_info("{\"name\":\"Ada\"}").unwrap();
    assert_eq!(info.name, "Ada");
    assert!(decode_info("{}").is_none());
}

#[test]
fn handlers_answer_directly() {
    assert_eq!(hello_reply().body, "Hello World!");
    assert_eq!(users_reply().body, "{\"name\":\"Good!\",\"age\":\"21\"}");
    assert_eq!(user_reply("9").body, "User ID is 9");
    assert_eq!(post_users_reply("{\"name\":\"n\"}").body, "\"Received name: n\"");
    assert_eq!(not_found_reply().status, 404);
    assert_eq!(bad_request_reply().status, 400);
    let info = Info { name: "n".to_string() };
    assert_eq!(info.name, "n");
}

#[test]
fn interleaved_requests_do_not_affect_each_other() {
    let forward = [
        get("/"),
        post("/users", "{\"name\":\"one\"}"),
        get("/users/11"),
        get("/users"),
        post("/users", "bad"),
    ];
    let backward = [
        post("/users", "bad"),
        get("/users"),
        get("/users/11"),
        post("/users", "{\"name\":\"one\"}"),
        get("/"),
    ];
    let expected_status = [200, 200, 200, 200, 400];
    let expected_body = [
        "Hello World!",
        "\"Received name: one\"",
        "User ID is 11",
        "{\"name\":\"Good!\",\"age\":\"21\"}",
        "",
    ];
    for i in 0..forward.len() {
        assert_eq!(forward[i].status, expected_status[i]);
        assert_eq!(forward[i].body, expected_body[i]);
        assert_eq!(backward[forward.len() - 1 - i].status, expected_status[i]);
        assert_eq!(backward[forward.len() - 1 - i].body, expected_body[i]);
    }
}
