use axum::http::header::{HeaderName, ACCEPT, COOKIE, HOST};
use axum::http::{HeaderMap, HeaderValue};
use base64::engine::general_purpose::STANDARD;
use base64::Engine;
use north_pole::baking::BakingRequest;
use north_pole::payload::{
    bake, cookie, decode_value, extract_cookie_header, parse_request, request_of_tables, strip_tag,
    text_of_bytes,
};
use north_pole::status::PayloadError;

fn headers_with(value: &[u8]) -> HeaderMap {
    let mut headers = HeaderMap::new();
    headers.insert(HOST, HeaderValue::from_static("north.pole"));
    headers.insert(COOKIE, HeaderValue::from_bytes(value).unwrap());
    headers.insert(ACCEPT, HeaderValue::from_static("*/*"));
    headers
}

fn carrying(text: &str) -> HeaderMap {
    headers_with(format!("recipe={}", STANDARD.encode(text)).as_bytes())
}

fn table(entries: &[(&str, u32)]) -> Vec<(String, u32)> {
    entries.iter().map(|(name, quantity)| (name.to_string(), *quantity)).collect()
}

#[test]
fn bake_answers_the_request_in_the_cookie() {
    let headers = carrying(r#"{"recipe":{"flour":95,"sugar":50},"pantry":{"flour":385,"sugar":500}}"#);
    let result = bake(headers).ok().unwrap();
    assert_eq!(result.cookies, 4);
    assert_eq!(result.pantry.len(), 2);
    assert_eq!(result.pantry.get("flour"), Some(5));
    assert_eq!(result.pantry.get("sugar"), Some(300));
}

#[test]
fn bake_answers_a_full_kitchen() {
    let text = r#"{
        "recipe": {"flour": 95, "sugar": 50, "butter": 30, "baking powder": 10, "chocolate chips": 50},
        "pantry": {"flour": 385, "sugar": 507, "butter": 2122, "baking powder": 865, "chocolate chips": 457}
    }"#;
    let result = bake(carrying(text)).ok().unwrap();
    assert_eq!(result.cookies, 4);
    assert_eq!(result.pantry.get("flour"), Some(5));
    assert_eq!(result.pantry.get("sugar"), Some(307));
    assert_eq!(result.pantry.get("butter"), Some(2002));
    assert_eq!(result.pantry.get("baking powder"), Some(825));
    assert_eq!(result.pantry.get("chocolate chips"), Some(257));
}

#[test]
fn bake_with_too_little_stock_bakes_nothing() {
    let result = bake(carrying(r#"{"recipe":{"flour":100},"pantry":{"flour":50}}"#)).ok().unwrap();
    assert_eq!(result.cookies, 0);
    assert_eq!(result.pantry.to_pairs(), vec![("flour".to_string(), 50)]);
}

#[test]
fn bake_with_an_empty_recipe_keeps_the_pantry() {
    let result = bake(carrying(r#"{"recipe":{},"pantry":{"flour":10}}"#)).ok().unwrap();
    assert_eq!(result.cookies, 0);
    assert_eq!(result.pantry.to_pairs(), vec![("flour".to_string(), 10)]);
}

#[test]
fn malformed_text_is_a_client_error() {
    for text in ["", "not json", "{", "[1, 2", r#"{"recipe":{}"#, "null", "42", r#""recipe""#] {
        let outcome = bake(carrying(text));
        assert_eq!(outcome.err(), Some(PayloadError::MalformedRequest), "{text:?}");
        assert_eq!(PayloadError::MalformedRequest.status(), 400);
    }
}

#[test]
fn missing_cookie_header_is_a_client_error() {
    let mut headers = HeaderMap::new();
    assert_eq!(bake(headers.clone()).err(), Some(PayloadError::MissingPayload));
    assert_eq!(cookie(headers.clone()), Err(PayloadError::MissingPayload));
    headers.insert(HOST, HeaderValue::from_static("north.pole"));
    headers.insert(HeaderName::from_static("recipe"), HeaderValue::from_static("e30="));
    assert_eq!(bake(headers.clone()).err(), Some(PayloadError::MissingPayload));
    assert_eq!(extract_cookie_header(&headers), Err(PayloadError::MissingPayload));
    assert_eq!(BakingRequest::try_from(&headers).err(), Some(PayloadError::MissingPayload));
    assert_eq!(
        PayloadError::MissingPayload.status(),
        PayloadError::MalformedRequest.status()
    );
}

#[test]
fn cookie_decodes_the_payload() {
    let headers =
        headers_with(b"recipe=eyJmbG91ciI6MTAwLCJjaG9jb2xhdGUgY2hpcHMiOjIwfQ==");
    assert_eq!(cookie(headers), Ok(r#"{"flour":100,"chocolate chips":20}"#.to_string()));
}

#[test]
fn payload_without_tag_is_decoded() {
    let headers = headers_with(b"eyJmbG91ciI6MTAwLCJjaG9jb2xhdGUgY2hpcHMiOjIwfQ==");
    assert_eq!(cookie(headers), Ok(r#"{"flour":100,"chocolate chips":20}"#.to_string()));
    let text = r#"{"recipe":{"a":1},"pantry":{"a":3}}"#;
    let result = bake(headers_with(STANDARD.encode(text).as_bytes())).ok().unwrap();
    assert_eq!(result.cookies, 3);
}

#[test]
fn one_tag_is_taken_off() {
    assert_eq!(strip_tag("recipe=abc", "recipe="), "abc");
    assert_eq!(strip_tag("recipe=recipe=abc", "recipe="), "recipe=abc");
    assert_eq!(strip_tag("recipe=recipe=recipe=", "recipe="), "recipe=recipe=");
    assert_eq!(strip_tag("recipe=recipe", "recipe="), "recipe");
    assert_eq!(strip_tag("abcrecipe=", "recipe="), "abcrecipe=");
    assert_eq!(strip_tag("Recipe=abc", "recipe="), "Recipe=abc");
    assert_eq!(strip_tag(" recipe=abc", "recipe="), " recipe=abc");
    assert_eq!(strip_tag("recipe", "recipe="), "recipe");
    assert_eq!(strip_tag("recipe=", "recipe="), "");
    assert_eq!(strip_tag("", "recipe="), "");
    assert_eq!(strip_tag("abc", ""), "abc");
    assert_eq!(strip_tag("ééé=x", "é"), "éé=x");
    assert_eq!(strip_tag("aaa", "aa"), "a");
    assert_eq!(cookie(headers_with(b"recipe=aGk=")), Ok("hi".to_string()));
    assert_eq!(cookie(headers_with(b"recipe=")), Ok(String::new()));
}

#[test]
fn a_second_tag_is_not_base64() {
    assert_eq!(cookie(headers_with(b"recipe=recipe=aGk=")), Err(PayloadError::InvalidEncoding));
    assert_eq!(decode_value("recipe=recipe=aGk="), Err(PayloadError::InvalidEncoding));
    assert_eq!(decode_value("recipe=recipe="), Err(PayloadError::InvalidEncoding));
    assert_eq!(
        bake(headers_with(b"recipe=recipe=e30=")).err(),
        Some(PayloadError::InvalidEncoding)
    );
    let mut headers = headers_with(b"recipe=recipe=aGk=");
    assert_eq!(extract_cookie_header(&headers), Err(PayloadError::InvalidEncoding));
    assert_eq!(BakingRequest::try_from(&headers).err(), Some(PayloadError::InvalidEncoding));
    headers.insert(COOKIE, HeaderValue::from_static("recipe=aGk="));
    assert_eq!(extract_cookie_header(&headers), Ok("hi".to_string()));
}

#[test]
fn text_that_is_not_base64_is_turned_down() {
    for value in ["recipe=%%%", "recipe=aGk", "recipe=aGk==", "recipe=aGl=", "recipe= aGk=", "cookie=aGk=", "aGk=;", "recipe=a"] {
        assert_eq!(
            cookie(headers_with(value.as_bytes())),
            Err(PayloadError::InvalidEncoding),
            "{value:?}"
        );
        assert_eq!(decode_value(value), Err(PayloadError::InvalidEncoding), "{value:?}");
    }
}

#[test]
fn header_value_that_is_not_text_is_turned_down() {
    assert_eq!(cookie(headers_with(b"recipe=aGk=\xfa")), Err(PayloadError::InvalidEncoding));
    assert_eq!(cookie(headers_with(b"\xffrecipe=aGk=")), Err(PayloadError::InvalidEncoding));
    assert_eq!(bake(headers_with(b"\x80")).err(), Some(PayloadError::InvalidEncoding));
}

#[test]
fn bytes_that_are_not_utf8_are_turned_down() {
    let value = format!("recipe={}", STANDARD.encode([0x66, 0xff, 0x6f]));
    assert_eq!(cookie(headers_with(value.as_bytes())), Err(PayloadError::InvalidText));
    assert_eq!(bake(headers_with(value.as_bytes())).err(), Some(PayloadError::InvalidText));
    assert_eq!(text_of_bytes(vec![0xc3]), Err(PayloadError::InvalidText));
    assert_eq!(text_of_bytes(vec![0xed, 0xa0, 0x80]), Err(PayloadError::InvalidText));
    assert_eq!(text_of_bytes(vec![0xc0, 0x80]), Err(PayloadError::InvalidText));
}

#[test]
fn bytes_that_are_utf8_are_read() {
    assert_eq!(text_of_bytes(Vec::new()), Ok(String::new()));
    assert_eq!(text_of_bytes(b"flour".to_vec()), Ok("flour".to_string()));
    assert_eq!(text_of_bytes("süß 🍪".as_bytes().to_vec()), Ok("süß 🍪".to_string()));
    let value = format!("recipe={}", STANDARD.encode("süß 🍪"));
    assert_eq!(cookie(headers_with(value.as_bytes())), Ok("süß 🍪".to_string()));
}

#[test]
fn the_first_cookie_header_counts() {
    let mut headers = HeaderMap::new();
    headers.append(COOKIE, HeaderValue::from_static("recipe=Zmlyc3Q="));
    headers.append(HOST, HeaderValue::from_static("recipe=aG9zdA=="));
    headers.append(COOKIE, HeaderValue::from_static("recipe=c2Vjb25k"));
    assert_eq!(extract_cookie_header(&headers), Ok("first".to_string()));
    let mut headers = HeaderMap::new();
    headers.append(HeaderName::from_bytes(b"Cookie").unwrap(), HeaderValue::from_static("aGk="));
    assert_eq!(extract_cookie_header(&headers), Ok("hi".to_string()));
}

#[test]
fn request_is_parsed_from_text() {
    let request = parse_request(r#" { "pantry" : {"b": 2, "a": 4294967295}, "recipe": {"a": 0} } "#)
        .ok()
        .unwrap();
    assert_eq!(request.recipe.to_pairs(), vec![("a".to_string(), 0)]);
    assert_eq!(request.pantry.len(), 2);
    assert_eq!(request.pantry.get("a"), Some(u32::MAX));
    assert_eq!(request.pantry.get("b"), Some(2));
    let request = parse_request(r#"{"recipe":{},"pantry":{}}"#).ok().unwrap();
    assert_eq!(request.recipe.len(), 0);
    assert_eq!(request.pantry.len(), 0);
}

#[test]
fn request_from_headers_is_parsed() {
    let headers = carrying(r#"{"recipe":{"flour":1},"pantry":{"sugar":2,"flour":3}}"#);
    let request = BakingRequest::try_from(&headers).ok().unwrap();
    assert_eq!(request.recipe.to_pairs(), vec![("flour".to_string(), 1)]);
    assert_eq!(request.pantry.get("flour"), Some(3));
    assert_eq!(request.pantry.get("sugar"), Some(2));
    assert_eq!(request.pantry.len(), 2);
}

#[test]
fn a_repeated_ingredient_keeps_its_last_quantity() {
    let request =
        parse_request(r#"{"recipe":{"a":1,"a":2},"pantry":{"b":5,"a":7,"b":6}}"#).ok().unwrap();
    assert_eq!(request.recipe.to_pairs(), vec![("a".to_string(), 2)]);
    assert_eq!(request.pantry.get("a"), Some(7));
    assert_eq!(request.pantry.get("b"), Some(6));
}

#[test]
fn text_of_another_shape_is_malformed() {
    let texts = [
        r#"{"recipe":{"a":1}}"#,
        r#"{"pantry":{"a":1}}"#,
        r#"{}"#,
        r#"{"recipe":{"a":1},"pantry":{"a":1},"notes":{"a":1}}"#,
        r#"{"recipe":{"a":1},"pantry":{"a":1},"notes":"none"}"#,
        r#"{"Recipe":{"a":1},"pantry":{"a":1}}"#,
        r#"[{"a":1},{"a":1}]"#,
        r#"{"recipe":[1],"pantry":{"a":1}}"#,
        r#"{"recipe":{"a":1},"pantry":null}"#,
        r#"{"recipe":{"a":-1},"pantry":{"a":1}}"#,
        r#"{"recipe":{"a":1.5},"pantry":{"a":1}}"#,
        r#"{"recipe":{"a":1.0},"pantry":{"a":1}}"#,
        r#"{"recipe":{"a":"1"},"pantry":{"a":1}}"#,
        r#"{"recipe":{"a":4294967296},"pantry":{"a":1}}"#,
        r#"{"recipe":{"a":1},"pantry":{"a":1}} trailing"#,
    ];
    for text in texts {
        assert_eq!(parse_request(text).err(), Some(PayloadError::MalformedRequest), "{text:?}");
        assert_eq!(bake(carrying(text)).err(), Some(PayloadError::MalformedRequest), "{text:?}");
    }
}

#[test]
fn tables_must_be_the_recipe_and_the_pantry() {
    let made = request_of_tables(vec![
        ("recipe".to_string(), table(&[("a", 1), ("b", 2)])),
        ("pantry".to_string(), table(&[("a", 3)])),
    ])
    .ok()
    .unwrap();
    assert_eq!(made.recipe.to_pairs(), table(&[("a", 1), ("b", 2)]));
    assert_eq!(made.pantry.to_pairs(), table(&[("a", 3)]));
    let made = request_of_tables(vec![
        ("pantry".to_string(), table(&[("a", 3), ("a", 4)])),
        ("recipe".to_string(), table(&[])),
    ])
    .ok()
    .unwrap();
    assert_eq!(made.recipe.len(), 0);
    assert_eq!(made.pantry.to_pairs(), table(&[("a", 4)]));
    let refused = [
        vec![],
        vec![("recipe".to_string(), table(&[]))],
        vec![("recipe".to_string(), table(&[])), ("recipe".to_string(), table(&[]))],
        vec![("pantry".to_string(), table(&[])), ("pantry".to_string(), table(&[]))],
        vec![("recipe".to_string(), table(&[])), ("Pantry".to_string(), table(&[]))],
        vec![
            ("pantry".to_string(), table(&[])),
            ("recipe".to_string(), table(&[])),
            ("spare".to_string(), table(&[])),
        ],
    ];
    for tables in refused {
        assert_eq!(request_of_tables(tables).err(), Some(PayloadError::MalformedRequest));
    }
}

#[test]
fn a_tag_is_taken_off_as_the_standard_library_strips_a_prefix() {
    let texts = [
        "", "r", "recipe", "recipe=", "recipe=x", "recipe=recipe=", "recipe=recipe=x",
        "recipe=recipe", "xrecipe=", "recipe =x", "RECIPE=x", "recipe=recipe=recipe=recipe=y=",
        "recipe=é", "érecipe=",
    ];
    for text in texts {
        let expected = text.strip_prefix("recipe=").unwrap_or(text);
        assert_eq!(strip_tag(text, "recipe="), expected, "{text:?}");
    }
    assert_eq!(strip_tag("aaab", "a"), "aab");
    assert_eq!(strip_tag("ababa", "ab"), "aba");
}
