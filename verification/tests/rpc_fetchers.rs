use height_exporter::errors::MError;
use height_exporter::rpc::{graphql_extract, graphql_request_body, node_extract, node_request_body};

#[test]
fn node_body_is_the_expected_json() {
    let body = node_request_body("latest");
    assert_eq!(
        body,
        "{\"id\":1,\"jsonrpc\":\"2.0\",\"method\":\"eth_getBlockByNumber\",\"params\":[\"latest\",false]}"
    );
}

#[test]
fn node_body_escaping_survives_a_json_parser() {
    let body = node_request_body("ta\"g\\with\nnoise");
    let v: serde_json::Value = serde_json::from_str(&body).expect("body must be valid JSON");
    assert_eq!(v["method"].as_str(), Some("eth_getBlockByNumber"));
    assert_eq!(v["params"][0].as_str(), Some("ta\"g\\with\nnoise"));
    assert_eq!(v["params"][1].as_bool(), Some(false));
    assert_eq!(v["id"].as_i64(), Some(1));
    assert_eq!(v["jsonrpc"].as_str(), Some("2.0"));
}

#[test]
fn graphql_body_is_the_expected_json() {
    let body = graphql_request_body();
    assert_eq!(
        body,
        "{\"query\":\"\\n    query MyQuery {\\n        _metadata {\\n          lastProcessedHeight\\n        }\\n      }\\n    \"}"
    );
    let v: serde_json::Value = serde_json::from_str(&body).expect("body must be valid JSON");
    assert!(v["query"].as_str().unwrap().contains("lastProcessedHeight"));
}

#[test]
fn node_fetch_hex_with_offset() {
    let body = "{\"result\":{\"number\":\"0x10\"}}";
    assert_eq!(node_extract(body, 2), Ok(14));
    assert_eq!(node_extract(body, 0), Ok(16));
    assert_eq!(node_extract(body, -4), Ok(20));
}

#[test]
fn node_fetch_missing_field_is_a_shape_error() {
    let body = "{\"result\":{}}";
    assert_eq!(
        node_extract(body, 0),
        Err(MError::PARSEJSON(
            ".result.number".to_string(),
            body.to_string()
        ))
    );
    let body2 = "{}";
    assert_eq!(
        node_extract(body2, 0),
        Err(MError::PARSEJSON(
            ".result.number".to_string(),
            body2.to_string()
        ))
    );
    let body3 = "{\"result\":{\"number\":7}}";
    assert_eq!(
        node_extract(body3, 0),
        Err(MError::PARSEJSON(
            ".result.number".to_string(),
            body3.to_string()
        ))
    );
}

#[test]
fn node_fetch_bad_hex_is_an_encoding_error() {
    let body = "{\"result\":{\"number\":\"0xzz\"}}";
    assert_eq!(node_extract(body, 0), Err(MError::PARSEHEX("0xzz".to_string())));
    let short = "{\"result\":{\"number\":\"5\"}}";
    assert_eq!(node_extract(short, 0), Err(MError::PARSEHEX("5".to_string())));
}

#[test]
fn node_fetch_invalid_json_is_a_transport_error() {
    let r = node_extract("not json", 0);
    assert_eq!(
        r,
        Err(MError::REQWEST("invalid JSON in reply: not json".to_string()))
    );
}

#[test]
fn graphql_fetch_reads_the_height() {
    let body = "{\"data\":{\"_metadata\":{\"lastProcessedHeight\": 42}}}";
    assert_eq!(graphql_extract(body), Ok(42));
}

#[test]
fn graphql_fetch_missing_path_is_a_shape_error() {
    let body = "{\"data\":{}}";
    assert_eq!(
        graphql_extract(body),
        Err(MError::PARSEJSON(
            ".data._metadata.lastProcessedHeight".to_string(),
            body.to_string()
        ))
    );
    let body2 = "{\"data\":{\"_metadata\":{\"lastProcessedHeight\": \"x\"}}}";
    assert_eq!(
        graphql_extract(body2),
        Err(MError::PARSEJSON(
            ".data._metadata.lastProcessedHeight".to_string(),
            body2.to_string()
        ))
    );
}

#[test]
fn describe_gives_a_diagnostic_line() {
    let e = MError::PARSEJSON(".result.number".to_string(), "{}".to_string());
    assert_eq!(e.describe(), "missing or mistyped field .result.number in {}");
    let t = MError::REQWEST("connection refused".to_string());
    assert_eq!(t.describe(), "request failed: connection refused");
    let h = MError::PARSEHEX("0xzz".to_string());
    assert_eq!(h.describe(), "bad hex block number: 0xzz");
}
