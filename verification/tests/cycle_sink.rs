use height_exporter::cycle::{emit_target, run_cycle, FetchInput, HttpReply};
use height_exporter::errors::MError;
use height_exporter::gauge::new_gauge_vec;
use height_exporter::sink::{new_registered_sink, MetricsSink};
use height_exporter::target::{RPCType, Target};

fn fresh_sink(name: &str) -> MetricsSink {
    let h = new_gauge_vec(
        name,
        "the last block height",
        "network",
        "app",
        "component",
        "source_label",
    )
    .expect("gauge vector must build");
    MetricsSink::new(h)
}

fn target(kind: RPCType, source_label: &str) -> Target {
    Target {
        type_: kind,
        uri: "http://localhost:1".to_string(),
        label_network: "net".to_string(),
        label_app: "app".to_string(),
        label_component: "comp".to_string(),
        label_source_label: source_label.to_string(),
        block_label: Some("latest".to_string()),
        block_label_offset: Some(0),
        result: None,
        redis_host: Some("h".to_string()),
        redis_passwd: Some("p".to_string()),
        redis_key: Some("k".to_string()),
    }
}

#[test]
fn registered_sink_builds_once() {
    let sink = new_registered_sink(
        "t_registered",
        "the last block height",
        "network",
        "app",
        "component",
        "source_label",
    );
    assert!(sink.is_some());
    let mut sink = sink.unwrap();
    sink.set("n", "a", "c", "s", 3);
    assert_eq!(sink.get("n", "a", "c", "s"), Some(3));
    // a second registration under the same name is refused
    assert!(new_registered_sink(
        "t_registered",
        "the last block height",
        "network",
        "app",
        "component",
        "source_label"
    )
    .is_none());
}

#[test]
fn set_twice_same_value_is_one_state() {
    let mut sink = fresh_sink("t_idem");
    sink.set("net", "app", "comp", "src", 5);
    sink.set("net", "app", "comp", "src", 5);
    assert_eq!(sink.get("net", "app", "comp", "src"), Some(5));
    assert_eq!(sink.series_count(), 1);
}

#[test]
fn set_overwrites_last_write_wins() {
    let mut sink = fresh_sink("t_lww");
    sink.set("net", "app", "comp", "src", 5);
    sink.set("net", "app", "comp", "src", 9);
    assert_eq!(sink.get("net", "app", "comp", "src"), Some(9));
    assert_eq!(sink.series_count(), 1);
}

#[test]
fn distinct_labels_make_distinct_series() {
    let mut sink = fresh_sink("t_two");
    sink.set("net", "app", "comp", "a", 1);
    sink.set("net", "app", "comp", "b", 2);
    assert_eq!(sink.get("net", "app", "comp", "a"), Some(1));
    assert_eq!(sink.get("net", "app", "comp", "b"), Some(2));
    assert_eq!(sink.get("net", "app", "comp", "c"), None);
    assert_eq!(sink.series_count(), 2);
}

#[test]
fn cycle_isolates_failures() {
    let mut sink = fresh_sink("t_iso");
    let mut t2 = target(RPCType::CFGMAPKey, "two");
    t2.result = Some(7);
    let mut t3 = target(RPCType::CFGMAPKey, "three");
    t3.result = Some(9);
    let outcomes = vec![
        Err(MError::REQWEST("boom".to_string())),
        Ok(t2),
        Ok(t3),
    ];
    let errs = run_cycle(&mut sink, outcomes);
    assert_eq!(errs, vec![MError::REQWEST("boom".to_string())]);
    assert_eq!(sink.get("net", "app", "comp", "two"), Some(7));
    assert_eq!(sink.get("net", "app", "comp", "three"), Some(9));
}

#[test]
fn failed_fetch_leaves_the_series_stale() {
    let mut sink = fresh_sink("t_stale");
    sink.set("net", "app", "comp", "one", 41);
    let outcomes = vec![Err(MError::PARSEJSON(
        ".result.number".to_string(),
        "{}".to_string(),
    ))];
    let errs = run_cycle(&mut sink, outcomes);
    assert_eq!(errs.len(), 1);
    assert_eq!(sink.get("net", "app", "comp", "one"), Some(41));
}

#[test]
fn success_without_reading_changes_nothing() {
    let mut sink = fresh_sink("t_none");
    let t = target(RPCType::CFGMAPKey, "one");
    let errs = run_cycle(&mut sink, vec![Ok(t)]);
    assert!(errs.is_empty());
    assert_eq!(sink.get("net", "app", "comp", "one"), None);
}

#[test]
fn emit_chain_node_applies_the_offset() {
    let mut t = target(RPCType::ChainNode, "node");
    t.block_label_offset = Some(2);
    let reply = FetchInput::Http(HttpReply::Body(
        "{\"result\":{\"number\":\"0x10\"}}".to_string(),
    ));
    let r = emit_target(t, reply).expect("fetch must succeed");
    assert_eq!(r.result, Some(14));
}

#[test]
fn emit_failed_request_reports_transport() {
    let t = target(RPCType::DictEntry, "dict");
    let r = emit_target(t, FetchInput::Http(HttpReply::Failed("boom".to_string())));
    assert_eq!(r, Err(MError::REQWEST("boom".to_string())));
}

#[test]
fn emit_shell_kinds_degrade_instead_of_failing() {
    let t = target(RPCType::CFGMAPKey, "cfg");
    let r = emit_target(t, FetchInput::Shell("not a number".to_string()))
        .expect("shell fetch never fails");
    assert_eq!(r.result, Some(0));
    let t2 = target(RPCType::RedisKey, "red");
    let r2 = emit_target(t2, FetchInput::Shell("\"123\"\n".to_string()))
        .expect("shell fetch never fails");
    assert_eq!(r2.result, Some(123));
}

#[test]
fn one_cycle_end_to_end() {
    let mut sink = fresh_sink("t_e2e");
    let mut node = target(RPCType::ChainNode, "node");
    node.block_label_offset = Some(0);
    let dict = target(RPCType::DictEntry, "dict");
    let node_out = emit_target(
        node,
        FetchInput::Http(HttpReply::Body(
            "{\"result\":{\"number\":\"0x3e8\"}}".to_string(),
        )),
    );
    let dict_out = emit_target(
        dict,
        FetchInput::Http(HttpReply::Body(
            "{\"data\":{\"_metadata\":{\"lastProcessedHeight\": 500}}}".to_string(),
        )),
    );
    let errs = run_cycle(&mut sink, vec![node_out, dict_out]);
    assert!(errs.is_empty());
    assert_eq!(sink.get("net", "app", "comp", "node"), Some(1000));
    assert_eq!(sink.get("net", "app", "comp", "dict"), Some(500));
    assert_eq!(sink.series_count(), 2);
}
