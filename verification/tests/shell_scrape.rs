use height_exporter::shell::{configmap_command, redis_command, redis_from_output,
    uploaded_from_output};

#[test]
fn cfgmap_scrape_parses_a_clean_number() {
    assert_eq!(uploaded_from_output("42"), 42);
    assert_eq!(uploaded_from_output(" 42\n"), 42);
    assert_eq!(uploaded_from_output("\t-7\r\n"), -7);
}

#[test]
fn cfgmap_scrape_degrades_to_zero() {
    assert_eq!(uploaded_from_output(""), 0);
    assert_eq!(uploaded_from_output("   \n"), 0);
    assert_eq!(uploaded_from_output("not a number"), 0);
    assert_eq!(uploaded_from_output("12x"), 0);
    assert_eq!(uploaded_from_output("99999999999999999999999"), 0);
}

#[test]
fn cfgmap_scrape_trims_unicode_whitespace() {
    assert_eq!(uploaded_from_output("\u{a0}42"), 42);
    assert_eq!(uploaded_from_output("\u{2003}7\u{3000}\n"), 7);
}

#[test]
fn redis_scrape_strips_quotes_then_parses() {
    assert_eq!(redis_from_output("\"99\"\n"), 99);
    assert_eq!(redis_from_output("123"), 123);
    assert_eq!(redis_from_output(" \"-5\" "), -5);
    assert_eq!(redis_from_output("\u{a0}\"7\"\u{3000}"), 7);
}

#[test]
fn redis_scrape_degrades_to_zero() {
    assert_eq!(redis_from_output(""), 0);
    assert_eq!(redis_from_output("\"\""), 0);
    assert_eq!(redis_from_output("(nil)"), 0);
}

#[test]
fn cfgmap_command_text() {
    assert_eq!(
        configmap_command("my-map"),
        "kubectl -n `cat /var/run/secrets/kubernetes.io/serviceaccount/namespace` get configmap my-map -o yaml | grep ED: | cut -d '\"' -f 2"
    );
}

#[test]
fn redis_command_text() {
    assert_eq!(
        redis_command("host1", "pw", "key1"),
        "redis-cli -h host1 -a pw get key1"
    );
}
