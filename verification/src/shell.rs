//! The shell-based fetchers' pure halves: building the lookup commands and
//! scraping their output. An output that is not a whole number degrades to 0
//! — an empty or missing key is an expected transient state, not a fault —
//! while the commands themselves are run outside the library.

use vstd::prelude::*;
use vstd::string::*;
use crate::numbers::{coerced_i64_val, fits_i64, parse_i64_chars};
use crate::text::{collect_chars, strip_quote_chars, strip_quotes, trim_chars, trim_spec};

verus! {

/// The shell command that reads a config map and cuts the quoted value of
/// its `ED:` line.
pub open spec fn cfgmap_command_spec(name: Seq<char>) -> Seq<char> {
    ("kubectl -n `cat /var/run/secrets/kubernetes.io/serviceaccount/namespace` get configmap ")@
        + name + (" -o yaml | grep ED: | cut -d '\"' -f 2")@
}

/// Builds the config-map lookup command for the named resource.
pub fn configmap_command(name: &str) -> (r: String)
    ensures
        r@ == cfgmap_command_spec(name@),
{
    let mut out = String::from_str(
        "kubectl -n `cat /var/run/secrets/kubernetes.io/serviceaccount/namespace` get configmap ",
    );
    out.append(name);
    out.append(" -o yaml | grep ED: | cut -d '\"' -f 2");
    out
}

/// The key-value-store lookup command against `(host, password, key)`.
pub open spec fn redis_command_spec(host: Seq<char>, passwd: Seq<char>, key: Seq<char>) -> Seq<
    char,
> {
    ("redis-cli -h ")@ + host + (" -a ")@ + passwd + (" get ")@ + key
}

/// Builds the key-value-store lookup command.
pub fn redis_command(host: &str, passwd: &str, key: &str) -> (r: String)
    ensures
        r@ == redis_command_spec(host@, passwd@, key@),
{
    let mut out = String::from_str("redis-cli -h ");
    out.append(host);
    out.append(" -a ");
    out.append(passwd);
    out.append(" get ");
    out.append(key);
    out
}

/// The reading scraped from config-map output: the trimmed text as a decimal
/// i64, or 0 when it is no such number.
pub open spec fn cfgmap_value_spec(out: Seq<char>) -> int {
    coerced_i64_val(trim_spec(out), 10)
}

/// The reading scraped from key-value-store output: the trimmed text with
/// its quotes removed, as a decimal i64, or 0 when it is no such number.
pub open spec fn redis_value_spec(out: Seq<char>) -> int {
    coerced_i64_val(strip_quotes(trim_spec(out)), 10)
}

/// Scrapes config-map command output; never fails.
pub fn uploaded_from_output(out: &str) -> (r: i64)
    ensures
        r as int == cfgmap_value_spec(out@),
{
    let cs = collect_chars(out);
    let t = trim_chars(&cs);
    match parse_i64_chars(&t, 10) {
        Some(n) => n,
        None => 0,
    }
}

/// Scrapes key-value-store command output; never fails.
pub fn redis_from_output(out: &str) -> (r: i64)
    ensures
        r as int == redis_value_spec(out@),
{
    let cs = collect_chars(out);
    let t = trim_chars(&cs);
    let q = strip_quote_chars(&t);
    match parse_i64_chars(&q, 10) {
        Some(n) => n,
        None => 0,
    }
}

/// A coerced reading always fits an i64.
pub proof fn lemma_coerced_fits(out: Seq<char>, radix: int)
    ensures
        fits_i64(coerced_i64_val(out, radix)),
{
}

} // verus!
