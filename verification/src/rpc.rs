//! The two network fetchers' pure halves: building the JSON-RPC and GraphQL
//! request bodies, and reading a reply body down to the counter it carries.

use vstd::prelude::*;
use vstd::string::*;
use crate::errors::MError;
use crate::json::{json_doc, json_member, json_int, json_str, parse_json, json_get, json_as_i64,
    json_as_str};
use crate::numbers::{str_radix_val, fits_i64, parse_i64_chars};
use crate::text::collect_chars;

verus! {

/// The lowercase hex digit for `v` in 0..16.
pub open spec fn hex_digit_char(v: int) -> char {
    if v == 0 {
        '0'
    } else if v == 1 {
        '1'
    } else if v == 2 {
        '2'
    } else if v == 3 {
        '3'
    } else if v == 4 {
        '4'
    } else if v == 5 {
        '5'
    } else if v == 6 {
        '6'
    } else if v == 7 {
        '7'
    } else if v == 8 {
        '8'
    } else if v == 9 {
        '9'
    } else if v == 10 {
        'a'
    } else if v == 11 {
        'b'
    } else if v == 12 {
        'c'
    } else if v == 13 {
        'd'
    } else if v == 14 {
        'e'
    } else {
        'f'
    }
}

/// The JSON escaping of one character inside a string literal: quote and
/// backslash escaped, the named control escapes, `\u00XX` for the remaining
/// control characters, and every other character as it stands.
pub open spec fn escape_char(c: char) -> Seq<char> {
    if c == '"' {
        seq!['\\', '"']
    } else if c == '\\' {
        seq!['\\', '\\']
    } else if c == '\u{8}' {
        seq!['\\', 'b']
    } else if c == '\u{9}' {
        seq!['\\', 't']
    } else if c == '\u{a}' {
        seq!['\\', 'n']
    } else if c == '\u{c}' {
        seq!['\\', 'f']
    } else if c == '\u{d}' {
        seq!['\\', 'r']
    } else if (c as int) < 32 {
        seq!['\\', 'u', '0', '0', hex_digit_char((c as int) / 16), hex_digit_char((c as int) % 16)]
    } else {
        seq![c]
    }
}

/// The JSON escaping of a whole string.
pub open spec fn json_escape(s: Seq<char>) -> Seq<char>
    decreases s.len(),
{
    if s.len() == 0 {
        Seq::empty()
    } else {
        json_escape(s.drop_last()) + escape_char(s.last())
    }
}

fn hex_digit_of(v: u32) -> (c: char)
    requires
        v < 16,
    ensures
        c == hex_digit_char(v as int),
{
    if v == 0 {
        '0'
    } else if v == 1 {
        '1'
    } else if v == 2 {
        '2'
    } else if v == 3 {
        '3'
    } else if v == 4 {
        '4'
    } else if v == 5 {
        '5'
    } else if v == 6 {
        '6'
    } else if v == 7 {
        '7'
    } else if v == 8 {
        '8'
    } else if v == 9 {
        '9'
    } else if v == 10 {
        'a'
    } else if v == 11 {
        'b'
    } else if v == 12 {
        'c'
    } else if v == 13 {
        'd'
    } else if v == 14 {
        'e'
    } else {
        'f'
    }
}

fn append_escaped(out: &mut String, c: char)
    ensures
        final(out)@ == old(out)@ + escape_char(c),
{
    if c == '"' {
        proof {
            reveal_strlit("\\\"");
        }
        out.append("\\\"");
        proof {
            assert(("\\\"")@ =~= escape_char(c));
        }
    } else if c == '\\' {
        proof {
            reveal_strlit("\\\\");
        }
        out.append("\\\\");
        proof {
            assert(("\\\\")@ =~= escape_char(c));
        }
    } else if c == '\u{8}' {
        proof {
            reveal_strlit("\\b");
        }
        out.append("\\b");
        proof {
            assert(("\\b")@ =~= escape_char(c));
        }
    } else if c == '\u{9}' {
        proof {
            reveal_strlit("\\t");
        }
        out.append("\\t");
        proof {
            assert(("\\t")@ =~= escape_char(c));
        }
    } else if c == '\u{a}' {
        proof {
            reveal_strlit("\\n");
        }
        out.append("\\n");
        proof {
            assert(("\\n")@ =~= escape_char(c));
        }
    } else if c == '\u{c}' {
        proof {
            reveal_strlit("\\f");
        }
        out.append("\\f");
        proof {
            assert(("\\f")@ =~= escape_char(c));
        }
    } else if c == '\u{d}' {
        proof {
            reveal_strlit("\\r");
        }
        out.append("\\r");
        proof {
            assert(("\\r")@ =~= escape_char(c));
        }
    } else if (c as u32) < 32 {
        proof {
            reveal_strlit("\\u00");
        }
        out.append("\\u00");
        let hi = hex_digit_of((c as u32) / 16);
        let lo = hex_digit_of((c as u32) % 16);
        out.push(hi);
        out.push(lo);
        proof {
            assert(final(out)@ =~= old(out)@ + escape_char(c));
        }
    } else {
        out.push(c);
        proof {
            assert(final(out)@ =~= old(out)@ + escape_char(c));
        }
    }
}

/// `s` with every character JSON-escaped.
pub fn json_escape_str(s: &str) -> (r: String)
    ensures
        r@ == json_escape(s@),
{
    let n = s.unicode_len();
    let mut out = String::new();
    let mut i: usize = 0;
    while i < n
        invariant
            i <= n,
            n == s@.len(),
            out@ == json_escape(s@.subrange(0, i as int)),
        decreases n - i,
    {
        proof {
            let p = s@.subrange(0, i as int);
            let q = s@.subrange(0, i as int + 1);
            assert(q.drop_last() =~= p);
            assert(q.last() == s@[i as int]);
        }
        let c = s.get_char(i);
        append_escaped(&mut out, c);
        i += 1;
    }
    proof {
        assert(s@.subrange(0, n as int) =~= s@);
    }
    out
}

/// The `eth_getBlockByNumber` request body carrying `tag` as the block tag.
pub open spec fn node_body_spec(tag: Seq<char>) -> Seq<char> {
    ("{\"id\":1,\"jsonrpc\":\"2.0\",\"method\":\"eth_getBlockByNumber\",\"params\":[\"")@
        + json_escape(tag) + ("\",false]}")@
}

/// Builds the JSON-RPC request body asking a chain node for the block under
/// `tag`.
pub fn node_request_body(tag: &str) -> (r: String)
    ensures
        r@ == node_body_spec(tag@),
{
    let mut out = String::from_str(
        "{\"id\":1,\"jsonrpc\":\"2.0\",\"method\":\"eth_getBlockByNumber\",\"params\":[\"",
    );
    let esc = json_escape_str(tag);
    out.append(esc.as_str());
    out.append("\",false]}");
    out
}

/// The fixed GraphQL request body asking a dictionary service for its last
/// processed height.
pub open spec fn graphql_body_spec() -> Seq<char> {
    ("{\"query\":\"\\n    query MyQuery {\\n        _metadata {\\n          lastProcessedHeight\\n        }\\n      }\\n    \"}")@
}

/// Builds the GraphQL request body.
pub fn graphql_request_body() -> (r: String)
    ensures
        r@ == graphql_body_spec(),
{
    String::from_str(
        "{\"query\":\"\\n    query MyQuery {\\n        _metadata {\\n          lastProcessedHeight\\n        }\\n      }\\n    \"}",
    )
}

/// The hex block-number string inside a chain-node reply: the string at
/// `.result.number`, when the reply is valid JSON and carries one.
pub open spec fn node_hex_of(body: Seq<char>) -> Option<Seq<char>> {
    match json_doc(body) {
        None => None,
        Some(doc) => match json_member(doc, ("result")@) {
            None => None,
            Some(res) => match json_member(res, ("number")@) {
                None => None,
                Some(num) => json_str(num),
            },
        },
    }
}

/// The value of the hex digits after the two-character `0x` prefix; `None`
/// when the string is shorter than the prefix or the digits do not parse.
pub open spec fn hex_tail_val(hex: Seq<char>) -> Option<int> {
    if hex.len() < 2 {
        None
    } else {
        str_radix_val(hex.subrange(2, hex.len() as int), 16)
    }
}

/// The reading a chain-node reply yields under `offset`: the hex block
/// number, parsed and shifted, when everything on that path works out.
pub open spec fn node_value_of(body: Seq<char>, offset: int) -> Option<i64> {
    match node_hex_of(body) {
        Some(hex) => match hex_tail_val(hex) {
            Some(v) => if fits_i64(v) && fits_i64(v - offset) {
                Some((v - offset) as i64)
            } else {
                None
            },
            None => None,
        },
        None => None,
    }
}

/// The error a failed chain-node read reports: a transport-level complaint
/// for a body that is not JSON, the failing path with the raw body for a
/// missing field, and the hex string itself for a number that does not parse
/// or does not fit.
pub open spec fn node_err_ok(body: Seq<char>, offset: int, e: MError) -> bool {
    match node_hex_of(body) {
        Some(hex) => e matches MError::PARSEHEX(h) && h@ == hex,
        None => if json_doc(body) is None {
            e matches MError::REQWEST(m) && m@ == ("invalid JSON in reply: ")@ + body
        } else {
            e matches MError::PARSEJSON(p, raw) && p@ == (".result.number")@ && raw@ == body
        },
    }
}

fn node_shape_err(body: &str) -> (e: MError)
    ensures
        e matches MError::PARSEJSON(p, raw) && p@ == (".result.number")@ && raw@ == body@,
{
    MError::PARSEJSON(String::from_str(".result.number"), String::from_str(body))
}

fn bad_json_err(body: &str) -> (e: MError)
    ensures
        e matches MError::REQWEST(m) && m@ == ("invalid JSON in reply: ")@ + body@,
{
    let mut m = String::from_str("invalid JSON in reply: ");
    m.append(body);
    MError::REQWEST(m)
}

/// Reads a chain-node reply: the string at `.result.number`, parsed as hex
/// after its two-character prefix, minus `offset`.
pub fn node_extract(body: &str, offset: i64) -> (r: Result<i64, MError>)
    ensures
        match node_value_of(body@, offset as int) {
            Some(n) => r == Ok::<i64, MError>(n),
            None => r matches Err(e) && node_err_ok(body@, offset as int, e),
        },
{
    let doc = match parse_json(body) {
        Some(d) => d,
        None => {
            return Err(bad_json_err(body));
        },
    };
    let res = match json_get(&doc, "result") {
        Some(res) => res,
        None => {
            return Err(node_shape_err(body));
        },
    };
    let num = match json_get(res, "number") {
        Some(num) => num,
        None => {
            return Err(node_shape_err(body));
        },
    };
    let hexs = match json_as_str(num) {
        Some(s) => s,
        None => {
            return Err(node_shape_err(body));
        },
    };
    let cs = collect_chars(hexs.as_str());
    if cs.len() < 2 {
        return Err(MError::PARSEHEX(hexs));
    }
    let mut tail: Vec<char> = Vec::new();
    let mut i: usize = 2;
    while i < cs.len()
        invariant
            2 <= i <= cs@.len(),
            tail@ == cs@.subrange(2, i as int),
        decreases cs@.len() - i,
    {
        tail.push(cs[i]);
        proof {
            assert(cs@.subrange(2, i as int + 1) =~= cs@.subrange(2, i as int).push(
                cs@[i as int],
            ));
        }
        i += 1;
    }
    proof {
        assert(tail@ =~= cs@.subrange(2, cs@.len() as int));
    }
    match parse_i64_chars(&tail, 16) {
        None => Err(MError::PARSEHEX(hexs)),
        Some(v) => {
            let w: i128 = v as i128 - offset as i128;
            if w < i64::MIN as i128 || w > i64::MAX as i128 {
                Err(MError::PARSEHEX(hexs))
            } else {
                Ok(w as i64)
            }
        },
    }
}

/// The reading a dictionary reply yields: the integer at
/// `.data._metadata.lastProcessedHeight`, when the reply carries one.
pub open spec fn gql_height_of(body: Seq<char>) -> Option<i64> {
    match json_doc(body) {
        None => None,
        Some(doc) => match json_member(doc, ("data")@) {
            None => None,
            Some(d) => match json_member(d, ("_metadata")@) {
                None => None,
                Some(m) => match json_member(m, ("lastProcessedHeight")@) {
                    None => None,
                    Some(h) => json_int(h),
                },
            },
        },
    }
}

/// The error a failed dictionary read reports, by the same policy as
/// `node_err_ok`.
pub open spec fn gql_err_ok(body: Seq<char>, e: MError) -> bool {
    if json_doc(body) is None {
        e matches MError::REQWEST(m) && m@ == ("invalid JSON in reply: ")@ + body
    } else {
        e matches MError::PARSEJSON(p, raw) && p@ == (".data._metadata.lastProcessedHeight")@
            && raw@ == body
    }
}

fn gql_shape_err(body: &str) -> (e: MError)
    ensures
        e matches MError::PARSEJSON(p, raw) && p@ == (".data._metadata.lastProcessedHeight")@
            && raw@ == body@,
{
    MError::PARSEJSON(
        String::from_str(".data._metadata.lastProcessedHeight"),
        String::from_str(body),
    )
}

/// Reads a dictionary reply: the integer at
/// `.data._metadata.lastProcessedHeight`.
pub fn graphql_extract(body: &str) -> (r: Result<i64, MError>)
    ensures
        match gql_height_of(body@) {
            Some(n) => r == Ok::<i64, MError>(n),
            None => r matches Err(e) && gql_err_ok(body@, e),
        },
{
    let doc = match parse_json(body) {
        Some(d) => d,
        None => {
            return Err(bad_json_err(body));
        },
    };
    let d = match json_get(&doc, "data") {
        Some(d) => d,
        None => {
            return Err(gql_shape_err(body));
        },
    };
    let m = match json_get(d, "_metadata") {
        Some(m) => m,
        None => {
            return Err(gql_shape_err(body));
        },
    };
    let h = match json_get(m, "lastProcessedHeight") {
        Some(h) => h,
        None => {
            return Err(gql_shape_err(body));
        },
    };
    match json_as_i64(h) {
        Some(n) => Ok(n),
        None => Err(gql_shape_err(body)),
    }
}

} // verus!
