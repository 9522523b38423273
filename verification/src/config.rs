//! Command-line target descriptions: comma-separated tuples naming one
//! dictionary or chain-node target.

use vstd::prelude::*;
use vstd::string::*;
use crate::numbers::{fits_i64, parse_i64_chars, str_radix_val};
use crate::text::{collect_chars, split_commas, split_commas_spec, views_of};

verus! {

/// Reads a `{TARGET LABEL},{URL}` pair; the address is handed back
/// unparsed.
pub fn parse_gq_target(s: &str) -> (r: Result<(String, String), &'static str>)
    ensures
        ({
            let parts = split_commas_spec(s@);
            match r {
                Ok(p) => parts.len() == 2 && p.0@ == parts[0] && p.1@ == parts[1],
                Err(m) => parts.len() != 2 && m@ == ("must be a pair {TARGET LABEL},{URL}")@,
            }
        }),
{
    let mut parts = split_commas(s);
    if parts.len() != 2 {
        return Err("must be a pair {TARGET LABEL},{URL}");
    }
    let url = parts.pop().unwrap();
    let label = parts.pop().unwrap();
    Ok((label, url))
}

/// Reads a `{TARGET LABEL},{BLOCK LABEL},{BLOCK OFFSET},{URL}` quadruple. A
/// four-field description whose offset field does not denote an i64 is a
/// caller's configuration mistake and is ruled out up front.
pub fn parse_node_target(s: &str) -> (r: Result<(String, String, i64, String), &'static str>)
    requires
        split_commas_spec(s@).len() == 4 ==> ({
            let v = str_radix_val(split_commas_spec(s@)[2], 10);
            v is Some && fits_i64(v->Some_0)
        }),
    ensures
        ({
            let parts = split_commas_spec(s@);
            match r {
                Ok(p) => parts.len() == 4 && p.0@ == parts[0] && p.1@ == parts[1] && Some(
                    p.2 as int,
                ) == str_radix_val(parts[2], 10) && p.3@ == parts[3],
                Err(m) => parts.len() != 4 && m@ == (
                "No enough info for node rpc target {TARGET LABEL},{BLOCK LABEL},{BLOCK OFFSET},{URL}")@,
            }
        }),
{
    let mut parts = split_commas(s);
    if parts.len() != 4 {
        return Err(
            "No enough info for node rpc target {TARGET LABEL},{BLOCK LABEL},{BLOCK OFFSET},{URL}",
        );
    }
    let url = parts.pop().unwrap();
    let offs = parts.pop().unwrap();
    let blk = parts.pop().unwrap();
    let label = parts.pop().unwrap();
    let cs = collect_chars(offs.as_str());
    let off = match parse_i64_chars(&cs, 10) {
        Some(v) => v,
        None => {
            proof {
                assert(false);
            }
            unreached()
        },
    };
    Ok((label, blk, off, url))
}

} // verus!
