//! The collection cycle: one round of turning every descriptor's fetch
//! outcome into a sink update, in completion order, with failures isolated
//! to the descriptor that produced them.

use vstd::prelude::*;
use vstd::string::*;
use crate::errors::MError;
use crate::rpc::{node_value_of, node_err_ok, gql_height_of, gql_err_ok, node_extract,
    graphql_extract};
use crate::shell::{cfgmap_value_spec, redis_value_spec, uploaded_from_output, redis_from_output,
    lemma_coerced_fits};
use crate::sink::MetricsSink;
use crate::target::{RPCType, Target};
use crate::text::trim_spec;

verus! {

/// What one HTTP POST produced: the reply body on success, or the message of
/// the transport or status failure.
pub enum HttpReply {
    Failed(String),
    Body(String),
}

/// What the outside world handed a fetcher for one descriptor: an HTTP reply
/// for the network kinds, command output for the shell kinds.
pub enum FetchInput {
    Http(HttpReply),
    Shell(String),
}

impl FetchInput {
    /// The input has the shape the descriptor's kind calls for.
    pub open spec fn matches_kind(self, k: RPCType) -> bool {
        match k {
            RPCType::ChainNode => self is Http,
            RPCType::DictEntry => self is Http,
            RPCType::CFGMAPKey => self is Shell,
            RPCType::RedisKey => self is Shell,
        }
    }
}

/// The reading a descriptor yields from `input`, when it yields one: the
/// shell kinds always produce a (possibly degraded-to-0) reading, the
/// network kinds only from a successful reply whose expected field parses.
pub open spec fn fetch_value(t: Target, input: FetchInput) -> Option<i64> {
    match t.type_ {
        RPCType::ChainNode => match input {
            FetchInput::Http(HttpReply::Body(b)) => node_value_of(
                b@,
                t.block_label_offset->Some_0 as int,
            ),
            _ => None,
        },
        RPCType::DictEntry => match input {
            FetchInput::Http(HttpReply::Body(b)) => gql_height_of(b@),
            _ => None,
        },
        RPCType::CFGMAPKey => match input {
            FetchInput::Shell(out) => Some(cfgmap_value_spec(out@) as i64),
            _ => None,
        },
        RPCType::RedisKey => match input {
            FetchInput::Shell(out) => Some(redis_value_spec(out@) as i64),
            _ => None,
        },
    }
}

/// Which error a failed fetch reports, related to the inputs by view: a
/// failed request carries the reporter's message, a bad body the complaint
/// `node_err_ok` and `gql_err_ok` describe. Shell kinds never fail.
pub open spec fn fetch_err_ok(t: Target, input: FetchInput, e: MError) -> bool {
    match t.type_ {
        RPCType::ChainNode => match input {
            FetchInput::Http(HttpReply::Failed(m)) => e matches MError::REQWEST(m2) && m2@ == m@,
            FetchInput::Http(HttpReply::Body(b)) => node_err_ok(
                b@,
                t.block_label_offset->Some_0 as int,
                e,
            ),
            _ => false,
        },
        RPCType::DictEntry => match input {
            FetchInput::Http(HttpReply::Failed(m)) => e matches MError::REQWEST(m2) && m2@ == m@,
            FetchInput::Http(HttpReply::Body(b)) => gql_err_ok(b@, e),
            _ => false,
        },
        RPCType::CFGMAPKey => false,
        RPCType::RedisKey => false,
    }
}

/// One fetch step: turns a descriptor and what the outside world handed back
/// into the descriptor with its reading set, or into the typed failure.
pub fn emit_target(t: Target, input: FetchInput) -> (r: Result<Target, MError>)
    requires
        t.wf(),
        input.matches_kind(t.type_),
    ensures
        match fetch_value(t, input) {
            Some(n) => r == Ok::<Target, MError>(t.with_result(n)),
            None => r matches Err(e) && fetch_err_ok(t, input, e),
        },
{
    match t.type_ {
        RPCType::ChainNode => {
            let offset = t.block_label_offset.unwrap();
            match input {
                FetchInput::Http(reply) => match reply {
                    HttpReply::Failed(m) => Err(MError::REQWEST(m)),
                    HttpReply::Body(b) => match node_extract(b.as_str(), offset) {
                        Ok(n) => Ok(Target { result: Some(n), ..t }),
                        Err(e) => Err(e),
                    },
                },
                FetchInput::Shell(_) => {
                    proof {
                        assert(false);
                    }
                    unreached()
                },
            }
        },
        RPCType::DictEntry => match input {
            FetchInput::Http(reply) => match reply {
                HttpReply::Failed(m) => Err(MError::REQWEST(m)),
                HttpReply::Body(b) => match graphql_extract(b.as_str()) {
                    Ok(n) => Ok(Target { result: Some(n), ..t }),
                    Err(e) => Err(e),
                },
            },
            FetchInput::Shell(_) => {
                proof {
                    assert(false);
                }
                unreached()
            },
        },
        RPCType::CFGMAPKey => match input {
            FetchInput::Shell(out) => {
                let v = uploaded_from_output(out.as_str());
                proof {
                    lemma_coerced_fits(trim_spec(out@), 10);
                }
                Ok(Target { result: Some(v), ..t })
            },
            FetchInput::Http(_) => {
                proof {
                    assert(false);
                }
                unreached()
            },
        },
        RPCType::RedisKey => match input {
            FetchInput::Shell(out) => {
                let v = redis_from_output(out.as_str());
                Ok(Target { result: Some(v), ..t })
            },
            FetchInput::Http(_) => {
                proof {
                    assert(false);
                }
                unreached()
            },
        },
    }
}

/// The sink map after processing `outs` in order against `m`: a success
/// carrying a reading writes its series, everything else leaves the map
/// alone.
pub open spec fn cycle_view(
    m: Map<(Seq<char>, Seq<char>, Seq<char>, Seq<char>), int>,
    outs: Seq<Result<Target, MError>>,
) -> Map<(Seq<char>, Seq<char>, Seq<char>, Seq<char>), int>
    decreases outs.len(),
{
    if outs.len() == 0 {
        m
    } else {
        let m1 = match outs[0] {
            Ok(t) => match t.result {
                Some(n) => m.insert(t.series_key(), n as int),
                None => m,
            },
            Err(_) => m,
        };
        cycle_view(m1, outs.drop_first())
    }
}

/// The failures in `outs`, in arrival order.
pub open spec fn errors_of(outs: Seq<Result<Target, MError>>) -> Seq<MError>
    decreases outs.len(),
{
    if outs.len() == 0 {
        Seq::empty()
    } else {
        match outs[0] {
            Ok(_) => errors_of(outs.drop_first()),
            Err(e) => seq![e] + errors_of(outs.drop_first()),
        }
    }
}

/// One collection round's application: drains fetch outcomes in arrival
/// order; each success updates its descriptor's series in the sink (and the
/// mirrored gauge), each failure is collected for reporting and changes no
/// series. The round itself never fails.
pub fn run_cycle(sink: &mut MetricsSink, outcomes: Vec<Result<Target, MError>>) -> (errs: Vec<
    MError,
>)
    requires
        old(sink).wf(),
    ensures
        final(sink).wf(),
        final(sink)@ == cycle_view(old(sink)@, outcomes@),
        errs@ == errors_of(outcomes@),
{
    let ghost orig = outcomes@;
    let mut outs = outcomes;
    let mut errs: Vec<MError> = Vec::new();
    while outs.len() > 0
        invariant
            sink.wf(),
            cycle_view(old(sink)@, orig) == cycle_view(sink@, outs@),
            errors_of(orig) == errs@ + errors_of(outs@),
        decreases outs@.len(),
    {
        let ghost cur = outs@;
        let ghost errs0 = errs@;
        let o = outs.remove(0);
        proof {
            assert(outs@ =~= cur.drop_first());
            assert(o == cur[0]);
        }
        match o {
            Ok(t) => {
                match t.result {
                    Some(n) => {
                        sink.set(
                            t.label_network.as_str(),
                            t.label_app.as_str(),
                            t.label_component.as_str(),
                            t.label_source_label.as_str(),
                            n,
                        );
                    },
                    None => {},
                }
            },
            Err(e) => {
                errs.push(e);
                proof {
                    assert(errs0 + (seq![cur[0]->Err_0] + errors_of(cur.drop_first())) =~= (errs0
                        + seq![cur[0]->Err_0]) + errors_of(cur.drop_first()));
                    assert(errs0 + seq![cur[0]->Err_0] =~= errs@);
                }
            },
        }
    }
    proof {
        assert(cycle_view(sink@, outs@) == sink@);
        assert(errs@ + errors_of(outs@) =~= errs@);
    }
    errs
}

/// Whether an outcome writes series `k`: it succeeded with a reading under
/// that key.
pub open spec fn writes_key(
    o: Result<Target, MError>,
    k: (Seq<char>, Seq<char>, Seq<char>, Seq<char>),
) -> bool {
    o matches Ok(t) && t.result is Some && t.series_key() == k
}

/// A series that no outcome of the cycle writes comes out exactly as it went
/// in: a failed fetch leaves its stale reading in place and touches no other
/// series.
pub proof fn lemma_cycle_preserves_untouched(
    m: Map<(Seq<char>, Seq<char>, Seq<char>, Seq<char>), int>,
    outs: Seq<Result<Target, MError>>,
    k: (Seq<char>, Seq<char>, Seq<char>, Seq<char>),
)
    requires
        forall|j: int| 0 <= j < outs.len() ==> !writes_key(outs[j], k),
    ensures
        cycle_view(m, outs).contains_key(k) == m.contains_key(k),
        m.contains_key(k) ==> cycle_view(m, outs)[k] == m[k],
    decreases outs.len(),
{
    if outs.len() > 0 {
        let m1 = match outs[0] {
            Ok(t) => match t.result {
                Some(n) => m.insert(t.series_key(), n as int),
                None => m,
            },
            Err(_) => m,
        };
        assert(!writes_key(outs[0], k));
        let rest = outs.drop_first();
        assert forall|j: int| 0 <= j < rest.len() implies !writes_key(rest[j], k) by {
            assert(rest[j] == outs[j + 1]);
        }
        lemma_cycle_preserves_untouched(m1, rest, k);
    }
}

/// The whole of failure isolation for one cycle: with one fetch per
/// descriptor — the successful outcomes' series keys pairwise distinct —
/// every outcome that succeeded with a reading has its series hold exactly
/// that reading after the cycle, and every series no outcome wrote, the
/// failed descriptors' among them, comes out exactly as it went in.
pub proof fn lemma_cycle_isolation(
    m: Map<(Seq<char>, Seq<char>, Seq<char>, Seq<char>), int>,
    outs: Seq<Result<Target, MError>>,
)
    requires
        forall|x: int, y: int|
            #![trigger outs[x], outs[y]]
            0 <= x < y < outs.len() && outs[x] is Ok && outs[x]->Ok_0.result is Some
                && outs[y] is Ok && outs[y]->Ok_0.result is Some
                ==> outs[x]->Ok_0.series_key() != outs[y]->Ok_0.series_key(),
    ensures
        forall|i: int|
            #![trigger outs[i]]
            0 <= i < outs.len() && outs[i] is Ok && outs[i]->Ok_0.result is Some
                ==> cycle_view(m, outs).contains_key(outs[i]->Ok_0.series_key())
                && cycle_view(m, outs)[outs[i]->Ok_0.series_key()]
                == outs[i]->Ok_0.result->Some_0 as int,
        forall|k: (Seq<char>, Seq<char>, Seq<char>, Seq<char>)|
            #![trigger cycle_view(m, outs).contains_key(k)]
            (forall|j: int| 0 <= j < outs.len() ==> !writes_key(outs[j], k))
                ==> cycle_view(m, outs).contains_key(k) == m.contains_key(k) && (m.contains_key(k)
                ==> cycle_view(m, outs)[k] == m[k]),
{
    assert forall|i: int|
        0 <= i < outs.len() && outs[i] is Ok && outs[i]->Ok_0.result is Some implies cycle_view(
        m,
        outs,
    ).contains_key(outs[i]->Ok_0.series_key()) && cycle_view(m, outs)[outs[i]->Ok_0.series_key()]
        == outs[i]->Ok_0.result->Some_0 as int by {
        assert forall|j: int| #![trigger outs[j]] i < j < outs.len() implies !writes_key(
            outs[j],
            outs[i]->Ok_0.series_key(),
        ) by {
            if outs[j] is Ok && outs[j]->Ok_0.result is Some {
                assert(outs[i]->Ok_0.series_key() != outs[j]->Ok_0.series_key());
            }
        }
        lemma_cycle_applies_success(m, outs, i);
    }
    assert forall|k: (Seq<char>, Seq<char>, Seq<char>, Seq<char>)|
        #![trigger cycle_view(m, outs).contains_key(k)]
        (forall|j: int| 0 <= j < outs.len() ==> !writes_key(outs[j], k)) implies cycle_view(
        m,
        outs,
    ).contains_key(k) == m.contains_key(k) && (m.contains_key(k) ==> cycle_view(m, outs)[k]
        == m[k]) by {
        if forall|j: int| 0 <= j < outs.len() ==> !writes_key(outs[j], k) {
            lemma_cycle_preserves_untouched(m, outs, k);
        }
    }
}

/// Failure isolation: an outcome that succeeded with a reading has its
/// series hold exactly that reading after the cycle, whatever any other
/// outcome did, provided no later success writes the same series.
pub proof fn lemma_cycle_applies_success(
    m: Map<(Seq<char>, Seq<char>, Seq<char>, Seq<char>), int>,
    outs: Seq<Result<Target, MError>>,
    i: int,
)
    requires
        0 <= i < outs.len(),
        outs[i] matches Ok(t) && t.result is Some,
        forall|j: int| i < j < outs.len() ==> !writes_key(outs[j], outs[i]->Ok_0.series_key()),
    ensures
        cycle_view(m, outs).contains_key(outs[i]->Ok_0.series_key()),
        cycle_view(m, outs)[outs[i]->Ok_0.series_key()] == outs[i]->Ok_0.result->Some_0 as int,
    decreases outs.len(),
{
    let t = outs[i]->Ok_0;
    let k = t.series_key();
    let m1 = match outs[0] {
        Ok(t0) => match t0.result {
            Some(n) => m.insert(t0.series_key(), n as int),
            None => m,
        },
        Err(_) => m,
    };
    let rest = outs.drop_first();
    if i == 0 {
        assert forall|j: int| 0 <= j < rest.len() implies !writes_key(rest[j], k) by {
            assert(rest[j] == outs[j + 1]);
        }
        lemma_cycle_preserves_untouched(m1, rest, k);
    } else {
        assert(rest[i - 1] == outs[i]);
        assert forall|j: int| #![trigger rest[j]] i - 1 < j < rest.len() implies !writes_key(
            rest[j],
            rest[i - 1]->Ok_0.series_key(),
        ) by {
            assert(rest[j] == outs[j + 1]);
        }
        lemma_cycle_applies_success(m1, rest, i - 1);
    }
}

} // verus!
