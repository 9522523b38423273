//! The exposure adapter: the prometheus gauge vector that readings are
//! mirrored into for scraping. The vector's type cannot be named abstractly
//! (its builder type is private to prometheus), so it is held opaquely in a
//! handle and reached only through the wrappers here.

use vstd::prelude::*;

verus! {

/// An opaque handle on one prometheus integer gauge vector with four
/// variable labels.
#[verifier::external_body]
pub struct GaugeVecHandle {
    vec: prometheus::IntGaugeVec,
}

/// Relies on prometheus::IntGaugeVec::new (with prometheus::Opts::new for
/// its descriptor argument): a gauge vector under `name` with the four
/// variable labels, or `None` when prometheus refuses the descriptor.
#[verifier::external_body]
pub fn new_gauge_vec(
    name: &str,
    help: &str,
    label1: &str,
    label2: &str,
    label3: &str,
    label4: &str,
) -> (r: Option<GaugeVecHandle>) {
    match prometheus::IntGaugeVec::new(
        prometheus::Opts::new(name, help),
        &[label1, label2, label3, label4],
    ) {
        Ok(vec) => Some(GaugeVecHandle { vec }),
        Err(_) => None,
    }
}

/// Relies on prometheus::register: makes the gauge vector visible to the
/// default registry that the metrics endpoint serves; reports success.
#[verifier::external_body]
pub fn register_gauge_vec(h: &GaugeVecHandle) -> (ok: bool) {
    prometheus::register(Box::new(h.vec.clone())).is_ok()
}

/// Relies on prometheus's MetricVec::get_metric_with_label_values and
/// GenericGauge::set: stores `value` in the series under the four label
/// values, creating the series on first use, and reports whether the labels
/// fit the vector's schema. The vector mutates behind a shared reference, so
/// nothing can be promised of its state.
#[verifier::external_body]
pub fn gauge_set(
    h: &GaugeVecHandle,
    network: &str,
    app: &str,
    component: &str,
    source_label: &str,
    value: i64,
) -> (ok: bool) {
    match h.vec.get_metric_with_label_values(&[network, app, component, source_label]) {
        Ok(m) => {
            m.set(value);
            true
        },
        Err(_) => false,
    }
}

} // verus!
