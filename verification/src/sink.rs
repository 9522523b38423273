//! The metrics sink: a registry of labeled gauge series with last-write-wins
//! readings, viewed as a map from label values to the last value written, and
//! mirrored into a prometheus gauge vector for scraping.

use vstd::prelude::*;
use vstd::string::*;
use crate::gauge::{gauge_set, new_gauge_vec, register_gauge_vec, GaugeVecHandle};
use crate::text::str_eq;

verus! {

/// One labeled series: four label values and its last reading.
pub struct SeriesEntry {
    pub network: String,
    pub app: String,
    pub component: String,
    pub source_label: String,
    pub value: i64,
}

impl SeriesEntry {
    /// The series key: the four label values.
    pub open spec fn key(self) -> (Seq<char>, Seq<char>, Seq<char>, Seq<char>) {
        (self.network@, self.app@, self.component@, self.source_label@)
    }
}

/// The map a series list denotes: later entries win.
pub open spec fn entries_map(s: Seq<SeriesEntry>) -> Map<
    (Seq<char>, Seq<char>, Seq<char>, Seq<char>),
    int,
>
    decreases s.len(),
{
    if s.len() == 0 {
        Map::empty()
    } else {
        entries_map(s.drop_last()).insert(s.last().key(), s.last().value as int)
    }
}

/// The registry of labeled gauges. Created once at startup; the only shared
/// mutable state, written once per series per cycle.
pub struct MetricsSink {
    pub entries: Vec<SeriesEntry>,
    pub gauge: GaugeVecHandle,
}

impl View for MetricsSink {
    type V = Map<(Seq<char>, Seq<char>, Seq<char>, Seq<char>), int>;

    open spec fn view(&self) -> Map<(Seq<char>, Seq<char>, Seq<char>, Seq<char>), int> {
        entries_map(self.entries@)
    }
}

proof fn lemma_entries_map_update(s: Seq<SeriesEntry>, i: int, e: SeriesEntry)
    requires
        0 <= i < s.len(),
        e.key() == s[i].key(),
        forall|x: int, y: int| 0 <= x < y < s.len() ==> s[x].key() != s[y].key(),
    ensures
        entries_map(s.update(i, e)) == entries_map(s).insert(e.key(), e.value as int),
    decreases s.len(),
{
    let t = s.update(i, e);
    if i == s.len() - 1 {
        assert(t.drop_last() =~= s.drop_last());
        assert(t.last() == e);
        assert(entries_map(s.drop_last()).insert(s[i].key(), s[i].value as int).insert(
            e.key(),
            e.value as int,
        ) =~= entries_map(s.drop_last()).insert(e.key(), e.value as int));
    } else {
        let sl = s.drop_last();
        assert(t.drop_last() =~= sl.update(i, e));
        assert(t.last() == s.last());
        assert forall|x: int, y: int| 0 <= x < y < sl.len() implies sl[x].key() != sl[y].key() by {
            assert(sl[x] == s[x]);
            assert(sl[y] == s[y]);
        }
        assert(sl[i] == s[i]);
        lemma_entries_map_update(sl, i, e);
        assert(s[i].key() != s.last().key());
        assert(entries_map(sl).insert(e.key(), e.value as int).insert(
            s.last().key(),
            s.last().value as int,
        ) =~= entries_map(sl).insert(s.last().key(), s.last().value as int).insert(
            e.key(),
            e.value as int,
        ));
    }
}

proof fn lemma_entries_map_found(s: Seq<SeriesEntry>, i: int)
    requires
        0 <= i < s.len(),
        forall|x: int, y: int| 0 <= x < y < s.len() ==> s[x].key() != s[y].key(),
    ensures
        entries_map(s).contains_key(s[i].key()),
        entries_map(s)[s[i].key()] == s[i].value as int,
    decreases s.len(),
{
    if i < s.len() - 1 {
        let sl = s.drop_last();
        assert forall|x: int, y: int| 0 <= x < y < sl.len() implies sl[x].key() != sl[y].key() by {
            assert(sl[x] == s[x]);
            assert(sl[y] == s[y]);
        }
        assert(sl[i] == s[i]);
        lemma_entries_map_found(sl, i);
        assert(s[i].key() != s.last().key());
    }
}

proof fn lemma_entries_map_absent(
    s: Seq<SeriesEntry>,
    k: (Seq<char>, Seq<char>, Seq<char>, Seq<char>),
)
    requires
        forall|x: int| 0 <= x < s.len() ==> s[x].key() != k,
    ensures
        !entries_map(s).contains_key(k),
    decreases s.len(),
{
    if s.len() > 0 {
        let sl = s.drop_last();
        assert forall|x: int| 0 <= x < sl.len() implies sl[x].key() != k by {
            assert(sl[x] == s[x]);
        }
        lemma_entries_map_absent(sl, k);
    }
}

impl MetricsSink {
    /// Each series key appears at most once in the registry.
    pub open spec fn wf(self) -> bool {
        forall|x: int, y: int|
            0 <= x < y < self.entries@.len() ==> self.entries@[x].key() != self.entries@[y].key()
    }

    /// An empty registry mirroring into `gauge`.
    pub fn new(gauge: GaugeVecHandle) -> (s: MetricsSink)
        ensures
            s@ == Map::<(Seq<char>, Seq<char>, Seq<char>, Seq<char>), int>::empty(),
            s.wf(),
    {
        MetricsSink { entries: Vec::new(), gauge }
    }

    /// Applies one reading: creates or overwrites the series under the four
    /// label values, last write wins, and mirrors the reading into the
    /// prometheus gauge.
    pub fn set(
        &mut self,
        network: &str,
        app: &str,
        component: &str,
        source_label: &str,
        value: i64,
    )
        requires
            old(self).wf(),
        ensures
            final(self).wf(),
            final(self)@ == old(self)@.insert((network@, app@, component@, source_label@), value as int),
            final(self).gauge == old(self).gauge,
    {
        let ghost k = (network@, app@, component@, source_label@);
        let n = self.entries.len();
        let mut i: usize = 0;
        while i < n
            invariant
                i <= n,
                n == self.entries@.len(),
                forall|j: int| 0 <= j < i ==> self.entries@[j].key() != k,
                *self == *old(self),
                old(self).wf(),
                k == (network@, app@, component@, source_label@),
            decreases n - i,
        {
            let hit = str_eq(self.entries[i].network.as_str(), network) && str_eq(
                self.entries[i].app.as_str(),
                app,
            ) && str_eq(self.entries[i].component.as_str(), component) && str_eq(
                self.entries[i].source_label.as_str(),
                source_label,
            );
            if !hit {
                proof {
                    assert(self.entries@[i as int].key() != k);
                }
            } else {
                let ne = SeriesEntry {
                    network: String::from_str(network),
                    app: String::from_str(app),
                    component: String::from_str(component),
                    source_label: String::from_str(source_label),
                    value,
                };
                proof {
                    assert(ne.key() == self.entries@[i as int].key());
                    lemma_entries_map_update(self.entries@, i as int, ne);
                }
                self.entries[i] = ne;
                gauge_set(&self.gauge, network, app, component, source_label, value);
                return;
            }
            i += 1;
        }
        let ne = SeriesEntry {
            network: String::from_str(network),
            app: String::from_str(app),
            component: String::from_str(component),
            source_label: String::from_str(source_label),
            value,
        };
        proof {
            assert(self.entries@.push(ne).drop_last() =~= self.entries@);
        }
        self.entries.push(ne);
        gauge_set(&self.gauge, network, app, component, source_label, value);
    }

    /// The last reading written for the series under the four label values,
    /// if one was ever written.
    pub fn get(
        &self,
        network: &str,
        app: &str,
        component: &str,
        source_label: &str,
    ) -> (r: Option<i64>)
        requires
            self.wf(),
        ensures
            match r {
                Some(v) => self@.contains_key((network@, app@, component@, source_label@))
                    && self@[(network@, app@, component@, source_label@)] == v as int,
                None => !self@.contains_key((network@, app@, component@, source_label@)),
            },
    {
        let ghost k = (network@, app@, component@, source_label@);
        let n = self.entries.len();
        let mut i: usize = 0;
        while i < n
            invariant
                i <= n,
                n == self.entries@.len(),
                self.wf(),
                k == (network@, app@, component@, source_label@),
                forall|j: int| 0 <= j < i ==> self.entries@[j].key() != k,
            decreases n - i,
        {
            let hit = str_eq(self.entries[i].network.as_str(), network) && str_eq(
                self.entries[i].app.as_str(),
                app,
            ) && str_eq(self.entries[i].component.as_str(), component) && str_eq(
                self.entries[i].source_label.as_str(),
                source_label,
            );
            if hit {
                proof {
                    lemma_entries_map_found(self.entries@, i as int);
                }
                return Some(self.entries[i].value);
            }
            i += 1;
        }
        proof {
            lemma_entries_map_absent(self.entries@, k);
        }
        None
    }

    /// How many distinct series the registry holds.
    pub fn series_count(&self) -> (n: usize)
        ensures
            n == self.entries@.len(),
    {
        self.entries.len()
    }
}

/// A fresh, empty sink whose gauge vector is created under `name` with the
/// four variable labels and registered with the default registry the metrics
/// endpoint serves; `None` when prometheus refuses the descriptor or an
/// equally named collector is already registered.
pub fn new_registered_sink(
    name: &str,
    help: &str,
    label1: &str,
    label2: &str,
    label3: &str,
    label4: &str,
) -> (r: Option<MetricsSink>)
    ensures
        match r {
            Some(s) => s@ == Map::<(Seq<char>, Seq<char>, Seq<char>, Seq<char>), int>::empty()
                && s.wf(),
            None => true,
        },
{
    match new_gauge_vec(name, help, label1, label2, label3, label4) {
        Some(h) => {
            if register_gauge_vec(&h) {
                Some(MetricsSink::new(h))
            } else {
                None
            }
        },
        None => None,
    }
}

/// Repeated sets are safe: writing the same value to the same series twice
/// leaves exactly the state one write leaves.
pub proof fn lemma_set_idempotent(
    m: Map<(Seq<char>, Seq<char>, Seq<char>, Seq<char>), int>,
    k: (Seq<char>, Seq<char>, Seq<char>, Seq<char>),
    v: int,
)
    ensures
        m.insert(k, v).insert(k, v) == m.insert(k, v),
{
    assert(m.insert(k, v).insert(k, v) =~= m.insert(k, v));
}

/// A new reading overwrites the prior one: last write wins, no history.
pub proof fn lemma_set_overwrites(
    m: Map<(Seq<char>, Seq<char>, Seq<char>, Seq<char>), int>,
    k: (Seq<char>, Seq<char>, Seq<char>, Seq<char>),
    a: int,
    b: int,
)
    ensures
        m.insert(k, a).insert(k, b) == m.insert(k, b),
{
    assert(m.insert(k, a).insert(k, b) =~= m.insert(k, b));
}

} // verus!
