//! A store of metrics: the families registered in it, what they hold, and the
//! text that shows it.

use crate::text;
use vstd::prelude::*;
use vstd::string::*;

verus! {

/// What the metrics of a family are.
#[derive(Debug, Clone, Copy, PartialEq, Eq, Structural)]
pub enum FamilyKind {
    /// One counter per combination of label values.
    Counters,
    /// One gauge per combination of label values.
    Gauges,
    /// One histogram of durations per combination of label values.
    Histograms,
    /// A single gauge, without labels.
    OneGauge,
}

/// What describes a family: the kind of its metrics, its name, its help and its
/// label names.
#[verifier::ext_equal]
pub struct Family {
    pub kind: FamilyKind,
    pub name: Seq<char>,
    pub help: Seq<char>,
    pub labels: Seq<Seq<char>>,
}

/// What a metric holds.
#[verifier::ext_equal]
pub enum Sample {
    Count(u64),
    Level(i64),
    /// The durations observed, in nanoseconds, in order.
    Observed(Seq<u64>),
}

/// A metric: the label values it was made with, and what it holds.
#[verifier::ext_equal]
pub struct MetricView {
    pub values: Seq<Seq<char>>,
    pub sample: Sample,
}

/// A family and its metrics, by the key of their label values. The one gauge of
/// a family without labels stands under the key of no values.
#[verifier::ext_equal]
pub struct FamilyView {
    pub family: Family,
    pub metrics: Map<u64, MetricView>,
}

/// Families by their names.
pub type Held = Map<Seq<char>, FamilyView>;

/// `prometheus::Registry` and the families registered in it. No handle to a
/// family leaves the store, so what the registry gathers is what the store did.
#[verifier::external_body]
pub struct MetricStore {
    registry: prometheus::Registry,
    counters: std::collections::BTreeMap<String, prometheus::IntCounterVec>,
    gauges: std::collections::BTreeMap<String, prometheus::IntGaugeVec>,
    histograms: std::collections::BTreeMap<String, prometheus::HistogramVec>,
    single: std::collections::BTreeMap<String, prometheus::IntGauge>,
}

/// The families registered in a store, and what they hold.
pub uninterp spec fn held(store: MetricStore) -> Map<Seq<char>, FamilyView>;

/// The text that shows what families hold.
pub uninterp spec fn exposition(families: Map<Seq<char>, FamilyView>) -> Seq<char>;

/// The key under which a family keeps the metric of some label values: the
/// hash of their concatenation.
pub uninterp spec fn label_key(values: Seq<Seq<char>>) -> u64;

/// The id by which a registry tells families apart: the hash of their names.
pub uninterp spec fn name_key(name: Seq<char>) -> u64;

/// A registered family has the id.
pub open spec fn taken(families: Held, id: u64) -> bool {
    exists|name: Seq<char>| #[trigger] families.contains_key(name) && name_key(name) == id
}

/// The label names or values in a list.
pub open spec fn labels_view(labels: Seq<&str>) -> Seq<Seq<char>> {
    Seq::new(labels.len(), |i: int| labels[i]@)
}

/// A character a name may start with.
pub open spec fn name_char(c: char, colon: bool) -> bool {
    ('a' <= c && c <= 'z') || ('A' <= c && c <= 'Z') || c == '_' || (colon && c == ':')
}

/// A name of letters, digits and underscores that starts with no digit; a
/// metric's may hold colons.
pub open spec fn is_name(s: Seq<char>, colon: bool) -> bool {
    &&& s.len() > 0
    &&& name_char(s[0], colon)
    &&& forall|i: int|
        0 < i < s.len() ==> name_char(#[trigger] s[i], colon) || ('0' <= s[i] && s[i] <= '9')
}

/// A description that makes a family.
pub open spec fn describable(f: Family) -> bool {
    &&& f.help.len() > 0
    &&& is_name(f.name, true)
    &&& forall|i: int| 0 <= i < f.labels.len() ==> is_name(#[trigger] f.labels[i], false)
    &&& f.labels.no_duplicates()
}

/// The metrics of a new family: none, or the one gauge, at 0.
pub open spec fn fresh(kind: FamilyKind) -> Map<u64, MetricView> {
    if kind == FamilyKind::OneGauge {
        Map::empty().insert(
            label_key(Seq::empty()),
            MetricView { values: Seq::empty(), sample: Sample::Level(0) },
        )
    } else {
        Map::empty()
    }
}

/// The families with a new one.
pub open spec fn added(families: Held, f: Family) -> Held {
    families.insert(f.name, FamilyView { family: f, metrics: fresh(f.kind) })
}

/// The families take in another: it is properly described, and no family has its
/// id.
pub open spec fn joins(families: Held, f: Family) -> bool {
    describable(f) && !taken(families, name_key(f.name))
}

/// The family stands in the store as described.
pub open spec fn holds(families: Held, f: Family) -> bool {
    families.contains_key(f.name) && families[f.name].family == f
}

/// The same families, as described; what they hold may differ.
pub open spec fn same_families(a: Held, b: Held) -> bool {
    &&& a.dom() == b.dom()
    &&& forall|name: Seq<char>|
        a.contains_key(name) ==> (#[trigger] b[name]).family == a[name].family
}

/// No families.
pub open spec fn no_families() -> Held {
    Map::empty()
}

/// A description.
pub open spec fn family(
    kind: FamilyKind,
    name: Seq<char>,
    help: Seq<char>,
    labels: Seq<Seq<char>>,
) -> Family {
    Family { kind, name, help, labels }
}

/// `Registry::new`: a store without families.
#[verifier::external_body]
pub(crate) fn new_store() -> (r: MetricStore)
    ensures
        held(r) == no_families(),
{
    MetricStore {
        registry: prometheus::Registry::new(),
        counters: Default::default(),
        gauges: Default::default(),
        histograms: Default::default(),
        single: Default::default(),
    }
}

/// `IntCounterVec::new` and `Registry::register`: a family of counters joins,
/// without counters yet, or is refused and leaves everything as it was. It is
/// refused exactly where its description is improper or its id, a hash of its
/// name, is taken. What the error says is left open.
#[verifier::external_body]
pub(crate) fn add_counters(store: &mut MetricStore, name: &str, help: &str, labels: &Vec<&str>) -> (r:
    Result<(), String>)
    ensures
        r is Ok == {
            &&& describable(family(FamilyKind::Counters, name@, help@, labels_view(labels@)))
            &&& !taken(held(*old(store)), name_key(name@))
        },
        held(*final(store)) == (if r is Ok {
            added(held(*old(store)), family(FamilyKind::Counters, name@, help@, labels_view(labels@)))
        } else {
            held(*old(store))
        }),
{
    let made = prometheus::IntCounterVec::new(prometheus::Opts::new(name, help), labels);
    let family = made.map_err(|err| err.to_string())?;
    let joined = store.registry.register(Box::new(family.clone()));
    joined.map_err(|err| err.to_string())?;
    store.counters.insert(name.to_string(), family);
    Ok(())
}

/// `IntGaugeVec::new` and `Registry::register`: a family of gauges joins,
/// without gauges yet, or is refused and leaves everything as it was. It is
/// refused exactly where its description is improper or its id, a hash of its
/// name, is taken. What the error says is left open.
#[verifier::external_body]
pub(crate) fn add_gauges(store: &mut MetricStore, name: &str, help: &str, labels: &Vec<&str>) -> (r:
    Result<(), String>)
    ensures
        r is Ok == {
            &&& describable(family(FamilyKind::Gauges, name@, help@, labels_view(labels@)))
            &&& !taken(held(*old(store)), name_key(name@))
        },
        held(*final(store)) == (if r is Ok {
            added(held(*old(store)), family(FamilyKind::Gauges, name@, help@, labels_view(labels@)))
        } else {
            held(*old(store))
        }),
{
    let made = prometheus::IntGaugeVec::new(prometheus::Opts::new(name, help), labels);
    let family = made.map_err(|err| err.to_string())?;
    let joined = store.registry.register(Box::new(family.clone()));
    joined.map_err(|err| err.to_string())?;
    store.gauges.insert(name.to_string(), family);
    Ok(())
}

/// `HistogramVec::new` and `Registry::register`: a family of histograms joins,
/// without histograms yet, or is refused and leaves everything as it was. It is
/// refused exactly where its description is improper or its id, a hash of its
/// name, is taken. What the error says is left open.
#[verifier::external_body]
pub(crate) fn add_histograms(store: &mut MetricStore, name: &str, help: &str, labels: &Vec<&str>) -> (r:
    Result<(), String>)
    ensures
        r is Ok == {
            &&& describable(family(FamilyKind::Histograms, name@, help@, labels_view(labels@)))
            &&& !taken(held(*old(store)), name_key(name@))
        },
        held(*final(store)) == (if r is Ok {
            added(held(*old(store)), family(FamilyKind::Histograms, name@, help@, labels_view(labels@)))
        } else {
            held(*old(store))
        }),
{
    let made = prometheus::HistogramVec::new(prometheus::HistogramOpts::new(name, help), labels);
    let family = made.map_err(|err| err.to_string())?;
    let joined = store.registry.register(Box::new(family.clone()));
    joined.map_err(|err| err.to_string())?;
    store.histograms.insert(name.to_string(), family);
    Ok(())
}

/// `IntGauge::new` and `Registry::register`: a gauge joins, at 0, or is refused
/// and leaves everything as it was. It is refused exactly where its description
/// is improper or its id, a hash of its name, is taken. What the error says is
/// left open.
#[verifier::external_body]
pub(crate) fn add_gauge(store: &mut MetricStore, name: &str, help: &str) -> (r: Result<(), String>)
    ensures
        r is Ok == {
            &&& describable(family(FamilyKind::OneGauge, name@, help@, Seq::empty()))
            &&& !taken(held(*old(store)), name_key(name@))
        },
        held(*final(store)) == (if r is Ok {
            added(held(*old(store)), family(FamilyKind::OneGauge, name@, help@, Seq::empty()))
        } else {
            held(*old(store))
        }),
{
    let made = prometheus::IntGauge::new(name, help);
    let family = made.map_err(|err| err.to_string())?;
    let joined = store.registry.register(Box::new(family.clone()));
    joined.map_err(|err| err.to_string())?;
    store.single.insert(name.to_string(), family);
    Ok(())
}

/// The sum as a 64-bit counter holds it.
pub open spec fn wrapped(a: u64, b: u64) -> u64 {
    if a + b <= u64::MAX {
        (a + b) as u64
    } else {
        (a + b - 0x1_0000_0000_0000_0000) as u64
    }
}

/// What a counter counted.
pub open spec fn count_in(sample: Sample) -> u64 {
    match sample {
        Sample::Count(n) => n,
        _ => 0,
    }
}

/// What a histogram observed.
pub open spec fn observed_in(sample: Sample) -> Seq<u64> {
    match sample {
        Sample::Observed(list) => list,
        _ => Seq::empty(),
    }
}

/// The label values of the metric under a key: those it was made with, or the
/// ones it is made with now.
pub open spec fn values_at(metrics: Map<u64, MetricView>, key: u64, values: Seq<Seq<char>>) -> Seq<
    Seq<char>,
> {
    if metrics.contains_key(key) {
        metrics[key].values
    } else {
        values
    }
}

/// What the metric under a key holds; nothing where there is none.
pub open spec fn sample_at(metrics: Map<u64, MetricView>, key: u64) -> Sample {
    if metrics.contains_key(key) {
        metrics[key].sample
    } else {
        Sample::Count(0)
    }
}

/// The families with another sample in the metric under a key, made where there
/// is none; every other metric stays.
pub open spec fn with_sample(
    families: Held,
    name: Seq<char>,
    values: Seq<Seq<char>>,
    key: u64,
    sample: Sample,
) -> Held {
    let before = families[name];
    families.insert(
        name,
        FamilyView {
            family: before.family,
            metrics: before.metrics.insert(
                key,
                MetricView { values: values_at(before.metrics, key, values), sample },
            ),
        },
    )
}

/// A counter went up.
pub open spec fn counted(families: Held, name: Seq<char>, values: Seq<Seq<char>>, by: u64) -> Held {
    let n = count_in(sample_at(families[name].metrics, label_key(values)));
    with_sample(families, name, values, label_key(values), Sample::Count(wrapped(n, by)))
}

/// A gauge took a level.
pub open spec fn leveled(families: Held, name: Seq<char>, values: Seq<Seq<char>>, level: i64) -> Held {
    with_sample(families, name, values, label_key(values), Sample::Level(level))
}

/// A histogram observed a duration.
pub open spec fn observed(families: Held, name: Seq<char>, values: Seq<Seq<char>>, nanos: u64) -> Held {
    let list = observed_in(sample_at(families[name].metrics, label_key(values)));
    with_sample(families, name, values, label_key(values), Sample::Observed(list.push(nanos)))
}

/// `with_label_values` and `IntCounter::inc_by` on the family: the counter under
/// the key of the label values, made with them at 0 where there is none, goes
/// up; everything else stays. Left out: a family of another kind, and another
/// number of values than the family has labels, on which the call panics.
#[verifier::external_body]
pub(crate) fn count(store: &mut MetricStore, name: &str, values: &Vec<&str>, by: u64)
    requires
        held(*old(store)).contains_key(name@),
        held(*old(store))[name@].family.kind == FamilyKind::Counters,
        held(*old(store))[name@].family.labels.len() == values@.len(),
    ensures
        held(*final(store)) == with_sample(
            held(*old(store)),
            name@,
            labels_view(values@),
            label_key(labels_view(values@)),
            Sample::Count(
                wrapped(
                    count_in(
                        sample_at(
                            held(*old(store))[name@].metrics,
                            label_key(labels_view(values@)),
                        ),
                    ),
                    by,
                ),
            ),
        ),
{
    store.counters[name].with_label_values(values).inc_by(by);
}

/// `with_label_values` and `IntGauge::set` on the family: the gauge under the
/// key of the label values, made with them where there is none, takes the
/// level; everything else stays. Left out: a family of another kind, and another
/// number of values than the family has labels, on which the call panics.
#[verifier::external_body]
pub(crate) fn level(store: &mut MetricStore, name: &str, values: &Vec<&str>, value: i64)
    requires
        held(*old(store)).contains_key(name@),
        held(*old(store))[name@].family.kind == FamilyKind::Gauges,
        held(*old(store))[name@].family.labels.len() == values@.len(),
    ensures
        held(*final(store)) == with_sample(
            held(*old(store)),
            name@,
            labels_view(values@),
            label_key(labels_view(values@)),
            Sample::Level(value),
        ),
{
    store.gauges[name].with_label_values(values).set(value);
}

/// `IntGauge::set`: the family's one gauge takes the level; everything else
/// stays. Left out: a family of another kind.
#[verifier::external_body]
pub(crate) fn level_single(store: &mut MetricStore, name: &str, value: i64)
    requires
        held(*old(store)).contains_key(name@),
        held(*old(store))[name@].family.kind == FamilyKind::OneGauge,
    ensures
        held(*final(store)) == with_sample(
            held(*old(store)),
            name@,
            Seq::empty(),
            label_key(Seq::empty()),
            Sample::Level(value),
        ),
{
    store.single[name].set(value);
}

/// `with_label_values` and `Histogram::observe` on the family: the histogram
/// under the key of the label values, made with them where there is none,
/// observes the duration, in seconds; everything else stays. How it sums and
/// buckets what it observed is left open. Left out: a family of another kind,
/// and another number of values than the family has labels and a label named as
/// the buckets are, on which the call panics.
#[verifier::external_body]
pub(crate) fn observe(store: &mut MetricStore, name: &str, values: &Vec<&str>, nanos: u64)
    requires
        held(*old(store)).contains_key(name@),
        held(*old(store))[name@].family.kind == FamilyKind::Histograms,
        held(*old(store))[name@].family.labels.len() == values@.len(),
        !held(*old(store))[name@].family.labels.contains("le"@),
    ensures
        held(*final(store)) == with_sample(
            held(*old(store)),
            name@,
            labels_view(values@),
            label_key(labels_view(values@)),
            Sample::Observed(
                observed_in(
                    sample_at(held(*old(store))[name@].metrics, label_key(labels_view(values@))),
                ).push(nanos),
            ),
        ),
{
    let elapsed = std::time::Duration::from_nanos(nanos);
    store.histograms[name].with_label_values(values).observe(elapsed.as_secs_f64());
}

/// A character of a label value, as the text shows it.
pub open spec fn escaped_char(c: char) -> Seq<char> {
    if c == '\\' {
        seq!['\\', '\\']
    } else if c == '\n' {
        seq!['\\', 'n']
    } else if c == '"' {
        seq!['\\', '"']
    } else {
        seq![c]
    }
}

/// A label value, as the text shows it.
pub open spec fn escaped(s: Seq<char>) -> Seq<char>
    decreases s.len(),
{
    if s.len() == 0 {
        Seq::empty()
    } else {
        escaped(s.drop_last()) + escaped_char(s.last())
    }
}

/// A label and its value.
pub open spec fn pair_text(label: Seq<char>, value: Seq<char>) -> Seq<char> {
    label + "=\""@ + escaped(value) + "\""@
}

/// Labels and their values, with commas between.
pub open spec fn pairs_text(labels: Seq<Seq<char>>, values: Seq<Seq<char>>) -> Seq<char>
    decreases labels.len(),
{
    if labels.len() == 0 {
        Seq::empty()
    } else if labels.len() == 1 {
        pair_text(labels[0], values[0])
    } else {
        pairs_text(labels.drop_last(), values.drop_last()) + ","@ + pair_text(
            labels.last(),
            values.last(),
        )
    }
}

/// Labels and their values in braces; nothing without labels.
pub open spec fn labels_text(labels: Seq<Seq<char>>, values: Seq<Seq<char>>) -> Seq<char> {
    if labels.len() == 0 {
        Seq::empty()
    } else {
        "{"@ + pairs_text(labels, values) + "}"@
    }
}

/// Up to here, the floating-point number the text is printed from is the integer
/// itself.
pub const EXACT: u64 = 0x20_0000_0000_0000;

/// The number shown of a counter or a gauge; none of a histogram, and none
/// beyond what is printed exactly.
pub open spec fn number(sample: Sample) -> Option<Seq<char>> {
    match sample {
        Sample::Count(n) => if n <= EXACT {
            Some(text::decimal(n as nat))
        } else {
            None
        },
        Sample::Level(n) => if 0 <= n <= EXACT {
            Some(text::decimal(n as nat))
        } else {
            None
        },
        Sample::Observed(_) => None,
    }
}

/// The line that shows a counter or a gauge.
pub open spec fn sample_line(name: Seq<char>, labels: Seq<Seq<char>>, metric: MetricView) -> Seq<char> {
    name + labels_text(labels, metric.values) + " "@ + number(metric.sample)->0
}

/// A text stands before another in the alphabet of character codes.
pub open spec fn text_before(a: Seq<char>, b: Seq<char>) -> bool {
    exists|k: int| #[trigger] differs_from(a, b, k)
}

/// The first text stands before the second, on account of position `k`.
pub open spec fn differs_from(a: Seq<char>, b: Seq<char>, k: int) -> bool {
    &&& 0 <= k <= a.len()
    &&& k < b.len()
    &&& a.take(k) == b.take(k)
    &&& k == a.len() || a[k] < b[k]
}

/// Label names stand in the order in which the text shows them.
pub open spec fn in_order(labels: Seq<Seq<char>>) -> bool {
    forall|i: int, j: int|
        0 <= i < j < labels.len() ==> text_before(#[trigger] labels[i], #[trigger] labels[j])
}

/// A metric that the text shows on a line of its own: one with a number, in a
/// family whose labels stand in order.
pub open spec fn shown(families: Held, name: Seq<char>, key: u64) -> bool {
    &&& families.contains_key(name)
    &&& in_order(families[name].family.labels)
    &&& families[name].metrics.contains_key(key)
    &&& number(families[name].metrics[key].sample) is Some
}

/// The line stands in the text at a position.
pub open spec fn line_at(text: Seq<char>, line: Seq<char>, i: int) -> bool {
    &&& 0 <= i
    &&& i + line.len() < text.len()
    &&& i == 0 || text[i - 1] == '\n'
    &&& text.subrange(i, i + line.len()) == line
    &&& text[i + line.len()] == '\n'
}

/// The text has the line.
pub open spec fn has_line(text: Seq<char>, line: Seq<char>) -> bool {
    exists|i: int| #[trigger] line_at(text, line, i)
}

/// The line of a metric that is held.
pub open spec fn line_of(families: Held, name: Seq<char>, key: u64) -> Seq<char> {
    sample_line(name, families[name].family.labels, families[name].metrics[key])
}

/// `Registry::gather` and `TextEncoder::encode_to_string`: families in the order
/// of their names, without those that hold no metric, and in each family the
/// metrics in the order of their label values, so the text is a function of what
/// is held. Every counter and gauge has its line: its name, its labels in the
/// order of their names with their values escaped, and its number, which is
/// printed from a 64-bit float. Claimed of the line only where the family's
/// labels already stand in order and the float is the integer itself. The
/// encoder fails only on a family without a name or without metrics; none is
/// made without a name, and those without metrics are not gathered.
#[verifier::external_body]
pub(crate) fn expose(store: &MetricStore) -> (r: Result<String, String>)
    ensures
        r is Ok,
        r->Ok_0@ == exposition(held(*store)),
        forall|name: Seq<char>, key: u64| #[trigger]
            shown(held(*store), name, key) ==> has_line(
                r->Ok_0@,
                line_of(held(*store), name, key),
            ),
{
    prometheus::TextEncoder::new().encode_to_string(&store.registry.gather()).map_err(
        |err| err.to_string(),
    )
}

/// A changed sample leaves the families as described.
pub proof fn lemma_with_sample(
    families: Held,
    name: Seq<char>,
    values: Seq<Seq<char>>,
    key: u64,
    sample: Sample,
)
    requires
        families.contains_key(name),
    ensures
        same_families(families, with_sample(families, name, values, key, sample)),
{
    assert(families.insert(name, families[name]).dom() =~= families.dom());
    assert(with_sample(families, name, values, key, sample).dom() =~= families.dom());
}

/// A gauge that took a level is shown at it, on the line of its labels: under the
/// label values it was made with, which are the ones it was set by unless
/// another metric of the family has their key.
pub proof fn law_levels_are_shown(
    families: Held,
    name: Seq<char>,
    values: Seq<Seq<char>>,
    level: i64,
)
    requires
        families.contains_key(name),
        in_order(families[name].family.labels),
        0 <= level <= EXACT,
    ensures
        ({
            let after = leveled(families, name, values, level);
            let made = values_at(families[name].metrics, label_key(values), values);
            &&& shown(after, name, label_key(values))
            &&& line_of(after, name, label_key(values)) == name + labels_text(
                families[name].family.labels,
                made,
            ) + " "@ + text::decimal(level as nat)
        }),
{
}

/// A counter that went up is shown at the sum, on the line of its labels: under
/// the label values it was made with, which are the ones it was counted by
/// unless another metric of the family has their key.
pub proof fn law_counts_are_shown(families: Held, name: Seq<char>, values: Seq<Seq<char>>, by: u64)
    requires
        families.contains_key(name),
        in_order(families[name].family.labels),
        count_in(sample_at(families[name].metrics, label_key(values))) + by <= EXACT,
    ensures
        ({
            let after = counted(families, name, values, by);
            let n = count_in(sample_at(families[name].metrics, label_key(values)));
            let made = values_at(families[name].metrics, label_key(values), values);
            &&& shown(after, name, label_key(values))
            &&& line_of(after, name, label_key(values)) == name + labels_text(
                families[name].family.labels,
                made,
            ) + " "@ + text::decimal((n + by) as nat)
        }),
{
}

/// A store of families: those that joined one after the other.
pub open spec fn all_added(families: Held, list: Seq<Family>) -> Held
    decreases list.len(),
{
    if list.len() == 0 {
        families
    } else {
        added(all_added(families, list.drop_last()), list.last())
    }
}

/// No two families have the same id.
pub open spec fn ids_distinct(list: Seq<Family>) -> bool {
    forall|i: int, j: int|
        0 <= i < j < list.len() ==> name_key((#[trigger] list[i]).name) != name_key(
            (#[trigger] list[j]).name,
        )
}

/// The families of a list, and no others, stand in a store that took them in.
pub proof fn lemma_all_added(list: Seq<Family>)
    ensures
        forall|name: Seq<char>| #[trigger]
            all_added(no_families(), list).contains_key(name) <==> exists|i: int|
                0 <= i < list.len() && (#[trigger] list[i]).name == name,
        ids_distinct(list) ==> forall|i: int|
            0 <= i < list.len() ==> {
                &&& holds(all_added(no_families(), list), #[trigger] list[i])
                &&& all_added(no_families(), list)[list[i].name].metrics == fresh(list[i].kind)
            },
    decreases list.len(),
{
    if list.len() > 0 {
        let front = list.drop_last();
        lemma_all_added(front);
        let before = all_added(no_families(), front);
        let after = all_added(no_families(), list);
        let n = list.len() - 1;
        assert forall|name: Seq<char>| #[trigger] after.contains_key(name) <==> exists|i: int|
            0 <= i < list.len() && (#[trigger] list[i]).name == name by {
            if after.contains_key(name) {
                if name == list.last().name {
                    assert(list[n].name == name);
                } else {
                    assert(before.contains_key(name));
                    let i = choose|i: int| 0 <= i < front.len() && (#[trigger] front[i]).name == name;
                    assert(list[i].name == name);
                }
            }
            if exists|i: int| 0 <= i < list.len() && (#[trigger] list[i]).name == name {
                let i = choose|i: int| 0 <= i < list.len() && (#[trigger] list[i]).name == name;
                if i < n {
                    assert(front[i].name == name);
                    assert(before.contains_key(name));
                }
            }
        }
        if ids_distinct(list) {
            assert forall|i: int, j: int| 0 <= i < j < front.len() implies name_key(
                (#[trigger] front[i]).name,
            ) != name_key((#[trigger] front[j]).name) by {
                assert(front[i] == list[i] && front[j] == list[j]);
            }
            assert forall|i: int| 0 <= i < list.len() implies {
                &&& holds(after, #[trigger] list[i])
                &&& after[list[i].name].metrics == fresh(list[i].kind)
            } by {
                if i < n {
                    assert(front[i] == list[i]);
                    assert(name_key(list[i].name) != name_key(list[n].name));
                }
            }
        }
    }
}

/// A properly described family joins those of a list exactly where its id is new.
pub proof fn lemma_joins(list: Seq<Family>, f: Family)
    requires
        describable(f),
    ensures
        joins(all_added(no_families(), list), f) <==> forall|i: int|
            0 <= i < list.len() ==> name_key((#[trigger] list[i]).name) != name_key(f.name),
{
    let h = all_added(no_families(), list);
    lemma_all_added(list);
    if joins(h, f) {
        assert forall|i: int| 0 <= i < list.len() implies name_key((#[trigger] list[i]).name)
            != name_key(f.name) by {
            assert(h.contains_key(list[i].name));
        }
    }
    if forall|i: int|
        0 <= i < list.len() ==> name_key((#[trigger] list[i]).name) != name_key(f.name) {
        assert forall|name: Seq<char>| #[trigger] h.contains_key(name) implies name_key(name)
            != name_key(f.name) by {
            let i = choose|i: int| 0 <= i < list.len() && (#[trigger] list[i]).name == name;
        }
    }
}

/// A counter goes up by what it is told, in the metric of its label values alone: a metric that
/// is not there begins at nothing, and every other metric and family stays.
pub proof fn law_counts_add_up(
    families: Held,
    name: Seq<char>,
    values: Seq<Seq<char>>,
    by: u64,
    other: Seq<char>,
    key: u64,
)
    requires
        families.contains_key(name),
    ensures
        ({
            let before = sample_at(families[name].metrics, label_key(values));
            let after = counted(families, name, values, by);
            let n = count_in(before);
            &&& after.contains_key(name)
            &&& after[name].family == families[name].family
            &&& n + by <= u64::MAX ==> sample_at(after[name].metrics, label_key(values))
                == Sample::Count((n + by) as u64)
            &&& n + by > u64::MAX ==> sample_at(after[name].metrics, label_key(values))
                == Sample::Count((n + by - u64::MAX - 1) as u64)
            &&& other != name && families.contains_key(other) ==> after.contains_key(other)
                && after[other] == families[other]
            &&& key != label_key(values) && families[name].metrics.contains_key(key)
                ==> after[name].metrics.contains_key(key) && after[name].metrics[key]
                == families[name].metrics[key]
        }),
        count_in(Sample::Count(by)) == by,
        !families[name].metrics.contains_key(key) ==> count_in(
            sample_at(families[name].metrics, key),
        ) == 0,
{
}

/// A gauge takes the level it is told, in the metric of its label values alone.
pub proof fn law_levels_replace_levels(
    families: Held,
    name: Seq<char>,
    values: Seq<Seq<char>>,
    level: i64,
    other: Seq<char>,
    key: u64,
)
    requires
        families.contains_key(name),
    ensures
        ({
            let after = leveled(families, name, values, level);
            &&& after.contains_key(name)
            &&& after[name].family == families[name].family
            &&& sample_at(after[name].metrics, label_key(values)) == Sample::Level(level)
            &&& other != name && families.contains_key(other) ==> after.contains_key(other)
                && after[other] == families[other]
            &&& key != label_key(values) && families[name].metrics.contains_key(key)
                ==> after[name].metrics.contains_key(key) && after[name].metrics[key]
                == families[name].metrics[key]
        }),
{
}

/// A histogram keeps what it observed and adds the duration behind it, in the metric of its
/// label values alone.
pub proof fn law_durations_are_added(
    families: Held,
    name: Seq<char>,
    values: Seq<Seq<char>>,
    nanos: u64,
    other: Seq<char>,
)
    requires
        families.contains_key(name),
    ensures
        ({
            let before = sample_at(families[name].metrics, label_key(values));
            let after = observed(families, name, values, nanos);
            let now = sample_at(after[name].metrics, label_key(values));
            &&& now is Observed
            &&& now->Observed_0.len() == observed_in(before).len() + 1
            &&& now->Observed_0.drop_last() == observed_in(before)
            &&& now->Observed_0.last() == nanos
            &&& other != name && families.contains_key(other) ==> after.contains_key(other)
                && after[other] == families[other]
        }),
{
    let list = observed_in(sample_at(families[name].metrics, label_key(values)));
    assert(list.push(nanos).drop_last() =~= list);
}

/// A metric keeps the label values it was made with.
pub proof fn law_metrics_keep_their_labels(
    metrics: Map<u64, MetricView>,
    key: u64,
    values: Seq<Seq<char>>,
)
    ensures
        metrics.contains_key(key) ==> values_at(metrics, key, values) == metrics[key].values,
        !metrics.contains_key(key) ==> values_at(metrics, key, values) == values,
{
}

/// A family joins without metrics, but for the one gauge, which stands at 0; the others stay.
pub proof fn law_families_join_empty(families: Held, f: Family, other: Seq<char>)
    ensures
        ({
            let after = added(families, f);
            let none = Seq::<Seq<char>>::empty();
            &&& after.contains_key(f.name)
            &&& after[f.name].family == f
            &&& f.kind != FamilyKind::OneGauge ==> after[f.name].metrics.dom().len() == 0
            &&& f.kind == FamilyKind::OneGauge ==> sample_at(
                after[f.name].metrics,
                label_key(none),
            ) == Sample::Level(0)
            &&& other != f.name ==> (after.contains_key(other) <==> families.contains_key(other))
            &&& other != f.name && families.contains_key(other) ==> after[other] == families[other]
        }),
{
}

/// The labels of a metric are written in braces with commas between them, each value in quotes;
/// a backslash, a line feed and a quote in a value are escaped, and no other character is.
pub proof fn law_labels_are_written_in_braces(
    labels: Seq<Seq<char>>,
    values: Seq<Seq<char>>,
    label: Seq<char>,
    value: Seq<char>,
    c: char,
)
    requires
        labels.len() == values.len(),
        labels.len() > 0,
    ensures
        labels_text(Seq::empty(), Seq::empty()).len() == 0,
        labels_text(labels, values) == "{"@ + pairs_text(labels, values) + "}"@,
        pairs_text(seq![label], seq![value]) == label + "=\""@ + escaped(value) + "\""@,
        pairs_text(labels.push(label), values.push(value)) == pairs_text(labels, values) + ","@ + (
        label + "=\""@ + escaped(value) + "\""@),
        escaped(value.push('\\')) == escaped(value) + seq!['\\', '\\'],
        escaped(value.push('\n')) == escaped(value) + seq!['\\', 'n'],
        escaped(value.push('"')) == escaped(value) + seq!['\\', '"'],
        c != '\\' && c != '\n' && c != '"' ==> escaped(value.push(c)) == escaped(value) + seq![c],
        escaped(Seq::empty()).len() == 0,
{
    assert(labels.push(label).drop_last() =~= labels);
    assert(values.push(value).drop_last() =~= values);
    assert(value.push('\\').drop_last() =~= value);
    assert(value.push('\n').drop_last() =~= value);
    assert(value.push('"').drop_last() =~= value);
    assert(value.push(c).drop_last() =~= value);
}

} // verus!
