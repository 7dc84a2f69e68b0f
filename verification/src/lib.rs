//! Export of finished spans to a Datadog trace agent, and propagation of
//! trace context through request headers.

use crate::model::record::{
    gap, AttributeValue, MetricValue, SpanRecord, StatusCode, Timestamp,
};
use crate::grouping::{group_by_trace, grouped, views_of};
use crate::model::span::{Batch, Span, SpanView};
use crate::text_map::TextMap;
use crate::uploader::{endpoint_of, Uploader};
use vstd::prelude::*;

pub mod decimal;
pub mod grouping;
pub mod model;
pub mod propagation;
pub mod text_map;
pub mod uploader;

verus! {

/// The largest magnitude that a nanosecond count takes on the wire.
pub open spec fn clamp_ns(n: u128) -> int {
    if n > i64::MAX as u128 {
        i64::MAX as int
    } else {
        n as int
    }
}

/// The signed nanosecond count that stands for a gap between two instants:
/// `Ok` holds the nanoseconds elapsed, `Err` the nanoseconds by which the later
/// instant precedes the earlier one.
pub open spec fn signed_ns(r: Result<u128, u128>) -> int {
    match r {
        Ok(d) => clamp_ns(d),
        Err(d) => -clamp_ns(d),
    }
}

/// Turns a gap between two instants into signed nanoseconds. The magnitude is
/// clamped to `i64::MAX`; a gap that runs backwards comes out negated.
pub fn duration_to_ns(r: Result<u128, u128>) -> (ns: i64)
    ensures
        ns == signed_ns(r),
{
    match r {
        Ok(d) => clamp_to_i64(d),
        Err(d) => -clamp_to_i64(d),
    }
}

fn clamp_to_i64(n: u128) -> (c: i64)
    ensures
        c == clamp_ns(n),
        0 <= c,
{
    if n > i64::MAX as u128 {
        i64::MAX
    } else {
        n as i64
    }
}

/// A nanosecond count as it goes on the wire: `delta`, kept within `i64::MAX`
/// of zero on either side.
pub open spec fn saturated_ns(delta: int) -> int {
    if delta > i64::MAX {
        i64::MAX as int
    } else if delta < -i64::MAX {
        -i64::MAX
    } else {
        delta
    }
}

/// The signed nanoseconds of the gap between two instants are their
/// difference, kept within `i64::MAX` of zero.
pub proof fn lemma_signed_ns_of_gap(earlier: i128, later: i128)
    ensures
        signed_ns(gap(earlier as int, later as int)) == saturated_ns(later - earlier),
{
}

/// The string metadata that a set of attributes gives: every key, with the
/// string form of its value.
pub open spec fn meta_of(attributes: Map<Seq<char>, AttributeValue>) -> Map<Seq<char>, Seq<char>> {
    Map::new(|k: Seq<char>| attributes.contains_key(k), |k: Seq<char>| attributes[k].text())
}

/// The numeric metrics that a set of attributes gives: the keys whose value is
/// a number, each with that number.
pub open spec fn metrics_of(attributes: Map<Seq<char>, AttributeValue>) -> Map<
    Seq<char>,
    MetricValue,
> {
    Map::new(
        |k: Seq<char>| attributes.contains_key(k) && attributes[k].metric() is Some,
        |k: Seq<char>| attributes[k].metric()->0,
    )
}

/// Every attribute is in the metadata, under its key and with its string
/// form. It is in the metrics too where, and only where, its value is a truth
/// value, an integer or a float. Nothing else is in either.
pub proof fn lemma_meta_and_metrics(attributes: Map<Seq<char>, AttributeValue>)
    ensures
        meta_of(attributes).dom() == attributes.dom(),
        forall|key: Seq<char>|
            attributes.contains_key(key) ==> #[trigger] meta_of(attributes)[key]
                == attributes[key].text(),
        forall|key: Seq<char>| #[trigger]
            metrics_of(attributes).contains_key(key) <==> attributes.contains_key(key) && (
            attributes[key] is Bool || attributes[key] is I64 || attributes[key] is U64
                || attributes[key] is F64),
{
    assert(meta_of(attributes).dom() =~= attributes.dom());
}

/// Splits the attributes of a span into its string metadata and its numeric
/// metrics. Every attribute gives a metadata entry; those whose value is a
/// truth value, an integer or a float give a metric as well.
pub fn split_attributes(attributes: &TextMap<AttributeValue>) -> (out: (
    TextMap<String>,
    TextMap<MetricValue>,
))
    ensures
        out.0.texts() == meta_of(attributes@),
        out.1@ == metrics_of(attributes@),
{
    let mut meta: TextMap<String> = TextMap::new();
    let mut metrics: TextMap<MetricValue> = TextMap::new();
    let mut i: usize = 0;
    while i < attributes.len()
        invariant
            0 <= i <= attributes.keys().len(),
            forall|k: Seq<char>|
                meta@.contains_key(k) <==> exists|j: int|
                    0 <= j < i && #[trigger] attributes.keys()[j] == k,
            forall|k: Seq<char>|
                meta@.contains_key(k) ==> attributes@.contains_key(k) && meta@[k]@
                    == attributes@[k].text(),
            forall|k: Seq<char>|
                metrics@.contains_key(k) <==> meta@.contains_key(k) && attributes@[k].metric()
                    is Some,
            forall|k: Seq<char>|
                metrics@.contains_key(k) ==> metrics@[k] == attributes@[k].metric()->0,
        decreases attributes.keys().len() - i,
    {
        match attributes.entry(i) {
            Some((key, value)) => {
                if let Some(metric_value) = value.to_metric() {
                    metrics.insert(key.clone(), metric_value);
                }
                meta.insert(key.clone(), value.to_string());
                assert(attributes.keys()[i as int] == key@);
            },
            None => {},
        }
        i += 1;
    }
    proof {
        attributes.lemma_keys();
        assert forall|k: Seq<char>| attributes@.contains_key(k) implies meta@.contains_key(k) by {
            let j = attributes.keys().index_of(k);
            assert(attributes.keys()[j] == k);
        }
        assert(meta.texts() =~= meta_of(attributes@));
        assert(metrics@ =~= metrics_of(attributes@));
    }
    (meta, metrics)
}

/// The low-order 64 bits of a trace id.
pub open spec fn low_64(trace_id: u128) -> u64 {
    (trace_id % 0x1_0000_0000_0000_0000) as u64
}

/// The metadata of the span that stands for `s` on the wire: what its
/// attributes give, then the class and message of its failure where it has
/// failed, then its kind and the version of the service. A later entry takes
/// the place of an earlier one with the same key.
pub open spec fn wire_meta(service_version: Seq<char>, s: SpanRecord) -> Map<Seq<char>, Seq<char>> {
    let from_attributes = meta_of(s.attributes@);
    let with_status = if s.status_code.is_ok() {
        from_attributes
    } else {
        from_attributes.insert("error.type"@, s.status_code.class()).insert(
            "error.msg"@,
            s.status_message@,
        )
    };
    with_status.insert("span.kind"@, s.span_kind.text()).insert(
        "service_version"@,
        service_version,
    )
}

/// The value of `key` among `entries`, if there is one.
pub open spec fn entry_of(entries: Map<Seq<char>, Seq<char>>, key: Seq<char>) -> Option<Seq<char>> {
    if entries.contains_key(key) {
        Some(entries[key])
    } else {
        None
    }
}

/// The span that stands for `s` on the wire, for a service of the given
/// default name and version.
pub open spec fn wire_span(service_name: Seq<char>, service_version: Seq<char>, s: SpanRecord) -> SpanView {
    let from_attributes = meta_of(s.attributes@);
    SpanView {
        name: Some(
            match entry_of(from_attributes, "span.name"@) {
                Some(name) => name,
                None => s.name@,
            },
        ),
        service: Some(
            match entry_of(from_attributes, "service.name"@) {
                Some(service) => service,
                None => service_name,
            },
        ),
        resource: entry_of(from_attributes, "resource.name"@),
        span_type: entry_of(from_attributes, "span.type"@),
        meta: wire_meta(service_version, s),
        error: if s.status_code.is_ok() {
            0
        } else {
            1
        },
        metrics: metrics_of(s.attributes@),
        start: saturated_ns(s.start_time.nanos as int) as i64,
        duration: saturated_ns(s.end_time.nanos - s.start_time.nanos) as i64,
        trace_id: low_64(s.trace_id),
        span_id: s.span_id,
        parent_id: s.parent_span_id,
    }
}

/// A span that has failed is marked with error 1, any other with error 0.
pub proof fn lemma_error_marks_failure(
    service_name: Seq<char>,
    service_version: Seq<char>,
    s: SpanRecord,
)
    ensures
        wire_span(service_name, service_version, s).error == 1 <==> !s.status_code.is_ok(),
        wire_span(service_name, service_version, s).error == 0 <==> s.status_code.is_ok(),
{
}

/// The spans that stand for `records` on the wire, in the same order.
pub open spec fn wire_spans(service_name: Seq<char>, service_version: Seq<char>, records: Seq<SpanRecord>) -> Seq<SpanView> {
    Seq::new(records.len(), |i: int| wire_span(service_name, service_version, records[i]))
}

/// What an exporter is set up with.
#[derive(Clone, Debug)]
pub struct ExporterConfig {
    service_name: String,
    service_version: String,
    trace_addr: String,
    global_tags: TextMap<String>,
}

/// An exporter's settings as mathematical values.
#[verifier::ext_equal]
pub struct ConfigView {
    /// The service that a span belongs to where it names none.
    pub service_name: Seq<char>,
    /// The version reported with every span.
    pub service_version: Seq<char>,
    /// Host and port of the agent.
    pub trace_addr: Seq<char>,
    /// Tags for every span.
    pub global_tags: Map<Seq<char>, Seq<char>>,
}

impl View for ExporterConfig {
    type V = ConfigView;

    closed spec fn view(&self) -> ConfigView {
        ConfigView {
            service_name: self.service_name@,
            service_version: self.service_version@,
            trace_addr: self.trace_addr@,
            global_tags: self.global_tags.texts(),
        }
    }
}

impl ExporterConfig {
    /// These settings with `service_name` as the default service name.
    pub fn with_service_name(self, service_name: &str) -> (config: Self)
        ensures
            config@ == (ConfigView { service_name: service_name@, ..self@ }),
    {
        ExporterConfig { service_name: service_name.to_owned(), ..self }
    }

    /// These settings with `service_version` as the service version.
    pub fn with_service_version(self, service_version: &str) -> (config: Self)
        ensures
            config@ == (ConfigView { service_version: service_version@, ..self@ }),
    {
        ExporterConfig { service_version: service_version.to_owned(), ..self }
    }

    /// These settings with the agent at `trace_addr`, a host and port.
    pub fn with_trace_addr(self, trace_addr: &str) -> (config: Self)
        ensures
            config@ == (ConfigView { trace_addr: trace_addr@, ..self@ }),
    {
        ExporterConfig { trace_addr: trace_addr.to_owned(), ..self }
    }

    /// These settings with `global_tags` as the tags for every span.
    pub fn with_global_tags(self, global_tags: TextMap<String>) -> (config: Self)
        ensures
            config@ == (ConfigView { global_tags: global_tags.texts(), ..self@ }),
    {
        ExporterConfig { global_tags, ..self }
    }

    /// The default service name.
    pub fn service_name(&self) -> (name: &str)
        ensures
            name@ == self@.service_name,
    {
        self.service_name.as_str()
    }

    /// The service version.
    pub fn service_version(&self) -> (version: &str)
        ensures
            version@ == self@.service_version,
    {
        self.service_version.as_str()
    }

    /// Host and port of the agent.
    pub fn trace_addr(&self) -> (addr: &str)
        ensures
            addr@ == self@.trace_addr,
    {
        self.trace_addr.as_str()
    }

    /// The tags for every span.
    pub fn global_tags(&self) -> (tags: &TextMap<String>)
        ensures
            tags.texts() == self@.global_tags,
    {
        &self.global_tags
    }

    /// An exporter with these settings, which uploads to their agent.
    pub fn build(self) -> (exporter: Exporter)
        ensures
            exporter@ == (ExporterView {
                config: self@,
                endpoint: endpoint_of(self@.trace_addr),
            }),
    {
        let uploader = Uploader::new(self.trace_addr.as_str());
        Exporter { config: self, uploader }
    }
}

/// The settings that an exporter starts from: service `DEFAULT` in version
/// `0.0.0`, the agent on this machine at port 8126, and no tags.
pub open spec fn default_config() -> ConfigView {
    ConfigView {
        service_name: "DEFAULT"@,
        service_version: "0.0.0"@,
        trace_addr: "127.0.0.1:8126"@,
        global_tags: Map::empty(),
    }
}

impl Default for ExporterConfig {
    fn default() -> (config: Self)
        ensures
            config@ == default_config(),
    {
        let config = ExporterConfig {
            service_name: "DEFAULT".to_owned(),
            service_version: "0.0.0".to_owned(),
            trace_addr: "127.0.0.1:8126".to_owned(),
            global_tags: TextMap::new(),
        };
        assert(config@.global_tags =~= Map::empty());
        config
    }
}

/// Turns finished spans into batches for the agent.
#[derive(Debug)]
pub struct Exporter {
    config: ExporterConfig,
    uploader: Uploader,
}

/// An exporter as mathematical values: its settings, and where it uploads.
#[verifier::ext_equal]
pub struct ExporterView {
    pub config: ConfigView,
    pub endpoint: Seq<char>,
}

impl View for Exporter {
    type V = ExporterView;

    closed spec fn view(&self) -> ExporterView {
        ExporterView { config: self.config@, endpoint: self.uploader.endpoint() }
    }
}

impl Exporter {
    /// The settings to start from: those of `ExporterConfig::default`.
    pub fn builder() -> (config: ExporterConfig)
        ensures
            config@ == default_config(),
    {
        ExporterConfig::default()
    }

    /// The settings of this exporter.
    pub fn config(&self) -> (config: &ExporterConfig)
        ensures
            config@ == self@.config,
    {
        &self.config
    }

    /// The uploader of this exporter.
    pub fn uploader(&self) -> (uploader: &Uploader)
        ensures
            uploader.endpoint() == self@.endpoint,
    {
        &self.uploader
    }

    /// Converts one finished span into the span that the agent takes.
    pub fn convert_span(&self, s: &SpanRecord) -> (span: Span)
        ensures
            span@ == wire_span(self@.config.service_name, self@.config.service_version, *s),
    {
        let (mut meta, metrics) = split_attributes(&s.attributes);
        let name = match meta.get("span.name") {
            Some(name) => Some(name.clone()),
            None => Some(s.name.clone()),
        };
        let service = match meta.get("service.name") {
            Some(service) => Some(service.clone()),
            None => Some(self.config.service_name.clone()),
        };
        let resource = match meta.get("resource.name") {
            Some(resource) => Some(resource.clone()),
            None => None,
        };
        let span_type = match meta.get("span.type") {
            Some(span_type) => Some(span_type.clone()),
            None => None,
        };
        let start = duration_to_ns(s.start_time.duration_since(&Timestamp::unix_epoch()));
        let duration = duration_to_ns(s.end_time.duration_since(&s.start_time));
        let trace_id = (s.trace_id % 0x1_0000_0000_0000_0000) as u64;

        let mut error: i64 = 0;
        match s.status_code {
            StatusCode::OK => {},
            code => {
                error = 1;
                meta.insert("error.type".to_owned(), code.class_name().to_owned());
                meta.insert("error.msg".to_owned(), s.status_message.clone());
            },
        }
        meta.insert("span.kind".to_owned(), s.span_kind.as_str().to_owned());
        meta.insert("service_version".to_owned(), self.config.service_version.clone());

        let span = Span {
            name,
            service,
            resource,
            span_type,
            meta,
            error,
            metrics,
            start,
            duration,
            trace_id,
            span_id: s.span_id,
            parent_id: s.parent_span_id,
        };
        proof {
            lemma_signed_ns_of_gap(0, s.start_time.nanos);
            lemma_signed_ns_of_gap(s.start_time.nanos, s.end_time.nanos);
            let expected = wire_span(
                self@.config.service_name,
                self@.config.service_version,
                *s,
            );
            assert(span@.meta =~= expected.meta);
            assert(span@ =~= expected);
        }
        span
    }

    /// Converts the finished spans of one export call and groups them by
    /// trace: the batch to encode and upload.
    pub fn export(&self, batch: &[SpanRecord]) -> (out: Batch)
        ensures
            out@ == grouped(
                wire_spans(self@.config.service_name, self@.config.service_version, batch@),
            ),
    {
        let mut spans: Vec<Span> = Vec::new();
        let mut i: usize = 0;
        while i < batch.len()
            invariant
                0 <= i <= batch.len(),
                spans@.len() == i,
                forall|j: int|
                    0 <= j < i ==> (#[trigger] spans@[j])@ == wire_span(
                        self@.config.service_name,
                        self@.config.service_version,
                        batch@[j],
                    ),
            decreases batch.len() - i,
        {
            let span = self.convert_span(&batch[i]);
            spans.push(span);
            i += 1;
        }
        proof {
            assert(views_of(spans@) =~= wire_spans(
                self@.config.service_name,
                self@.config.service_version,
                batch@,
            ));
        }
        group_by_trace(spans)
    }
}

} // verus!
