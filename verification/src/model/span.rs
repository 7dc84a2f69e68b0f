//! Spans in the form in which the agent takes them.

use crate::model::record::MetricValue;
use crate::text_map::TextMap;
use vstd::prelude::*;

verus! {

/// All that one export call sends: its spans, trace by trace.
#[derive(Clone, Debug)]
pub struct Batch(pub Vec<PartialTrace>);

/// The spans of one trace that one export call saw, in the order in which they
/// arrived.
#[derive(Clone, Debug)]
pub struct PartialTrace(pub Vec<Span>);

/// One span as the agent takes it.
#[derive(Clone, Debug)]
pub struct Span {
    /// operation name
    pub name: Option<String>,
    /// service name (i.e. "grpc.server", "http.request")
    pub service: Option<String>,
    /// resource name (i.e. "/user?id=123", "SELECT * FROM users")
    pub resource: Option<String>,
    /// protocol associated with the span (i.e. "web", "db", "cache")
    pub span_type: Option<String>,
    /// arbitrary map of metadata
    pub meta: TextMap<String>,
    /// error status of the span; 0 means no errors
    pub error: i64,
    /// arbitrary map of numeric metrics
    pub metrics: TextMap<MetricValue>,
    /// span start time in nanoseconds since epoch
    pub start: i64,
    /// duration of the span in nanoseconds
    pub duration: i64,
    /// identifier of the trace
    pub trace_id: u64,
    /// identifier of this span
    pub span_id: u64,
    /// identifier of the span's direct parent
    pub parent_id: u64,
}

/// A span as a mathematical value: each text as its characters, each map as
/// a map.
#[verifier::ext_equal]
pub struct SpanView {
    pub name: Option<Seq<char>>,
    pub service: Option<Seq<char>>,
    pub resource: Option<Seq<char>>,
    pub span_type: Option<Seq<char>>,
    pub meta: Map<Seq<char>, Seq<char>>,
    pub error: i64,
    pub metrics: Map<Seq<char>, MetricValue>,
    pub start: i64,
    pub duration: i64,
    pub trace_id: u64,
    pub span_id: u64,
    pub parent_id: u64,
}

/// The characters of an optional text.
pub open spec fn text_of(s: Option<String>) -> Option<Seq<char>> {
    match s {
        Some(t) => Some(t@),
        None => None,
    }
}

impl View for Span {
    type V = SpanView;

    open spec fn view(&self) -> SpanView {
        SpanView {
            name: text_of(self.name),
            service: text_of(self.service),
            resource: text_of(self.resource),
            span_type: text_of(self.span_type),
            meta: self.meta.texts(),
            error: self.error,
            metrics: self.metrics@,
            start: self.start,
            duration: self.duration,
            trace_id: self.trace_id,
            span_id: self.span_id,
            parent_id: self.parent_id,
        }
    }
}

} // verus!
