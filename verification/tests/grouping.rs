use opentelemetry_datadog::grouping::group_by_trace;
use opentelemetry_datadog::model::record::{
    AttributeValue, SpanKind, SpanRecord, StatusCode, Timestamp,
};
use opentelemetry_datadog::model::span::{Batch, Span};
use opentelemetry_datadog::text_map::TextMap;
use opentelemetry_datadog::Exporter;

fn span(trace_id: u64, span_id: u64) -> Span {
    Span {
        name: Some(format!("span-{}", span_id)),
        service: None,
        resource: None,
        span_type: None,
        meta: TextMap::new(),
        error: 0,
        metrics: TextMap::new(),
        start: 0,
        duration: 1,
        trace_id,
        span_id,
        parent_id: 0,
    }
}

fn ids(batch: &Batch) -> Vec<Vec<(u64, u64)>> {
    batch
        .0
        .iter()
        .map(|trace| trace.0.iter().map(|s| (s.trace_id, s.span_id)).collect())
        .collect()
}

fn record(trace_id: u128, span_id: u64) -> SpanRecord {
    let mut attributes = TextMap::new();
    attributes.insert("n".to_string(), AttributeValue::U64(span_id));
    SpanRecord {
        name: "op".to_string(),
        span_kind: SpanKind::Client,
        status_code: StatusCode::OK,
        status_message: String::new(),
        start_time: Timestamp::from_nanos(10),
        end_time: Timestamp::from_nanos(30),
        attributes,
        trace_id,
        span_id,
        parent_span_id: 0,
    }
}

#[test]
fn spans_are_grouped_by_trace_in_order_of_arrival() {
    let spans = vec![span(1, 10), span(2, 20), span(1, 11), span(3, 30), span(2, 21), span(1, 12)];
    let batch = group_by_trace(spans);
    assert_eq!(
        ids(&batch),
        vec![vec![(1, 10), (1, 11), (1, 12)], vec![(2, 20), (2, 21)], vec![(3, 30)]]
    );
    assert_eq!(batch.0[0].0[1].name.as_deref(), Some("span-11"));
}

#[test]
fn grouping_keeps_every_span_once() {
    let mut spans = Vec::new();
    for i in 0..200u64 {
        spans.push(span((i * 7) % 13, i));
    }
    let batch = group_by_trace(spans);
    assert_eq!(batch.0.len(), 13);
    let total: usize = batch.0.iter().map(|t| t.0.len()).sum();
    assert_eq!(total, 200);
    let mut seen = vec![false; 200];
    let mut traces = Vec::new();
    for trace in &batch.0 {
        let id = trace.0[0].trace_id;
        assert!(!traces.contains(&id));
        traces.push(id);
        let mut last = None;
        for s in &trace.0 {
            assert_eq!(s.trace_id, id);
            assert_eq!((s.span_id * 7) % 13, id);
            assert!(!seen[s.span_id as usize]);
            seen[s.span_id as usize] = true;
            assert!(last < Some(s.span_id));
            last = Some(s.span_id);
        }
    }
    assert!(seen.iter().all(|s| *s));
}

#[test]
fn no_spans_give_an_empty_batch() {
    assert!(group_by_trace(Vec::new()).0.is_empty());
}

#[test]
fn one_span_gives_one_trace() {
    assert_eq!(ids(&group_by_trace(vec![span(9, 1)])), vec![vec![(9, 1)]]);
}

#[test]
fn spans_of_one_trace_stay_together() {
    let batch = group_by_trace(vec![span(u64::MAX, 1), span(u64::MAX, 2), span(u64::MAX, 3)]);
    assert_eq!(ids(&batch), vec![vec![(u64::MAX, 1), (u64::MAX, 2), (u64::MAX, 3)]]);
}

#[test]
fn export_converts_and_groups() {
    let exporter = Exporter::builder().with_service_name("svc").build();
    let records = vec![record(5, 1), record(6, 2), record(5, 3), record((1 << 64) + 6, 4)];
    let batch = exporter.export(&records);
    assert_eq!(ids(&batch), vec![vec![(5, 1), (5, 3)], vec![(6, 2), (6, 4)]]);
    for trace in &batch.0 {
        for s in &trace.0 {
            assert_eq!(s.service.as_deref(), Some("svc"));
            assert_eq!(s.name.as_deref(), Some("op"));
            assert_eq!(s.start, 10);
            assert_eq!(s.duration, 20);
            assert_eq!(s.meta.get("span.kind").map(String::as_str), Some("client"));
            assert_eq!(s.meta.get("n").cloned(), Some(s.span_id.to_string()));
        }
    }
    assert!(exporter.export(&[]).0.is_empty());
}

#[test]
fn two_export_calls_are_not_merged() {
    let exporter = Exporter::builder().build();
    let first = exporter.export(&[record(5, 1)]);
    let second = exporter.export(&[record(5, 2)]);
    assert_eq!(ids(&first), vec![vec![(5, 1)]]);
    assert_eq!(ids(&second), vec![vec![(5, 2)]]);
}
