use opentelemetry::api;
use opentelemetry::api::Value;
use opentelemetry_datadog::model::record::{
    AttributeValue, FloatValue, MetricValue, SpanKind, SpanRecord, StatusCode, Timestamp,
};
use opentelemetry_datadog::model::span::Span;
use opentelemetry_datadog::text_map::TextMap;
use opentelemetry_datadog::{duration_to_ns, split_attributes, Exporter};
use std::time::{Duration, SystemTime, UNIX_EPOCH};

const T0: i128 = 1_600_000_000_000_000_000;

fn record(attributes: TextMap<AttributeValue>) -> SpanRecord {
    SpanRecord {
        name: "op".to_string(),
        span_kind: SpanKind::Internal,
        status_code: StatusCode::OK,
        status_message: String::new(),
        start_time: Timestamp::from_nanos(T0),
        end_time: Timestamp::from_nanos(T0 + 5_000_000),
        attributes,
        trace_id: 42,
        span_id: 7,
        parent_span_id: 0,
    }
}

fn float(value: f64) -> AttributeValue {
    AttributeValue::F64(FloatValue { bits: value.to_bits(), text: value.to_string() })
}

fn on_wire(metric: &MetricValue) -> f64 {
    match metric {
        MetricValue::Signed(i) => *i as f64,
        MetricValue::Unsigned(u) => *u as f64,
        MetricValue::Float(bits) => f64::from_bits(*bits),
    }
}

fn meta_pairs(span: &Span) -> Vec<(String, String)> {
    let mut pairs = Vec::new();
    let mut i = 0;
    while let Some((key, value)) = span.meta.entry(i) {
        pairs.push((key.clone(), value.clone()));
        i += 1;
    }
    pairs.sort();
    pairs
}

fn pair(key: &str, value: &str) -> (String, String) {
    (key.to_string(), value.to_string())
}

#[test]
fn converts_an_internal_span_with_an_integer_attribute() {
    let mut attributes = TextMap::new();
    attributes.insert("http.status_code".to_string(), AttributeValue::I64(200));
    let exporter = Exporter::builder().build();
    let span = exporter.convert_span(&record(attributes));

    assert_eq!(span.name.as_deref(), Some("op"));
    assert_eq!(span.service.as_deref(), Some("DEFAULT"));
    assert_eq!(span.resource, None);
    assert_eq!(span.span_type, None);
    assert_eq!(span.error, 0);
    assert_eq!(
        meta_pairs(&span),
        vec![
            pair("http.status_code", "200"),
            pair("service_version", "0.0.0"),
            pair("span.kind", "internal"),
        ]
    );
    assert_eq!(span.metrics.len(), 1);
    let metric = span.metrics.get("http.status_code").unwrap();
    assert_eq!(*metric, MetricValue::Signed(200));
    assert_eq!(on_wire(metric), 200.0);
    assert_eq!(span.start as i128, T0);
    assert_eq!(span.duration, 5_000_000);
    assert_eq!(span.trace_id, 42);
    assert_eq!(span.span_id, 7);
    assert_eq!(span.parent_id, 0);
}

#[test]
fn start_before_the_epoch_is_negative() {
    let mut early = record(TextMap::new());
    early.start_time = Timestamp::from_nanos(-100);
    early.end_time = Timestamp::from_nanos(-40);
    let span = Exporter::builder().build().convert_span(&early);
    assert_eq!(span.start, -100);
    assert_eq!(span.duration, 60);
}

#[test]
fn end_before_start_gives_a_negative_duration() {
    let mut backwards = record(TextMap::new());
    backwards.start_time = Timestamp::from_nanos(1_000);
    backwards.end_time = Timestamp::from_nanos(250);
    let span = Exporter::builder().build().convert_span(&backwards);
    assert_eq!(span.start, 1_000);
    assert_eq!(span.duration, -750);
}

#[test]
fn times_out_of_range_are_clamped() {
    let mut far = record(TextMap::new());
    far.start_time = Timestamp::from_nanos(i128::MIN);
    far.end_time = Timestamp::from_nanos(i128::MAX);
    let span = Exporter::builder().build().convert_span(&far);
    assert_eq!(span.start, -i64::MAX);
    assert_eq!(span.duration, i64::MAX);

    far.start_time = Timestamp::from_nanos(i64::MAX as i128 + 1);
    far.end_time = Timestamp::from_nanos(0);
    let span = Exporter::builder().build().convert_span(&far);
    assert_eq!(span.start, i64::MAX);
    assert_eq!(span.duration, -i64::MAX);

    far.start_time = Timestamp::from_nanos(i64::MAX as i128);
    far.end_time = Timestamp::from_nanos(i64::MAX as i128 - 1);
    let span = Exporter::builder().build().convert_span(&far);
    assert_eq!(span.start, i64::MAX);
    assert_eq!(span.duration, -1);
}

#[test]
fn a_failed_span_carries_its_class_and_message() {
    let mut failed = record(TextMap::new());
    failed.status_code = StatusCode::Internal;
    failed.status_message = "Oops.".to_string();
    let span = Exporter::builder().build().convert_span(&failed);
    assert_eq!(span.error, 1);
    assert_eq!(
        meta_pairs(&span),
        vec![
            pair("error.msg", "Oops."),
            pair("error.type", "StatusCode::Internal"),
            pair("service_version", "0.0.0"),
            pair("span.kind", "internal"),
        ]
    );
}

#[test]
fn error_is_one_for_every_status_but_ok() {
    let codes = [
        (StatusCode::OK, "StatusCode::OK"),
        (StatusCode::Canceled, "StatusCode::Canceled"),
        (StatusCode::Unknown, "StatusCode::Unknown"),
        (StatusCode::InvalidArgument, "StatusCode::InvalidArgument"),
        (StatusCode::DeadlineExceeded, "StatusCode::DeadlineExceeded"),
        (StatusCode::NotFound, "StatusCode::NotFound"),
        (StatusCode::AlreadyExists, "StatusCode::AlreadyExists"),
        (StatusCode::PermissionDenied, "StatusCode::PermissionDenied"),
        (StatusCode::ResourceExhausted, "StatusCode::ResourceExhausted"),
        (StatusCode::FailedPrecondition, "StatusCode::FailedPrecondition"),
        (StatusCode::Aborted, "StatusCode::Aborted"),
        (StatusCode::OutOfRange, "StatusCode::OutOfRange"),
        (StatusCode::Unimplemented, "StatusCode::Unimplemented"),
        (StatusCode::Internal, "StatusCode::Internal"),
        (StatusCode::Unavailable, "StatusCode::Unavailable"),
        (StatusCode::DataLoss, "StatusCode::DataLoss"),
        (StatusCode::Unauthenticated, "StatusCode::Unauthenticated"),
    ];
    let exporter = Exporter::builder().build();
    for (code, class) in codes {
        assert_eq!(code.class_name(), class);
        assert_eq!(format!("StatusCode::{:?}", code), class);
        let mut r = record(TextMap::new());
        r.status_code = code;
        r.status_message = "went wrong".to_string();
        let span = exporter.convert_span(&r);
        if code == StatusCode::OK {
            assert_eq!(span.error, 0);
            assert!(span.meta.get("error.type").is_none());
            assert!(span.meta.get("error.msg").is_none());
        } else {
            assert_eq!(span.error, 1);
            assert_eq!(span.meta.get("error.type").map(String::as_str), Some(class));
            assert_eq!(span.meta.get("error.msg").map(String::as_str), Some("went wrong"));
        }
    }
}

#[test]
fn the_class_of_a_failure_is_the_name_that_the_tracing_library_prints() {
    let codes = [
        (StatusCode::OK, api::StatusCode::OK),
        (StatusCode::Canceled, api::StatusCode::Canceled),
        (StatusCode::Unknown, api::StatusCode::Unknown),
        (StatusCode::InvalidArgument, api::StatusCode::InvalidArgument),
        (StatusCode::DeadlineExceeded, api::StatusCode::DeadlineExceeded),
        (StatusCode::NotFound, api::StatusCode::NotFound),
        (StatusCode::AlreadyExists, api::StatusCode::AlreadyExists),
        (StatusCode::PermissionDenied, api::StatusCode::PermissionDenied),
        (StatusCode::ResourceExhausted, api::StatusCode::ResourceExhausted),
        (StatusCode::FailedPrecondition, api::StatusCode::FailedPrecondition),
        (StatusCode::Aborted, api::StatusCode::Aborted),
        (StatusCode::OutOfRange, api::StatusCode::OutOfRange),
        (StatusCode::Unimplemented, api::StatusCode::Unimplemented),
        (StatusCode::Internal, api::StatusCode::Internal),
        (StatusCode::Unavailable, api::StatusCode::Unavailable),
        (StatusCode::DataLoss, api::StatusCode::DataLoss),
        (StatusCode::Unauthenticated, api::StatusCode::Unauthenticated),
    ];
    for (ours, theirs) in codes {
        assert_eq!(ours.class_name(), format!("StatusCode::{:?}", theirs));
        assert_eq!(ours == StatusCode::OK, theirs == api::StatusCode::OK);
    }
    let kinds = [
        (SpanKind::Client, api::SpanKind::Client),
        (SpanKind::Server, api::SpanKind::Server),
        (SpanKind::Producer, api::SpanKind::Producer),
        (SpanKind::Consumer, api::SpanKind::Consumer),
        (SpanKind::Internal, api::SpanKind::Internal),
    ];
    for (ours, theirs) in kinds {
        assert_eq!(ours.as_str(), theirs.to_string());
    }
}

#[test]
fn attributes_name_the_span_its_service_resource_and_type() {
    let mut attributes = TextMap::new();
    attributes.insert("span.name".to_string(), AttributeValue::String("GET /users".to_string()));
    attributes.insert("service.name".to_string(), AttributeValue::String("users".to_string()));
    attributes.insert("resource.name".to_string(), AttributeValue::String("/users".to_string()));
    attributes.insert("span.type".to_string(), AttributeValue::String("web".to_string()));
    let exporter = Exporter::builder()
        .with_service_name("shop")
        .with_service_version("1.2.3")
        .build();
    let span = exporter.convert_span(&record(attributes));
    assert_eq!(span.name.as_deref(), Some("GET /users"));
    assert_eq!(span.service.as_deref(), Some("users"));
    assert_eq!(span.resource.as_deref(), Some("/users"));
    assert_eq!(span.span_type.as_deref(), Some("web"));
    assert_eq!(span.meta.get("service_version").map(String::as_str), Some("1.2.3"));
    assert_eq!(span.meta.get("span.name").map(String::as_str), Some("GET /users"));
    assert!(span.metrics.is_empty());
}

#[test]
fn the_configured_service_stands_in_where_no_attribute_names_one() {
    let exporter = Exporter::builder().with_service_name("shop").build();
    let span = exporter.convert_span(&record(TextMap::new()));
    assert_eq!(span.service.as_deref(), Some("shop"));
    assert_eq!(span.name.as_deref(), Some("op"));
}

#[test]
fn kind_and_version_replace_attributes_of_the_same_name() {
    let mut attributes = TextMap::new();
    attributes.insert("span.kind".to_string(), AttributeValue::String("mine".to_string()));
    attributes.insert("service_version".to_string(), AttributeValue::I64(9));
    attributes.insert("error.type".to_string(), AttributeValue::String("kept".to_string()));
    let mut r = record(attributes);
    r.span_kind = SpanKind::Server;
    let span = Exporter::builder().build().convert_span(&r);
    assert_eq!(span.meta.get("span.kind").map(String::as_str), Some("server"));
    assert_eq!(span.meta.get("service_version").map(String::as_str), Some("0.0.0"));
    assert_eq!(span.meta.get("error.type").map(String::as_str), Some("kept"));
    assert_eq!(span.metrics.get("service_version"), Some(&MetricValue::Signed(9)));

    r.status_code = StatusCode::NotFound;
    let span = Exporter::builder().build().convert_span(&r);
    assert_eq!(
        span.meta.get("error.type").map(String::as_str),
        Some("StatusCode::NotFound")
    );
}

#[test]
fn every_kind_has_its_lowercase_name() {
    let kinds = [
        (SpanKind::Client, "client"),
        (SpanKind::Server, "server"),
        (SpanKind::Producer, "producer"),
        (SpanKind::Consumer, "consumer"),
        (SpanKind::Internal, "internal"),
    ];
    for (i, (kind, name)) in kinds.iter().enumerate() {
        assert_eq!(kind.as_str(), *name);
        for (j, (other, _)) in kinds.iter().enumerate() {
            assert_eq!(kind.as_str() == other.as_str(), i == j);
        }
        let mut r = record(TextMap::new());
        r.span_kind = *kind;
        let span = Exporter::builder().build().convert_span(&r);
        assert_eq!(span.meta.get("span.kind").map(String::as_str), Some(*name));
    }
}

#[test]
fn a_wide_trace_id_keeps_its_low_64_bits() {
    let mut wide = record(TextMap::new());
    wide.trace_id = (1u128 << 64) + 5;
    wide.span_id = u64::MAX;
    wide.parent_span_id = 11;
    let span = Exporter::builder().build().convert_span(&wide);
    assert_eq!(span.trace_id, 5);
    assert_eq!(span.span_id, u64::MAX);
    assert_eq!(span.parent_id, 11);

    wide.trace_id = u128::MAX;
    let span = Exporter::builder().build().convert_span(&wide);
    assert_eq!(span.trace_id, u64::MAX);
}

#[test]
fn every_attribute_is_metadata_and_numbers_are_metrics_too() {
    let mut attributes = TextMap::new();
    attributes.insert("yes".to_string(), AttributeValue::Bool(true));
    attributes.insert("no".to_string(), AttributeValue::Bool(false));
    attributes.insert("low".to_string(), AttributeValue::I64(i64::MIN));
    attributes.insert("minus".to_string(), AttributeValue::I64(-17));
    attributes.insert("high".to_string(), AttributeValue::U64(u64::MAX));
    attributes.insert("zero".to_string(), AttributeValue::U64(0));
    attributes.insert("ratio".to_string(), float(1.5));
    attributes.insert("text".to_string(), AttributeValue::String("12".to_string()));
    attributes.insert("bytes".to_string(), AttributeValue::Bytes("h\u{e9}llo".as_bytes().to_vec()));
    attributes.insert("broken".to_string(), AttributeValue::Bytes(vec![0x68, 0xff, 0x69]));

    let (meta, metrics) = split_attributes(&attributes);

    let text = |key: &str| meta.get(key).map(String::as_str);
    assert_eq!(meta.len(), 10);
    assert_eq!(text("yes"), Some("true"));
    assert_eq!(text("no"), Some("false"));
    assert_eq!(text("low"), Some("-9223372036854775808"));
    assert_eq!(text("minus"), Some("-17"));
    assert_eq!(text("high"), Some("18446744073709551615"));
    assert_eq!(text("zero"), Some("0"));
    assert_eq!(text("ratio"), Some("1.5"));
    assert_eq!(text("text"), Some("12"));
    assert_eq!(text("bytes"), Some("h\u{e9}llo"));
    assert_eq!(text("broken"), Some(""));
    assert_eq!(text("absent"), None);

    assert_eq!(metrics.len(), 7);
    assert_eq!(metrics.get("yes"), Some(&MetricValue::Signed(1)));
    assert_eq!(metrics.get("no"), Some(&MetricValue::Signed(0)));
    assert_eq!(metrics.get("low"), Some(&MetricValue::Signed(i64::MIN)));
    assert_eq!(metrics.get("minus"), Some(&MetricValue::Signed(-17)));
    assert_eq!(metrics.get("high"), Some(&MetricValue::Unsigned(u64::MAX)));
    assert_eq!(metrics.get("zero"), Some(&MetricValue::Unsigned(0)));
    assert_eq!(metrics.get("ratio"), Some(&MetricValue::Float(1.5f64.to_bits())));
    assert_eq!(metrics.get("text"), None);
    assert_eq!(metrics.get("bytes"), None);
    assert_eq!(metrics.get("broken"), None);

    assert_eq!(on_wire(metrics.get("yes").unwrap()), 1.0);
    assert_eq!(on_wire(metrics.get("minus").unwrap()), -17.0);
    assert_eq!(on_wire(metrics.get("high").unwrap()), u64::MAX as f64);
    assert_eq!(on_wire(metrics.get("ratio").unwrap()), 1.5);
}

#[test]
fn no_attributes_give_no_metadata_and_no_metrics() {
    let (meta, metrics) = split_attributes(&TextMap::new());
    assert!(meta.is_empty());
    assert!(metrics.is_empty());
}

#[test]
fn the_string_form_of_a_value_is_that_of_the_tracing_library() {
    let same = |ours: AttributeValue, theirs: Value| {
        assert_eq!(ours.to_string(), theirs.to_string());
    };
    same(AttributeValue::Bool(true), Value::Bool(true));
    same(AttributeValue::Bool(false), Value::Bool(false));
    for i in [i64::MIN, -1_000_000_007, -10, -1, 0, 1, 9, 10, 99, 100, 65_536, i64::MAX] {
        same(AttributeValue::I64(i), Value::I64(i));
    }
    for u in [0, 1, 9, 10, 11, 1_000, u64::MAX / 10, u64::MAX - 1, u64::MAX] {
        same(AttributeValue::U64(u), Value::U64(u));
    }
    for f in [0.0, -0.0, 1.5, -2.25, 1e21, 1e-7, f64::MAX, f64::INFINITY, f64::NAN] {
        same(float(f), Value::F64(f));
    }
    same(AttributeValue::String(String::new()), Value::String(String::new()));
    same(AttributeValue::String("a b".to_string()), Value::String("a b".to_string()));
    same(AttributeValue::Bytes(vec![]), Value::Bytes(vec![]));
    same(AttributeValue::Bytes(vec![0xe2, 0x82, 0xac]), Value::Bytes(vec![0xe2, 0x82, 0xac]));
    same(AttributeValue::Bytes(vec![0xe2, 0x82]), Value::Bytes(vec![0xe2, 0x82]));
    assert_eq!(AttributeValue::Bytes(vec![0xe2, 0x82, 0xac]).to_string(), "\u{20ac}");
    assert_eq!(AttributeValue::Bytes(vec![0xed, 0xa0, 0x80]).to_string(), "");
    assert_eq!(AttributeValue::Bytes(vec![0xc0, 0xaf]).to_string(), "");
}

#[test]
fn the_metric_of_a_value_goes_by_its_variant() {
    assert_eq!(AttributeValue::Bool(true).to_metric(), Some(MetricValue::Signed(1)));
    assert_eq!(AttributeValue::Bool(false).to_metric(), Some(MetricValue::Signed(0)));
    assert_eq!(AttributeValue::I64(-3).to_metric(), Some(MetricValue::Signed(-3)));
    assert_eq!(AttributeValue::U64(3).to_metric(), Some(MetricValue::Unsigned(3)));
    assert_eq!(float(0.25).to_metric(), Some(MetricValue::Float(0.25f64.to_bits())));
    assert_eq!(AttributeValue::String("3".to_string()).to_metric(), None);
    assert_eq!(AttributeValue::Bytes(vec![0x33]).to_metric(), None);
}

#[test]
fn a_gap_becomes_signed_nanoseconds() {
    assert_eq!(duration_to_ns(Ok(0)), 0);
    assert_eq!(duration_to_ns(Err(0)), 0);
    assert_eq!(duration_to_ns(Ok(5_000_000)), 5_000_000);
    assert_eq!(duration_to_ns(Err(100)), -100);
    assert_eq!(duration_to_ns(Ok(i64::MAX as u128)), i64::MAX);
    assert_eq!(duration_to_ns(Ok(i64::MAX as u128 + 1)), i64::MAX);
    assert_eq!(duration_to_ns(Ok(u128::MAX)), i64::MAX);
    assert_eq!(duration_to_ns(Err(i64::MAX as u128)), -i64::MAX);
    assert_eq!(duration_to_ns(Err(i64::MAX as u128 + 1)), -i64::MAX);
    assert_eq!(duration_to_ns(Err(u128::MAX)), -i64::MAX);
}

#[test]
fn the_gap_between_two_instants_has_a_direction() {
    let at = Timestamp::from_nanos;
    assert_eq!(Timestamp::unix_epoch(), at(0));
    assert_eq!(at(7).duration_since(&at(7)), Ok(0));
    assert_eq!(at(12).duration_since(&at(7)), Ok(5));
    assert_eq!(at(7).duration_since(&at(12)), Err(5));
    assert_eq!(at(-7).duration_since(&at(-12)), Ok(5));
    assert_eq!(at(5).duration_since(&at(-5)), Ok(10));
    assert_eq!(at(-5).duration_since(&at(5)), Err(10));
    assert_eq!(at(i128::MAX).duration_since(&at(i128::MIN)), Ok(u128::MAX));
    assert_eq!(at(i128::MIN).duration_since(&at(i128::MAX)), Err(u128::MAX));
    assert_eq!(at(i128::MAX).duration_since(&at(0)), Ok(i128::MAX as u128));
    assert_eq!(at(0).duration_since(&at(i128::MIN)), Ok(1u128 << 127));
    assert_eq!(at(-1).duration_since(&at(i128::MIN)), Ok((1u128 << 127) - 1));
}

#[test]
fn the_gap_agrees_with_the_system_clock() {
    let nanos = |t: SystemTime| match t.duration_since(UNIX_EPOCH) {
        Ok(d) => d.as_nanos() as i128,
        Err(e) => -(e.duration().as_nanos() as i128),
    };
    let early = UNIX_EPOCH - Duration::from_nanos(100);
    let late = UNIX_EPOCH + Duration::new(1_600_000_000, 5_000_000);
    for (a, b) in [(early, late), (late, early), (UNIX_EPOCH, early), (late, late)] {
        let ours = Timestamp::from_nanos(nanos(a)).duration_since(&Timestamp::from_nanos(nanos(b)));
        let theirs = a.duration_since(b);
        match theirs {
            Ok(d) => assert_eq!(ours, Ok(d.as_nanos())),
            Err(e) => assert_eq!(ours, Err(e.duration().as_nanos())),
        }
    }
}

#[test]
fn an_instant_is_given_by_its_offset_from_the_epoch() {
    assert_eq!(Timestamp::from_epoch_offset(Ok(0)), Timestamp::unix_epoch());
    assert_eq!(Timestamp::from_epoch_offset(Err(0)), Timestamp::unix_epoch());
    assert_eq!(Timestamp::from_epoch_offset(Ok(100)).nanos, 100);
    assert_eq!(Timestamp::from_epoch_offset(Err(100)).nanos, -100);
    assert_eq!(Timestamp::from_epoch_offset(Ok(i128::MAX as u128)).nanos, i128::MAX);
    assert_eq!(Timestamp::from_epoch_offset(Ok(i128::MAX as u128 + 1)).nanos, i128::MAX);
    assert_eq!(Timestamp::from_epoch_offset(Ok(u128::MAX)).nanos, i128::MAX);
    assert_eq!(Timestamp::from_epoch_offset(Err(i128::MAX as u128)).nanos, -i128::MAX);
    assert_eq!(Timestamp::from_epoch_offset(Err(u128::MAX)).nanos, -i128::MAX);

    let before = UNIX_EPOCH - Duration::from_nanos(100);
    let offset = match before.duration_since(UNIX_EPOCH) {
        Ok(d) => Ok(d.as_nanos()),
        Err(e) => Err(e.duration().as_nanos()),
    };
    let mut early = record(TextMap::new());
    early.start_time = Timestamp::from_epoch_offset(offset);
    assert_eq!(Exporter::builder().build().convert_span(&early).start, -100);
}
