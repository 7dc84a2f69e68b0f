//! A finished span as the instrumentation layer hands it over.

use crate::decimal::{decimal_int, decimal_nat};
use crate::text_map::TextMap;
use opentelemetry::api::Value;
use vstd::prelude::*;
use vstd::utf8::{decode_utf8, valid_utf8};

verus! {

/// The role that a span plays in a trace.
#[derive(Clone, Copy, Debug, PartialEq, Eq, Structural)]
pub enum SpanKind {
    Client,
    Server,
    Producer,
    Consumer,
    Internal,
}

impl SpanKind {
    /// The lowercase name under which the agent knows the kind.
    pub open spec fn text(self) -> Seq<char> {
        match self {
            SpanKind::Client => "client"@,
            SpanKind::Server => "server"@,
            SpanKind::Producer => "producer"@,
            SpanKind::Consumer => "consumer"@,
            SpanKind::Internal => "internal"@,
        }
    }

    /// The lowercase name under which the agent knows the kind.
    pub fn as_str(&self) -> (s: &'static str)
        ensures
            s@ == self.text(),
    {
        match self {
            SpanKind::Client => "client",
            SpanKind::Server => "server",
            SpanKind::Producer => "producer",
            SpanKind::Consumer => "consumer",
            SpanKind::Internal => "internal",
        }
    }
}

/// Two kinds with the same name are the same kind, and every name is one of
/// the five lowercase words.
pub proof fn lemma_span_kind_text(a: SpanKind, b: SpanKind)
    ensures
        a.text() == b.text() ==> a == b,
        a.text() == "client"@ || a.text() == "server"@ || a.text() == "producer"@ || a.text()
            == "consumer"@ || a.text() == "internal"@,
{
    reveal_strlit("client");
    reveal_strlit("server");
    reveal_strlit("producer");
    reveal_strlit("consumer");
    reveal_strlit("internal");
    if a.text() == b.text() {
        assert(a.text().len() == b.text().len());
        assert(a.text()[0] == b.text()[0]);
    }
}

/// How a span ended: `OK`, or one of the failures.
#[derive(Clone, Copy, Debug, PartialEq, Eq, Structural)]
pub enum StatusCode {
    OK,
    Canceled,
    Unknown,
    InvalidArgument,
    DeadlineExceeded,
    NotFound,
    AlreadyExists,
    PermissionDenied,
    ResourceExhausted,
    FailedPrecondition,
    Aborted,
    OutOfRange,
    Unimplemented,
    Internal,
    Unavailable,
    DataLoss,
    Unauthenticated,
}

impl StatusCode {
    /// Whether the span ended well.
    pub open spec fn is_ok(self) -> bool {
        self == StatusCode::OK
    }

    /// The class under which a failure is reported.
    pub open spec fn class(self) -> Seq<char> {
        match self {
            StatusCode::OK => "StatusCode::OK"@,
            StatusCode::Canceled => "StatusCode::Canceled"@,
            StatusCode::Unknown => "StatusCode::Unknown"@,
            StatusCode::InvalidArgument => "StatusCode::InvalidArgument"@,
            StatusCode::DeadlineExceeded => "StatusCode::DeadlineExceeded"@,
            StatusCode::NotFound => "StatusCode::NotFound"@,
            StatusCode::AlreadyExists => "StatusCode::AlreadyExists"@,
            StatusCode::PermissionDenied => "StatusCode::PermissionDenied"@,
            StatusCode::ResourceExhausted => "StatusCode::ResourceExhausted"@,
            StatusCode::FailedPrecondition => "StatusCode::FailedPrecondition"@,
            StatusCode::Aborted => "StatusCode::Aborted"@,
            StatusCode::OutOfRange => "StatusCode::OutOfRange"@,
            StatusCode::Unimplemented => "StatusCode::Unimplemented"@,
            StatusCode::Internal => "StatusCode::Internal"@,
            StatusCode::Unavailable => "StatusCode::Unavailable"@,
            StatusCode::DataLoss => "StatusCode::DataLoss"@,
            StatusCode::Unauthenticated => "StatusCode::Unauthenticated"@,
        }
    }

    /// The class under which a failure is reported.
    pub fn class_name(&self) -> (s: &'static str)
        ensures
            s@ == self.class(),
    {
        match self {
            StatusCode::OK => "StatusCode::OK",
            StatusCode::Canceled => "StatusCode::Canceled",
            StatusCode::Unknown => "StatusCode::Unknown",
            StatusCode::InvalidArgument => "StatusCode::InvalidArgument",
            StatusCode::DeadlineExceeded => "StatusCode::DeadlineExceeded",
            StatusCode::NotFound => "StatusCode::NotFound",
            StatusCode::AlreadyExists => "StatusCode::AlreadyExists",
            StatusCode::PermissionDenied => "StatusCode::PermissionDenied",
            StatusCode::ResourceExhausted => "StatusCode::ResourceExhausted",
            StatusCode::FailedPrecondition => "StatusCode::FailedPrecondition",
            StatusCode::Aborted => "StatusCode::Aborted",
            StatusCode::OutOfRange => "StatusCode::OutOfRange",
            StatusCode::Unimplemented => "StatusCode::Unimplemented",
            StatusCode::Internal => "StatusCode::Internal",
            StatusCode::Unavailable => "StatusCode::Unavailable",
            StatusCode::DataLoss => "StatusCode::DataLoss",
            StatusCode::Unauthenticated => "StatusCode::Unauthenticated",
        }
    }
}

/// An instant, as nanoseconds from the Unix epoch; negative before it.
#[derive(Clone, Copy, Debug, PartialEq, Eq, Structural)]
pub struct Timestamp {
    pub nanos: i128,
}

/// The gap from `earlier` to `later`, both in nanoseconds from the epoch: `Ok`
/// with the nanoseconds elapsed, or `Err` with the nanoseconds by which `later`
/// precedes `earlier`.
pub open spec fn gap(earlier: int, later: int) -> Result<u128, u128> {
    if later >= earlier {
        Ok((later - earlier) as u128)
    } else {
        Err((earlier - later) as u128)
    }
}

impl Timestamp {
    /// The instant `nanos` nanoseconds after the Unix epoch.
    pub fn from_nanos(nanos: i128) -> (t: Self)
        ensures
            t.nanos == nanos,
    {
        Timestamp { nanos }
    }

    /// The instant that lies `offset` from the Unix epoch: `Ok` with the
    /// nanoseconds after it, `Err` with the nanoseconds before it. An offset
    /// beyond what the type holds gives its last instant on that side.
    pub fn from_epoch_offset(offset: Result<u128, u128>) -> (t: Self)
        ensures
            t.nanos == match offset {
                Ok(after) => if after > i128::MAX as u128 {
                    i128::MAX as int
                } else {
                    after as int
                },
                Err(before) => if before > i128::MAX as u128 {
                    -(i128::MAX as int)
                } else {
                    -(before as int)
                },
            },
    {
        match offset {
            Ok(after) => Timestamp {
                nanos: if after > i128::MAX as u128 {
                    i128::MAX
                } else {
                    after as i128
                },
            },
            Err(before) => Timestamp {
                nanos: if before > i128::MAX as u128 {
                    -i128::MAX
                } else {
                    -(before as i128)
                },
            },
        }
    }

    /// The Unix epoch.
    pub fn unix_epoch() -> (t: Self)
        ensures
            t.nanos == 0,
    {
        Timestamp { nanos: 0 }
    }

    /// The time that passed from `earlier` to this instant, or by how much
    /// this instant precedes `earlier`.
    pub fn duration_since(&self, earlier: &Timestamp) -> (r: Result<u128, u128>)
        ensures
            r == gap(earlier.nanos as int, self.nanos as int),
    {
        let later = self.nanos;
        let earlier = earlier.nanos;
        if later >= earlier {
            Ok(distance(earlier, later))
        } else {
            Err(distance(later, earlier))
        }
    }
}

/// `high - low`, which may not fit the signed type.
fn distance(low: i128, high: i128) -> (d: u128)
    requires
        low <= high,
    ensures
        d == high - low,
{
    if low >= 0 || high < 0 {
        (high - low) as u128
    } else {
        let below: u128 = (-(low + 1)) as u128;
        high as u128 + below + 1
    }
}

/// A 64-bit float as the library carries it: its bit pattern, and the text
/// that stands for it wherever a string is wanted.
#[derive(Clone, Debug)]
pub struct FloatValue {
    pub bits: u64,
    pub text: String,
}

/// The value of an attribute.
#[derive(Clone, Debug)]
pub enum AttributeValue {
    Bool(bool),
    I64(i64),
    U64(u64),
    F64(FloatValue),
    String(String),
    Bytes(Vec<u8>),
}

/// A number among the metrics of a span. What goes on the wire is the 64-bit
/// float nearest to it.
#[derive(Clone, Copy, Debug, PartialEq, Eq, Structural)]
pub enum MetricValue {
    /// A signed integer.
    Signed(i64),
    /// An unsigned integer.
    Unsigned(u64),
    /// A float, by its bit pattern.
    Float(u64),
}

impl AttributeValue {
    /// The string form of the value.
    pub open spec fn text(self) -> Seq<char> {
        match self {
            AttributeValue::Bool(b) => if b {
                "true"@
            } else {
                "false"@
            },
            AttributeValue::I64(i) => decimal_int(i as int),
            AttributeValue::U64(u) => decimal_nat(u as nat),
            AttributeValue::F64(f) => f.text@,
            AttributeValue::String(s) => s@,
            AttributeValue::Bytes(b) => if valid_utf8(b@) {
                decode_utf8(b@)
            } else {
                Seq::empty()
            },
        }
    }

    /// The number that the value contributes to the metrics, if it is one:
    /// a truth value counts as 1 or 0, text and bytes count as nothing.
    pub open spec fn metric(self) -> Option<MetricValue> {
        match self {
            AttributeValue::Bool(b) => Some(MetricValue::Signed(if b { 1i64 } else { 0i64 })),
            AttributeValue::I64(i) => Some(MetricValue::Signed(i)),
            AttributeValue::U64(u) => Some(MetricValue::Unsigned(u)),
            AttributeValue::F64(f) => Some(MetricValue::Float(f.bits)),
            AttributeValue::String(_) => None,
            AttributeValue::Bytes(_) => None,
        }
    }

    /// The string form of the value.
    pub fn to_string(&self) -> (text: String)
        ensures
            text@ == self.text(),
    {
        value_to_string(self)
    }

    /// The number that the value contributes to the metrics, if it is one.
    pub fn to_metric(&self) -> (m: Option<MetricValue>)
        ensures
            m == self.metric(),
    {
        match self {
            AttributeValue::Bool(b) => Some(MetricValue::Signed(if *b { 1 } else { 0 })),
            AttributeValue::I64(i) => Some(MetricValue::Signed(*i)),
            AttributeValue::U64(u) => Some(MetricValue::Unsigned(*u)),
            AttributeValue::F64(f) => Some(MetricValue::Float(f.bits)),
            AttributeValue::String(_) => None,
            AttributeValue::Bytes(_) => None,
        }
    }
}

/// `opentelemetry::api::Value::to_string`, on the value that stands for `v`
/// there (a float goes as the text it came with). Its source hands a string
/// back as it is, turns bytes into the text they encode in UTF-8, or into
/// nothing where they encode none, and formats a truth value or an integer as
/// std does: `true` or `false`, and the decimal digits after a `-` where the
/// number is negative.
#[verifier::external_body]
fn value_to_string(v: &AttributeValue) -> (text: String)
    ensures
        text@ == v.text(),
{
    match v {
        AttributeValue::Bool(b) => Value::Bool(*b),
        AttributeValue::I64(i) => Value::I64(*i),
        AttributeValue::U64(u) => Value::U64(*u),
        AttributeValue::F64(f) => Value::String(f.text.clone()),
        AttributeValue::String(s) => Value::String(s.clone()),
        AttributeValue::Bytes(b) => Value::Bytes(b.clone()),
    }.to_string()
}

/// A finished span: what was measured, and where it belongs.
#[derive(Clone, Debug)]
pub struct SpanRecord {
    /// The name of the operation.
    pub name: String,
    pub span_kind: SpanKind,
    pub status_code: StatusCode,
    /// What went wrong, where the status is not `OK`.
    pub status_message: String,
    pub start_time: Timestamp,
    pub end_time: Timestamp,
    pub attributes: TextMap<AttributeValue>,
    pub trace_id: u128,
    pub span_id: u64,
    pub parent_span_id: u64,
}

} // verus!
