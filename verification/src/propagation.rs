//! Carrying the context of a trace from one process to the next in the
//! headers of a request.

use crate::decimal::{
    decimal_int, decimal_nat, format_i64, format_u64, lemma_parse_signed_decimal,
    lemma_parse_unsigned_decimal, parse_i32, parse_i32_spec, parse_u64, parse_u64_spec,
};
use crate::text_map::TextMap;
use opentelemetry::api::{SpanContext, SpanId, TraceId};
use vstd::prelude::*;

verus! {

/// The header that carries the trace id.
pub const HTTP_HEADER_TRACE_ID: &'static str = "x-datadog-trace-id";

/// The header that carries the id of the span that makes the request.
pub const HTTP_HEADER_PARENT_ID: &'static str = "x-datadog-parent-id";

/// The header that carries the sampling priority.
pub const HTTP_HEADER_SAMPLING_PRIORITY: &'static str = "x-datadog-sampling-priority";

/// Whether a trace is to be kept, and who decided so.
#[derive(Clone, Copy, Debug, PartialEq, Eq, Structural)]
pub enum SamplingPriority {
    UserReject,
    AutoReject,
    AutoKeep,
    UserKeep,
}

impl SamplingPriority {
    /// The number that stands for the priority in a header.
    pub open spec fn value(self) -> int {
        match self {
            SamplingPriority::UserReject => -1,
            SamplingPriority::AutoReject => 0,
            SamplingPriority::AutoKeep => 1,
            SamplingPriority::UserKeep => 2,
        }
    }

    /// Whether the trace is to be kept.
    pub open spec fn keeps(self) -> bool {
        self == SamplingPriority::AutoKeep || self == SamplingPriority::UserKeep
    }

    /// The number that stands for the priority in a header.
    pub fn to_i32(&self) -> (v: i32)
        ensures
            v == self.value(),
    {
        match self {
            SamplingPriority::UserReject => -1,
            SamplingPriority::AutoReject => 0,
            SamplingPriority::AutoKeep => 1,
            SamplingPriority::UserKeep => 2,
        }
    }

    /// Whether the trace is to be kept.
    pub fn is_kept(&self) -> (kept: bool)
        ensures
            kept == self.keeps(),
    {
        match self {
            SamplingPriority::UserReject | SamplingPriority::AutoReject => false,
            SamplingPriority::UserKeep | SamplingPriority::AutoKeep => true,
        }
    }
}

/// Why a carrier gives no trace context.
#[derive(Clone, Copy, Debug, PartialEq, Eq, Structural)]
pub enum ExtractError {
    /// The trace id is missing or is no unsigned 64-bit decimal number.
    InvalidTraceId,
    /// The span id is missing or is no unsigned 64-bit decimal number.
    InvalidSpanId,
    /// The sampling priority is missing or is none of -1, 0, 1 and 2.
    InvalidSamplingPriority,
    /// The trace id or the span id is zero.
    InvalidSpanContext,
}

/// The part of a span that travels with a request: which trace and span the
/// request comes from, and whether the trace is sampled.
#[derive(Clone, Copy, Debug, PartialEq, Eq, Structural)]
pub struct TraceContext {
    pub trace_id: u128,
    pub span_id: u64,
    /// Bit 0 is set where the trace is sampled.
    pub trace_flags: u8,
    /// Whether the context came in from another process.
    pub is_remote: bool,
}

/// The trace flags that say whether a trace is sampled, and nothing else.
pub open spec fn sampled_flags(sampled: bool) -> u8 {
    if sampled {
        1
    } else {
        0
    }
}

impl TraceContext {
    /// Whether the context names a trace and a span: neither id is zero.
    pub open spec fn valid(self) -> bool {
        self.trace_id != 0 && self.span_id != 0
    }

    /// Whether the trace is sampled.
    pub open spec fn sampled(self) -> bool {
        self.trace_flags & 1 == 1
    }

    /// The context that names no trace.
    pub open spec fn empty_context() -> TraceContext {
        TraceContext { trace_id: 0, span_id: 0, trace_flags: 0, is_remote: false }
    }

    /// A context of the given parts.
    pub fn new(trace_id: u128, span_id: u64, trace_flags: u8, is_remote: bool) -> (context: Self)
        ensures
            context == (TraceContext { trace_id, span_id, trace_flags, is_remote }),
    {
        TraceContext { trace_id, span_id, trace_flags, is_remote }
    }

    /// The context that names no trace.
    pub fn empty() -> (context: Self)
        ensures
            context == TraceContext::empty_context(),
            !context.valid(),
    {
        empty_span_context()
    }

    /// Whether the context names a trace and a span.
    pub fn is_valid(&self) -> (valid: bool)
        ensures
            valid == self.valid(),
    {
        span_context_is_valid(self)
    }

    /// Whether the trace is sampled.
    pub fn is_sampled(&self) -> (sampled: bool)
        ensures
            sampled == self.sampled(),
    {
        span_context_is_sampled(self)
    }
}

/// `opentelemetry::api::SpanContext::is_valid`, on the span context of the
/// same four parts: true where the trace id and the span id are both other
/// than zero.
#[verifier::external_body]
fn span_context_is_valid(c: &TraceContext) -> (valid: bool)
    ensures
        valid == (c.trace_id != 0 && c.span_id != 0),
{
    SpanContext::new(
        TraceId::from_u128(c.trace_id),
        SpanId::from_u64(c.span_id),
        c.trace_flags,
        c.is_remote,
    ).is_valid()
}

/// `opentelemetry::api::SpanContext::is_sampled`, on the span context of the
/// same four parts: true where bit 0 of the trace flags is set.
#[verifier::external_body]
fn span_context_is_sampled(c: &TraceContext) -> (sampled: bool)
    ensures
        sampled == (c.trace_flags & 1 == 1),
{
    SpanContext::new(
        TraceId::from_u128(c.trace_id),
        SpanId::from_u64(c.span_id),
        c.trace_flags,
        c.is_remote,
    ).is_sampled()
}

/// `opentelemetry::api::SpanContext::empty_context`, part by part: both ids
/// zero, no flag set, not remote.
#[verifier::external_body]
fn empty_span_context() -> (c: TraceContext)
    ensures
        c == (TraceContext { trace_id: 0, span_id: 0, trace_flags: 0, is_remote: false }),
{
    let empty = SpanContext::empty_context();
    TraceContext {
        trace_id: empty.trace_id().to_u128(),
        span_id: empty.span_id().to_u64(),
        trace_flags: empty.trace_flags(),
        is_remote: empty.is_remote(),
    }
}

/// `opentelemetry::api::TRACE_FLAG_SAMPLED`: the trace flags with the sampled
/// bit, bit 0, alone.
#[verifier::external_body]
fn trace_flag_sampled() -> (flags: u8)
    ensures
        flags == 1,
{
    opentelemetry::api::TRACE_FLAG_SAMPLED
}

/// The text of header `name` among `headers`; a header that is missing reads
/// as the empty text.
pub open spec fn header(headers: Map<Seq<char>, Seq<char>>, name: Seq<char>) -> Seq<char> {
    if headers.contains_key(name) {
        headers[name]
    } else {
        Seq::empty()
    }
}

/// The sampling priority that `text` stands for: the decimal text of -1, 0, 1
/// or 2.
pub open spec fn priority_of(text: Seq<char>) -> Option<SamplingPriority> {
    match parse_i32_spec(text) {
        Some(v) => if v == -1 {
            Some(SamplingPriority::UserReject)
        } else if v == 0 {
            Some(SamplingPriority::AutoReject)
        } else if v == 1 {
            Some(SamplingPriority::AutoKeep)
        } else if v == 2 {
            Some(SamplingPriority::UserKeep)
        } else {
            None
        },
        None => None,
    }
}

/// What `headers` say of the trace that a request belongs to, or the first
/// reason why they say nothing: the trace id is read first, then the span id,
/// then the sampling priority, and last the ids are held against zero.
pub open spec fn extracted(headers: Map<Seq<char>, Seq<char>>) -> Result<
    TraceContext,
    ExtractError,
> {
    let trace_id = parse_u64_spec(header(headers, HTTP_HEADER_TRACE_ID@));
    let span_id = parse_u64_spec(header(headers, HTTP_HEADER_PARENT_ID@));
    let priority = priority_of(header(headers, HTTP_HEADER_SAMPLING_PRIORITY@));
    if trace_id is None {
        Err(ExtractError::InvalidTraceId)
    } else if span_id is None {
        Err(ExtractError::InvalidSpanId)
    } else if priority is None {
        Err(ExtractError::InvalidSamplingPriority)
    } else if trace_id->0 == 0 || span_id->0 == 0 {
        Err(ExtractError::InvalidSpanContext)
    } else {
        Ok(
            TraceContext {
                trace_id: trace_id->0 as u128,
                span_id: span_id->0,
                trace_flags: sampled_flags(priority->0.keeps()),
                is_remote: true,
            },
        )
    }
}

/// The trace context that `headers` give: what they say, or the empty context
/// where they say nothing.
pub open spec fn extracted_context(headers: Map<Seq<char>, Seq<char>>) -> TraceContext {
    match extracted(headers) {
        Ok(found) => found,
        Err(_) => TraceContext::empty_context(),
    }
}

/// The headers after `context` has been written into `headers`: unchanged
/// where the context is not valid, and else with the low 64 bits of the trace
/// id, the span id and the sampling priority in decimal, the priority being
/// 1 for a sampled trace and 0 for another.
pub open spec fn injected(context: TraceContext, headers: Map<Seq<char>, Seq<char>>) -> Map<
    Seq<char>,
    Seq<char>,
> {
    if context.valid() {
        headers.insert(
            HTTP_HEADER_TRACE_ID@,
            decimal_nat((context.trace_id % 0x1_0000_0000_0000_0000) as nat),
        ).insert(HTTP_HEADER_PARENT_ID@, decimal_nat(context.span_id as nat)).insert(
            HTTP_HEADER_SAMPLING_PRIORITY@,
            decimal_int(
                if context.sampled() {
                    SamplingPriority::AutoKeep.value()
                } else {
                    SamplingPriority::AutoReject.value()
                },
            ),
        )
    } else {
        headers
    }
}

/// The three headers have three different names.
pub proof fn lemma_header_names_differ()
    ensures
        HTTP_HEADER_TRACE_ID@ != HTTP_HEADER_PARENT_ID@,
        HTTP_HEADER_TRACE_ID@ != HTTP_HEADER_SAMPLING_PRIORITY@,
        HTTP_HEADER_PARENT_ID@ != HTTP_HEADER_SAMPLING_PRIORITY@,
{
    reveal_strlit("x-datadog-trace-id");
    reveal_strlit("x-datadog-parent-id");
    reveal_strlit("x-datadog-sampling-priority");
    assert(HTTP_HEADER_TRACE_ID@.len() == 18);
    assert(HTTP_HEADER_PARENT_ID@.len() == 19);
    assert(HTTP_HEADER_SAMPLING_PRIORITY@.len() == 27);
}

/// The flags of a sampled trace have bit 0 set, those of another have not.
pub proof fn lemma_sampled_flags(sampled: bool)
    ensures
        sampled_flags(sampled) & 1 == 1 <==> sampled,
{
    assert(1u8 & 1 == 1) by (bit_vector);
    assert(0u8 & 1 == 0) by (bit_vector);
}

/// What comes back when a valid context is written into any headers and read
/// from them again: the context with the low 64 bits of its trace id, its
/// span id and its sampling decision, marked as remote; or nothing, where
/// those 64 bits are all zero.
pub proof fn lemma_extract_injected(context: TraceContext, headers: Map<Seq<char>, Seq<char>>)
    requires
        context.valid(),
    ensures
        extracted(injected(context, headers)) == (if context.trace_id % 0x1_0000_0000_0000_0000
            == 0 {
            Err::<TraceContext, ExtractError>(ExtractError::InvalidSpanContext)
        } else {
            Ok(
                TraceContext {
                    trace_id: context.trace_id % 0x1_0000_0000_0000_0000,
                    span_id: context.span_id,
                    trace_flags: sampled_flags(context.sampled()),
                    is_remote: true,
                },
            )
        }),
{
    let low = (context.trace_id % 0x1_0000_0000_0000_0000) as nat;
    let priority: int = if context.sampled() {
        1
    } else {
        0
    };
    let written = injected(context, headers);
    lemma_header_names_differ();
    lemma_parse_unsigned_decimal(low, u64::MAX as nat);
    lemma_parse_unsigned_decimal(context.span_id as nat, u64::MAX as nat);
    lemma_parse_signed_decimal(priority, 0x8000_0000, 0x7fff_ffff);
    assert(header(written, HTTP_HEADER_TRACE_ID@) == decimal_nat(low));
    assert(header(written, HTTP_HEADER_PARENT_ID@) == decimal_nat(context.span_id as nat));
    assert(header(written, HTTP_HEADER_SAMPLING_PRIORITY@) == decimal_int(priority));
    assert(parse_u64_spec(decimal_nat(low)) == Some(low as u64));
    assert(parse_u64_spec(decimal_nat(context.span_id as nat)) == Some(context.span_id));
    assert(parse_i32_spec(decimal_int(priority)) == Some(priority as i32));
}

/// Writing a valid context whose trace id fits 64 bits and reading it again
/// gives the same trace id, the same span id and the same sampling decision,
/// whatever the headers held before.
pub proof fn lemma_inject_extract_round_trip(
    context: TraceContext,
    headers: Map<Seq<char>, Seq<char>>,
)
    requires
        context.valid(),
        context.trace_id <= u64::MAX,
    ensures
        extracted_context(injected(context, headers)).trace_id == context.trace_id,
        extracted_context(injected(context, headers)).span_id == context.span_id,
        extracted_context(injected(context, headers)).sampled() == context.sampled(),
        extracted_context(injected(context, headers)).valid(),
{
    lemma_extract_injected(context, headers);
    lemma_sampled_flags(context.sampled());
}

/// Headers that lack one of the three, or whose sampling priority is a
/// number other than -1, 0, 1 and 2, give the empty context.
pub proof fn lemma_extract_degrades(headers: Map<Seq<char>, Seq<char>>)
    requires
        !headers.contains_key(HTTP_HEADER_TRACE_ID@) || !headers.contains_key(
            HTTP_HEADER_PARENT_ID@,
        ) || !headers.contains_key(HTTP_HEADER_SAMPLING_PRIORITY@) || (parse_i32_spec(
            header(headers, HTTP_HEADER_SAMPLING_PRIORITY@),
        ) matches Some(v) && !(-1 <= v <= 2)),
    ensures
        extracted(headers) is Err,
        extracted_context(headers) == TraceContext::empty_context(),
{
}

/// Reads and writes the trace context in the headers that the Datadog agent
/// and its tracers use.
#[derive(Clone, Copy, Debug)]
pub struct DatadogPropagator {}

impl DatadogPropagator {
    /// Reads a trace id: an unsigned 64-bit number in decimal.
    pub fn extract_trace_id(&self, trace_id: &str) -> (r: Result<u128, ExtractError>)
        ensures
            r == match parse_u64_spec(trace_id@) {
                Some(id) => Ok::<u128, ExtractError>(id as u128),
                None => Err(ExtractError::InvalidTraceId),
            },
    {
        match parse_u64(trace_id) {
            Some(id) => Ok(id as u128),
            None => Err(ExtractError::InvalidTraceId),
        }
    }

    /// Reads a span id: an unsigned 64-bit number in decimal.
    pub fn extract_span_id(&self, span_id: &str) -> (r: Result<u64, ExtractError>)
        ensures
            r == match parse_u64_spec(span_id@) {
                Some(id) => Ok::<u64, ExtractError>(id),
                None => Err(ExtractError::InvalidSpanId),
            },
    {
        match parse_u64(span_id) {
            Some(id) => Ok(id),
            None => Err(ExtractError::InvalidSpanId),
        }
    }

    /// Reads a sampling priority: one of -1, 0, 1 and 2 in decimal.
    pub fn extract_sampling_priority(&self, sampling_priority: &str) -> (r: Result<
        SamplingPriority,
        ExtractError,
    >)
        ensures
            r == match priority_of(sampling_priority@) {
                Some(priority) => Ok::<SamplingPriority, ExtractError>(priority),
                None => Err(ExtractError::InvalidSamplingPriority),
            },
    {
        let i = match parse_i32(sampling_priority) {
            Some(i) => i,
            None => {
                return Err(ExtractError::InvalidSamplingPriority);
            },
        };
        match i {
            -1 => Ok(SamplingPriority::UserReject),
            0 => Ok(SamplingPriority::AutoReject),
            1 => Ok(SamplingPriority::AutoKeep),
            2 => Ok(SamplingPriority::UserKeep),
            _ => Err(ExtractError::InvalidSamplingPriority),
        }
    }

    /// Reads the trace context from the headers of `carrier`, or says why
    /// they hold none.
    pub fn try_extract(&self, carrier: &TextMap<String>) -> (r: Result<TraceContext, ExtractError>)
        ensures
            r == extracted(carrier.texts()),
    {
        let trace_id = match self.extract_trace_id(header_of(carrier, HTTP_HEADER_TRACE_ID)) {
            Ok(id) => id,
            Err(e) => {
                return Err(e);
            },
        };
        let span_id = match self.extract_span_id(header_of(carrier, HTTP_HEADER_PARENT_ID)) {
            Ok(id) => id,
            Err(e) => {
                return Err(e);
            },
        };
        let sampling_priority = match self.extract_sampling_priority(
            header_of(carrier, HTTP_HEADER_SAMPLING_PRIORITY),
        ) {
            Ok(priority) => priority,
            Err(e) => {
                return Err(e);
            },
        };
        let sampled: u8 = match sampling_priority {
            SamplingPriority::UserReject | SamplingPriority::AutoReject => 0,
            SamplingPriority::UserKeep | SamplingPriority::AutoKeep => trace_flag_sampled(),
        };
        let span_context = TraceContext::new(trace_id, span_id, sampled, true);
        if span_context.is_valid() {
            Ok(span_context)
        } else {
            Err(ExtractError::InvalidSpanContext)
        }
    }

    /// Reads the trace context from the headers of `carrier`. Where a header
    /// is missing or malformed, or an id is zero, the empty context comes
    /// back: no carrier makes this fail.
    pub fn extract(&self, carrier: &TextMap<String>) -> (context: TraceContext)
        ensures
            context == extracted_context(carrier.texts()),
    {
        match self.try_extract(carrier) {
            Ok(context) => context,
            Err(_) => TraceContext::empty(),
        }
    }

    /// Writes `context` into the headers of `carrier`; a context that is not
    /// valid leaves the carrier as it is.
    pub fn inject(&self, context: &TraceContext, carrier: &mut TextMap<String>)
        ensures
            final(carrier).texts() == injected(*context, old(carrier).texts()),
    {
        if context.is_valid() {
            let ghost before = carrier.texts();
            let trace_id = (context.trace_id % 0x1_0000_0000_0000_0000) as u64;
            carrier.insert(HTTP_HEADER_TRACE_ID.to_owned(), format_u64(trace_id));
            carrier.insert(HTTP_HEADER_PARENT_ID.to_owned(), format_u64(context.span_id));
            let sampling_priority = if context.is_sampled() {
                SamplingPriority::AutoKeep
            } else {
                SamplingPriority::AutoReject
            };
            carrier.insert(
                HTTP_HEADER_SAMPLING_PRIORITY.to_owned(),
                format_i64(sampling_priority.to_i32() as i64),
            );
            assert(carrier.texts() =~= injected(*context, before));
        }
    }
}

/// The text of header `name` in `carrier`; a header that is missing reads as
/// the empty text.
fn header_of<'a>(carrier: &'a TextMap<String>, name: &str) -> (text: &'a str)
    ensures
        text@ == header(carrier.texts(), name@),
{
    proof {
        reveal_strlit("");
    }
    match carrier.get(name) {
        Some(value) => value.as_str(),
        None => "",
    }
}

} // verus!
