//! The data that passes through an export: the span records that come in and
//! the spans, traces and batches that go out.

pub mod record;
pub mod span;
