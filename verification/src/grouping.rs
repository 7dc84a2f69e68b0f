//! Grouping of the spans of one export call by the trace they belong to.

use crate::model::span::{Batch, PartialTrace, Span, SpanView};
use std::collections::HashMap;
use vstd::prelude::*;

verus! {

/// The trace ids that occur among `spans`, each once, in the order in which
/// they first occur.
pub open spec fn trace_ids(spans: Seq<SpanView>) -> Seq<u64>
    decreases spans.len(),
{
    if spans.len() == 0 {
        Seq::empty()
    } else {
        let earlier = trace_ids(spans.drop_last());
        if earlier.contains(spans.last().trace_id) {
            earlier
        } else {
            earlier.push(spans.last().trace_id)
        }
    }
}

/// The spans of trace `id` among `spans`, in the order in which they stand
/// there.
pub open spec fn spans_of(spans: Seq<SpanView>, id: u64) -> Seq<SpanView>
    decreases spans.len(),
{
    if spans.len() == 0 {
        Seq::empty()
    } else if spans.last().trace_id == id {
        spans_of(spans.drop_last(), id).push(spans.last())
    } else {
        spans_of(spans.drop_last(), id)
    }
}

/// The spans grouped by trace: one group for each trace id, in the order of
/// `trace_ids`, each with the spans of that trace.
pub open spec fn grouped(spans: Seq<SpanView>) -> Seq<Seq<SpanView>> {
    Seq::new(trace_ids(spans).len(), |i: int| spans_of(spans, trace_ids(spans)[i]))
}

/// The number of spans in all of `groups`.
pub open spec fn total_len(groups: Seq<Seq<SpanView>>) -> nat
    decreases groups.len(),
{
    if groups.len() == 0 {
        0
    } else {
        total_len(groups.drop_last()) + groups.last().len()
    }
}

/// The views of `spans`, in the same order.
pub open spec fn views_of(spans: Seq<Span>) -> Seq<SpanView> {
    Seq::new(spans.len(), |i: int| spans[i]@)
}

impl View for PartialTrace {
    type V = Seq<SpanView>;

    open spec fn view(&self) -> Seq<SpanView> {
        views_of(self.0@)
    }
}

impl View for Batch {
    type V = Seq<Seq<SpanView>>;

    open spec fn view(&self) -> Seq<Seq<SpanView>> {
        Seq::new(self.0@.len(), |i: int| self.0@[i]@)
    }
}

/// Whether one of `spans` belongs to trace `id`.
pub open spec fn carries(spans: Seq<SpanView>, id: u64) -> bool {
    exists|i: int| 0 <= i < spans.len() && (#[trigger] spans[i]).trace_id == id
}

/// No trace id is listed twice, every span's id is listed, and every id
/// listed is that of a span.
pub proof fn lemma_trace_ids(spans: Seq<SpanView>)
    ensures
        trace_ids(spans).no_duplicates(),
        forall|i: int|
            0 <= i < spans.len() ==> trace_ids(spans).contains((#[trigger] spans[i]).trace_id),
        forall|j: int|
            0 <= j < trace_ids(spans).len() ==> carries(spans, #[trigger] trace_ids(spans)[j]),
    decreases spans.len(),
{
    if spans.len() > 0 {
        let rest = spans.drop_last();
        let last = spans.last().trace_id;
        lemma_trace_ids(rest);
        let earlier = trace_ids(rest);
        let ids = trace_ids(spans);
        assert(forall|j: int| 0 <= j < earlier.len() ==> ids[j] == earlier[j]);
        assert forall|i: int| 0 <= i < spans.len() implies ids.contains(
            (#[trigger] spans[i]).trace_id,
        ) by {
            if i < rest.len() {
                assert(rest[i] == spans[i]);
                let j = earlier.index_of(rest[i].trace_id);
                assert(ids[j] == spans[i].trace_id);
            } else {
                if earlier.contains(last) {
                    let j = earlier.index_of(last);
                    assert(ids[j] == last);
                } else {
                    assert(ids[earlier.len() as int] == last);
                }
            }
        }
        assert forall|j: int| 0 <= j < ids.len() implies carries(spans, #[trigger] ids[j]) by {
            if j < earlier.len() {
                let i = choose|i: int|
                    0 <= i < rest.len() && (#[trigger] rest[i]).trace_id == earlier[j];
                assert(spans[i].trace_id == ids[j]);
            } else {
                assert(spans[spans.len() - 1].trace_id == ids[j]);
            }
        }
    }
}

/// The spans of a trace all carry its id, and are as many as the spans that
/// carry it.
pub proof fn lemma_spans_of(spans: Seq<SpanView>, id: u64)
    ensures
        forall|i: int| 0 <= i < spans_of(spans, id).len() ==> (#[trigger] spans_of(spans, id)[i]).trace_id == id,
        spans_of(spans, id).len() <= spans.len(),
        spans_of(spans, id).len() == 0 <==> forall|i: int|
            0 <= i < spans.len() ==> (#[trigger] spans[i]).trace_id != id,
    decreases spans.len(),
{
    if spans.len() > 0 {
        let rest = spans.drop_last();
        lemma_spans_of(rest, id);
        if spans_of(spans, id).len() == 0 {
            assert forall|i: int| 0 <= i < spans.len() implies (#[trigger] spans[i]).trace_id
                != id by {
                if i < rest.len() {
                    assert(rest[i].trace_id != id);
                }
            }
        } else {
            if spans.last().trace_id != id {
                let i = choose|i: int| 0 <= i < rest.len() && (#[trigger] rest[i]).trace_id == id;
                assert(spans[i].trace_id == id);
            }
        }
    }
}

/// Putting another sequence in the place of one group changes the total by
/// the difference of the two lengths.
proof fn lemma_total_len_update(groups: Seq<Seq<SpanView>>, at: int, group: Seq<SpanView>)
    requires
        0 <= at < groups.len(),
    ensures
        total_len(groups.update(at, group)) == total_len(groups) - groups[at].len() + group.len(),
    decreases groups.len(),
{
    let updated = groups.update(at, group);
    if at == groups.len() - 1 {
        assert(updated.drop_last() =~= groups.drop_last());
    } else {
        lemma_total_len_update(groups.drop_last(), at, group);
        assert(updated.drop_last() =~= groups.drop_last().update(at, group));
    }
}

/// What one more span does to the groups: it joins the group of its trace, or
/// opens a new last group where its trace has none yet.
pub proof fn lemma_grouped_push(spans: Seq<SpanView>, span: SpanView)
    ensures
        trace_ids(spans).contains(span.trace_id) ==> grouped(spans.push(span)) == grouped(
            spans,
        ).update(
            trace_ids(spans).index_of(span.trace_id),
            spans_of(spans, span.trace_id).push(span),
        ),
        !trace_ids(spans).contains(span.trace_id) ==> grouped(spans.push(span)) == grouped(
            spans,
        ).push(seq![span]),
{
    let next = spans.push(span);
    let ids = trace_ids(spans);
    let id = span.trace_id;
    assert(next.drop_last() =~= spans);
    lemma_trace_ids(spans);
    lemma_spans_of(spans, id);
    if ids.contains(id) {
        let at = ids.index_of(id);
        assert(trace_ids(next) == ids);
        assert(grouped(next) =~= grouped(spans).update(at, spans_of(spans, id).push(span)));
    } else {
        assert(trace_ids(next) == ids.push(id));
        assert forall|i: int| 0 <= i < spans.len() implies (#[trigger] spans[i]).trace_id != id by {
            assert(ids.contains(spans[i].trace_id));
        }
        assert(spans_of(next, id) =~= seq![span]);
        assert forall|j: int| 0 <= j < ids.len() implies ids[j] != id by {
            assert(ids.contains(ids[j]));
        }
        assert(grouped(next) =~= grouped(spans).push(seq![span]));
    }
}

/// Grouping loses no span and makes none: the groups together hold as many
/// spans as came in.
pub proof fn lemma_grouping_conserves(spans: Seq<SpanView>)
    ensures
        total_len(grouped(spans)) == spans.len(),
    decreases spans.len(),
{
    if spans.len() == 0 {
        assert(grouped(spans) =~= Seq::<Seq<SpanView>>::empty());
    } else {
        let rest = spans.drop_last();
        let span = spans.last();
        lemma_grouping_conserves(rest);
        lemma_grouped_push(rest, span);
        assert(rest.push(span) =~= spans);
        let ids = trace_ids(rest);
        if ids.contains(span.trace_id) {
            let at = ids.index_of(span.trace_id);
            lemma_total_len_update(grouped(rest), at, spans_of(rest, span.trace_id).push(span));
        } else {
            assert(grouped(rest).push(seq![span]).drop_last() =~= grouped(rest));
        }
    }
}

/// Every group holds spans of one trace only, no two groups are of the same
/// trace, and every span that came in stands in the group of its trace.
pub proof fn lemma_grouping_by_trace(spans: Seq<SpanView>)
    ensures
        grouped(spans).len() == trace_ids(spans).len(),
        trace_ids(spans).no_duplicates(),
        forall|i: int, j: int|
            0 <= i < grouped(spans).len() && 0 <= j < grouped(spans)[i].len() ==> (
            #[trigger] grouped(spans)[i][j]).trace_id == trace_ids(spans)[i],
        forall|k: int|
            0 <= k < spans.len() ==> {
                &&& trace_ids(spans).contains((#[trigger] spans[k]).trace_id)
                &&& grouped(spans)[trace_ids(spans).index_of(spans[k].trace_id)].contains(spans[k])
            },
{
    lemma_trace_ids(spans);
    assert forall|i: int, j: int|
        0 <= i < grouped(spans).len() && 0 <= j < grouped(spans)[i].len() implies (
    #[trigger] grouped(spans)[i][j]).trace_id == trace_ids(spans)[i] by {
        lemma_spans_of(spans, trace_ids(spans)[i]);
    }
    assert forall|k: int| 0 <= k < spans.len() implies {
        &&& trace_ids(spans).contains((#[trigger] spans[k]).trace_id)
        &&& grouped(spans)[trace_ids(spans).index_of(spans[k].trace_id)].contains(spans[k])
    } by {
        lemma_spans_of_holds(spans, k);
    }
}

/// A span stands among the spans of its own trace.
proof fn lemma_spans_of_holds(spans: Seq<SpanView>, k: int)
    requires
        0 <= k < spans.len(),
    ensures
        spans_of(spans, spans[k].trace_id).contains(spans[k]),
    decreases spans.len(),
{
    let id = spans[k].trace_id;
    let rest = spans.drop_last();
    if k == spans.len() - 1 {
        let found = spans_of(spans, id);
        assert(found[found.len() - 1] == spans[k]);
    } else {
        lemma_spans_of_holds(rest, k);
        let earlier = spans_of(rest, id);
        let at = earlier.index_of(rest[k]);
        assert(spans_of(spans, id)[at] == spans[k]);
    }
}

/// Groups the spans of one export call by trace. Each trace that occurs gets
/// one partial trace, in the order in which the traces first occur; each
/// partial trace holds the spans of its trace in the order in which they
/// arrived.
pub fn group_by_trace(spans: Vec<Span>) -> (batch: Batch)
    ensures
        batch@ == grouped(views_of(spans@)),
{
    broadcast use vstd::std_specs::hash::group_hash_axioms;

    let ghost all = views_of(spans@);
    let mut index: HashMap<u64, usize> = HashMap::new();
    let mut traces: Vec<PartialTrace> = Vec::new();
    for span in it: spans.into_iter()
        invariant
            it.seq() == spans@,
            all == views_of(spans@),
            traces@.len() == trace_ids(all.subrange(0, it.index())).len(),
            forall|j: int|
                0 <= j < traces@.len() ==> (#[trigger] traces@[j])@ == spans_of(
                    all.subrange(0, it.index()),
                    trace_ids(all.subrange(0, it.index()))[j],
                ),
            forall|id: u64|
                index@.contains_key(id) <==> trace_ids(all.subrange(0, it.index())).contains(id),
            forall|id: u64|
                index@.contains_key(id) ==> 0 <= (#[trigger] index@[id]) < traces@.len()
                    && trace_ids(all.subrange(0, it.index()))[index@[id] as int] == id,
    {
        let ghost seen = all.subrange(0, it.index());
        let ghost next = all.subrange(0, it.index() + 1);
        let ghost ids = trace_ids(seen);
        let ghost before = traces@;
        proof {
            assert(next.drop_last() =~= seen);
            assert(next.last() == span@);
            lemma_trace_ids(seen);
            lemma_spans_of(seen, span.trace_id);
        }
        let id = span.trace_id;
        match index.get(&id) {
            Some(at) => {
                let at = *at;
                traces[at].0.push(span);
                proof {
                    assert(trace_ids(next) == ids);
                    assert(traces@[at as int]@ =~= before[at as int]@.push(span@));
                    assert forall|j: int| 0 <= j < traces@.len() implies (#[trigger] traces@[j])@
                        == spans_of(next, trace_ids(next)[j]) by {
                        if j != at {
                            assert(traces@[j] == before[j]);
                            assert(ids[j] != id);
                        }
                    }
                }
            },
            None => {
                index.insert(id, traces.len());
                let mut members: Vec<Span> = Vec::new();
                members.push(span);
                traces.push(PartialTrace(members));
                proof {
                    assert(trace_ids(next) == ids.push(id));
                    assert(spans_of(seen, id).len() == 0) by {
                        assert forall|i: int| 0 <= i < seen.len() implies (#[trigger] seen[i]).trace_id
                            != id by {
                            assert(ids.contains(seen[i].trace_id));
                        }
                    }
                    assert(views_of(members@) =~= spans_of(next, id));
                    assert forall|j: int| 0 <= j < traces@.len() implies (#[trigger] traces@[j])@
                        == spans_of(next, trace_ids(next)[j]) by {
                        if j < before.len() {
                            assert(traces@[j] == before[j]);
                            assert(ids.contains(ids[j]));
                        }
                    }
                    assert forall|other: u64|
                        index@.contains_key(other) <==> trace_ids(next).contains(other) by {
                        if ids.contains(other) {
                            let j = ids.index_of(other);
                            assert(trace_ids(next)[j] == other);
                        }
                        if other == id {
                            assert(trace_ids(next)[ids.len() as int] == other);
                        }
                    }
                }
            },
        }
    }
    let batch = Batch(traces);
    proof {
        assert(all.subrange(0, all.len() as int) =~= all);
        assert(batch@ =~= grouped(all));
    }
    batch
}

} // verus!
