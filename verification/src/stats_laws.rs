//! Laws of the statistics: every call and every token is counted once.

use vstd::prelude::*;
use vstd::string::*;

use crate::llm_stats::{
    audio_of, cache_write_of, cached_of, has_room, model_index, ms64, reasoning_of, records_totals,
    total_input, totals_of, with_model_record, with_record, CallStatus, LlmCallRecord, ModelTotals,
    PerModel,
};

verus! {

/// A call adds its tokens to the totals, each to one sum: the input sums together grow by
/// the prompt, the output sums by the completion, and what the cache held, what was
/// written to it, what was sound and what was reasoning are counted apart.
pub proof fn every_token_is_counted_once(t: ModelTotals, rec: LlmCallRecord, tool_calls: usize)
    requires
        has_room(t, rec, tool_calls),
        cached_of(rec.usage) + cache_write_of(rec.usage) + audio_of(rec.usage)
            <= rec.usage.prompt_tokens,
        reasoning_of(rec.usage) <= rec.usage.completion_tokens,
    ensures
        ({
            let out = with_record(t, rec, tool_calls);
            &&& total_input(out) == total_input(t) + rec.usage.prompt_tokens
            &&& out.out_normal + out.out_reasoning == t.out_normal + t.out_reasoning
                + rec.usage.completion_tokens
            &&& rec.usage.prompt_tokens_details is Some ==> {
                let d = rec.usage.prompt_tokens_details->0;
                &&& out.in_cached == t.in_cached + d.cached_tokens
                &&& out.in_cache_write == t.in_cache_write + d.cache_creation_tokens
                &&& out.in_audio == t.in_audio + d.audio_tokens
            }
            &&& rec.usage.prompt_tokens_details is None ==> out.in_normal == t.in_normal
                + rec.usage.prompt_tokens && out.in_cached == t.in_cached
            &&& rec.usage.completion_tokens_details is Some ==> out.out_reasoning == t.out_reasoning
                + rec.usage.completion_tokens_details->0.reasoning_tokens
            &&& rec.usage.completion_tokens_details is None ==> out.out_normal == t.out_normal
                + rec.usage.completion_tokens
        }),
{
}

/// A call is one call, a failed one an error and an empty one an empty response; its
/// tools and its time are added up.
pub proof fn every_call_is_counted_once(t: ModelTotals, rec: LlmCallRecord, tool_calls: usize)
    requires
        has_room(t, rec, tool_calls),
        rec.latency_ms <= u64::MAX,
        rec.ttft_ms <= u64::MAX,
    ensures
        ({
            let out = with_record(t, rec, tool_calls);
            &&& out.calls == t.calls + 1
            &&& out.errors - t.errors == if rec.status == CallStatus::HttpError {
                1int
            } else {
                0int
            }
            &&& out.empties - t.empties == if rec.status == CallStatus::Empty {
                1int
            } else {
                0int
            }
            &&& out.tool_calls == t.tool_calls + tool_calls
            &&& out.llm_ms_total == t.llm_ms_total + rec.latency_ms
            &&& out.ttft_ms_total == t.ttft_ms_total + rec.ttft_ms
        }),
{
    assert(rec.latency_ms as int % 0x1_0000_0000_0000_0000 == rec.latency_ms);
    assert(rec.ttft_ms as int % 0x1_0000_0000_0000_0000 == rec.ttft_ms);
}

/// The shortest and the longest time are those of calls, and no call was shorter or
/// longer.
pub proof fn times_lie_between_the_extremes(records: Seq<LlmCallRecord>, n: int, i: int)
    requires
        0 <= i < n <= records.len(),
        n <= u64::MAX,
    ensures
        ({
            let t = records_totals(records, n);
            &&& t.calls == n
            &&& t.llm_ms_min <= ms64(records[i].latency_ms) <= t.llm_ms_max
            &&& exists|k: int|
                0 <= k < n && t.llm_ms_min == ms64((#[trigger] records[k]).latency_ms)
        }),
    decreases n,
{
    let before = records_totals(records, n - 1);
    let last = records[n - 1];
    let t = records_totals(records, n);
    assert(0 <= ms64(last.latency_ms) <= u64::MAX);
    if n > 1 {
        times_lie_between_the_extremes(
            records,
            n - 1,
            if i < n - 1 {
                i
            } else {
                0
            },
        );
        let k = choose|k: int|
            0 <= k < n - 1 && before.llm_ms_min == ms64((#[trigger] records[k]).latency_ms);
        if t.llm_ms_min == before.llm_ms_min {
            assert(t.llm_ms_min == ms64(records[k].latency_ms));
        } else {
            assert(t.llm_ms_min == ms64(records[n - 1].latency_ms));
        }
    } else {
        assert(t.llm_ms_min == ms64(records[n - 1].latency_ms));
    }
}

proof fn lemma_index(m: PerModel, name: Seq<char>, i: int)
    requires
        0 <= i <= m.len(),
    ensures
        i <= model_index(m, name, i) <= m.len(),
        model_index(m, name, i) < m.len() ==> m[model_index(m, name, i)].0 == name,
        forall|k: int| i <= k < model_index(m, name, i) ==> (#[trigger] m[k]).0 != name,
    decreases m.len() - i,
{
    if i < m.len() && m[i].0 != name {
        lemma_index(m, name, i + 1);
    }
}

proof fn lemma_index_is(m: PerModel, name: Seq<char>, i: int, at: int)
    requires
        0 <= i <= at <= m.len(),
        forall|k: int| i <= k < at ==> (#[trigger] m[k]).0 != name,
        at < m.len() ==> m[at].0 == name,
    ensures
        model_index(m, name, i) == at,
    decreases at - i,
{
    if i < at {
        assert(m[i].0 != name);
        lemma_index_is(m, name, i + 1, at);
    }
}

/// A call counts for its own model and for no other.
pub proof fn calls_count_for_their_model(
    m: PerModel,
    rec: LlmCallRecord,
    tool_calls: usize,
    other: Seq<char>,
)
    requires
        other != rec.model@,
    ensures
        totals_of(with_model_record(m, rec, tool_calls), rec.model@) == with_record(
            totals_of(m, rec.model@),
            rec,
            tool_calls,
        ),
        totals_of(with_model_record(m, rec, tool_calls), other) == totals_of(m, other),
{
    let out = with_model_record(m, rec, tool_calls);
    lemma_index(m, rec.model@, 0);
    lemma_index(m, other, 0);
    let i = model_index(m, rec.model@, 0);
    let o = model_index(m, other, 0);
    if i < m.len() {
        assert forall|k: int| 0 <= k < i implies (#[trigger] out[k]).0 != rec.model@ by {
            assert(out[k] == m[k]);
        }
        lemma_index_is(out, rec.model@, 0, i);
        assert forall|k: int| 0 <= k < o implies (#[trigger] out[k]).0 != other by {
            if k != i {
                assert(out[k] == m[k]);
            }
        }
        lemma_index_is(out, other, 0, o);
    } else {
        assert forall|k: int| 0 <= k < m.len() implies (#[trigger] out[k]).0 != rec.model@ by {
            assert(out[k] == m[k]);
        }
        lemma_index_is(out, rec.model@, 0, m.len() as int);
        assert forall|k: int| 0 <= k < o implies (#[trigger] out[k]).0 != other by {
            assert(out[k] == m[k]);
        }
        if o < m.len() {
            lemma_index_is(out, other, 0, o);
        } else {
            lemma_index_is(out, other, 0, out.len() as int);
        }
    }
}

} // verus!
