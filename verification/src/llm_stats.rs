//! Resource usage: records of single calls, totals and their display.
//!
//! Adds call records up into totals per model and for the session, and formats
//! the `[Tokens]` line. Tool executions are counted, not recorded.

use vstd::prelude::*;
use vstd::string::*;

use crate::compat_provider::LlmProvider;
use crate::float_text::{double_quotient, duration, fmt_duration, one_decimal, quotient_text};
use crate::model::Usage;
use crate::text::{decimal, str_eq, u64_text};

verus! {

/// Outcome of a single call.
#[derive(Debug, Clone, Copy, PartialEq, Eq, Structural)]
pub enum CallStatus {
    /// Content or tool calls, or both.
    Success,
    /// Neither content nor tool calls.
    Empty,
    /// The call failed.
    HttpError,
}

impl Default for CallStatus {
    fn default() -> (r: CallStatus)
        ensures
            r == CallStatus::Success,
    {
        CallStatus::Success
    }
}

/// One call: the unit of resource accounting.
#[derive(Debug, PartialEq, Eq)]
pub struct LlmCallRecord {
    /// Seconds since the Unix epoch.
    pub timestamp: i64,
    pub model: String,
    pub provider: LlmProvider,
    /// Context of the call, such as `main` or `todo:task:3`.
    pub call_label: String,
    pub usage: Usage,
    /// Time from sending the request to the end of the stream.
    pub latency_ms: u128,
    /// Time to the first received chunk.
    pub ttft_ms: u128,
    /// Bytes of the request.
    pub request_bytes: usize,
    /// Bytes of the response.
    pub response_bytes: usize,
    /// Consecutive empty responses before this call.
    pub retry_count: u32,
    pub status: CallStatus,
}

/// Sizes and times of one request.
#[derive(Debug, Clone, Copy, PartialEq, Eq, Structural)]
pub struct LlmRequestInfo {
    pub latency_ms: u128,
    pub ttft_ms: u128,
    pub request_bytes: usize,
    pub response_bytes: usize,
}

/// Totals of resource usage, of one model or of the session.
#[derive(Debug, Clone, Copy, PartialEq, Eq, Structural)]
pub struct ModelTotals {
    /// Billable input: prompt without cached, cache-written and audio tokens.
    pub in_normal: u64,
    /// Input read from the cache.
    pub in_cached: u64,
    /// Input written to the cache.
    pub in_cache_write: u64,
    pub in_audio: u64,
    /// Output without reasoning.
    pub out_normal: u64,
    pub out_reasoning: u64,
    pub calls: u64,
    pub errors: u64,
    pub empties: u64,
    /// Tool calls requested by the model.
    pub tool_calls: u64,
    pub llm_ms_total: u64,
    pub llm_ms_min: u64,
    pub llm_ms_max: u64,
    pub ttft_ms_total: u64,
}

/// Totals of nothing.
pub open spec fn no_totals() -> ModelTotals {
    ModelTotals {
        in_normal: 0,
        in_cached: 0,
        in_cache_write: 0,
        in_audio: 0,
        out_normal: 0,
        out_reasoning: 0,
        calls: 0,
        errors: 0,
        empties: 0,
        tool_calls: 0,
        llm_ms_total: 0,
        llm_ms_min: 0,
        llm_ms_max: 0,
        ttft_ms_total: 0,
    }
}

impl Default for ModelTotals {
    fn default() -> (r: ModelTotals)
        ensures
            r == no_totals(),
    {
        ModelTotals {
            in_normal: 0,
            in_cached: 0,
            in_cache_write: 0,
            in_audio: 0,
            out_normal: 0,
            out_reasoning: 0,
            calls: 0,
            errors: 0,
            empties: 0,
            tool_calls: 0,
            llm_ms_total: 0,
            llm_ms_min: 0,
            llm_ms_max: 0,
            ttft_ms_total: 0,
        }
    }
}

/// What is left of `a` after `b`, at least nothing.
pub open spec fn less(a: int, b: int) -> int {
    if a > b {
        a - b
    } else {
        0
    }
}

pub open spec fn cached_of(u: Usage) -> int {
    match u.prompt_tokens_details {
        Some(d) => d.cached_tokens as int,
        None => 0,
    }
}

pub open spec fn cache_write_of(u: Usage) -> int {
    match u.prompt_tokens_details {
        Some(d) => d.cache_creation_tokens as int,
        None => 0,
    }
}

pub open spec fn audio_of(u: Usage) -> int {
    match u.prompt_tokens_details {
        Some(d) => d.audio_tokens as int,
        None => 0,
    }
}

pub open spec fn reasoning_of(u: Usage) -> int {
    match u.completion_tokens_details {
        Some(d) => d.reasoning_tokens as int,
        None => 0,
    }
}

/// The input tokens of a call that are billed at the normal rate.
pub open spec fn normal_input(u: Usage) -> int {
    less(u.prompt_tokens as int, cached_of(u) + cache_write_of(u) + audio_of(u))
}

/// A duration in 64 bits.
pub open spec fn ms64(ms: u128) -> int {
    ms as int % 0x1_0000_0000_0000_0000
}

/// Whether the totals have room for one more call.
pub open spec fn has_room(t: ModelTotals, rec: LlmCallRecord, tool_calls: usize) -> bool {
    &&& t.in_normal + normal_input(rec.usage) <= u64::MAX
    &&& t.in_cached + cached_of(rec.usage) <= u64::MAX
    &&& t.in_cache_write + cache_write_of(rec.usage) <= u64::MAX
    &&& t.in_audio + audio_of(rec.usage) <= u64::MAX
    &&& t.out_normal + less(rec.usage.completion_tokens as int, reasoning_of(rec.usage))
        <= u64::MAX
    &&& t.out_reasoning + reasoning_of(rec.usage) <= u64::MAX
    &&& t.calls < u64::MAX
    &&& t.errors < u64::MAX
    &&& t.empties < u64::MAX
    &&& t.tool_calls + tool_calls <= u64::MAX
    &&& t.llm_ms_total + ms64(rec.latency_ms) <= u64::MAX
    &&& t.ttft_ms_total + ms64(rec.ttft_ms) <= u64::MAX
}

/// The totals with one more call. The shortest duration is that of the first
/// call until a shorter one comes.
pub open spec fn with_record(t: ModelTotals, rec: LlmCallRecord, tool_calls: usize) -> ModelTotals {
    let u = rec.usage;
    let ms = ms64(rec.latency_ms);
    ModelTotals {
        in_normal: (t.in_normal + normal_input(u)) as u64,
        in_cached: (t.in_cached + cached_of(u)) as u64,
        in_cache_write: (t.in_cache_write + cache_write_of(u)) as u64,
        in_audio: (t.in_audio + audio_of(u)) as u64,
        out_normal: (t.out_normal + less(u.completion_tokens as int, reasoning_of(u))) as u64,
        out_reasoning: (t.out_reasoning + reasoning_of(u)) as u64,
        calls: (t.calls + 1) as u64,
        errors: if rec.status == CallStatus::HttpError {
            (t.errors + 1) as u64
        } else {
            t.errors
        },
        empties: if rec.status == CallStatus::Empty {
            (t.empties + 1) as u64
        } else {
            t.empties
        },
        tool_calls: (t.tool_calls + tool_calls) as u64,
        llm_ms_total: (t.llm_ms_total + ms) as u64,
        llm_ms_min: if t.calls == 0 || ms < t.llm_ms_min {
            ms as u64
        } else {
            t.llm_ms_min
        },
        llm_ms_max: if ms > t.llm_ms_max {
            ms as u64
        } else {
            t.llm_ms_max
        },
        ttft_ms_total: (t.ttft_ms_total + ms64(rec.ttft_ms)) as u64,
    }
}

fn low64(ms: u128) -> (r: u64)
    ensures
        r == ms64(ms),
{
    (ms % 0x1_0000_0000_0000_0000) as u64
}

impl ModelTotals {
    /// Whether one more call can be added without exceeding 64 bits.
    pub fn fits(&self, rec: &LlmCallRecord, tool_call_count: usize) -> (r: bool)
        ensures
            r == has_room(*self, *rec, tool_call_count),
    {
        let (cached, cache_write, audio): (u64, u64, u64) = match rec.usage.prompt_tokens_details {
            Some(d) => (
                d.cached_tokens as u64,
                d.cache_creation_tokens as u64,
                d.audio_tokens as u64,
            ),
            None => (0, 0, 0),
        };
        let reasoning: u64 = match rec.usage.completion_tokens_details {
            Some(d) => d.reasoning_tokens as u64,
            None => 0,
        };
        let normal: u64 = (rec.usage.prompt_tokens as u64).saturating_sub(
            cached + cache_write + audio,
        );
        let out: u64 = (rec.usage.completion_tokens as u64).saturating_sub(reasoning);
        self.in_normal.checked_add(normal).is_some() && self.in_cached.checked_add(cached).is_some()
            && self.in_cache_write.checked_add(cache_write).is_some() && self.in_audio.checked_add(
            audio,
        ).is_some() && self.out_normal.checked_add(out).is_some()
            && self.out_reasoning.checked_add(reasoning).is_some() && self.calls < u64::MAX
            && self.errors < u64::MAX && self.empties < u64::MAX && self.tool_calls.checked_add(
            tool_call_count as u64,
        ).is_some() && self.llm_ms_total.checked_add(low64(rec.latency_ms)).is_some()
            && self.ttft_ms_total.checked_add(low64(rec.ttft_ms)).is_some()
    }

    /// Adds one call, with the number of tools that it asked for.
    pub fn accumulate(&mut self, rec: &LlmCallRecord, tool_call_count: usize)
        requires
            has_room(*old(self), *rec, tool_call_count),
        ensures
            *final(self) == with_record(*old(self), *rec, tool_call_count),
    {
        let (cached, cache_write, audio): (u64, u64, u64) = match rec.usage.prompt_tokens_details {
            Some(d) => (
                d.cached_tokens as u64,
                d.cache_creation_tokens as u64,
                d.audio_tokens as u64,
            ),
            None => (0, 0, 0),
        };
        let prompt: u64 = rec.usage.prompt_tokens as u64;
        let completion: u64 = rec.usage.completion_tokens as u64;
        let reasoning: u64 = match rec.usage.completion_tokens_details {
            Some(d) => d.reasoning_tokens as u64,
            None => 0,
        };
        self.in_normal = self.in_normal + prompt.saturating_sub(cached + cache_write + audio);
        self.in_cached = self.in_cached + cached;
        self.in_cache_write = self.in_cache_write + cache_write;
        self.in_audio = self.in_audio + audio;
        self.out_normal = self.out_normal + completion.saturating_sub(reasoning);
        self.out_reasoning = self.out_reasoning + reasoning;
        self.calls = self.calls + 1;
        match rec.status {
            CallStatus::Success => {},
            CallStatus::Empty => {
                self.empties = self.empties + 1;
            },
            CallStatus::HttpError => {
                self.errors = self.errors + 1;
            },
        }
        self.tool_calls = self.tool_calls + tool_call_count as u64;
        let ms: u64 = low64(rec.latency_ms);
        self.llm_ms_total = self.llm_ms_total + ms;
        if self.calls == 1 || ms < self.llm_ms_min {
            self.llm_ms_min = ms;
        }
        if ms > self.llm_ms_max {
            self.llm_ms_max = ms;
        }
        self.ttft_ms_total = self.ttft_ms_total + low64(rec.ttft_ms);
    }
}

// ---------------------------------------------------------------------------
// Metrics
// ---------------------------------------------------------------------------

/// Cap on the log of single calls; the oldest are dropped.
pub const MAX_CALL_RECORDS: usize = 5000;

/// Aggregation over a session. The log of calls is capped; the totals always
/// span every call.
#[derive(Debug, PartialEq, Eq)]
pub struct Metrics {
    pub calls: Vec<LlmCallRecord>,
    /// Totals per model, in the order in which the models came up.
    pub by_model: Vec<(String, ModelTotals)>,
    pub totals: ModelTotals,
}

/// Totals per model.
pub type PerModel = Seq<(Seq<char>, ModelTotals)>;

pub open spec fn per_model(v: Seq<(String, ModelTotals)>) -> PerModel {
    v.map_values(|p: (String, ModelTotals)| (p.0@, p.1))
}

/// Position of a model at or after `i`, or the number of models.
pub open spec fn model_index(m: PerModel, name: Seq<char>, i: int) -> int
    decreases m.len() - i,
{
    if i < 0 || i >= m.len() {
        m.len() as int
    } else if m[i].0 == name {
        i
    } else {
        model_index(m, name, i + 1)
    }
}

/// The totals of a model; nothing for a model that has not come up.
pub open spec fn totals_of(m: PerModel, name: Seq<char>) -> ModelTotals {
    let i = model_index(m, name, 0);
    if 0 <= i < m.len() {
        m[i].1
    } else {
        no_totals()
    }
}

/// The totals per model with one more call.
pub open spec fn with_model_record(m: PerModel, rec: LlmCallRecord, tool_calls: usize) -> PerModel {
    let i = model_index(m, rec.model@, 0);
    let t = with_record(totals_of(m, rec.model@), rec, tool_calls);
    if 0 <= i < m.len() {
        m.update(i, (rec.model@, t))
    } else {
        m.push((rec.model@, t))
    }
}

/// The last records, at most [`MAX_CALL_RECORDS`] of them.
pub open spec fn capped(calls: Seq<LlmCallRecord>) -> Seq<LlmCallRecord> {
    if calls.len() <= MAX_CALL_RECORDS {
        calls
    } else {
        calls.skip(calls.len() - MAX_CALL_RECORDS)
    }
}

/// Whether every sum in `a` is at most that in `b`.
pub open spec fn within(a: ModelTotals, b: ModelTotals) -> bool {
    &&& a.in_normal <= b.in_normal
    &&& a.in_cached <= b.in_cached
    &&& a.in_cache_write <= b.in_cache_write
    &&& a.in_audio <= b.in_audio
    &&& a.out_normal <= b.out_normal
    &&& a.out_reasoning <= b.out_reasoning
    &&& a.calls <= b.calls
    &&& a.errors <= b.errors
    &&& a.empties <= b.empties
    &&& a.tool_calls <= b.tool_calls
    &&& a.llm_ms_total <= b.llm_ms_total
    &&& a.ttft_ms_total <= b.ttft_ms_total
}

impl Metrics {
    /// No model has two totals, and no total exceeds that of the session.
    pub open spec fn wf(&self) -> bool {
        let m = per_model(self.by_model@);
        &&& forall|i: int, k: int|
            0 <= i < k < m.len() ==> (#[trigger] m[i]).0 != (#[trigger] m[k]).0
        &&& forall|i: int| 0 <= i < m.len() ==> within((#[trigger] m[i]).1, self.totals)
    }

    /// Records one call: updates the totals of its model and of the session and
    /// appends it to the log.
    pub fn record_call(&mut self, rec: LlmCallRecord, tool_call_count: usize)
        requires
            old(self).wf(),
            has_room(old(self).totals, rec, tool_call_count),
        ensures
            final(self).wf(),
            final(self).totals == with_record(old(self).totals, rec, tool_call_count),
            per_model(final(self).by_model@) == with_model_record(
                per_model(old(self).by_model@),
                rec,
                tool_call_count,
            ),
            final(self).calls@ == capped(old(self).calls@.push(rec)),
    {
        let ghost m = per_model(self.by_model@);
        let ghost before = self.totals;
        self.totals.accumulate(&rec, tool_call_count);
        proof {
            assert(within(before, self.totals));
        }
        let n: usize = self.by_model.len();
        let mut i: usize = 0;
        while i < n && !str_eq(self.by_model[i].0.as_str(), rec.model.as_str())
            invariant
                i <= n,
                n == self.by_model@.len(),
                m == per_model(self.by_model@),
                model_index(m, rec.model@, i as int) == model_index(m, rec.model@, 0),
                forall|k: int| 0 <= k < i ==> (#[trigger] m[k]).0 != rec.model@,
            decreases n - i,
        {
            i = i + 1;
        }
        proof {
            assert(m.len() == n);
        }
        if i < n {
            proof {
                assert(m[i as int].0 == rec.model@);
                assert(within(m[i as int].1, before));
            }
            let mut t: ModelTotals = self.by_model[i].1;
            t.accumulate(&rec, tool_call_count);
            let name = rec.model.clone();
            self.by_model.set(i, (name, t));
            proof {
                assert(per_model(self.by_model@) =~= m.update(i as int, (rec.model@, t)));
            }
        } else {
            let mut t = ModelTotals::default();
            t.accumulate(&rec, tool_call_count);
            self.by_model.push((rec.model.clone(), t));
            proof {
                assert(per_model(self.by_model@) =~= m.push((rec.model@, t)));
            }
        }
        let ghost now = per_model(self.by_model@);
        proof {
            assert forall|k: int| 0 <= k < now.len() implies within(
                (#[trigger] now[k]).1,
                self.totals,
            ) by {
                if k < m.len() {
                    assert(within(m[k].1, before));
                }
            }
            assert forall|a: int, b: int| 0 <= a < b < now.len() implies (#[trigger] now[a]).0 != (
            #[trigger] now[b]).0 by {
                if a < m.len() {
                    assert(now[a].0 == m[a].0);
                }
                if b < m.len() {
                    assert(now[b].0 == m[b].0);
                }
            }
        }
        let ghost log = self.calls@.push(rec);
        self.calls.push(rec);
        proof {
            assert(log.skip(0) =~= log);
        }
        let ghost mut dropped: int = 0;
        while self.calls.len() > MAX_CALL_RECORDS
            invariant
                0 <= dropped,
                per_model(self.by_model@) == now,
                self.totals == with_record(before, rec, tool_call_count),
                dropped + self.calls@.len() == log.len(),
                self.calls@ == log.skip(dropped),
                dropped == 0 || self.calls@.len() >= MAX_CALL_RECORDS,
            decreases self.calls@.len(),
        {
            self.calls.remove(0);
            proof {
                assert(log.skip(dropped).remove(0) =~= log.skip(dropped + 1));
                dropped = dropped + 1;
            }
        }
    }

    /// The aggregates of a list of records. Numbers of tools are not part of a
    /// record and count as nothing.
    #[verifier::spinoff_prover]
    #[verifier::rlimit(40)]
    pub fn from_records(records: Vec<LlmCallRecord>) -> (r: Metrics)
        requires
            forall|i: int|
                0 <= i < records@.len() ==> has_room(
                    records_totals(records@, i),
                    #[trigger] records@[i],
                    0,
                ),
        ensures
            r.wf(),
            r.totals == records_totals(records@, records@.len() as int),
            per_model(r.by_model@) == records_models(records@, records@.len() as int),
            r.calls@ == capped(records@),
    {
        let mut m = Metrics {
            calls: Vec::new(),
            by_model: Vec::new(),
            totals: ModelTotals::default(),
        };
        let ghost all = records@;
        proof {
            assert(per_model(m.by_model@) =~= Seq::<(Seq<char>, ModelTotals)>::empty());
            assert(capped(all.take(0)) =~= Seq::<LlmCallRecord>::empty());
        }
        for rec in it: records
            invariant
                it.seq() == all,
                m.wf(),
                forall|i: int|
                    0 <= i < all.len() ==> has_room(records_totals(all, i), #[trigger] all[i], 0),
                m.totals == records_totals(all, it.index() as int),
                per_model(m.by_model@) == records_models(all, it.index() as int),
                m.calls@ == capped(all.take(it.index() as int)),
        {
            let ghost i = it.index() as int;
            proof {
                assert(rec == all[i]);
                assert(all.take(i + 1) =~= all.take(i).push(rec));
                lemma_capped_push(all.take(i), rec);
            }
            m.record_call(rec, 0);
        }
        proof {
            assert(all.take(all.len() as int) =~= all);
        }
        m
    }
}

impl Default for Metrics {
    fn default() -> (r: Metrics)
        ensures
            r.wf(),
            r.calls@.len() == 0,
            r.by_model@.len() == 0,
            r.totals == no_totals(),
    {
        Metrics { calls: Vec::new(), by_model: Vec::new(), totals: ModelTotals::default() }
    }
}

/// The totals of the first `n` records.
pub open spec fn records_totals(records: Seq<LlmCallRecord>, n: int) -> ModelTotals
    decreases n,
{
    if n <= 0 {
        no_totals()
    } else {
        with_record(records_totals(records, n - 1), records[n - 1], 0)
    }
}

/// The totals per model of the first `n` records.
pub open spec fn records_models(records: Seq<LlmCallRecord>, n: int) -> PerModel
    decreases n,
{
    if n <= 0 {
        Seq::empty()
    } else {
        with_model_record(records_models(records, n - 1), records[n - 1], 0)
    }
}

proof fn lemma_capped_push(s: Seq<LlmCallRecord>, rec: LlmCallRecord)
    ensures
        capped(capped(s).push(rec)) == capped(s.push(rec)),
{
    assert(capped(capped(s).push(rec)) =~= capped(s.push(rec)));
}

/// The log never holds more than [`MAX_CALL_RECORDS`] records, and what it holds
/// is the end of everything recorded.
pub proof fn log_is_capped(s: Seq<LlmCallRecord>)
    ensures
        capped(s).len() <= MAX_CALL_RECORDS,
        capped(s).is_suffix_of(s),
        s.len() <= MAX_CALL_RECORDS ==> capped(s) == s,
{
    if s.len() > MAX_CALL_RECORDS {
        let k = s.len() - MAX_CALL_RECORDS;
        assert(capped(s) =~= s.subrange((s.len() - capped(s).len()) as int, s.len() as int));
    } else {
        assert(s =~= s.subrange(0, s.len() as int));
    }
}

/// The sums among some totals.
#[verifier::ext_equal]
pub struct Sums {
    pub in_normal: int,
    pub in_cached: int,
    pub in_cache_write: int,
    pub in_audio: int,
    pub out_normal: int,
    pub out_reasoning: int,
    pub calls: int,
    pub errors: int,
    pub empties: int,
    pub tool_calls: int,
    pub llm_ms_total: int,
    pub ttft_ms_total: int,
}

/// The sums among some totals.
pub open spec fn sums_of(t: ModelTotals) -> Sums {
    Sums {
        in_normal: t.in_normal as int,
        in_cached: t.in_cached as int,
        in_cache_write: t.in_cache_write as int,
        in_audio: t.in_audio as int,
        out_normal: t.out_normal as int,
        out_reasoning: t.out_reasoning as int,
        calls: t.calls as int,
        errors: t.errors as int,
        empties: t.empties as int,
        tool_calls: t.tool_calls as int,
        llm_ms_total: t.llm_ms_total as int,
        ttft_ms_total: t.ttft_ms_total as int,
    }
}

/// The sums of two totals together.
pub open spec fn added(a: Sums, b: Sums) -> Sums {
    Sums {
        in_normal: a.in_normal + b.in_normal,
        in_cached: a.in_cached + b.in_cached,
        in_cache_write: a.in_cache_write + b.in_cache_write,
        in_audio: a.in_audio + b.in_audio,
        out_normal: a.out_normal + b.out_normal,
        out_reasoning: a.out_reasoning + b.out_reasoning,
        calls: a.calls + b.calls,
        errors: a.errors + b.errors,
        empties: a.empties + b.empties,
        tool_calls: a.tool_calls + b.tool_calls,
        llm_ms_total: a.llm_ms_total + b.llm_ms_total,
        ttft_ms_total: a.ttft_ms_total + b.ttft_ms_total,
    }
}

/// The sums over the first `n` models.
pub open spec fn sums_over(m: PerModel, n: int) -> Sums
    decreases n,
{
    if n <= 0 {
        sums_of(no_totals())
    } else {
        added(sums_over(m, n - 1), sums_of(m[n - 1].1))
    }
}

/// What one record adds to the sums.
spec fn record_sums(rec: LlmCallRecord) -> Sums {
    sums_of(with_record(no_totals(), rec, 0))
}

proof fn lemma_record_adds(t: ModelTotals, rec: LlmCallRecord)
    requires
        has_room(t, rec, 0),
    ensures
        sums_of(with_record(t, rec, 0)) == added(sums_of(t), record_sums(rec)),
{
}

proof fn lemma_sums_bound(m: PerModel, n: int, k: int)
    requires
        0 <= k < n <= m.len(),
    ensures
        ({
            let a = sums_of(m[k].1);
            let b = sums_over(m, n);
            &&& a.in_normal <= b.in_normal
            &&& a.in_cached <= b.in_cached
            &&& a.in_cache_write <= b.in_cache_write
            &&& a.in_audio <= b.in_audio
            &&& a.out_normal <= b.out_normal
            &&& a.out_reasoning <= b.out_reasoning
            &&& a.calls <= b.calls
            &&& a.errors <= b.errors
            &&& a.empties <= b.empties
            &&& a.tool_calls <= b.tool_calls
            &&& a.llm_ms_total <= b.llm_ms_total
            &&& a.ttft_ms_total <= b.ttft_ms_total
        }),
    decreases n,
{
    if k < n - 1 {
        lemma_sums_bound(m, n - 1, k);
    } else {
        lemma_sums_positive(m, n - 1);
    }
}

proof fn lemma_sums_positive(m: PerModel, n: int)
    requires
        0 <= n <= m.len(),
    ensures
        ({
            let b = sums_over(m, n);
            &&& 0 <= b.in_normal
            &&& 0 <= b.in_cached
            &&& 0 <= b.in_cache_write
            &&& 0 <= b.in_audio
            &&& 0 <= b.out_normal
            &&& 0 <= b.out_reasoning
            &&& 0 <= b.calls
            &&& 0 <= b.errors
            &&& 0 <= b.empties
            &&& 0 <= b.tool_calls
            &&& 0 <= b.llm_ms_total
            &&& 0 <= b.ttft_ms_total
        }),
    decreases n,
{
    if n > 0 {
        lemma_sums_positive(m, n - 1);
    }
}

proof fn lemma_sums_update(m: PerModel, i: int, p: (Seq<char>, ModelTotals), d: Sums, n: int)
    requires
        0 <= i < m.len(),
        0 <= n <= m.len(),
        sums_of(p.1) == added(sums_of(m[i].1), d),
    ensures
        sums_over(m.update(i, p), n) == if i < n {
            added(sums_over(m, n), d)
        } else {
            sums_over(m, n)
        },
    decreases n,
{
    if n > 0 {
        lemma_sums_update(m, i, p, d, n - 1);
    }
}

proof fn lemma_sums_prefix(m: PerModel, p: (Seq<char>, ModelTotals), n: int)
    requires
        0 <= n <= m.len(),
    ensures
        sums_over(m.push(p), n) == sums_over(m, n),
    decreases n,
{
    if n > 0 {
        lemma_sums_prefix(m, p, n - 1);
    }
}

proof fn lemma_model_index(m: PerModel, name: Seq<char>, i: int)
    requires
        0 <= i <= m.len(),
    ensures
        i <= model_index(m, name, i) <= m.len(),
    decreases m.len() - i,
{
    if i < m.len() && m[i].0 != name {
        lemma_model_index(m, name, i + 1);
    }
}

/// The totals of the session are the sums of the totals of its models.
pub proof fn totals_are_sums_over_models(records: Seq<LlmCallRecord>, n: int)
    requires
        0 <= n <= records.len(),
        forall|i: int|
            0 <= i < records.len() ==> has_room(
                records_totals(records, i),
                #[trigger] records[i],
                0,
            ),
    ensures
        sums_over(records_models(records, n), records_models(records, n).len() as int) == sums_of(
            records_totals(records, n),
        ),
    decreases n,
{
    if n > 0 {
        totals_are_sums_over_models(records, n - 1);
        let m = records_models(records, n - 1);
        let t = records_totals(records, n - 1);
        let rec = records[n - 1];
        let d = record_sums(rec);
        assert(has_room(t, rec, 0));
        lemma_record_adds(t, rec);
        lemma_model_index(m, rec.model@, 0);
        let i = model_index(m, rec.model@, 0);
        if i < m.len() {
            lemma_sums_bound(m, m.len() as int, i);
            assert(has_room(m[i].1, rec, 0));
            lemma_record_adds(m[i].1, rec);
            let p = (rec.model@, with_record(m[i].1, rec, 0));
            lemma_sums_update(m, i, p, d, m.len() as int);
        } else {
            let p = (rec.model@, with_record(no_totals(), rec, 0));
            lemma_sums_prefix(m, p, m.len() as int);
            assert(m.push(p)[m.len() as int] == p);
        }
    }
}

// ---------------------------------------------------------------------------
// Display
// ---------------------------------------------------------------------------

/// A token count as `12.3K (12345)`.
pub open spec fn tokens_text(n: nat) -> Seq<char> {
    let q = double_quotient(n, 1000);
    one_decimal(q.0, q.1) + "K ("@ + decimal(n) + ")"@
}

/// Formats a token count as `12.3K (12345)`.
pub fn fmt_tokens(n: u64) -> (r: String)
    ensures
        r@ == tokens_text(n as nat),
{
    let mut s = quotient_text(n, 1000);
    s.append("K (");
    let d = u64_text(n);
    s.append(d.as_str());
    s.append(")");
    s
}

/// Formats a duration in milliseconds as `38.1s` or `1m 2.3s`.
pub fn fmt_ms(ms: u64) -> (r: String)
    ensures
        r@ == duration(ms as nat),
{
    fmt_duration(ms)
}

/// A token count, or `---` where counts of this kind are not supported.
pub open spec fn tokens_or_dashes(supported: bool, n: nat) -> Seq<char> {
    if supported {
        tokens_text(n)
    } else {
        "---"@
    }
}

fn tokens_or(supported: bool, n: u64) -> (r: String)
    ensures
        r@ == tokens_or_dashes(supported, n as nat),
{
    if supported {
        fmt_tokens(n)
    } else {
        "---".to_owned()
    }
}

/// One half of the token line.
pub open spec fn token_counts(
    input: nat,
    cache: Seq<char>,
    cache_write: Seq<char>,
    output: nat,
    reasoning: nat,
) -> Seq<char> {
    let s = "In "@ + tokens_text(input) + ", Cache "@ + cache + ", CacheW "@ + cache_write
        + ", Out "@ + tokens_text(output);
    if reasoning > 0 {
        s + " (Reasoning "@ + tokens_text(reasoning) + ")"@
    } else {
        s
    }
}

fn counts_text(input: u64, cache: &str, cache_write: &str, output: u64, reasoning: u64) -> (r:
    String)
    ensures
        r@ == token_counts(
            input as nat,
            cache@,
            cache_write@,
            output as nat,
            reasoning as nat,
        ),
{
    let mut s = String::from_str("In ");
    let a = fmt_tokens(input);
    s.append(a.as_str());
    s.append(", Cache ");
    s.append(cache);
    s.append(", CacheW ");
    s.append(cache_write);
    s.append(", Out ");
    let b = fmt_tokens(output);
    s.append(b.as_str());
    if reasoning > 0 {
        s.append(" (Reasoning ");
        let c = fmt_tokens(reasoning);
        s.append(c.as_str());
        s.append(")");
    }
    s
}

/// All input tokens of the totals.
pub open spec fn total_input(t: ModelTotals) -> int {
    t.in_normal + t.in_cached + t.in_cache_write + t.in_audio
}

/// The `[Tokens]` line of a call.
pub open spec fn token_line(u: Usage, t: ModelTotals) -> Seq<char> {
    let known = u.prompt_tokens_details is Some;
    let turn = token_counts(
        less(u.prompt_tokens as int, cached_of(u) + cache_write_of(u)) as nat,
        tokens_or_dashes(known, cached_of(u) as nat),
        tokens_or_dashes(known, cache_write_of(u) as nat),
        less(u.completion_tokens as int, reasoning_of(u)) as nat,
        reasoning_of(u) as nat,
    );
    let used = t.in_cached > 0 || t.in_cache_write > 0;
    let total = token_counts(
        total_input(t) as nat,
        tokens_or_dashes(used, t.in_cached as nat),
        tokens_or_dashes(used, t.in_cache_write as nat),
        t.out_normal as nat,
        t.out_reasoning as nat,
    );
    "Turn: "@ + turn + " | Total: "@ + total
}

/// Builds the `[Tokens]` line of a call, without colours. The turn comes from
/// the usage of the call; the totals include it already.
pub fn format_token_line(usage: &Usage, totals: &ModelTotals) -> (r: String)
    requires
        total_input(*totals) <= u64::MAX,
    ensures
        r@ == token_line(*usage, *totals),
{
    let known = usage.prompt_tokens_details.is_some();
    let (cached, cache_write): (u64, u64) = match usage.prompt_tokens_details {
        Some(d) => (d.cached_tokens as u64, d.cache_creation_tokens as u64),
        None => (0, 0),
    };
    let prompt: u64 = usage.prompt_tokens as u64;
    let normal: u64 = prompt.saturating_sub(cached + cache_write);
    let completion: u64 = usage.completion_tokens as u64;
    let reasoning: u64 = match usage.completion_tokens_details {
        Some(d) => d.reasoning_tokens as u64,
        None => 0,
    };
    let out_normal: u64 = completion.saturating_sub(reasoning);
    let c = tokens_or(known, cached);
    let w = tokens_or(known, cache_write);
    let turn = counts_text(normal, c.as_str(), w.as_str(), out_normal, reasoning);

    let used = totals.in_cached > 0 || totals.in_cache_write > 0;
    let total_in: u64 = totals.in_normal + totals.in_cached + totals.in_cache_write
        + totals.in_audio;
    let tc = tokens_or(used, totals.in_cached);
    let tw = tokens_or(used, totals.in_cache_write);
    let total = counts_text(
        total_in,
        tc.as_str(),
        tw.as_str(),
        totals.out_normal,
        totals.out_reasoning,
    );
    let mut s = String::from_str("Turn: ");
    s.append(turn.as_str());
    s.append(" | Total: ");
    s.append(total.as_str());
    s
}

} // verus!
