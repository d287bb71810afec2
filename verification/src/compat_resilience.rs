//! Recovery and normalisation of the output of a model.
//!
//! Heals flat tool call structures, assembles tool calls from streamed
//! fragments, fills in missing fields and drops calls that cannot be
//! recovered. Also defines how tool results are structured when they are sent
//! back.

use vstd::prelude::*;
use vstd::string::*;

use crate::json::find_key;
use crate::json_model::{
    empty_object, group_json, json_seq, key_index, lemma_drop_member, members_of, Json, JsonView,
    Members,
};
use crate::json_text::{json_read, parse_json, reading_of, readings_view, Reading};
use crate::model::{calls_view, FunctionCall, ToolCall, ToolCallView};
use crate::text::{decimal, lemma_views_push, list_has, opt_str_view, usize_text, views};

verus! {

broadcast use group_json;

/// How tool results are formatted when they are sent back to the model.
#[derive(Debug, Clone, Copy, PartialEq, Eq, Structural)]
pub enum ToolResultFormat {
    /// The full result as a JSON-encoded string.
    JsonString,
    /// Each result as a concise text.
    Text,
    /// The full result as a JSON structure.
    JsonStructured,
}

/// The name of a format.
pub open spec fn format_name(f: ToolResultFormat) -> Seq<char> {
    match f {
        ToolResultFormat::JsonString => "json_string"@,
        ToolResultFormat::Text => "text"@,
        ToolResultFormat::JsonStructured => "json_structured"@,
    }
}

impl ToolResultFormat {
    /// The name of the format.
    pub fn name(&self) -> (r: &'static str)
        ensures
            r@ == format_name(*self),
    {
        match self {
            ToolResultFormat::JsonString => "json_string",
            ToolResultFormat::Text => "text",
            ToolResultFormat::JsonStructured => "json_structured",
        }
    }
}

impl Default for ToolResultFormat {
    fn default() -> (r: ToolResultFormat)
        ensures
            r == ToolResultFormat::JsonString,
    {
        ToolResultFormat::JsonString
    }
}

// ---------------------------------------------------------------------------
// Which tool was meant
// ---------------------------------------------------------------------------

/// The texts among the first `n` values of a list.
pub open spec fn texts_among(list: Seq<JsonView>, n: int) -> Seq<Seq<char>>
    decreases n,
{
    if n <= 0 {
        Seq::empty()
    } else {
        match list[n - 1].as_str() {
            Some(s) => texts_among(list, n - 1).push(s),
            None => texts_among(list, n - 1),
        }
    }
}

/// Whether one of the members is named `k`.
pub open spec fn has_key(m: Members, k: Seq<char>) -> bool {
    key_index(m, k, 0) < m.len()
}

/// What one argument counts for a tool: 3 where it is required, 1 where it is
/// optional, -3 where the tool does not know it.
pub open spec fn key_points(k: Seq<char>, required: Seq<Seq<char>>, props: Members) -> int {
    if required.contains(k) {
        3
    } else if has_key(props, k) {
        1
    } else {
        -3
    }
}

/// What the first `n` arguments count for a tool.
pub open spec fn keys_points(args: Members, required: Seq<Seq<char>>, props: Members, n: int) -> int
    decreases n,
{
    if n <= 0 {
        0
    } else {
        keys_points(args, required, props, n - 1) + key_points(args[n - 1].0, required, props)
    }
}

/// How many of the first `n` required parameters are missing.
pub open spec fn missing_count(required: Seq<Seq<char>>, args: Members, n: int) -> int
    decreases n,
{
    if n <= 0 {
        0
    } else {
        missing_count(required, args, n - 1) + if has_key(args, required[n - 1]) {
            0int
        } else {
            1int
        }
    }
}

/// What a tool definition says of the tool.
pub struct ToolShape {
    pub name: Seq<char>,
    pub props: Members,
    pub required: Seq<Seq<char>>,
}

/// Reads a tool definition; `None` where it is malformed.
pub open spec fn tool_shape(def: JsonView) -> Option<ToolShape> {
    match def.get("function"@) {
        None => None,
        Some(func) => match (func.str_at("name"@), func.get("parameters"@)) {
            (Some(name), Some(params)) => match params.get("properties"@) {
                None => None,
                Some(props) => match (props.as_object(), params.array_at("required"@)) {
                    (Some(p), Some(r)) => Some(
                        ToolShape { name, props: p, required: texts_among(r, r.len() as int) },
                    ),
                    _ => None,
                },
            },
            _ => None,
        },
    }
}

/// How well arguments fit a tool: the points of the arguments, less one for
/// each required parameter that is missing.
pub open spec fn tool_score(args: Members, t: ToolShape) -> int {
    keys_points(args, t.required, t.props, args.len() as int) - missing_count(
        t.required,
        args,
        t.required.len() as int,
    )
}

/// The best-fitting of the first `n` tools with its score, which is positive;
/// the first such where several fit equally. `None` where a definition is
/// malformed.
pub open spec fn best_tool(defs: Seq<JsonView>, args: Members, n: int) -> Option<
    Option<(Seq<char>, int)>,
>
    decreases n,
{
    if n <= 0 {
        Some(None)
    } else {
        match (best_tool(defs, args, n - 1), tool_shape(defs[n - 1])) {
            (Some(best), Some(shape)) => {
                let score = tool_score(args, shape);
                if score > 0 && (best is None || score > (best->0).1) {
                    Some(Some((shape.name, score)))
                } else {
                    Some(best)
                }
            },
            _ => None,
        }
    }
}

/// The tool whose parameters fit the arguments best.
pub open spec fn inferred_tool(defs: Seq<JsonView>, args: JsonView) -> Option<Seq<char>> {
    match args.as_object() {
        None => None,
        Some(m) => match best_tool(defs, m, defs.len() as int) {
            Some(Some(best)) => Some(best.0),
            _ => None,
        },
    }
}

fn collect_texts(list: &Vec<Json>) -> (r: Vec<String>)
    ensures
        views(r@) == texts_among(json_seq(list@), list@.len() as int),
{
    let mut out: Vec<String> = Vec::new();
    let mut i: usize = 0;
    proof {
        assert(views(out@) =~= Seq::<Seq<char>>::empty());
    }
    while i < list.len()
        invariant
            i <= list@.len(),
            views(out@) == texts_among(json_seq(list@), i as int),
        decreases list@.len() - i,
    {
        match list[i].as_str() {
            Some(s) => {
                let t = s.to_owned();
                proof {
                    lemma_views_push(out@, t);
                }
                out.push(t);
            },
            None => {},
        }
        i = i + 1;
    }
    out
}

fn score_tool(
    args: &Vec<(String, Json)>,
    required: &Vec<String>,
    props: &Vec<(String, Json)>,
    Ghost(name): Ghost<Seq<char>>,
) -> (r: i128)
    ensures
        r == tool_score(
            members_of(args@),
            ToolShape { name, props: members_of(props@), required: views(required@) },
        ),
{
    let ghost m = members_of(args@);
    let ghost p = members_of(props@);
    let ghost req = views(required@);
    let na: usize = args.len();
    let nr: usize = required.len();
    let mut score: i128 = 0;
    let mut i: usize = 0;
    while i < na
        invariant
            i <= na,
            na == args@.len(),
            m == members_of(args@),
            p == members_of(props@),
            req == views(required@),
            score == keys_points(m, req, p, i as int),
            -3 * i <= score <= 3 * i,
        decreases na - i,
    {
        let k = args[i].0.as_str();
        let at: usize = find_key(props, k);
        if list_has(required, k) {
            score = score + 3;
        } else if at < props.len() {
            score = score + 1;
        } else {
            score = score - 3;
        }
        i = i + 1;
    }
    let mut j: usize = 0;
    while j < nr
        invariant
            j <= nr,
            i == na,
            na == args@.len(),
            nr == required@.len(),
            m == members_of(args@),
            req == views(required@),
            score == keys_points(m, req, p, na as int) - missing_count(req, m, j as int),
            -3 * na - j <= score <= 3 * na,
        decreases nr - j,
    {
        let at: usize = find_key(args, required[j].as_str());
        if at >= args.len() {
            score = score - 1;
        }
        j = j + 1;
    }
    score
}

/// Infers the name of a tool from the keys of its arguments by matching them
/// against the tool definitions.
pub fn infer_tool_name_from_args(tool_defs: &Vec<Json>, args: &Json) -> (r: Option<String>)
    ensures
        crate::text::opt_view(r) == inferred_tool(json_seq(tool_defs@), args@),
{
    let members = match args.as_object() {
        Some(m) => m,
        None => {
            return None;
        },
    };
    let ghost defs = json_seq(tool_defs@);
    let ghost m = members_of(members@);
    let mut best: Option<(String, i128)> = None;
    let mut i: usize = 0;
    while i < tool_defs.len()
        invariant
            i <= tool_defs@.len(),
            defs == json_seq(tool_defs@),
            args@.as_object() == Some(m),
            m == members_of(members@),
            match best {
                Some(b) => best_tool(defs, m, i as int) == Some(Some((b.0@, b.1 as int))),
                None => best_tool(defs, m, i as int) == Some(None::<(Seq<char>, int)>),
            },
        decreases tool_defs@.len() - i,
    {
        proof {
            lemma_malformed(defs, m, i + 1, defs.len() as int);
        }
        let func = match tool_defs[i].get("function") {
            Some(f) => f,
            None => {
                return None;
            },
        };
        let name = match func.str_at("name") {
            Some(n) => n,
            None => {
                return None;
            },
        };
        let params = match func.get("parameters") {
            Some(p) => p,
            None => {
                return None;
            },
        };
        let props_json = match params.get("properties") {
            Some(p) => p,
            None => {
                return None;
            },
        };
        let props = match props_json.as_object() {
            Some(p) => p,
            None => {
                return None;
            },
        };
        let required_list = match params.array_at("required") {
            Some(l) => l,
            None => {
                return None;
            },
        };
        let required = collect_texts(required_list);
        let score: i128 = score_tool(members, &required, props, Ghost(name@));
        if score > 0 {
            let better = match &best {
                Some(b) => score > b.1,
                None => true,
            };
            if better {
                best = Some((name.to_owned(), score));
            }
        }
        i = i + 1;
    }
    match best {
        Some(b) => Some(b.0),
        None => None,
    }
}

/// A malformed definition leaves no best tool.
proof fn lemma_malformed(defs: Seq<JsonView>, args: Members, i: int, n: int)
    requires
        0 <= i <= n,
    ensures
        best_tool(defs, args, i) is None ==> best_tool(defs, args, n) is None,
    decreases n - i,
{
    if i < n {
        lemma_malformed(defs, args, i, n - 1);
    }
}

// ---------------------------------------------------------------------------
// Flat tool calls
// ---------------------------------------------------------------------------

/// The `function` wrapper of a name and arguments, as far as there are any.
pub open spec fn function_wrapper(name: Option<JsonView>, arguments: Option<JsonView>) -> JsonView {
    let a = match name {
        Some(n) => empty_object().with("name"@, n),
        None => empty_object(),
    };
    match arguments {
        Some(x) => a.with("arguments"@, x),
        None => a,
    }
}

/// Whether a call has its name or its arguments at the top level, with no
/// `function` wrapper.
pub open spec fn is_flat_call(call: JsonView) -> bool {
    call is Object && call.get("function"@) is None && (call.get("name"@) is Some || call.get(
        "arguments"@,
    ) is Some)
}

/// A call with its name and arguments inside a `function` wrapper.
pub open spec fn wrapped_call(call: JsonView) -> JsonView {
    if is_flat_call(call) {
        call.without("name"@).without("arguments"@).with(
            "function"@,
            function_wrapper(call.get("name"@), call.without("name"@).get("arguments"@)),
        )
    } else {
        call
    }
}

/// The calls, each with its `function` wrapper.
pub open spec fn wrapped_calls(calls: Seq<JsonView>) -> Seq<JsonView> {
    calls.map_values(|c: JsonView| wrapped_call(c))
}

/// Whether one of the calls is flat.
pub open spec fn any_flat(calls: Seq<JsonView>) -> bool {
    exists|i: int| 0 <= i < calls.len() && is_flat_call(#[trigger] calls[i])
}

fn copy_opt(o: Option<&Json>) -> (r: Option<Json>)
    ensures
        match r {
            Some(j) => o is Some && j@ == o->0@,
            None => o is None,
        },
{
    match o {
        Some(j) => Some(j.copy()),
        None => None,
    }
}

fn wrap_call(call: &Json) -> (r: Option<Json>)
    ensures
        match r {
            Some(j) => is_flat_call(call@) && j@ == wrapped_call(call@),
            None => !is_flat_call(call@),
        },
{
    if call.get("function").is_some() {
        return None;
    }
    if call.as_object().is_none() {
        return None;
    }
    let name = copy_opt(call.get("name"));
    let arguments = copy_opt(call.get("arguments"));
    if name.is_none() && arguments.is_none() {
        return None;
    }
    proof {
        reveal_strlit("name");
        reveal_strlit("arguments");
        assert("name"@.len() != "arguments"@.len());
        lemma_drop_member(call@->Object_0, "name"@, "arguments"@);
    }
    let mut func = Json::object();
    match name {
        Some(n) => {
            func = func.with("name", n);
        },
        None => {},
    }
    match arguments {
        Some(a) => {
            func = func.with("arguments", a);
        },
        None => {},
    }
    Some(call.copy().without("name").without("arguments").with("function", func))
}

/// Gives each flat call of a list its `function` wrapper; says whether there
/// was one.
pub fn normalize_tool_calls_array(tool_calls: &mut Vec<Json>) -> (r: bool)
    ensures
        json_seq(final(tool_calls)@) == wrapped_calls(json_seq(old(tool_calls)@)),
        r == any_flat(json_seq(old(tool_calls)@)),
{
    let ghost start = json_seq(tool_calls@);
    let n: usize = tool_calls.len();
    let mut modified = false;
    let mut i: usize = 0;
    while i < n
        invariant
            i <= n,
            n == tool_calls@.len(),
            start.len() == n,
            forall|k: int| 0 <= k < i ==> (#[trigger] tool_calls@[k])@ == wrapped_call(start[k]),
            forall|k: int| i <= k < n ==> (#[trigger] tool_calls@[k])@ == start[k],
            modified == exists|k: int| 0 <= k < i && is_flat_call(#[trigger] start[k]),
        decreases n - i,
    {
        match wrap_call(&tool_calls[i]) {
            Some(j) => {
                proof {
                    assert(is_flat_call(start[i as int]));
                }
                tool_calls.set(i, j);
                modified = true;
            },
            None => {},
        }
        i = i + 1;
    }
    proof {
        assert(json_seq(tool_calls@) =~= wrapped_calls(start));
    }
    modified
}

/// The tool calls of a message.
pub open spec fn calls_in(msg: JsonView) -> Option<Seq<JsonView>> {
    msg.array_at("tool_calls"@)
}

/// A message whose flat tool calls are wrapped, where it has any.
pub open spec fn wrapped_message(msg: JsonView) -> Option<JsonView> {
    match calls_in(msg) {
        Some(calls) if any_flat(calls) => Some(
            msg.with("tool_calls"@, JsonView::Array(wrapped_calls(calls))),
        ),
        _ => None,
    }
}

/// A value whose member `key` is a message with flat tool calls, with those
/// wrapped.
pub open spec fn wrapped_at(j: JsonView, key: Seq<char>) -> Option<JsonView> {
    match j.get(key) {
        None => None,
        Some(msg) => match wrapped_message(msg) {
            Some(w) => Some(j.with(key, w)),
            None => None,
        },
    }
}

/// The first choice of a payload.
pub open spec fn first_choice(j: JsonView) -> Option<JsonView> {
    match j.array_at("choices"@) {
        Some(c) if c.len() > 0 => Some(c[0]),
        _ => None,
    }
}

/// A payload with its first choice replaced.
pub open spec fn with_first_choice(j: JsonView, choice: JsonView) -> JsonView {
    j.with("choices"@, JsonView::Array(j.array_at("choices"@)->0.update(0, choice)))
}

/// A payload with flat tool calls wrapped: those of `message`, else those of
/// the `delta` of the first choice, else those of the `message` of the first
/// choice. `None` where there are none.
pub open spec fn wrapped_payload(j: JsonView) -> Option<JsonView> {
    match wrapped_at(j, "message"@) {
        Some(w) => Some(w),
        None => match first_choice(j) {
            None => None,
            Some(choice) => match wrapped_at(choice, "delta"@) {
                Some(w) => Some(with_first_choice(j, w)),
                None => match wrapped_at(choice, "message"@) {
                    Some(w) => Some(with_first_choice(j, w)),
                    None => None,
                },
            },
        },
    }
}

fn copy_list(list: &Vec<Json>) -> (r: Vec<Json>)
    ensures
        json_seq(r@) == json_seq(list@),
{
    let mut out: Vec<Json> = Vec::new();
    let mut i: usize = 0;
    while i < list.len()
        invariant
            i <= list@.len(),
            out@.len() == i,
            forall|k: int| 0 <= k < i ==> #[trigger] out@[k]@ == list@[k]@,
        decreases list@.len() - i,
    {
        out.push(list[i].copy());
        i = i + 1;
    }
    proof {
        assert(json_seq(out@) =~= json_seq(list@));
    }
    out
}

/// The contents of an optional owned JSON value.
pub open spec fn opt_owned(o: Option<Json>) -> Option<JsonView> {
    match o {
        Some(j) => Some(j@),
        None => None,
    }
}

fn wrap_at(j: &Json, key: &str) -> (r: Option<Json>)
    ensures
        opt_owned(r) == wrapped_at(j@, key@),
{
    let msg = match j.get(key) {
        Some(m) => m,
        None => {
            return None;
        },
    };
    let calls = match msg.array_at("tool_calls") {
        Some(c) => c,
        None => {
            return None;
        },
    };
    let mut list = copy_list(calls);
    if normalize_tool_calls_array(&mut list) {
        let w = msg.copy().with("tool_calls", Json::Array(list));
        Some(j.copy().with(key, w))
    } else {
        None
    }
}

/// Converts the tool calls of a payload from the flat form (name and arguments
/// at the top level) to the standard form (inside a `function` wrapper). Says
/// whether any call was converted.
pub fn normalize_tool_call_format(json: &mut Json) -> (r: bool)
    ensures
        match wrapped_payload(old(json)@) {
            Some(w) => r && final(json)@ == w,
            None => !r && final(json)@ == old(json)@,
        },
{
    match wrap_at(json, "message") {
        Some(w) => {
            *json = w;
            return true;
        },
        None => {},
    }
    let mut replaced: Option<Json> = None;
    match json.array_at("choices") {
        Some(choices) => {
            if choices.len() > 0 {
                let first = match wrap_at(&choices[0], "delta") {
                    Some(w) => Some(w),
                    None => wrap_at(&choices[0], "message"),
                };
                match first {
                    Some(w) => {
                        let mut list = copy_list(choices);
                        let ghost before = json_seq(list@);
                        proof {
                            assert(before[0] == choices@[0]@);
                            assert(before.len() == list@.len());
                        }
                        list.set(0, w);
                        proof {
                            assert(json_seq(list@) =~= before.update(0, w@));
                        }
                        replaced = Some(json.copy().with("choices", Json::Array(list)));
                    },
                    None => {},
                }
            }
        },
        None => {},
    }
    match replaced {
        Some(j) => {
            *json = j;
            true
        },
        None => false,
    }
}

// ---------------------------------------------------------------------------
// Assembled tool calls
// ---------------------------------------------------------------------------

/// What is read in arguments: a text is read as JSON, and any other value is
/// taken as it is.
pub open spec fn argument_reading(arguments: JsonView) -> Reading {
    match arguments {
        JsonView::Str(s) => json_read(s),
        other => Reading::Value(other),
    }
}

/// The value of arguments; nothing where they could not be read.
pub open spec fn read_value(r: Reading) -> JsonView {
    match r {
        Reading::Value(v) => v,
        Reading::Malformed(_) => JsonView::Null,
    }
}

/// The name of a call that has none: that of the call before it, else the one
/// inferred from its arguments, else none.
pub open spec fn recovered_name(
    before: Option<Seq<char>>,
    reading: Reading,
    defs: Seq<JsonView>,
) -> Seq<char> {
    if before is Some && before->0.len() > 0 {
        before->0
    } else {
        match inferred_tool(defs, read_value(reading)) {
            Some(n) => n,
            None => Seq::empty(),
        }
    }
}

/// The first `n` calls with their missing identifiers and names filled in.
pub open spec fn filled_calls(
    calls: Seq<ToolCallView>,
    readings: Seq<Reading>,
    defs: Seq<JsonView>,
    n: int,
) -> Seq<ToolCallView>
    decreases n,
{
    if n <= 0 {
        Seq::empty()
    } else {
        let done = filled_calls(calls, readings, defs, n - 1);
        let c = calls[n - 1];
        let before = if n > 1 {
            Some(done[n - 2].name)
        } else {
            None
        };
        done.push(
            ToolCallView {
                id: if c.id.len() == 0 {
                    "call_missing_"@ + decimal((n - 1) as nat)
                } else {
                    c.id
                },
                name: if c.name.len() == 0 {
                    recovered_name(before, readings[n - 1], defs)
                } else {
                    c.name
                },
                ..c
            },
        )
    }
}

/// The calls among the first `n` that can be run: those with a name, whose
/// arguments could be read.
pub open spec fn usable_calls(calls: Seq<ToolCallView>, readings: Seq<Reading>, n: int) -> Seq<
    ToolCallView,
>
    decreases n,
{
    if n <= 0 {
        Seq::empty()
    } else if calls[n - 1].name.len() > 0 && readings[n - 1] is Value {
        usable_calls(calls, readings, n - 1).push(calls[n - 1])
    } else {
        usable_calls(calls, readings, n - 1)
    }
}

/// The calls that are left after filling in what is missing, given what was
/// read in the arguments of each.
pub open spec fn calls_kept(
    calls: Seq<ToolCallView>,
    readings: Seq<Reading>,
    defs: Seq<JsonView>,
) -> Seq<ToolCallView> {
    let n = calls.len() as int;
    usable_calls(filled_calls(calls, readings, defs, n), readings, n)
}

/// What is read in the arguments of each call.
pub open spec fn argument_readings(calls: Seq<ToolCallView>) -> Seq<Reading> {
    calls.map_values(|c: ToolCallView| argument_reading(c.arguments))
}

/// The calls that are left after filling in what is missing.
pub open spec fn recovered_calls(calls: Seq<ToolCallView>, defs: Seq<JsonView>) -> Seq<ToolCallView> {
    calls_kept(calls, argument_readings(calls), defs)
}

proof fn lemma_filled_len(
    calls: Seq<ToolCallView>,
    readings: Seq<Reading>,
    defs: Seq<JsonView>,
    n: int,
)
    requires
        0 <= n <= calls.len(),
    ensures
        filled_calls(calls, readings, defs, n).len() == n,
    decreases n,
{
    if n > 0 {
        lemma_filled_len(calls, readings, defs, n - 1);
    }
}

/// Reads the arguments of a call: a text is read as JSON, and any other value is
/// taken as it is.
pub fn read_argument(arguments: &Json) -> (r: Result<Json, String>)
    ensures
        reading_of(r) == argument_reading(arguments@),
{
    match arguments {
        Json::Str(s) => parse_json(s.as_str()),
        other => Ok(other.copy()),
    }
}

fn recover_name(before: Option<&str>, reading: &Result<Json, String>, tool_defs: &Vec<Json>) -> (r:
    String)
    ensures
        r@ == recovered_name(opt_str_view(before), reading_of(*reading), json_seq(tool_defs@)),
{
    match before {
        Some(b) => {
            if !b.is_empty() {
                return b.to_owned();
            }
        },
        None => {},
    }
    let found = match reading {
        Ok(v) => infer_tool_name_from_args(tool_defs, v),
        Err(_) => infer_tool_name_from_args(tool_defs, &Json::Null),
    };
    match found {
        Some(n) => n,
        None => String::new(),
    }
}

fn fill_calls(
    tool_calls: &mut Vec<ToolCall>,
    readings: &Vec<Result<Json, String>>,
    tool_defs: &Vec<Json>,
)
    requires
        readings@.len() == old(tool_calls)@.len(),
    ensures
        calls_view(final(tool_calls)@) == filled_calls(
            calls_view(old(tool_calls)@),
            readings_view(readings@),
            json_seq(tool_defs@),
            old(tool_calls)@.len() as int,
        ),
{
    let ghost start = calls_view(tool_calls@);
    let ghost defs = json_seq(tool_defs@);
    let ghost rv = readings_view(readings@);
    let n: usize = tool_calls.len();
    let mut i: usize = 0;
    while i < n
        invariant
            i <= n,
            n == tool_calls@.len(),
            n == readings@.len(),
            start.len() == n,
            defs == json_seq(tool_defs@),
            rv == readings_view(readings@),
            filled_calls(start, rv, defs, i as int).len() == i,
            forall|k: int|
                0 <= k < i ==> (#[trigger] tool_calls@[k])@ == filled_calls(
                    start,
                    rv,
                    defs,
                    i as int,
                )[k],
            forall|k: int| i <= k < n ==> (#[trigger] tool_calls@[k])@ == start[k],
        decreases n - i,
    {
        let ghost done = filled_calls(start, rv, defs, i as int);
        let mut c = tool_calls[i].copy();
        if c.id.as_str().is_empty() {
            let mut id = String::from_str("call_missing_");
            let t = usize_text(i);
            id.append(t.as_str());
            c.id = id;
        }
        if c.function.name.as_str().is_empty() {
            proof {
                assert(rv[i as int] == reading_of(readings@[i as int]));
            }
            let name = if i > 0 {
                recover_name(
                    Some(tool_calls[i - 1].function.name.as_str()),
                    &readings[i],
                    tool_defs,
                )
            } else {
                recover_name(None, &readings[i], tool_defs)
            };
            c.function.name = name;
        }
        let ghost cv = c@;
        tool_calls.set(i, c);
        i = i + 1;
        proof {
            assert(filled_calls(start, rv, defs, i as int) =~= done.push(cv));
        }
    }
    proof {
        lemma_filled_len(start, rv, defs, n as int);
        assert(calls_view(tool_calls@) =~= filled_calls(start, rv, defs, n as int));
    }
}

/// Fills in the missing identifiers and names of tool calls, then drops those
/// without a name and those whose arguments could not be read.
pub fn keep_usable_calls(
    tool_calls: &mut Vec<ToolCall>,
    readings: &Vec<Result<Json, String>>,
    tool_defs: &Vec<Json>,
)
    requires
        readings@.len() == old(tool_calls)@.len(),
    ensures
        calls_view(final(tool_calls)@) == calls_kept(
            calls_view(old(tool_calls)@),
            readings_view(readings@),
            json_seq(tool_defs@),
        ),
{
    let ghost start = calls_view(tool_calls@);
    let ghost n0 = tool_calls@.len();
    let ghost rv = readings_view(readings@);
    fill_calls(tool_calls, readings, tool_defs);
    let ghost filled = calls_view(tool_calls@);
    proof {
        lemma_filled_len(start, rv, json_seq(tool_defs@), n0 as int);
        assert(filled.len() == n0);
    }
    let mut out: Vec<ToolCall> = Vec::new();
    let mut i: usize = 0;
    proof {
        assert(calls_view(out@) =~= Seq::<ToolCallView>::empty());
    }
    while i < tool_calls.len()
        invariant
            i <= tool_calls@.len(),
            readings@.len() == tool_calls@.len(),
            rv == readings_view(readings@),
            filled == calls_view(tool_calls@),
            calls_view(out@) == usable_calls(filled, rv, i as int),
        decreases tool_calls@.len() - i,
    {
        proof {
            assert(rv[i as int] == reading_of(readings@[i as int]));
        }
        if !tool_calls[i].function.name.as_str().is_empty() && readings[i].is_ok() {
            let c = tool_calls[i].copy();
            proof {
                assert(calls_view(out@.push(c)) =~= calls_view(out@).push(c@));
            }
            out.push(c);
        }
        i = i + 1;
    }
    *tool_calls = out;
}

/// Fills in the missing identifiers and names of tool calls assembled from a
/// stream, then drops those that cannot be recovered.
pub fn post_process_tool_calls(tool_calls: &mut Vec<ToolCall>, tool_defs: &Vec<Json>)
    ensures
        calls_view(final(tool_calls)@) == recovered_calls(
            calls_view(old(tool_calls)@),
            json_seq(tool_defs@),
        ),
{
    let mut readings: Vec<Result<Json, String>> = Vec::new();
    let mut i: usize = 0;
    while i < tool_calls.len()
        invariant
            i <= tool_calls@.len(),
            readings@.len() == i,
            forall|k: int|
                0 <= k < i ==> reading_of(#[trigger] readings@[k]) == argument_reading(
                    tool_calls@[k]@.arguments,
                ),
        decreases tool_calls@.len() - i,
    {
        readings.push(read_argument(&tool_calls[i].function.arguments));
        i = i + 1;
    }
    proof {
        assert(readings_view(readings@) =~= argument_readings(calls_view(tool_calls@)));
    }
    keep_usable_calls(tool_calls, &readings, tool_defs);
}

/// Every call that is left has a name, an identifier and arguments that can be
/// read.
pub proof fn recovered_calls_are_usable(calls: Seq<ToolCallView>, defs: Seq<JsonView>, i: int)
    requires
        0 <= i < recovered_calls(calls, defs).len(),
    ensures
        recovered_calls(calls, defs)[i].name.len() > 0,
        recovered_calls(calls, defs)[i].id.len() > 0,
        argument_reading(recovered_calls(calls, defs)[i].arguments) is Value,
{
    let readings = argument_readings(calls);
    let n = calls.len() as int;
    let filled = filled_calls(calls, readings, defs, n);
    lemma_filled_len(calls, readings, defs, n);
    assert forall|k: int| 0 <= k < filled.len() implies (#[trigger] filled[k]).id.len() > 0
        && argument_reading(filled[k].arguments) == readings[k] by {
        lemma_filled_call(calls, readings, defs, n, k);
    }
    lemma_usable_from(filled, readings, n, i);
}

proof fn lemma_filled_call(
    calls: Seq<ToolCallView>,
    readings: Seq<Reading>,
    defs: Seq<JsonView>,
    n: int,
    k: int,
)
    requires
        0 <= k < n <= calls.len(),
    ensures
        filled_calls(calls, readings, defs, n).len() == n,
        filled_calls(calls, readings, defs, n)[k].id.len() > 0,
        filled_calls(calls, readings, defs, n)[k].arguments == calls[k].arguments,
    decreases n,
{
    lemma_filled_len(calls, readings, defs, n);
    lemma_filled_len(calls, readings, defs, n - 1);
    if k < n - 1 {
        lemma_filled_call(calls, readings, defs, n - 1, k);
    } else {
        reveal_strlit("call_missing_");
    }
}

proof fn lemma_usable_from(calls: Seq<ToolCallView>, readings: Seq<Reading>, n: int, i: int)
    requires
        0 <= n <= calls.len(),
        0 <= i < usable_calls(calls, readings, n).len(),
        forall|k: int|
            0 <= k < calls.len() ==> (#[trigger] calls[k]).id.len() > 0 && argument_reading(
                calls[k].arguments,
            ) == readings[k],
    ensures
        usable_calls(calls, readings, n)[i].name.len() > 0,
        usable_calls(calls, readings, n)[i].id.len() > 0,
        argument_reading(usable_calls(calls, readings, n)[i].arguments) is Value,
    decreases n,
{
    if n > 0 {
        let kept = calls[n - 1].name.len() > 0 && readings[n - 1] is Value;
        if kept && i == usable_calls(calls, readings, n).len() - 1 {
            assert(usable_calls(calls, readings, n)[i] == calls[n - 1]);
        } else {
            lemma_usable_from(calls, readings, n - 1, i);
        }
    }
}

// ---------------------------------------------------------------------------
// Streamed fragments
// ---------------------------------------------------------------------------

/// The part of a payload that carries the message: `message`, else the `delta`
/// of the first choice, else nothing.
pub open spec fn msg_base(j: JsonView) -> JsonView {
    match j.get("message"@) {
        Some(m) => m,
        None => match first_choice(j) {
            Some(c) => match c.get("delta"@) {
                Some(d) => d,
                None => JsonView::Null,
            },
            None => JsonView::Null,
        },
    }
}

/// Extracts the part of a payload that carries the message.
pub fn extract_msg_base(json: &Json) -> (r: Json)
    ensures
        r@ == msg_base(json@),
{
    match json.get("message") {
        Some(m) => m.copy(),
        None => match json.array_at("choices") {
            Some(choices) => {
                if choices.len() > 0 {
                    proof {
                        assert(json_seq(choices@)[0] == choices@[0]@);
                    }
                    match choices[0].get("delta") {
                        Some(d) => d.copy(),
                        None => Json::Null,
                    }
                } else {
                    Json::Null
                }
            },
            None => Json::Null,
        },
    }
}

/// A tool call of which nothing has arrived yet.
pub open spec fn blank_call() -> ToolCallView {
    ToolCallView {
        id: Seq::empty(),
        tool_type: "function"@,
        name: Seq::empty(),
        arguments: JsonView::Str(Seq::empty()),
        thought_signature: None,
    }
}

fn new_call() -> (r: ToolCall)
    ensures
        r@ == blank_call(),
{
    ToolCall {
        id: String::new(),
        tool_type: "function".to_owned(),
        function: FunctionCall { name: String::new(), arguments: Json::Str(String::new()) },
        thought_signature: None,
    }
}

/// A call extended by one fragment. Text adds to what is there; arguments that
/// are no text replace it.
pub open spec fn extended_call(c: ToolCallView, delta: JsonView, with_signature: bool) -> ToolCallView {
    let id = match delta.str_at("id"@) {
        Some(s) => c.id + s,
        None => c.id,
    };
    let thought_signature = match delta.str_at("thought_signature"@) {
        Some(s) if with_signature => Some(s),
        _ => c.thought_signature,
    };
    match delta.get("function"@) {
        None => ToolCallView { id, thought_signature, ..c },
        Some(func) => ToolCallView {
            id,
            thought_signature,
            name: match func.str_at("name"@) {
                Some(s) => c.name + s,
                None => c.name,
            },
            arguments: match func.get("arguments"@) {
                None => c.arguments,
                Some(a) => match a {
                    JsonView::Str(s) => match c.arguments {
                        JsonView::Str(t) => JsonView::Str(t + s),
                        other => other,
                    },
                    other => other,
                },
            },
            ..c
        },
    }
}

fn extend_call(c: &mut ToolCall, delta: &Json, with_signature: bool)
    ensures
        final(c)@ == extended_call(old(c)@, delta@, with_signature),
{
    match delta.str_at("id") {
        Some(s) => {
            c.id.append(s);
        },
        None => {},
    }
    if with_signature {
        match delta.str_at("thought_signature") {
            Some(s) => {
                c.thought_signature = Some(s.to_owned());
            },
            None => {},
        }
    }
    match delta.get("function") {
        None => {},
        Some(func) => {
            match func.str_at("name") {
                Some(s) => {
                    c.function.name.append(s);
                },
                None => {},
            }
            match func.get("arguments") {
                None => {},
                Some(a) => match a {
                    Json::Str(s) => {
                        let mut joined: Option<String> = None;
                        match &c.function.arguments {
                            Json::Str(t) => {
                                let mut both = t.clone();
                                both.append(s.as_str());
                                joined = Some(both);
                            },
                            _ => {},
                        }
                        match joined {
                            Some(both) => {
                                c.function.arguments = Json::Str(both);
                            },
                            None => {},
                        }
                    },
                    other => {
                        c.function.arguments = other.copy();
                    },
                },
            }
        },
    }
}

/// The position that a fragment belongs to.
pub open spec fn delta_index(delta: JsonView, default_index: usize) -> usize {
    match delta.u64_at("index"@) {
        Some(n) => n as usize,
        None => default_index,
    }
}

/// A list of at least `n` calls: blank ones are added where it is shorter.
pub open spec fn grown_calls(calls: Seq<ToolCallView>, n: int) -> Seq<ToolCallView> {
    if calls.len() >= n {
        calls
    } else {
        calls + Seq::new((n - calls.len()) as nat, |i: int| blank_call())
    }
}

/// The calls after one fragment. A position that no list can reach is skipped.
pub open spec fn merged_call(
    calls: Seq<ToolCallView>,
    delta: JsonView,
    default_index: usize,
    with_signature: bool,
) -> Seq<ToolCallView> {
    let i = delta_index(delta, default_index);
    if i == usize::MAX {
        calls
    } else {
        let g = grown_calls(calls, i + 1);
        g.update(i as int, extended_call(g[i as int], delta, with_signature))
    }
}

/// The calls after the first `n` fragments.
pub open spec fn merged_calls(
    calls: Seq<ToolCallView>,
    deltas: Seq<JsonView>,
    default_index: usize,
    with_signature: bool,
    n: int,
) -> Seq<ToolCallView>
    decreases n,
{
    if n <= 0 {
        calls
    } else {
        merged_call(
            merged_calls(calls, deltas, default_index, with_signature, n - 1),
            deltas[n - 1],
            default_index,
            with_signature,
        )
    }
}

fn merge_one(
    tool_calls: &mut Vec<ToolCall>,
    delta: &Json,
    default_index: usize,
    with_signature: bool,
)
    ensures
        calls_view(final(tool_calls)@) == merged_call(
            calls_view(old(tool_calls)@),
            delta@,
            default_index,
            with_signature,
        ),
{
    let index: usize = match delta.u64_at("index") {
        Some(n) => n as usize,
        None => default_index,
    };
    if index == usize::MAX {
        return;
    }
    let ghost start = calls_view(tool_calls@);
    proof {
        assert(grown_calls(start, start.len() as int) =~= start);
    }
    while tool_calls.len() <= index
        invariant
            index < usize::MAX,
            calls_view(tool_calls@) == grown_calls(start, tool_calls@.len() as int),
            start.len() <= tool_calls@.len(),
            tool_calls@.len() <= start.len() || tool_calls@.len() <= index + 1,
        decreases index + 1 - tool_calls@.len(),
    {
        let c = new_call();
        proof {
            let now = calls_view(tool_calls@);
            assert(calls_view(tool_calls@.push(c)) =~= now.push(blank_call()));
            assert(now.push(blank_call()) =~= grown_calls(start, (now.len() + 1) as int));
        }
        tool_calls.push(c);
    }
    proof {
        assert(grown_calls(start, tool_calls@.len() as int) =~= grown_calls(start, index + 1));
    }
    let ghost g = calls_view(tool_calls@);
    let mut c = tool_calls[index].copy();
    extend_call(&mut c, delta, with_signature);
    let ghost cv = c@;
    tool_calls.set(index, c);
    proof {
        assert(calls_view(tool_calls@) =~= g.update(index as int, cv));
    }
}

/// Merges streamed fragments of tool calls into the calls assembled so far.
///
/// `default_index` is used for a fragment without an `index`. Signatures are
/// taken over only `with_thought_signature`.
pub fn merge_tool_call_delta(
    tool_calls: &mut Vec<ToolCall>,
    calls: &Vec<Json>,
    default_index: usize,
    with_thought_signature: bool,
)
    ensures
        calls_view(final(tool_calls)@) == merged_calls(
            calls_view(old(tool_calls)@),
            json_seq(calls@),
            default_index,
            with_thought_signature,
            calls@.len() as int,
        ),
{
    let ghost start = calls_view(tool_calls@);
    let mut i: usize = 0;
    while i < calls.len()
        invariant
            i <= calls@.len(),
            calls_view(tool_calls@) == merged_calls(
                start,
                json_seq(calls@),
                default_index,
                with_thought_signature,
                i as int,
            ),
        decreases calls@.len() - i,
    {
        merge_one(tool_calls, &calls[i], default_index, with_thought_signature);
        i = i + 1;
    }
}

/// The text that a fragment adds to the arguments of its call.
pub open spec fn argument_text(delta: JsonView) -> Option<Seq<char>> {
    match delta.get("function"@) {
        Some(func) => func.str_at("arguments"@),
        None => None,
    }
}

/// The texts of the first `n` fragments, one after the other.
pub open spec fn argument_texts(deltas: Seq<JsonView>, n: int) -> Seq<char>
    decreases n,
{
    if n <= 0 {
        Seq::empty()
    } else {
        argument_texts(deltas, n - 1) + argument_text(deltas[n - 1])->0
    }
}

/// The fragments of a call's arguments add up in order, however they are cut,
/// and touch no other call.
pub proof fn fragments_add_up(
    calls: Seq<ToolCallView>,
    deltas: Seq<JsonView>,
    default_index: usize,
    with_signature: bool,
    at: usize,
    text: Seq<char>,
    n: int,
)
    requires
        0 <= n <= deltas.len(),
        at < calls.len(),
        at < usize::MAX,
        calls[at as int].arguments == JsonView::Str(text),
        forall|i: int|
            0 <= i < deltas.len() ==> delta_index(#[trigger] deltas[i], default_index) == at
                && argument_text(deltas[i]) is Some,
    ensures
        ({
            let out = merged_calls(calls, deltas, default_index, with_signature, n);
            &&& out.len() == calls.len()
            &&& out[at as int].arguments == JsonView::Str(text + argument_texts(deltas, n))
            &&& forall|k: int| 0 <= k < calls.len() && k != at ==> out[k] == #[trigger] calls[k]
        }),
    decreases n,
{
    if n > 0 {
        fragments_add_up(calls, deltas, default_index, with_signature, at, text, n - 1);
        let before = merged_calls(calls, deltas, default_index, with_signature, n - 1);
        assert(delta_index(deltas[n - 1], default_index) == at);
        assert(grown_calls(before, at + 1) == before);
        let t = text + argument_texts(deltas, n - 1);
        let s = argument_text(deltas[n - 1])->0;
        assert(t + s =~= text + argument_texts(deltas, n));
    } else {
        assert(text + argument_texts(deltas, 0) =~= text);
    }
}

} // verus!
