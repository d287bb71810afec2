//! Laws of the recovery of tool calls: what is missing in a call is filled in, and
//! nothing that was there is lost.

use vstd::prelude::*;
use vstd::string::*;

use crate::compat_resilience::{
    argument_reading, best_tool, filled_calls, inferred_tool, keys_points, missing_count,
    tool_score, tool_shape, usable_calls, wrapped_call, ToolShape,
};
use crate::json_keys::{group_members, lemma_keys};
use crate::json_model::{ascending, group_json, lemma_drop_member, JsonView, Members};
use crate::json_text::Reading;
use crate::model::ToolCallView;

verus! {

broadcast use {group_json, group_members};

// ---------------------------------------------------------------------------
// Which tool was meant
// ---------------------------------------------------------------------------

/// Of the tools whose parameters fit some arguments the best-fitting is taken: it is one
/// of the tools, its score is positive, no tool has a better one, and none before it is as
/// good.
pub proof fn the_best_tool_is_inferred(defs: Seq<JsonView>, args: Members, n: int)
    requires
        0 <= n <= defs.len(),
        forall|i: int| 0 <= i < defs.len() ==> tool_shape(#[trigger] defs[i]) is Some,
    ensures
        best_tool(defs, args, n) is Some,
        best_tool(defs, args, n)->0 is None <==> forall|i: int|
            0 <= i < n ==> tool_score(args, tool_shape(#[trigger] defs[i])->0) <= 0,
        best_tool(defs, args, n)->0 is Some ==> {
            let best = best_tool(defs, args, n)->0->0;
            &&& best.1 > 0
            &&& forall|i: int|
                0 <= i < n ==> tool_score(args, tool_shape(#[trigger] defs[i])->0) <= best.1
            &&& exists|i: int|
                0 <= i < n && tool_shape(#[trigger] defs[i])->0.name == best.0 && tool_score(
                    args,
                    tool_shape(defs[i])->0,
                ) == best.1 && forall|k: int|
                    0 <= k < i ==> tool_score(args, tool_shape(#[trigger] defs[k])->0) < best.1
        },
    decreases n,
{
    if n > 0 {
        the_best_tool_is_inferred(defs, args, n - 1);
        assert(tool_shape(defs[n - 1]) is Some);
        let before = best_tool(defs, args, n - 1)->0;
        let now = best_tool(defs, args, n)->0;
        let score = tool_score(args, tool_shape(defs[n - 1])->0);
        if score > 0 && (before is None || score > (before->0).1) {
            assert(tool_shape(defs[n - 1])->0.name == (now->0).0);
        } else if before is Some {
            let i = choose|i: int|
                0 <= i < n - 1 && tool_shape(#[trigger] defs[i])->0.name == (before->0).0
                    && tool_score(args, tool_shape(defs[i])->0) == (before->0).1 && forall|k: int|
                    0 <= k < i ==> tool_score(args, tool_shape(#[trigger] defs[k])->0)
                        < (before->0).1;
            assert(tool_shape(defs[i])->0.name == (now->0).0);
        }
    }
}

/// A score counts three for each argument that is required, one for each that is
/// optional and three against each that is unknown, and one against each required
/// parameter that is missing.
pub proof fn scores_count_the_arguments(args: Members, t: ToolShape, n: int)
    requires
        0 <= n < args.len(),
    ensures
        ({
            let k = args[n].0;
            let gain = keys_points(args, t.required, t.props, n + 1) - keys_points(
                args,
                t.required,
                t.props,
                n,
            );
            let known = exists|i: int| 0 <= i < t.props.len() && (#[trigger] t.props[i]).0 == k;
            &&& t.required.contains(k) ==> gain == 3
            &&& !t.required.contains(k) && known ==> gain == 1
            &&& !t.required.contains(k) && !known ==> gain == -3
        }),
        keys_points(args, t.required, t.props, 0) == 0,
{
    crate::json_model::lemma_key_index(t.props, args[n].0, 0);
    let at = crate::json_model::key_index(t.props, args[n].0, 0);
    if at < t.props.len() {
        assert(t.props[at].0 == args[n].0);
    }
}

/// A required parameter that no argument gives costs one.
pub proof fn missing_parameters_cost(args: Members, required: Seq<Seq<char>>, n: int)
    requires
        0 <= n < required.len(),
    ensures
        missing_count(required, args, n + 1) - missing_count(required, args, n) == if (exists|
            i: int,
        |
            0 <= i < args.len() && (#[trigger] args[i]).0 == required[n]) {
            0int
        } else {
            1int
        },
        missing_count(required, args, 0) == 0,
{
    crate::json_model::lemma_key_index(args, required[n], 0);
    let at = crate::json_model::key_index(args, required[n], 0);
    if at < args.len() {
        assert(args[at].0 == required[n]);
    }
}

/// A tool is known by its definition: its name, its parameters and which of them are
/// required.
pub proof fn tools_are_known_by_their_definition(def: JsonView, i: int)
    requires
        def.get("function"@) is Some,
        def.get("function"@)->0.str_at("name"@) is Some,
        def.get("function"@)->0.get("parameters"@) is Some,
        def.get("function"@)->0.get("parameters"@)->0.get("properties"@) is Some,
        def.get("function"@)->0.get("parameters"@)->0.get("properties"@)->0 is Object,
        def.get("function"@)->0.get("parameters"@)->0.array_at("required"@) is Some,
        ({
            let r = def.get("function"@)->0.get("parameters"@)->0.array_at("required"@)->0;
            forall|k: int| 0 <= k < r.len() ==> (#[trigger] r[k]) is Str
        }),
    ensures
        ({
            let func = def.get("function"@)->0;
            let params = func.get("parameters"@)->0;
            let r = params.array_at("required"@)->0;
            let t = tool_shape(def);
            &&& t is Some
            &&& t->0.name == func.str_at("name"@)->0
            &&& t->0.props == params.get("properties"@)->0->Object_0
            &&& t->0.required.len() == r.len()
            &&& 0 <= i < r.len() ==> t->0.required[i] == r[i]->Str_0
        }),
{
    let r = def.get("function"@)->0.get("parameters"@)->0.array_at("required"@)->0;
    lemma_texts(r, r.len() as int);
}

proof fn lemma_texts(list: Seq<JsonView>, n: int)
    requires
        0 <= n <= list.len(),
        forall|k: int| 0 <= k < list.len() ==> (#[trigger] list[k]) is Str,
    ensures
        crate::compat_resilience::texts_among(list, n).len() == n,
        forall|k: int|
            0 <= k < n ==> #[trigger] crate::compat_resilience::texts_among(list, n)[k]
                == list[k]->Str_0,
    decreases n,
{
    if n > 0 {
        lemma_texts(list, n - 1);
        assert(list[n - 1] is Str);
    }
}

// ---------------------------------------------------------------------------
// What is filled in
// ---------------------------------------------------------------------------

/// Every call keeps its name, its identifier, its arguments and its place; only what is
/// empty is filled in. A missing name is that of the call before, or the one inferred.
pub proof fn calls_keep_what_they_have(
    calls: Seq<ToolCallView>,
    readings: Seq<Reading>,
    defs: Seq<JsonView>,
    n: int,
    i: int,
)
    requires
        0 <= i < n <= calls.len(),
    ensures
        ({
            let out = filled_calls(calls, readings, defs, n);
            &&& out.len() == n
            &&& out[i].arguments == calls[i].arguments
            &&& out[i].tool_type == calls[i].tool_type
            &&& out[i].thought_signature == calls[i].thought_signature
            &&& calls[i].id.len() > 0 ==> out[i].id == calls[i].id
            &&& calls[i].name.len() > 0 ==> out[i].name == calls[i].name
            &&& calls[i].name.len() == 0 && i > 0 && out[i - 1].name.len() > 0 ==> out[i].name
                == out[i - 1].name
            &&& calls[i].name.len() == 0 && (i == 0 || out[i - 1].name.len() == 0) ==> {
                let found = inferred_tool(
                    defs,
                    match readings[i] {
                        Reading::Value(v) => v,
                        Reading::Malformed(_) => JsonView::Null,
                    },
                );
                out[i].name == match found {
                    Some(name) => name,
                    None => Seq::empty(),
                }
            }
        }),
    decreases n,
{
    lemma_filled(calls, readings, defs, n);
    lemma_filled(calls, readings, defs, n - 1);
    if i < n - 1 {
        calls_keep_what_they_have(calls, readings, defs, n - 1, i);
        let out = filled_calls(calls, readings, defs, n);
        let before = filled_calls(calls, readings, defs, n - 1);
        assert(out[i] == before[i]);
        if i > 0 {
            assert(out[i - 1] == before[i - 1]);
        }
    }
}

proof fn lemma_filled(
    calls: Seq<ToolCallView>,
    readings: Seq<Reading>,
    defs: Seq<JsonView>,
    n: int,
)
    requires
        0 <= n <= calls.len(),
    ensures
        filled_calls(calls, readings, defs, n).len() == n,
    decreases n,
{
    if n > 0 {
        lemma_filled(calls, readings, defs, n - 1);
    }
}

/// A call that has a name and arguments that can be read is not left out, and the order
/// of the calls stays.
pub proof fn usable_calls_are_kept(
    calls: Seq<ToolCallView>,
    readings: Seq<Reading>,
    n: int,
)
    requires
        0 < n <= calls.len(),
    ensures
        usable_calls(calls, readings, n) == if calls[n - 1].name.len() > 0 && readings[n - 1]
            is Value {
            usable_calls(calls, readings, n - 1) + seq![calls[n - 1]]
        } else {
            usable_calls(calls, readings, n - 1)
        },
        usable_calls(calls, readings, 0).len() == 0,
{
    assert(usable_calls(calls, readings, n - 1).push(calls[n - 1]) =~= usable_calls(
        calls,
        readings,
        n - 1,
    ) + seq![calls[n - 1]]);
}

/// A call whose name and arguments stand at the top is read as if they stood where they
/// belong; the rest of it stays.
pub proof fn flat_calls_are_wrapped(call: JsonView, key: Seq<char>)
    requires
        call is Object,
        ascending(call->Object_0),
        call.get("function"@) is None,
        call.get("name"@) is Some,
        call.get("arguments"@) is Some,
        key != "function"@,
        key != "name"@,
        key != "arguments"@,
    ensures
        ({
            let out = wrapped_call(call);
            &&& out.get("function"@) is Some
            &&& out.get("function"@)->0.get("name"@) == call.get("name"@)
            &&& out.get("function"@)->0.get("arguments"@) == call.get("arguments"@)
            &&& out.get(key) == call.get(key)
        }),
{
    lemma_keys();
    let m = call->Object_0;
    let a = call.without("name"@);
    lemma_drop_member(m, "name"@, key);
    lemma_drop_member(m, "name"@, "arguments"@);
    lemma_drop_member(a->Object_0, "arguments"@, key);
    assert(a.get("arguments"@) == call.get("arguments"@));
    assert(a.get(key) == call.get(key));
    assert(a.without("arguments"@).get(key) == call.get(key));
}

/// Arguments given as text are read as JSON; any other value is taken as it is.
pub proof fn arguments_are_read(s: Seq<char>, v: JsonView)
    ensures
        argument_reading(JsonView::Str(s)) == crate::json_text::json_read(s),
        !(v is Str) ==> argument_reading(v) == Reading::Value(v),
{
}

} // verus!
