//! Members of JSON objects in proofs: what a member is after others were set, and
//! that the names in use differ.

use vstd::prelude::*;
use vstd::string::*;

use crate::json_model::{
    ascending, drop_member, empty_object, key_index, lemma_empty_get, lemma_key_index, lemma_with,
    member, text_before, JsonView, Members,
};

verus! {

/// Setting a member gives it its value and leaves the others alone.
pub broadcast proof fn lemma_with_get(j: JsonView, k: Seq<char>, v: JsonView, o: Seq<char>)
    requires
        j is Object,
    ensures
        #[trigger] j.with(k, v).get(o) == if o == k {
            Some(v)
        } else {
            j.get(o)
        },
{
    lemma_with(j, k, v);
}

/// The empty object has no member.
pub broadcast proof fn lemma_nothing_in_empty(k: Seq<char>)
    ensures
        #[trigger] empty_object().get(k) is None,
{
    lemma_empty_get(k);
}

proof fn lemma_not_before_itself(k: Seq<char>, i: int)
    ensures
        !text_before(k, k, i),
    decreases k.len() - i,
{
    if 0 <= i < k.len() {
        lemma_not_before_itself(k, i + 1);
    }
}

/// Where the names are in order, a member that is taken out is gone.
pub proof fn lemma_dropped(m: Members, k: Seq<char>)
    requires
        ascending(m),
    ensures
        member(drop_member(m, k), k) is None,
{
    lemma_key_index(m, k, 0);
    let n = drop_member(m, k);
    lemma_key_index(n, k, 0);
    let i = key_index(m, k, 0);
    let j = key_index(n, k, 0);
    if i < m.len() && j < n.len() {
        lemma_not_before_itself(k, 0);
        if j < i {
            assert(n[j] == m[j]);
        } else {
            assert(n[j] == m[j + 1]);
            assert(text_before(m[i].0, m[j + 1].0, 0));
        }
    }
}

pub broadcast group group_members {
    lemma_with_get,
    lemma_nothing_in_empty,
}

/// What tells a name apart: its length and its first, middle and last character.
pub closed spec fn key_code(s: Seq<char>) -> (int, char, char, char) {
    (s.len() as int, s[0], s[s.len() as int / 2], s.last())
}

/// The names of members and the texts that requests, events and sessions use are told
/// apart by their codes.
pub proof fn lemma_keys()
    ensures
        key_code("model"@) == (5int, 'm', 'd', 'l'),
        key_code("stream"@) == (6int, 's', 'e', 'm'),
        key_code("max_tokens"@) == (10int, 'm', 'o', 's'),
        key_code("max_completion_tokens"@) == (21int, 'm', 't', 's'),
        key_code("max_output_tokens"@) == (17int, 'm', 'u', 's'),
        key_code("messages"@) == (8int, 'm', 'a', 's'),
        key_code("tools"@) == (5int, 't', 'o', 's'),
        key_code("stream_options"@) == (14int, 's', 'o', 's'),
        key_code("include_usage"@) == (13int, 'i', 'e', 'e'),
        key_code("instructions"@) == (12int, 'i', 'c', 's'),
        key_code("input"@) == (5int, 'i', 'p', 't'),
        key_code("options"@) == (7int, 'o', 'i', 's'),
        key_code("num_predict"@) == (11int, 'n', 'r', 't'),
        key_code("system"@) == (6int, 's', 't', 'm'),
        key_code("type"@) == (4int, 't', 'p', 'e'),
        key_code("function"@) == (8int, 'f', 't', 'n'),
        key_code("name"@) == (4int, 'n', 'm', 'e'),
        key_code("description"@) == (11int, 'd', 'i', 'n'),
        key_code("parameters"@) == (10int, 'p', 'e', 's'),
        key_code("input_schema"@) == (12int, 'i', 's', 'a'),
        key_code("role"@) == (4int, 'r', 'l', 'e'),
        key_code("content"@) == (7int, 'c', 't', 't'),
        key_code("reasoning_content"@) == (17int, 'r', 'g', 't'),
        key_code("reasoning"@) == (9int, 'r', 'o', 'g'),
        key_code("tool_calls"@) == (10int, 't', 'c', 's'),
        key_code("tool_call_id"@) == (12int, 't', 'a', 'd'),
        key_code("tool_name"@) == (9int, 't', '_', 'e'),
        key_code("id"@) == (2int, 'i', 'd', 'd'),
        key_code("arguments"@) == (9int, 'a', 'm', 's'),
        key_code("thought_signature"@) == (17int, 't', 's', 'e'),
        key_code("message"@) == (7int, 'm', 's', 'e'),
        key_code("choices"@) == (7int, 'c', 'i', 's'),
        key_code("delta"@) == (5int, 'd', 'l', 'a'),
        key_code("text"@) == (4int, 't', 'x', 't'),
        key_code("thinking"@) == (8int, 't', 'k', 'g'),
        key_code("partial_json"@) == (12int, 'p', 'l', 'n'),
        key_code("index"@) == (5int, 'i', 'd', 'x'),
        key_code("text_delta"@) == (10int, 't', 'd', 'a'),
        key_code("thinking_delta"@) == (14int, 't', 'g', 'a'),
        key_code("input_json_delta"@) == (16int, 'i', 'o', 'a'),
        key_code("content_block"@) == (13int, 'c', 't', 'k'),
        key_code("content_block_delta"@) == (19int, 'c', 'l', 'a'),
        key_code("content_block_start"@) == (19int, 'c', 'l', 't'),
        key_code("tool_use"@) == (8int, 't', '_', 'e'),
        key_code("message_start"@) == (13int, 'm', 'e', 't'),
        key_code("message_delta"@) == (13int, 'm', 'e', 'a'),
        key_code("usage"@) == (5int, 'u', 'a', 'e'),
        key_code("user"@) == (4int, 'u', 'e', 'r'),
        key_code("assistant"@) == (9int, 'a', 's', 't'),
        key_code("tool"@) == (4int, 't', 'o', 'l'),
        key_code("tool_result"@) == (11int, 't', 'r', 't'),
        key_code("tool_use_id"@) == (11int, 't', 'u', 'd'),
        key_code("image_url"@) == (9int, 'i', 'e', 'l'),
        key_code("url"@) == (3int, 'u', 'r', 'l'),
        key_code("input_audio"@) == (11int, 'i', '_', 'o'),
        key_code("data"@) == (4int, 'd', 't', 'a'),
        key_code("format"@) == (6int, 'f', 'm', 't'),
        key_code("document"@) == (8int, 'd', 'm', 't'),
        key_code("source"@) == (6int, 's', 'r', 'e'),
        key_code("media_type"@) == (10int, 'm', '_', 'e'),
        key_code("base64"@) == (6int, 'b', 'e', '4'),
        key_code("file"@) == (4int, 'f', 'l', 'e'),
        key_code("file_data"@) == (9int, 'f', '_', 'a'),
        key_code("image"@) == (5int, 'i', 'a', 'e'),
        key_code("images"@) == (6int, 'i', 'g', 's'),
        key_code("call_id"@) == (7int, 'c', 'l', 'd'),
        key_code("output"@) == (6int, 'o', 'p', 't'),
        key_code("function_call"@) == (13int, 'f', 'o', 'l'),
        key_code("function_call_output"@) == (20int, 'f', 'a', 't'),
        key_code("input_text"@) == (10int, 'i', '_', 't'),
        key_code("output_text"@) == (11int, 'o', 't', 't'),
        key_code("input_image"@) == (11int, 'i', '_', 'e'),
        key_code("input_file"@) == (10int, 'i', '_', 'e'),
        key_code("response"@) == (8int, 'r', 'o', 'e'),
        key_code("item"@) == (4int, 'i', 'e', 'm'),
        key_code("status"@) == (6int, 's', 't', 's'),
        key_code("output_index"@) == (12int, 'o', '_', 'x'),
        key_code("response.output_text.delta"@) == (26int, 'r', 'u', 'a'),
        key_code("response.refusal.delta"@) == (22int, 'r', 'f', 'a'),
        key_code("response.reasoning_summary_text.delta"@) == (37int, 'r', '_', 'a'),
        key_code("response.reasoning_text.delta"@) == (29int, 'r', 'n', 'a'),
        key_code("response.output_item.added"@) == (26int, 'r', 'u', 'd'),
        key_code("response.output_item.done"@) == (25int, 'r', 'p', 'e'),
        key_code("response.completed"@) == (18int, 'r', 'c', 'd'),
        key_code("response.incomplete"@) == (19int, 'r', 'i', 'e'),
        key_code("finish_reason"@) == (13int, 'f', '_', 'n'),
        key_code("incomplete_details"@) == (18int, 'i', 'e', 's'),
        key_code("reason"@) == (6int, 'r', 's', 'n'),
        key_code("prompt_tokens"@) == (13int, 'p', '_', 's'),
        key_code("completion_tokens"@) == (17int, 'c', 'o', 's'),
        key_code("prompt_tokens_details"@) == (21int, 'p', 'e', 's'),
        key_code("completion_tokens_details"@) == (25int, 'c', 'o', 's'),
        key_code("cached_tokens"@) == (13int, 'c', '_', 's'),
        key_code("cache_creation_tokens"@) == (21int, 'c', 't', 's'),
        key_code("audio_tokens"@) == (12int, 'a', 't', 's'),
        key_code("reasoning_tokens"@) == (16int, 'r', 'g', 's'),
        key_code("input_tokens"@) == (12int, 'i', 't', 's'),
        key_code("output_tokens"@) == (13int, 'o', '_', 's'),
        key_code("cache_read_input_tokens"@) == (23int, 'c', 'i', 's'),
        key_code("cache_creation_input_tokens"@) == (27int, 'c', 'n', 's'),
        key_code("input_tokens_details"@) == (20int, 'i', 'n', 's'),
        key_code("output_tokens_details"@) == (21int, 'o', 'e', 's'),
        key_code("done"@) == (4int, 'd', 'n', 'e'),
        key_code("prompt_eval_count"@) == (17int, 'p', 'v', 't'),
        key_code("eval_count"@) == (10int, 'e', 'c', 't'),
        key_code("path"@) == (4int, 'p', 't', 'h'),
        key_code("attach_type"@) == (11int, 'a', 'h', 'e'),
        key_code("page_range"@) == (10int, 'p', 'r', 'e'),
        key_code("attached_files"@) == (14int, 'a', 'd', 's'),
        key_code("session_id"@) == (10int, 's', 'o', 'd'),
        key_code("mime"@) == (4int, 'm', 'm', 'e'),
        key_code("Image"@) == (5int, 'I', 'a', 'e'),
        key_code("Audio"@) == (5int, 'A', 'd', 'o'),
        key_code("Document"@) == (8int, 'D', 'm', 't'),
        key_code("Text"@) == (4int, 'T', 'x', 't'),
{
    reveal_strlit("model");
    assert("model"@.len() == 5);
    assert("model"@[0] == 'm');
    assert("model"@[2] == 'd');
    assert("model"@[4] == 'l');
    reveal_strlit("stream");
    assert("stream"@.len() == 6);
    assert("stream"@[0] == 's');
    assert("stream"@[3] == 'e');
    assert("stream"@[5] == 'm');
    reveal_strlit("max_tokens");
    assert("max_tokens"@.len() == 10);
    assert("max_tokens"@[0] == 'm');
    assert("max_tokens"@[5] == 'o');
    assert("max_tokens"@[9] == 's');
    reveal_strlit("max_completion_tokens");
    assert("max_completion_tokens"@.len() == 21);
    assert("max_completion_tokens"@[0] == 'm');
    assert("max_completion_tokens"@[10] == 't');
    assert("max_completion_tokens"@[20] == 's');
    reveal_strlit("max_output_tokens");
    assert("max_output_tokens"@.len() == 17);
    assert("max_output_tokens"@[0] == 'm');
    assert("max_output_tokens"@[8] == 'u');
    assert("max_output_tokens"@[16] == 's');
    reveal_strlit("messages");
    assert("messages"@.len() == 8);
    assert("messages"@[0] == 'm');
    assert("messages"@[4] == 'a');
    assert("messages"@[7] == 's');
    reveal_strlit("tools");
    assert("tools"@.len() == 5);
    assert("tools"@[0] == 't');
    assert("tools"@[2] == 'o');
    assert("tools"@[4] == 's');
    reveal_strlit("stream_options");
    assert("stream_options"@.len() == 14);
    assert("stream_options"@[0] == 's');
    assert("stream_options"@[7] == 'o');
    assert("stream_options"@[13] == 's');
    reveal_strlit("include_usage");
    assert("include_usage"@.len() == 13);
    assert("include_usage"@[0] == 'i');
    assert("include_usage"@[6] == 'e');
    assert("include_usage"@[12] == 'e');
    reveal_strlit("instructions");
    assert("instructions"@.len() == 12);
    assert("instructions"@[0] == 'i');
    assert("instructions"@[6] == 'c');
    assert("instructions"@[11] == 's');
    reveal_strlit("input");
    assert("input"@.len() == 5);
    assert("input"@[0] == 'i');
    assert("input"@[2] == 'p');
    assert("input"@[4] == 't');
    reveal_strlit("options");
    assert("options"@.len() == 7);
    assert("options"@[0] == 'o');
    assert("options"@[3] == 'i');
    assert("options"@[6] == 's');
    reveal_strlit("num_predict");
    assert("num_predict"@.len() == 11);
    assert("num_predict"@[0] == 'n');
    assert("num_predict"@[5] == 'r');
    assert("num_predict"@[10] == 't');
    reveal_strlit("system");
    assert("system"@.len() == 6);
    assert("system"@[0] == 's');
    assert("system"@[3] == 't');
    assert("system"@[5] == 'm');
    reveal_strlit("type");
    assert("type"@.len() == 4);
    assert("type"@[0] == 't');
    assert("type"@[2] == 'p');
    assert("type"@[3] == 'e');
    reveal_strlit("function");
    assert("function"@.len() == 8);
    assert("function"@[0] == 'f');
    assert("function"@[4] == 't');
    assert("function"@[7] == 'n');
    reveal_strlit("name");
    assert("name"@.len() == 4);
    assert("name"@[0] == 'n');
    assert("name"@[2] == 'm');
    assert("name"@[3] == 'e');
    reveal_strlit("description");
    assert("description"@.len() == 11);
    assert("description"@[0] == 'd');
    assert("description"@[5] == 'i');
    assert("description"@[10] == 'n');
    reveal_strlit("parameters");
    assert("parameters"@.len() == 10);
    assert("parameters"@[0] == 'p');
    assert("parameters"@[5] == 'e');
    assert("parameters"@[9] == 's');
    reveal_strlit("input_schema");
    assert("input_schema"@.len() == 12);
    assert("input_schema"@[0] == 'i');
    assert("input_schema"@[6] == 's');
    assert("input_schema"@[11] == 'a');
    reveal_strlit("role");
    assert("role"@.len() == 4);
    assert("role"@[0] == 'r');
    assert("role"@[2] == 'l');
    assert("role"@[3] == 'e');
    reveal_strlit("content");
    assert("content"@.len() == 7);
    assert("content"@[0] == 'c');
    assert("content"@[3] == 't');
    assert("content"@[6] == 't');
    reveal_strlit("reasoning_content");
    assert("reasoning_content"@.len() == 17);
    assert("reasoning_content"@[0] == 'r');
    assert("reasoning_content"@[8] == 'g');
    assert("reasoning_content"@[16] == 't');
    reveal_strlit("reasoning");
    assert("reasoning"@.len() == 9);
    assert("reasoning"@[0] == 'r');
    assert("reasoning"@[4] == 'o');
    assert("reasoning"@[8] == 'g');
    reveal_strlit("tool_calls");
    assert("tool_calls"@.len() == 10);
    assert("tool_calls"@[0] == 't');
    assert("tool_calls"@[5] == 'c');
    assert("tool_calls"@[9] == 's');
    reveal_strlit("tool_call_id");
    assert("tool_call_id"@.len() == 12);
    assert("tool_call_id"@[0] == 't');
    assert("tool_call_id"@[6] == 'a');
    assert("tool_call_id"@[11] == 'd');
    reveal_strlit("tool_name");
    assert("tool_name"@.len() == 9);
    assert("tool_name"@[0] == 't');
    assert("tool_name"@[4] == '_');
    assert("tool_name"@[8] == 'e');
    reveal_strlit("id");
    assert("id"@.len() == 2);
    assert("id"@[0] == 'i');
    assert("id"@[1] == 'd');
    reveal_strlit("arguments");
    assert("arguments"@.len() == 9);
    assert("arguments"@[0] == 'a');
    assert("arguments"@[4] == 'm');
    assert("arguments"@[8] == 's');
    reveal_strlit("thought_signature");
    assert("thought_signature"@.len() == 17);
    assert("thought_signature"@[0] == 't');
    assert("thought_signature"@[8] == 's');
    assert("thought_signature"@[16] == 'e');
    reveal_strlit("message");
    assert("message"@.len() == 7);
    assert("message"@[0] == 'm');
    assert("message"@[3] == 's');
    assert("message"@[6] == 'e');
    reveal_strlit("choices");
    assert("choices"@.len() == 7);
    assert("choices"@[0] == 'c');
    assert("choices"@[3] == 'i');
    assert("choices"@[6] == 's');
    reveal_strlit("delta");
    assert("delta"@.len() == 5);
    assert("delta"@[0] == 'd');
    assert("delta"@[2] == 'l');
    assert("delta"@[4] == 'a');
    reveal_strlit("text");
    assert("text"@.len() == 4);
    assert("text"@[0] == 't');
    assert("text"@[2] == 'x');
    assert("text"@[3] == 't');
    reveal_strlit("thinking");
    assert("thinking"@.len() == 8);
    assert("thinking"@[0] == 't');
    assert("thinking"@[4] == 'k');
    assert("thinking"@[7] == 'g');
    reveal_strlit("partial_json");
    assert("partial_json"@.len() == 12);
    assert("partial_json"@[0] == 'p');
    assert("partial_json"@[6] == 'l');
    assert("partial_json"@[11] == 'n');
    reveal_strlit("index");
    assert("index"@.len() == 5);
    assert("index"@[0] == 'i');
    assert("index"@[2] == 'd');
    assert("index"@[4] == 'x');
    reveal_strlit("text_delta");
    assert("text_delta"@.len() == 10);
    assert("text_delta"@[0] == 't');
    assert("text_delta"@[5] == 'd');
    assert("text_delta"@[9] == 'a');
    reveal_strlit("thinking_delta");
    assert("thinking_delta"@.len() == 14);
    assert("thinking_delta"@[0] == 't');
    assert("thinking_delta"@[7] == 'g');
    assert("thinking_delta"@[13] == 'a');
    reveal_strlit("input_json_delta");
    assert("input_json_delta"@.len() == 16);
    assert("input_json_delta"@[0] == 'i');
    assert("input_json_delta"@[8] == 'o');
    assert("input_json_delta"@[15] == 'a');
    reveal_strlit("content_block");
    assert("content_block"@.len() == 13);
    assert("content_block"@[0] == 'c');
    assert("content_block"@[6] == 't');
    assert("content_block"@[12] == 'k');
    reveal_strlit("content_block_delta");
    assert("content_block_delta"@.len() == 19);
    assert("content_block_delta"@[0] == 'c');
    assert("content_block_delta"@[9] == 'l');
    assert("content_block_delta"@[18] == 'a');
    reveal_strlit("content_block_start");
    assert("content_block_start"@.len() == 19);
    assert("content_block_start"@[0] == 'c');
    assert("content_block_start"@[9] == 'l');
    assert("content_block_start"@[18] == 't');
    reveal_strlit("tool_use");
    assert("tool_use"@.len() == 8);
    assert("tool_use"@[0] == 't');
    assert("tool_use"@[4] == '_');
    assert("tool_use"@[7] == 'e');
    reveal_strlit("message_start");
    assert("message_start"@.len() == 13);
    assert("message_start"@[0] == 'm');
    assert("message_start"@[6] == 'e');
    assert("message_start"@[12] == 't');
    reveal_strlit("message_delta");
    assert("message_delta"@.len() == 13);
    assert("message_delta"@[0] == 'm');
    assert("message_delta"@[6] == 'e');
    assert("message_delta"@[12] == 'a');
    reveal_strlit("usage");
    assert("usage"@.len() == 5);
    assert("usage"@[0] == 'u');
    assert("usage"@[2] == 'a');
    assert("usage"@[4] == 'e');
    reveal_strlit("user");
    assert("user"@.len() == 4);
    assert("user"@[0] == 'u');
    assert("user"@[2] == 'e');
    assert("user"@[3] == 'r');
    reveal_strlit("assistant");
    assert("assistant"@.len() == 9);
    assert("assistant"@[0] == 'a');
    assert("assistant"@[4] == 's');
    assert("assistant"@[8] == 't');
    reveal_strlit("tool");
    assert("tool"@.len() == 4);
    assert("tool"@[0] == 't');
    assert("tool"@[2] == 'o');
    assert("tool"@[3] == 'l');
    reveal_strlit("tool_result");
    assert("tool_result"@.len() == 11);
    assert("tool_result"@[0] == 't');
    assert("tool_result"@[5] == 'r');
    assert("tool_result"@[10] == 't');
    reveal_strlit("tool_use_id");
    assert("tool_use_id"@.len() == 11);
    assert("tool_use_id"@[0] == 't');
    assert("tool_use_id"@[5] == 'u');
    assert("tool_use_id"@[10] == 'd');
    reveal_strlit("image_url");
    assert("image_url"@.len() == 9);
    assert("image_url"@[0] == 'i');
    assert("image_url"@[4] == 'e');
    assert("image_url"@[8] == 'l');
    reveal_strlit("url");
    assert("url"@.len() == 3);
    assert("url"@[0] == 'u');
    assert("url"@[1] == 'r');
    assert("url"@[2] == 'l');
    reveal_strlit("input_audio");
    assert("input_audio"@.len() == 11);
    assert("input_audio"@[0] == 'i');
    assert("input_audio"@[5] == '_');
    assert("input_audio"@[10] == 'o');
    reveal_strlit("data");
    assert("data"@.len() == 4);
    assert("data"@[0] == 'd');
    assert("data"@[2] == 't');
    assert("data"@[3] == 'a');
    reveal_strlit("format");
    assert("format"@.len() == 6);
    assert("format"@[0] == 'f');
    assert("format"@[3] == 'm');
    assert("format"@[5] == 't');
    reveal_strlit("document");
    assert("document"@.len() == 8);
    assert("document"@[0] == 'd');
    assert("document"@[4] == 'm');
    assert("document"@[7] == 't');
    reveal_strlit("source");
    assert("source"@.len() == 6);
    assert("source"@[0] == 's');
    assert("source"@[3] == 'r');
    assert("source"@[5] == 'e');
    reveal_strlit("media_type");
    assert("media_type"@.len() == 10);
    assert("media_type"@[0] == 'm');
    assert("media_type"@[5] == '_');
    assert("media_type"@[9] == 'e');
    reveal_strlit("base64");
    assert("base64"@.len() == 6);
    assert("base64"@[0] == 'b');
    assert("base64"@[3] == 'e');
    assert("base64"@[5] == '4');
    reveal_strlit("file");
    assert("file"@.len() == 4);
    assert("file"@[0] == 'f');
    assert("file"@[2] == 'l');
    assert("file"@[3] == 'e');
    reveal_strlit("file_data");
    assert("file_data"@.len() == 9);
    assert("file_data"@[0] == 'f');
    assert("file_data"@[4] == '_');
    assert("file_data"@[8] == 'a');
    reveal_strlit("image");
    assert("image"@.len() == 5);
    assert("image"@[0] == 'i');
    assert("image"@[2] == 'a');
    assert("image"@[4] == 'e');
    reveal_strlit("images");
    assert("images"@.len() == 6);
    assert("images"@[0] == 'i');
    assert("images"@[3] == 'g');
    assert("images"@[5] == 's');
    reveal_strlit("call_id");
    assert("call_id"@.len() == 7);
    assert("call_id"@[0] == 'c');
    assert("call_id"@[3] == 'l');
    assert("call_id"@[6] == 'd');
    reveal_strlit("output");
    assert("output"@.len() == 6);
    assert("output"@[0] == 'o');
    assert("output"@[3] == 'p');
    assert("output"@[5] == 't');
    reveal_strlit("function_call");
    assert("function_call"@.len() == 13);
    assert("function_call"@[0] == 'f');
    assert("function_call"@[6] == 'o');
    assert("function_call"@[12] == 'l');
    reveal_strlit("function_call_output");
    assert("function_call_output"@.len() == 20);
    assert("function_call_output"@[0] == 'f');
    assert("function_call_output"@[10] == 'a');
    assert("function_call_output"@[19] == 't');
    reveal_strlit("input_text");
    assert("input_text"@.len() == 10);
    assert("input_text"@[0] == 'i');
    assert("input_text"@[5] == '_');
    assert("input_text"@[9] == 't');
    reveal_strlit("output_text");
    assert("output_text"@.len() == 11);
    assert("output_text"@[0] == 'o');
    assert("output_text"@[5] == 't');
    assert("output_text"@[10] == 't');
    reveal_strlit("input_image");
    assert("input_image"@.len() == 11);
    assert("input_image"@[0] == 'i');
    assert("input_image"@[5] == '_');
    assert("input_image"@[10] == 'e');
    reveal_strlit("input_file");
    assert("input_file"@.len() == 10);
    assert("input_file"@[0] == 'i');
    assert("input_file"@[5] == '_');
    assert("input_file"@[9] == 'e');
    reveal_strlit("response");
    assert("response"@.len() == 8);
    assert("response"@[0] == 'r');
    assert("response"@[4] == 'o');
    assert("response"@[7] == 'e');
    reveal_strlit("item");
    assert("item"@.len() == 4);
    assert("item"@[0] == 'i');
    assert("item"@[2] == 'e');
    assert("item"@[3] == 'm');
    reveal_strlit("status");
    assert("status"@.len() == 6);
    assert("status"@[0] == 's');
    assert("status"@[3] == 't');
    assert("status"@[5] == 's');
    reveal_strlit("output_index");
    assert("output_index"@.len() == 12);
    assert("output_index"@[0] == 'o');
    assert("output_index"@[6] == '_');
    assert("output_index"@[11] == 'x');
    reveal_strlit("response.output_text.delta");
    assert("response.output_text.delta"@.len() == 26);
    assert("response.output_text.delta"@[0] == 'r');
    assert("response.output_text.delta"@[13] == 'u');
    assert("response.output_text.delta"@[25] == 'a');
    reveal_strlit("response.refusal.delta");
    assert("response.refusal.delta"@.len() == 22);
    assert("response.refusal.delta"@[0] == 'r');
    assert("response.refusal.delta"@[11] == 'f');
    assert("response.refusal.delta"@[21] == 'a');
    reveal_strlit("response.reasoning_summary_text.delta");
    assert("response.reasoning_summary_text.delta"@.len() == 37);
    assert("response.reasoning_summary_text.delta"@[0] == 'r');
    assert("response.reasoning_summary_text.delta"@[18] == '_');
    assert("response.reasoning_summary_text.delta"@[36] == 'a');
    reveal_strlit("response.reasoning_text.delta");
    assert("response.reasoning_text.delta"@.len() == 29);
    assert("response.reasoning_text.delta"@[0] == 'r');
    assert("response.reasoning_text.delta"@[14] == 'n');
    assert("response.reasoning_text.delta"@[28] == 'a');
    reveal_strlit("response.output_item.added");
    assert("response.output_item.added"@.len() == 26);
    assert("response.output_item.added"@[0] == 'r');
    assert("response.output_item.added"@[13] == 'u');
    assert("response.output_item.added"@[25] == 'd');
    reveal_strlit("response.output_item.done");
    assert("response.output_item.done"@.len() == 25);
    assert("response.output_item.done"@[0] == 'r');
    assert("response.output_item.done"@[12] == 'p');
    assert("response.output_item.done"@[24] == 'e');
    reveal_strlit("response.completed");
    assert("response.completed"@.len() == 18);
    assert("response.completed"@[0] == 'r');
    assert("response.completed"@[9] == 'c');
    assert("response.completed"@[17] == 'd');
    reveal_strlit("response.incomplete");
    assert("response.incomplete"@.len() == 19);
    assert("response.incomplete"@[0] == 'r');
    assert("response.incomplete"@[9] == 'i');
    assert("response.incomplete"@[18] == 'e');
    reveal_strlit("finish_reason");
    assert("finish_reason"@.len() == 13);
    assert("finish_reason"@[0] == 'f');
    assert("finish_reason"@[6] == '_');
    assert("finish_reason"@[12] == 'n');
    reveal_strlit("incomplete_details");
    assert("incomplete_details"@.len() == 18);
    assert("incomplete_details"@[0] == 'i');
    assert("incomplete_details"@[9] == 'e');
    assert("incomplete_details"@[17] == 's');
    reveal_strlit("reason");
    assert("reason"@.len() == 6);
    assert("reason"@[0] == 'r');
    assert("reason"@[3] == 's');
    assert("reason"@[5] == 'n');
    reveal_strlit("prompt_tokens");
    assert("prompt_tokens"@.len() == 13);
    assert("prompt_tokens"@[0] == 'p');
    assert("prompt_tokens"@[6] == '_');
    assert("prompt_tokens"@[12] == 's');
    reveal_strlit("completion_tokens");
    assert("completion_tokens"@.len() == 17);
    assert("completion_tokens"@[0] == 'c');
    assert("completion_tokens"@[8] == 'o');
    assert("completion_tokens"@[16] == 's');
    reveal_strlit("prompt_tokens_details");
    assert("prompt_tokens_details"@.len() == 21);
    assert("prompt_tokens_details"@[0] == 'p');
    assert("prompt_tokens_details"@[10] == 'e');
    assert("prompt_tokens_details"@[20] == 's');
    reveal_strlit("completion_tokens_details");
    assert("completion_tokens_details"@.len() == 25);
    assert("completion_tokens_details"@[0] == 'c');
    assert("completion_tokens_details"@[12] == 'o');
    assert("completion_tokens_details"@[24] == 's');
    reveal_strlit("cached_tokens");
    assert("cached_tokens"@.len() == 13);
    assert("cached_tokens"@[0] == 'c');
    assert("cached_tokens"@[6] == '_');
    assert("cached_tokens"@[12] == 's');
    reveal_strlit("cache_creation_tokens");
    assert("cache_creation_tokens"@.len() == 21);
    assert("cache_creation_tokens"@[0] == 'c');
    assert("cache_creation_tokens"@[10] == 't');
    assert("cache_creation_tokens"@[20] == 's');
    reveal_strlit("audio_tokens");
    assert("audio_tokens"@.len() == 12);
    assert("audio_tokens"@[0] == 'a');
    assert("audio_tokens"@[6] == 't');
    assert("audio_tokens"@[11] == 's');
    reveal_strlit("reasoning_tokens");
    assert("reasoning_tokens"@.len() == 16);
    assert("reasoning_tokens"@[0] == 'r');
    assert("reasoning_tokens"@[8] == 'g');
    assert("reasoning_tokens"@[15] == 's');
    reveal_strlit("input_tokens");
    assert("input_tokens"@.len() == 12);
    assert("input_tokens"@[0] == 'i');
    assert("input_tokens"@[6] == 't');
    assert("input_tokens"@[11] == 's');
    reveal_strlit("output_tokens");
    assert("output_tokens"@.len() == 13);
    assert("output_tokens"@[0] == 'o');
    assert("output_tokens"@[6] == '_');
    assert("output_tokens"@[12] == 's');
    reveal_strlit("cache_read_input_tokens");
    assert("cache_read_input_tokens"@.len() == 23);
    assert("cache_read_input_tokens"@[0] == 'c');
    assert("cache_read_input_tokens"@[11] == 'i');
    assert("cache_read_input_tokens"@[22] == 's');
    reveal_strlit("cache_creation_input_tokens");
    assert("cache_creation_input_tokens"@.len() == 27);
    assert("cache_creation_input_tokens"@[0] == 'c');
    assert("cache_creation_input_tokens"@[13] == 'n');
    assert("cache_creation_input_tokens"@[26] == 's');
    reveal_strlit("input_tokens_details");
    assert("input_tokens_details"@.len() == 20);
    assert("input_tokens_details"@[0] == 'i');
    assert("input_tokens_details"@[10] == 'n');
    assert("input_tokens_details"@[19] == 's');
    reveal_strlit("output_tokens_details");
    assert("output_tokens_details"@.len() == 21);
    assert("output_tokens_details"@[0] == 'o');
    assert("output_tokens_details"@[10] == 'e');
    assert("output_tokens_details"@[20] == 's');
    reveal_strlit("done");
    assert("done"@.len() == 4);
    assert("done"@[0] == 'd');
    assert("done"@[2] == 'n');
    assert("done"@[3] == 'e');
    reveal_strlit("prompt_eval_count");
    assert("prompt_eval_count"@.len() == 17);
    assert("prompt_eval_count"@[0] == 'p');
    assert("prompt_eval_count"@[8] == 'v');
    assert("prompt_eval_count"@[16] == 't');
    reveal_strlit("eval_count");
    assert("eval_count"@.len() == 10);
    assert("eval_count"@[0] == 'e');
    assert("eval_count"@[5] == 'c');
    assert("eval_count"@[9] == 't');
    reveal_strlit("path");
    assert("path"@.len() == 4);
    assert("path"@[0] == 'p');
    assert("path"@[2] == 't');
    assert("path"@[3] == 'h');
    reveal_strlit("attach_type");
    assert("attach_type"@.len() == 11);
    assert("attach_type"@[0] == 'a');
    assert("attach_type"@[5] == 'h');
    assert("attach_type"@[10] == 'e');
    reveal_strlit("page_range");
    assert("page_range"@.len() == 10);
    assert("page_range"@[0] == 'p');
    assert("page_range"@[5] == 'r');
    assert("page_range"@[9] == 'e');
    reveal_strlit("attached_files");
    assert("attached_files"@.len() == 14);
    assert("attached_files"@[0] == 'a');
    assert("attached_files"@[7] == 'd');
    assert("attached_files"@[13] == 's');
    reveal_strlit("session_id");
    assert("session_id"@.len() == 10);
    assert("session_id"@[0] == 's');
    assert("session_id"@[5] == 'o');
    assert("session_id"@[9] == 'd');
    reveal_strlit("mime");
    assert("mime"@.len() == 4);
    assert("mime"@[0] == 'm');
    assert("mime"@[2] == 'm');
    assert("mime"@[3] == 'e');
    reveal_strlit("Image");
    assert("Image"@.len() == 5);
    assert("Image"@[0] == 'I');
    assert("Image"@[2] == 'a');
    assert("Image"@[4] == 'e');
    reveal_strlit("Audio");
    assert("Audio"@.len() == 5);
    assert("Audio"@[0] == 'A');
    assert("Audio"@[2] == 'd');
    assert("Audio"@[4] == 'o');
    reveal_strlit("Document");
    assert("Document"@.len() == 8);
    assert("Document"@[0] == 'D');
    assert("Document"@[4] == 'm');
    assert("Document"@[7] == 't');
    reveal_strlit("Text");
    assert("Text"@.len() == 4);
    assert("Text"@[0] == 'T');
    assert("Text"@[2] == 'x');
    assert("Text"@[3] == 't');
}

/// The names that the knowledge base uses are told apart by their codes.
pub proof fn lemma_kb_keys()
    ensures
        key_code("error"@) == (5int, 'e', 'r', 'r'),
        key_code("message"@) == (7int, 'm', 's', 'e'),
        key_code("denied"@) == (6int, 'd', 'i', 'd'),
        key_code("documents"@) == (9int, 'd', 'm', 's'),
        key_code("document_units"@) == (14int, 'd', 't', 's'),
        key_code("entities"@) == (8int, 'e', 't', 's'),
        key_code("claims"@) == (6int, 'c', 'i', 's'),
        key_code("relations"@) == (9int, 'r', 't', 's'),
        key_code("conditions"@) == (10int, 'c', 't', 's'),
        key_code("events"@) == (6int, 'e', 'n', 's'),
        key_code("evidence"@) == (8int, 'e', 'e', 'e'),
        key_code("canonical_entities"@) == (18int, 'c', '_', 's'),
        key_code("attributes"@) == (10int, 'a', 'b', 's'),
        key_code("annotations"@) == (11int, 'a', 'a', 's'),
        key_code("obsolete"@) == (8int, 'o', 'l', 'e'),
        key_code("analysis_status"@) == (15int, 'a', 's', 's'),
        key_code("analyzed"@) == (8int, 'a', 'y', 'd'),
        key_code("pending"@) == (7int, 'p', 'd', 'g'),
        key_code("analyzing"@) == (9int, 'a', 'y', 'g'),
        key_code("failed"@) == (6int, 'f', 'l', 'd'),
        key_code("status"@) == (6int, 's', 't', 's'),
        key_code("version"@) == (7int, 'v', 's', 'n'),
        key_code("document_updated_at"@) == (19int, 'd', 'u', 't'),
        key_code("document_id"@) == (11int, 'd', 'e', 'd'),
        key_code("size"@) == (4int, 's', 'z', 'e'),
        key_code("mtime"@) == (5int, 'm', 'i', 'e'),
        key_code("file_missing"@) == (12int, 'f', 'i', 'g'),
        key_code("missing_at"@) == (10int, 'm', 'n', 't'),
        key_code("extraction_error"@) == (16int, 'e', 'o', 'r'),
        key_code("ref"@) == (3int, 'r', 'e', 'f'),
        key_code("id"@) == (2int, 'i', 'd', 'd'),
        key_code("name"@) == (4int, 'n', 'm', 'e'),
        key_code("type"@) == (4int, 't', 'p', 'e'),
        key_code("purpose"@) == (7int, 'p', 'p', 'e'),
        key_code("approx_rows"@) == (11int, 'a', 'x', 's'),
{
    reveal_strlit("error");
    assert("error"@.len() == 5);
    assert("error"@[0] == 'e');
    assert("error"@[2] == 'r');
    assert("error"@[4] == 'r');
    reveal_strlit("message");
    assert("message"@.len() == 7);
    assert("message"@[0] == 'm');
    assert("message"@[3] == 's');
    assert("message"@[6] == 'e');
    reveal_strlit("denied");
    assert("denied"@.len() == 6);
    assert("denied"@[0] == 'd');
    assert("denied"@[3] == 'i');
    assert("denied"@[5] == 'd');
    reveal_strlit("documents");
    assert("documents"@.len() == 9);
    assert("documents"@[0] == 'd');
    assert("documents"@[4] == 'm');
    assert("documents"@[8] == 's');
    reveal_strlit("document_units");
    assert("document_units"@.len() == 14);
    assert("document_units"@[0] == 'd');
    assert("document_units"@[7] == 't');
    assert("document_units"@[13] == 's');
    reveal_strlit("entities");
    assert("entities"@.len() == 8);
    assert("entities"@[0] == 'e');
    assert("entities"@[4] == 't');
    assert("entities"@[7] == 's');
    reveal_strlit("claims");
    assert("claims"@.len() == 6);
    assert("claims"@[0] == 'c');
    assert("claims"@[3] == 'i');
    assert("claims"@[5] == 's');
    reveal_strlit("relations");
    assert("relations"@.len() == 9);
    assert("relations"@[0] == 'r');
    assert("relations"@[4] == 't');
    assert("relations"@[8] == 's');
    reveal_strlit("conditions");
    assert("conditions"@.len() == 10);
    assert("conditions"@[0] == 'c');
    assert("conditions"@[5] == 't');
    assert("conditions"@[9] == 's');
    reveal_strlit("events");
    assert("events"@.len() == 6);
    assert("events"@[0] == 'e');
    assert("events"@[3] == 'n');
    assert("events"@[5] == 's');
    reveal_strlit("evidence");
    assert("evidence"@.len() == 8);
    assert("evidence"@[0] == 'e');
    assert("evidence"@[4] == 'e');
    assert("evidence"@[7] == 'e');
    reveal_strlit("canonical_entities");
    assert("canonical_entities"@.len() == 18);
    assert("canonical_entities"@[0] == 'c');
    assert("canonical_entities"@[9] == '_');
    assert("canonical_entities"@[17] == 's');
    reveal_strlit("attributes");
    assert("attributes"@.len() == 10);
    assert("attributes"@[0] == 'a');
    assert("attributes"@[5] == 'b');
    assert("attributes"@[9] == 's');
    reveal_strlit("annotations");
    assert("annotations"@.len() == 11);
    assert("annotations"@[0] == 'a');
    assert("annotations"@[5] == 'a');
    assert("annotations"@[10] == 's');
    reveal_strlit("obsolete");
    assert("obsolete"@.len() == 8);
    assert("obsolete"@[0] == 'o');
    assert("obsolete"@[4] == 'l');
    assert("obsolete"@[7] == 'e');
    reveal_strlit("analysis_status");
    assert("analysis_status"@.len() == 15);
    assert("analysis_status"@[0] == 'a');
    assert("analysis_status"@[7] == 's');
    assert("analysis_status"@[14] == 's');
    reveal_strlit("analyzed");
    assert("analyzed"@.len() == 8);
    assert("analyzed"@[0] == 'a');
    assert("analyzed"@[4] == 'y');
    assert("analyzed"@[7] == 'd');
    reveal_strlit("pending");
    assert("pending"@.len() == 7);
    assert("pending"@[0] == 'p');
    assert("pending"@[3] == 'd');
    assert("pending"@[6] == 'g');
    reveal_strlit("analyzing");
    assert("analyzing"@.len() == 9);
    assert("analyzing"@[0] == 'a');
    assert("analyzing"@[4] == 'y');
    assert("analyzing"@[8] == 'g');
    reveal_strlit("failed");
    assert("failed"@.len() == 6);
    assert("failed"@[0] == 'f');
    assert("failed"@[3] == 'l');
    assert("failed"@[5] == 'd');
    reveal_strlit("status");
    assert("status"@.len() == 6);
    assert("status"@[0] == 's');
    assert("status"@[3] == 't');
    assert("status"@[5] == 's');
    reveal_strlit("version");
    assert("version"@.len() == 7);
    assert("version"@[0] == 'v');
    assert("version"@[3] == 's');
    assert("version"@[6] == 'n');
    reveal_strlit("document_updated_at");
    assert("document_updated_at"@.len() == 19);
    assert("document_updated_at"@[0] == 'd');
    assert("document_updated_at"@[9] == 'u');
    assert("document_updated_at"@[18] == 't');
    reveal_strlit("document_id");
    assert("document_id"@.len() == 11);
    assert("document_id"@[0] == 'd');
    assert("document_id"@[5] == 'e');
    assert("document_id"@[10] == 'd');
    reveal_strlit("size");
    assert("size"@.len() == 4);
    assert("size"@[0] == 's');
    assert("size"@[2] == 'z');
    assert("size"@[3] == 'e');
    reveal_strlit("mtime");
    assert("mtime"@.len() == 5);
    assert("mtime"@[0] == 'm');
    assert("mtime"@[2] == 'i');
    assert("mtime"@[4] == 'e');
    reveal_strlit("file_missing");
    assert("file_missing"@.len() == 12);
    assert("file_missing"@[0] == 'f');
    assert("file_missing"@[6] == 'i');
    assert("file_missing"@[11] == 'g');
    reveal_strlit("missing_at");
    assert("missing_at"@.len() == 10);
    assert("missing_at"@[0] == 'm');
    assert("missing_at"@[5] == 'n');
    assert("missing_at"@[9] == 't');
    reveal_strlit("extraction_error");
    assert("extraction_error"@.len() == 16);
    assert("extraction_error"@[0] == 'e');
    assert("extraction_error"@[8] == 'o');
    assert("extraction_error"@[15] == 'r');
    reveal_strlit("ref");
    assert("ref"@.len() == 3);
    assert("ref"@[0] == 'r');
    assert("ref"@[1] == 'e');
    assert("ref"@[2] == 'f');
    reveal_strlit("id");
    assert("id"@.len() == 2);
    assert("id"@[0] == 'i');
    assert("id"@[1] == 'd');
    reveal_strlit("name");
    assert("name"@.len() == 4);
    assert("name"@[0] == 'n');
    assert("name"@[2] == 'm');
    assert("name"@[3] == 'e');
    reveal_strlit("type");
    assert("type"@.len() == 4);
    assert("type"@[0] == 't');
    assert("type"@[2] == 'p');
    assert("type"@[3] == 'e');
    reveal_strlit("purpose");
    assert("purpose"@.len() == 7);
    assert("purpose"@[0] == 'p');
    assert("purpose"@[3] == 'p');
    assert("purpose"@[6] == 'e');
    reveal_strlit("approx_rows");
    assert("approx_rows"@.len() == 11);
    assert("approx_rows"@[0] == 'a');
    assert("approx_rows"@[5] == 'x');
    assert("approx_rows"@[10] == 's');
}

} // verus!
