//! The words of the dialects, told apart.

use vstd::prelude::*;

verus! {

/// The words of the Anthropic dialect differ from each other.
pub proof fn lemma_anthropic_words()
    ensures
        "id"@.len() == 2,
        "any"@.len() == 3,
        "auto"@.len() == 4 && "auto"@[0] == 'a' && "auto"@[2] == 't',
        "data"@.len() == 4 && "data"@[0] == 'd' && "data"@[2] == 't',
        "name"@.len() == 4 && "name"@[0] == 'n' && "name"@[2] == 'm',
        "none"@.len() == 4 && "none"@[0] == 'n' && "none"@[2] == 'n',
        "role"@.len() == 4 && "role"@[0] == 'r' && "role"@[2] == 'l',
        "text"@.len() == 4 && "text"@[0] == 't' && "text"@[2] == 'x',
        "tool"@.len() == 4 && "tool"@[0] == 't' && "tool"@[2] == 'o',
        "type"@.len() == 4 && "type"@[0] == 't' && "type"@[2] == 'p',
        "user"@.len() == 4 && "user"@[0] == 'u' && "user"@[2] == 'e',
        "delta"@.len() == 5 && "delta"@[0] == 'd' && "delta"@[4] == 'a',
        "image"@.len() == 5 && "image"@[0] == 'i' && "image"@[4] == 'e',
        "index"@.len() == 5 && "index"@[0] == 'i' && "index"@[4] == 'x',
        "input"@.len() == 5 && "input"@[0] == 'i' && "input"@[4] == 't',
        "model"@.len() == 5 && "model"@[0] == 'm' && "model"@[4] == 'l',
        "tools"@.len() == 5 && "tools"@[0] == 't' && "tools"@[4] == 's',
        "top_k"@.len() == 5 && "top_k"@[0] == 't' && "top_k"@[4] == 'k',
        "top_p"@.len() == 5 && "top_p"@[0] == 't' && "top_p"@[4] == 'p',
        "usage"@.len() == 5 && "usage"@[0] == 'u' && "usage"@[4] == 'e',
        "base64"@.len() == 6 && "base64"@[1] == 'a',
        "source"@.len() == 6 && "source"@[1] == 'o',
        "stream"@.len() == 6 && "stream"@[1] == 't',
        "system"@.len() == 6 && "system"@[1] == 'y',
        "content"@.len() == 7 && "content"@[0] == 'c',
        "event: "@.len() == 7 && "event: "@[0] == 'e',
        "message"@.len() == 7 && "message"@[0] == 'm',
        "end_turn"@.len() == 8 && "end_turn"@[0] == 'e',
        "is_error"@.len() == 8 && "is_error"@[0] == 'i',
        "messages"@.len() == 8 && "messages"@[0] == 'm',
        "tool_use"@.len() == 8 && "tool_use"@[0] == 't',
        "].content"@.len() == 9 && "].content"@[1] == '.',
        "anthropic"@.len() == 9 && "anthropic"@[1] == 'n',
        "assistant"@.len() == 9 && "assistant"@[1] == 's',
        "messages["@.len() == 9 && "messages["@[1] == 'e',
        "max_tokens"@.len() == 10 && "max_tokens"@[3] == '_',
        "media_type"@.len() == 10 && "media_type"@[3] == 'i',
        "text_delta"@.len() == 10 && "text_delta"@[3] == 't',
        "description"@.len() == 11 && "description"@[0] == 'd' && "description"@[6] == 'p',
        "stop_reason"@.len() == 11 && "stop_reason"@[0] == 's' && "stop_reason"@[6] == 'e',
        "temperature"@.len() == 11 && "temperature"@[0] == 't' && "temperature"@[6] == 'a',
        "tool_choice"@.len() == 11 && "tool_choice"@[0] == 't' && "tool_choice"@[6] == 'h',
        "tool_result"@.len() == 11 && "tool_result"@[0] == 't' && "tool_result"@[6] == 'e',
        "tool_use_id"@.len() == 11 && "tool_use_id"@[0] == 't' && "tool_use_id"@[6] == 's',
        "input_schema"@.len() == 12 && "input_schema"@[6] == 's',
        "input_tokens"@.len() == 12 && "input_tokens"@[6] == 't',
        "message_stop"@.len() == 12 && "message_stop"@[6] == 'e',
        "partial_json"@.len() == 12 && "partial_json"@[6] == 'l',
        "content_block"@.len() == 13 && "content_block"@[8] == 'b',
        "message_delta"@.len() == 13 && "message_delta"@[8] == 'd',
        "message_start"@.len() == 13 && "message_start"@[8] == 's',
        "output_tokens"@.len() == 13 && "output_tokens"@[8] == 'o',
        "stop_sequence"@.len() == 13 && "stop_sequence"@[8] == 'u',
        "invalid JSON: "@.len() == 14 && "invalid JSON: "@[0] == 'i',
        "msg_translated"@.len() == 14 && "msg_translated"@[0] == 'm',
        "stop_sequences"@.len() == 14 && "stop_sequences"@[0] == 's',
        "input_json_delta"@.len() == 16,
        "content_block_stop"@.len() == 18,
        "content_block_delta"@.len() == 19 && "content_block_delta"@[14] == 'd',
        "content_block_start"@.len() == 19 && "content_block_start"@[14] == 's',
{
    reveal_strlit("id");
    reveal_strlit("any");
    reveal_strlit("auto");
    reveal_strlit("data");
    reveal_strlit("name");
    reveal_strlit("none");
    reveal_strlit("role");
    reveal_strlit("text");
    reveal_strlit("tool");
    reveal_strlit("type");
    reveal_strlit("user");
    reveal_strlit("delta");
    reveal_strlit("image");
    reveal_strlit("index");
    reveal_strlit("input");
    reveal_strlit("model");
    reveal_strlit("tools");
    reveal_strlit("top_k");
    reveal_strlit("top_p");
    reveal_strlit("usage");
    reveal_strlit("base64");
    reveal_strlit("source");
    reveal_strlit("stream");
    reveal_strlit("system");
    reveal_strlit("content");
    reveal_strlit("event: ");
    reveal_strlit("message");
    reveal_strlit("end_turn");
    reveal_strlit("is_error");
    reveal_strlit("messages");
    reveal_strlit("tool_use");
    reveal_strlit("].content");
    reveal_strlit("anthropic");
    reveal_strlit("assistant");
    reveal_strlit("messages[");
    reveal_strlit("max_tokens");
    reveal_strlit("media_type");
    reveal_strlit("text_delta");
    reveal_strlit("description");
    reveal_strlit("stop_reason");
    reveal_strlit("temperature");
    reveal_strlit("tool_choice");
    reveal_strlit("tool_result");
    reveal_strlit("tool_use_id");
    reveal_strlit("input_schema");
    reveal_strlit("input_tokens");
    reveal_strlit("message_stop");
    reveal_strlit("partial_json");
    reveal_strlit("content_block");
    reveal_strlit("message_delta");
    reveal_strlit("message_start");
    reveal_strlit("output_tokens");
    reveal_strlit("stop_sequence");
    reveal_strlit("invalid JSON: ");
    reveal_strlit("msg_translated");
    reveal_strlit("stop_sequences");
    reveal_strlit("input_json_delta");
    reveal_strlit("content_block_stop");
    reveal_strlit("content_block_delta");
    reveal_strlit("content_block_start");
}

/// The words of the OpenAI dialect differ from each other.
pub proof fn lemma_openai_words()
    ensures
        "]"@.len() == 1,
        "id"@.len() == 2,
        "url"@.len() == 3,
        "auto"@.len() == 4 && "auto"@[0] == 'a' && "auto"@[2] == 't',
        "name"@.len() == 4 && "name"@[0] == 'n' && "name"@[2] == 'm',
        "none"@.len() == 4 && "none"@[0] == 'n' && "none"@[2] == 'n',
        "role"@.len() == 4 && "role"@[0] == 'r' && "role"@[2] == 'l',
        "stop"@.len() == 4 && "stop"@[0] == 's' && "stop"@[2] == 'o',
        "text"@.len() == 4 && "text"@[0] == 't' && "text"@[2] == 'x',
        "tool"@.len() == 4 && "tool"@[0] == 't' && "tool"@[2] == 'o',
        "type"@.len() == 4 && "type"@[0] == 't' && "type"@[2] == 'p',
        "user"@.len() == 4 && "user"@[0] == 'u' && "user"@[2] == 'e',
        "data:"@.len() == 5 && "data:"@[4] == ':',
        "delta"@.len() == 5 && "delta"@[4] == 'a',
        "index"@.len() == 5 && "index"@[4] == 'x',
        "model"@.len() == 5 && "model"@[4] == 'l',
        "tools"@.len() == 5 && "tools"@[4] == 's',
        "top_p"@.len() == 5 && "top_p"@[4] == 'p',
        "usage"@.len() == 5 && "usage"@[4] == 'e',
        "[DONE]"@.len() == 6 && "[DONE]"@[1] == 'D',
        "length"@.len() == 6 && "length"@[1] == 'e',
        "object"@.len() == 6 && "object"@[1] == 'b',
        "openai"@.len() == 6 && "openai"@[1] == 'p',
        "stream"@.len() == 6 && "stream"@[1] == 't',
        "system"@.len() == 6 && "system"@[1] == 'y',
        "choices"@.len() == 7 && "choices"@[1] == 'h',
        "content"@.len() == 7 && "content"@[1] == 'o',
        "created"@.len() == 7 && "created"@[1] == 'r',
        "message"@.len() == 7 && "message"@[1] == 'e',
        ";base64,"@.len() == 8 && ";base64,"@[0] == ';',
        "function"@.len() == 8 && "function"@[0] == 'f',
        "messages"@.len() == 8 && "messages"@[0] == 'm',
        "required"@.len() == 8 && "required"@[0] == 'r',
        "arguments"@.len() == 9 && "arguments"@[1] == 'r',
        "assistant"@.len() == 9 && "assistant"@[1] == 's',
        "functions"@.len() == 9 && "functions"@[1] == 'u',
        "image_url"@.len() == 9 && "image_url"@[1] == 'm',
        "messages["@.len() == 9 && "messages["@[1] == 'e',
        "max_tokens"@.len() == 10 && "max_tokens"@[0] == 'm',
        "parameters"@.len() == 10 && "parameters"@[0] == 'p',
        "tool_calls"@.len() == 10 && "tool_calls"@[0] == 't',
        "description"@.len() == 11 && "description"@[2] == 's',
        "temperature"@.len() == 11 && "temperature"@[2] == 'm',
        "tool_choice"@.len() == 11 && "tool_choice"@[2] == 'o',
        "tool_call_id"@.len() == 12,
        "finish_reason"@.len() == 13 && "finish_reason"@[1] == 'i',
        "function_call"@.len() == 13 && "function_call"@[1] == 'u',
        "prompt_tokens"@.len() == 13 && "prompt_tokens"@[1] == 'r',
        "invalid JSON: "@.len() == 14 && "invalid JSON: "@[0] == 'i',
        "sampling.top_k"@.len() == 14 && "sampling.top_k"@[0] == 's',
        "chat.completion"@.len() == 15,
        "completion_tokens"@.len() == 17,
        "chatcmpl-translated"@.len() == 19 && "chatcmpl-translated"@[0] == 'c',
        "openai has no top_k"@.len() == 19 && "openai has no top_k"@[0] == 'o',
        "chat.completion.chunk"@.len() == 21 && "chat.completion.chunk"@[0] == 'c',
        "max_completion_tokens"@.len() == 21 && "max_completion_tokens"@[0] == 'm',
{
    reveal_strlit("]");
    reveal_strlit("id");
    reveal_strlit("url");
    reveal_strlit("auto");
    reveal_strlit("name");
    reveal_strlit("none");
    reveal_strlit("role");
    reveal_strlit("stop");
    reveal_strlit("text");
    reveal_strlit("tool");
    reveal_strlit("type");
    reveal_strlit("user");
    reveal_strlit("data:");
    reveal_strlit("delta");
    reveal_strlit("index");
    reveal_strlit("model");
    reveal_strlit("tools");
    reveal_strlit("top_p");
    reveal_strlit("usage");
    reveal_strlit("[DONE]");
    reveal_strlit("length");
    reveal_strlit("object");
    reveal_strlit("openai");
    reveal_strlit("stream");
    reveal_strlit("system");
    reveal_strlit("choices");
    reveal_strlit("content");
    reveal_strlit("created");
    reveal_strlit("message");
    reveal_strlit(";base64,");
    reveal_strlit("function");
    reveal_strlit("messages");
    reveal_strlit("required");
    reveal_strlit("arguments");
    reveal_strlit("assistant");
    reveal_strlit("functions");
    reveal_strlit("image_url");
    reveal_strlit("messages[");
    reveal_strlit("max_tokens");
    reveal_strlit("parameters");
    reveal_strlit("tool_calls");
    reveal_strlit("description");
    reveal_strlit("temperature");
    reveal_strlit("tool_choice");
    reveal_strlit("tool_call_id");
    reveal_strlit("finish_reason");
    reveal_strlit("function_call");
    reveal_strlit("prompt_tokens");
    reveal_strlit("invalid JSON: ");
    reveal_strlit("sampling.top_k");
    reveal_strlit("chat.completion");
    reveal_strlit("completion_tokens");
    reveal_strlit("chatcmpl-translated");
    reveal_strlit("openai has no top_k");
    reveal_strlit("chat.completion.chunk");
    reveal_strlit("max_completion_tokens");
}

/// The words of the Google dialect differ from each other.
pub proof fn lemma_google_words()
    ensures
        "STOP"@.len() == 4 && "STOP"@[2] == 'O' && "STOP"@[3] == 'P',
        "args"@.len() == 4 && "args"@[2] == 'g' && "args"@[3] == 's',
        "data"@.len() == 4 && "data"@[2] == 't' && "data"@[3] == 'a',
        "name"@.len() == 4 && "name"@[2] == 'm' && "name"@[3] == 'e',
        "role"@.len() == 4 && "role"@[2] == 'l' && "role"@[3] == 'e',
        "text"@.len() == 4 && "text"@[2] == 'x' && "text"@[3] == 't',
        "tool"@.len() == 4 && "tool"@[2] == 'o' && "tool"@[3] == 'l',
        "topK"@.len() == 4 && "topK"@[2] == 'p' && "topK"@[3] == 'K',
        "topP"@.len() == 4 && "topP"@[2] == 'p' && "topP"@[3] == 'P',
        "user"@.len() == 4 && "user"@[2] == 'e' && "user"@[3] == 'r',
        "index"@.len() == 5 && "index"@[0] == 'i',
        "model"@.len() == 5 && "model"@[0] == 'm',
        "parts"@.len() == 5 && "parts"@[0] == 'p',
        "tools"@.len() == 5 && "tools"@[0] == 't',
        "google"@.len() == 6 && "google"@[1] == 'o',
        "result"@.len() == 6 && "result"@[1] == 'e',
        "stream"@.len() == 6 && "stream"@[1] == 't',
        "system"@.len() == 6 && "system"@[1] == 'y',
        "content"@.len() == 7 && "content"@[0] == 'c',
        "models/"@.len() == 7 && "models/"@[0] == 'm',
        "contents"@.len() == 8 && "contents"@[0] == 'c',
        "function"@.len() == 8 && "function"@[0] == 'f',
        "mimeType"@.len() == 8 && "mimeType"@[0] == 'm',
        "response"@.len() == 8 && "response"@[0] == 'r',
        "].content"@.len() == 9 && "].content"@[0] == ']',
        "assistant"@.len() == 9 && "assistant"@[0] == 'a',
        "messages["@.len() == 9 && "messages["@[0] == 'm',
        "MAX_TOKENS"@.len() == 10 && "MAX_TOKENS"@[0] == 'M',
        "candidates"@.len() == 10 && "candidates"@[0] == 'c',
        "inlineData"@.len() == 10 && "inlineData"@[0] == 'i',
        "parameters"@.len() == 10 && "parameters"@[0] == 'p',
        "description"@.len() == 11 && "description"@[2] == 's',
        "temperature"@.len() == 11 && "temperature"@[2] == 'm',
        "tool_choice"@.len() == 11 && "tool_choice"@[2] == 'o',
        ".tool_use.id"@.len() == 12 && ".tool_use.id"@[1] == 't',
        "finishReason"@.len() == 12 && "finishReason"@[1] == 'i',
        "functionCall"@.len() == 12 && "functionCall"@[1] == 'u',
        "modelVersion"@.len() == 12 && "modelVersion"@[1] == 'o',
        "stopSequences"@.len() == 13 && "stopSequences"@[0] == 's',
        "usageMetadata"@.len() == 13 && "usageMetadata"@[0] == 'u',
        "invalid JSON: "@.len() == 14,
        "maxOutputTokens"@.len() == 15,
        "functionResponse"@.len() == 16 && "functionResponse"@[0] == 'f',
        "generationConfig"@.len() == 16 && "generationConfig"@[0] == 'g',
        "promptTokenCount"@.len() == 16 && "promptTokenCount"@[0] == 'p',
        "systemInstruction"@.len() == 17,
        "candidatesTokenCount"@.len() == 20 && "candidatesTokenCount"@[0] == 'c',
        "functionDeclarations"@.len() == 20 && "functionDeclarations"@[0] == 'f',
        ".tool_result.is_error"@.len() == 21,
{
    reveal_strlit("STOP");
    reveal_strlit("args");
    reveal_strlit("data");
    reveal_strlit("name");
    reveal_strlit("role");
    reveal_strlit("text");
    reveal_strlit("tool");
    reveal_strlit("topK");
    reveal_strlit("topP");
    reveal_strlit("user");
    reveal_strlit("index");
    reveal_strlit("model");
    reveal_strlit("parts");
    reveal_strlit("tools");
    reveal_strlit("google");
    reveal_strlit("result");
    reveal_strlit("stream");
    reveal_strlit("system");
    reveal_strlit("content");
    reveal_strlit("models/");
    reveal_strlit("contents");
    reveal_strlit("function");
    reveal_strlit("mimeType");
    reveal_strlit("response");
    reveal_strlit("].content");
    reveal_strlit("assistant");
    reveal_strlit("messages[");
    reveal_strlit("MAX_TOKENS");
    reveal_strlit("candidates");
    reveal_strlit("inlineData");
    reveal_strlit("parameters");
    reveal_strlit("description");
    reveal_strlit("temperature");
    reveal_strlit("tool_choice");
    reveal_strlit(".tool_use.id");
    reveal_strlit("finishReason");
    reveal_strlit("functionCall");
    reveal_strlit("modelVersion");
    reveal_strlit("stopSequences");
    reveal_strlit("usageMetadata");
    reveal_strlit("invalid JSON: ");
    reveal_strlit("maxOutputTokens");
    reveal_strlit("functionResponse");
    reveal_strlit("generationConfig");
    reveal_strlit("promptTokenCount");
    reveal_strlit("systemInstruction");
    reveal_strlit("candidatesTokenCount");
    reveal_strlit("functionDeclarations");
    reveal_strlit(".tool_result.is_error");
}

/// The words of the canonical form differ from each other.
pub proof fn lemma_canonical_words()
    ensures
        "id"@.len() == 2,
        "any"@.len() == 3,
        "auto"@.len() == 4 && "auto"@[0] == 'a' && "auto"@[1] == 'u',
        "data"@.len() == 4 && "data"@[0] == 'd' && "data"@[1] == 'a',
        "kind"@.len() == 4 && "kind"@[0] == 'k' && "kind"@[1] == 'i',
        "name"@.len() == 4 && "name"@[0] == 'n' && "name"@[1] == 'a',
        "none"@.len() == 4 && "none"@[0] == 'n' && "none"@[1] == 'o',
        "path"@.len() == 4 && "path"@[0] == 'p' && "path"@[1] == 'a',
        "role"@.len() == 4 && "role"@[0] == 'r' && "role"@[1] == 'o',
        "stop"@.len() == 4 && "stop"@[0] == 's' && "stop"@[1] == 't',
        "text"@.len() == 4 && "text"@[0] == 't' && "text"@[1] == 'e',
        "tool"@.len() == 4 && "tool"@[0] == 't' && "tool"@[1] == 'o',
        "type"@.len() == 4 && "type"@[0] == 't' && "type"@[1] == 'y',
        "user"@.len() == 4 && "user"@[0] == 'u' && "user"@[1] == 's',
        "block"@.len() == 5 && "block"@[0] == 'b' && "block"@[4] == 'k',
        "extra"@.len() == 5 && "extra"@[0] == 'e' && "extra"@[4] == 'a',
        "image"@.len() == 5 && "image"@[0] == 'i' && "image"@[4] == 'e',
        "index"@.len() == 5 && "index"@[0] == 'i' && "index"@[4] == 'x',
        "input"@.len() == 5 && "input"@[0] == 'i' && "input"@[4] == 't',
        "model"@.len() == 5 && "model"@[0] == 'm' && "model"@[4] == 'l',
        "notes"@.len() == 5 && "notes"@[0] == 'n' && "notes"@[4] == 's',
        "other"@.len() == 5 && "other"@[0] == 'o' && "other"@[4] == 'r',
        "tools"@.len() == 5 && "tools"@[0] == 't' && "tools"@[4] == 's',
        "top_k"@.len() == 5 && "top_k"@[0] == 't' && "top_k"@[4] == 'k',
        "top_p"@.len() == 5 && "top_p"@[0] == 't' && "top_p"@[4] == 'p',
        "usage"@.len() == 5 && "usage"@[0] == 'u' && "usage"@[4] == 'e',
        "finish"@.len() == 6 && "finish"@[2] == 'n',
        "method"@.len() == 6 && "method"@[2] == 't',
        "reason"@.len() == 6 && "reason"@[2] == 'a',
        "stream"@.len() == 6 && "stream"@[2] == 'r',
        "system"@.len() == 6 && "system"@[2] == 's',
        "content"@.len() == 7 && "content"@[0] == 'c',
        "dropped"@.len() == 7 && "dropped"@[0] == 'd',
        "end_turn"@.len() == 8 && "end_turn"@[0] == 'e',
        "is_error"@.len() == 8 && "is_error"@[0] == 'i',
        "messages"@.len() == 8 && "messages"@[0] == 'm',
        "sampling"@.len() == 8 && "sampling"@[0] == 's',
        "tool_use"@.len() == 8 && "tool_use"@[0] == 't',
        "assistant"@.len() == 9 && "assistant"@[0] == 'a',
        "tool_call"@.len() == 9 && "tool_call"@[0] == 't',
        "max_tokens"@.len() == 10 && "max_tokens"@[1] == 'a',
        "media_type"@.len() == 10 && "media_type"@[1] == 'e',
        "description"@.len() == 11 && "description"@[0] == 'd' && "description"@[6] == 'p',
        "stop_reason"@.len() == 11 && "stop_reason"@[0] == 's' && "stop_reason"@[6] == 'e',
        "temperature"@.len() == 11 && "temperature"@[0] == 't' && "temperature"@[6] == 'a',
        "tool_choice"@.len() == 11 && "tool_choice"@[0] == 't' && "tool_choice"@[6] == 'h',
        "tool_result"@.len() == 11 && "tool_result"@[0] == 't' && "tool_result"@[6] == 'e',
        "input_schema"@.len() == 12 && "input_schema"@[6] == 's',
        "input_tokens"@.len() == 12 && "input_tokens"@[6] == 't',
        "message_stop"@.len() == 12 && "message_stop"@[6] == 'e',
        "partial_json"@.len() == 12 && "partial_json"@[6] == 'l',
        "message_delta"@.len() == 13 && "message_delta"@[8] == 'd',
        "message_start"@.len() == 13 && "message_start"@[8] == 's',
        "output_tokens"@.len() == 13 && "output_tokens"@[8] == 'o',
        "stop_sequence"@.len() == 13 && "stop_sequence"@[8] == 'u',
        "arguments_fragment"@.len() == 18 && "arguments_fragment"@[0] == 'a',
        "content_block_stop"@.len() == 18 && "content_block_stop"@[0] == 'c',
        "content_block_delta"@.len() == 19 && "content_block_delta"@[14] == 'd',
        "content_block_start"@.len() == 19 && "content_block_start"@[14] == 's',
{
    reveal_strlit("id");
    reveal_strlit("any");
    reveal_strlit("auto");
    reveal_strlit("data");
    reveal_strlit("kind");
    reveal_strlit("name");
    reveal_strlit("none");
    reveal_strlit("path");
    reveal_strlit("role");
    reveal_strlit("stop");
    reveal_strlit("text");
    reveal_strlit("tool");
    reveal_strlit("type");
    reveal_strlit("user");
    reveal_strlit("block");
    reveal_strlit("extra");
    reveal_strlit("image");
    reveal_strlit("index");
    reveal_strlit("input");
    reveal_strlit("model");
    reveal_strlit("notes");
    reveal_strlit("other");
    reveal_strlit("tools");
    reveal_strlit("top_k");
    reveal_strlit("top_p");
    reveal_strlit("usage");
    reveal_strlit("finish");
    reveal_strlit("method");
    reveal_strlit("reason");
    reveal_strlit("stream");
    reveal_strlit("system");
    reveal_strlit("content");
    reveal_strlit("dropped");
    reveal_strlit("end_turn");
    reveal_strlit("is_error");
    reveal_strlit("messages");
    reveal_strlit("sampling");
    reveal_strlit("tool_use");
    reveal_strlit("assistant");
    reveal_strlit("tool_call");
    reveal_strlit("max_tokens");
    reveal_strlit("media_type");
    reveal_strlit("description");
    reveal_strlit("stop_reason");
    reveal_strlit("temperature");
    reveal_strlit("tool_choice");
    reveal_strlit("tool_result");
    reveal_strlit("input_schema");
    reveal_strlit("input_tokens");
    reveal_strlit("message_stop");
    reveal_strlit("partial_json");
    reveal_strlit("message_delta");
    reveal_strlit("message_start");
    reveal_strlit("output_tokens");
    reveal_strlit("stop_sequence");
    reveal_strlit("arguments_fragment");
    reveal_strlit("content_block_stop");
    reveal_strlit("content_block_delta");
    reveal_strlit("content_block_start");
}

/// The words of an envelope differ from each other.
pub proof fn lemma_envelope_words()
    ensures
        "id"@.len() == 2,
        "llm"@.len() == 3,
        "hook"@.len() == 4 && "hook"@[0] == 'h',
        "name"@.len() == 4 && "name"@[0] == 'n',
        "path"@.len() == 4 && "path"@[0] == 'p',
        "role"@.len() == 4 && "role"@[0] == 'r',
        "self"@.len() == 4 && "self"@[0] == 's',
        "chunk"@.len() == 5 && "chunk"@[0] == 'c',
        "facts"@.len() == 5 && "facts"@[0] == 'f',
        "model"@.len() == 5 && "model"@[0] == 'm',
        "tools"@.len() == 5 && "tools"@[0] == 't',
        "method"@.len() == 6 && "method"@[2] == 't',
        "status"@.len() == 6 && "status"@[2] == 'a',
        "stream"@.len() == 6 && "stream"@[2] == 'r',
        "content"@.len() == 7 && "content"@[5] == 'n',
        "context"@.len() == 7 && "context"@[5] == 'x',
        "headers"@.len() == 7 && "headers"@[5] == 'r',
        "request"@.len() == 7 && "request"@[5] == 's',
        "body_b64"@.len() == 8 && "body_b64"@[3] == 'y',
        "messages"@.len() == 8 && "messages"@[3] == 's',
        "provider"@.len() == 8 && "provider"@[3] == 'v',
        "response"@.len() == 8 && "response"@[3] == 'p',
        "route_id"@.len() == 8 && "route_id"@[3] == 't',
        "tool_call"@.len() == 9,
        "cost_input"@.len() == 10 && "cost_input"@[4] == '_',
        "max_output"@.len() == 10 && "max_output"@[4] == 'o',
        "max_tokens"@.len() == 10 && "max_tokens"@[4] == 't',
        "modalities"@.len() == 10 && "modalities"@[4] == 'l',
        "cost_output"@.len() == 11,
        "correlation_id"@.len() == 14,
        "envelope_version"@.len() == 16,
{
    reveal_strlit("id");
    reveal_strlit("llm");
    reveal_strlit("hook");
    reveal_strlit("name");
    reveal_strlit("path");
    reveal_strlit("role");
    reveal_strlit("self");
    reveal_strlit("chunk");
    reveal_strlit("facts");
    reveal_strlit("model");
    reveal_strlit("tools");
    reveal_strlit("method");
    reveal_strlit("status");
    reveal_strlit("stream");
    reveal_strlit("content");
    reveal_strlit("context");
    reveal_strlit("headers");
    reveal_strlit("request");
    reveal_strlit("body_b64");
    reveal_strlit("messages");
    reveal_strlit("provider");
    reveal_strlit("response");
    reveal_strlit("route_id");
    reveal_strlit("tool_call");
    reveal_strlit("cost_input");
    reveal_strlit("max_output");
    reveal_strlit("max_tokens");
    reveal_strlit("modalities");
    reveal_strlit("cost_output");
    reveal_strlit("correlation_id");
    reveal_strlit("envelope_version");
}

} // verus!
