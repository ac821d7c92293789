//! The upstream that the benchmark simulates.

use vstd::prelude::*;

use crate::text::{concat3, decimal, decimal_text, same};

verus! {

/// How the upstream paces its answers.
#[derive(Clone, Copy, PartialEq, Eq, Structural, Debug)]
pub struct Sim {
    /// Milliseconds until the first byte.
    pub ttft_ms: u64,
    /// Milliseconds between chunks.
    pub inter_chunk_ms: u64,
    /// How many chunks a stream has before its end.
    pub chunks: usize,
}

impl Sim {
    /// The pace of the benchmark.
    pub fn default_bench() -> (r: Sim)
        ensures
            r == (Sim { ttft_ms: 2, inter_chunk_ms: 1, chunks: 20 }),
    {
        Sim { ttft_ms: 2, inter_chunk_ms: 1, chunks: 20 }
    }

    /// How long the upstream waits before a chunk of its stream.
    pub fn wait_before(&self, i: usize) -> (r: u64)
        ensures
            r == if i == 0 {
                self.ttft_ms
            } else {
                self.inter_chunk_ms
            },
    {
        if i == 0 {
            self.ttft_ms
        } else {
            self.inter_chunk_ms
        }
    }
}

/// The answer of a model to a request that is not streamed.
pub open spec fn whole_answer(model: Seq<char>) -> Seq<char> {
    "{\"id\":\"msg_bench\",\"type\":\"message\",\"role\":\"assistant\",\"model\":\""@ + model
        + "\",\"content\":[{\"type\":\"text\",\"text\":\"benchmark response\"}],\"stop_reason\":\"end_turn\",\"stop_sequence\":null,\"usage\":{\"input_tokens\":10,\"output_tokens\":5}}"@
}

/// The answer of a model to a request that is not streamed.
pub fn json_body(model: &str) -> (r: String)
    ensures
        r@ == whole_answer(model@),
{
    concat3(
        "{\"id\":\"msg_bench\",\"type\":\"message\",\"role\":\"assistant\",\"model\":\"",
        model,
        "\",\"content\":[{\"type\":\"text\",\"text\":\"benchmark response\"}],\"stop_reason\":\"end_turn\",\"stop_sequence\":null,\"usage\":{\"input_tokens\":10,\"output_tokens\":5}}",
    )
}

/// Whether the upstream streams its answer.
pub fn streams(path: &str) -> (r: bool)
    ensures
        r == (path@ == "/v1/stream"@),
{
    same(path, "/v1/stream")
}

/// The chunk at a place of the stream, the end at the last.
pub open spec fn chunk_at(i: nat, chunks: nat) -> Seq<char> {
    if i == chunks {
        "data: [DONE]\n\n"@
    } else {
        "data: {\"i\":"@ + decimal(i) + "}\n\n"@
    }
}

/// The chunk at a place of the stream, the end at the last.
pub fn stream_chunk(i: usize, chunks: usize) -> (r: String)
    ensures
        r@ == chunk_at(i as nat, chunks as nat),
{
    if i == chunks {
        "data: [DONE]\n\n".to_owned()
    } else {
        concat3("data: {\"i\":", decimal_text(i as u64).as_str(), "}\n\n")
    }
}

} // verus!
