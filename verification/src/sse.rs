//! Server-sent events.

use vstd::prelude::*;

use crate::json::{json_text, Json, JsonV};
use crate::text::views;

verus! {

/// The largest event that is kept, in bytes, unless configured otherwise.
pub const DEFAULT_MAX_EVENT_BYTES: usize = 1_048_576;

/// One server-sent event, by its data.
#[derive(Clone, PartialEq, Debug)]
pub struct SseEvent {
    pub data: String,
}

/// One piece of a stream whose events carry data alone: a chunk, or the terminal.
#[derive(Clone, PartialEq, Debug)]
pub enum Chunk {
    Data(Json),
    Done,
}

#[verifier::ext_equal]
pub enum ChunkV {
    Data(JsonV),
    Done,
}

impl View for Chunk {
    type V = ChunkV;

    open spec fn view(&self) -> ChunkV {
        match self {
            Chunk::Data(j) => ChunkV::Data(j@),
            Chunk::Done => ChunkV::Done,
        }
    }
}

/// The text of a piece.
pub open spec fn chunk_text(c: ChunkV) -> Seq<char> {
    match c {
        ChunkV::Data(v) => "data: "@ + json_text(v) + "\n\n"@,
        ChunkV::Done => "data: [DONE]\n\n"@,
    }
}

/// The text of some pieces.
pub open spec fn chunks_text(chunks: Seq<ChunkV>) -> Seq<char>
    decreases chunks.len(),
{
    if chunks.len() == 0 {
        Seq::empty()
    } else {
        chunks_text(chunks.drop_last()) + chunk_text(chunks.last())
    }
}

/// Writes the text of some pieces.
pub(crate) fn write_chunks(chunks: &Vec<Chunk>) -> (r: String)
    ensures
        r@ == chunks_text(views(chunks@)),
{
    let ghost all = views(chunks@);
    let mut out = String::new();
    let mut i: usize = 0;
    while i < chunks.len()
        invariant
            i <= chunks.len(),
            all == views(chunks@),
            out@ == chunks_text(all.take(i as int)),
        decreases chunks.len() - i,
    {
        let ghost before = out@;
        assert(all.take(i + 1).drop_last() == all.take(i as int));
        assert(all.take(i + 1).last() == chunks@[i as int]@);
        match &chunks[i] {
            Chunk::Data(j) => {
                let data = j.to_text();
                out.append("data: ");
                out.append(data.as_str());
                out.append("\n\n");
                assert(out@ == before + chunk_text(chunks@[i as int]@));
            },
            Chunk::Done => {
                out.append("data: [DONE]\n\n");
            },
        }
        i += 1;
    }
    assert(all.take(i as int) == all);
    out
}

} // verus!
