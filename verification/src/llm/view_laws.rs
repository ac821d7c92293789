//! What the plain view of a request shows of it.

use vstd::prelude::*;

use crate::llm::canonical::{block_texts, flattened, plain_message, projected, BlockV, RequestV, Role};
use crate::text::joined;

verus! {

/// The text of a block that has one.
pub open spec fn text_in_block(b: BlockV) -> Option<Seq<char>> {
    match b {
        BlockV::Text { text } => Some(text),
        _ => None,
    }
}

/// The content of a message as plain text: the texts of its text blocks, in order,
/// with a line break between neighbours; other blocks leave no trace.
pub proof fn law_content_is_its_texts(blocks: Seq<BlockV>)
    ensures
        flattened(blocks) == joined(blocks.filter_map(|b: BlockV| text_in_block(b)), "\n"@),
        forall|text: Seq<char>| #[trigger]
            flattened(seq![BlockV::Text { text }]) == text,
    decreases blocks.len(),
{
    lemma_block_texts(blocks);
    assert forall|text: Seq<char>| #[trigger] flattened(seq![BlockV::Text { text }]) == text by {
        let one = seq![BlockV::Text { text }];
        assert(one.drop_last() == Seq::<BlockV>::empty());
        assert(block_texts(one.drop_last()) == Seq::<Seq<char>>::empty());
        assert(block_texts(one) == seq![text]);
    }
}

proof fn lemma_block_texts(blocks: Seq<BlockV>)
    ensures
        block_texts(blocks) == blocks.filter_map(|b: BlockV| text_in_block(b)),
    decreases blocks.len(),
{
    if blocks.len() > 0 {
        lemma_block_texts(blocks.drop_last());
    }
}

/// The plain view has a message for each message of the request, in its place: with
/// the name of its role, and the texts of its text blocks joined by line breaks as
/// its content, whatever its role. The system prompt comes first in the view of
/// OpenAI's dialect and stands nowhere in the view of another.
pub proof fn law_view_shows_every_message(req: RequestV, provider: Seq<char>, i: int)
    requires
        0 <= i < req.messages.len(),
    ensures
        ({
            let shown = projected(req, provider).messages;
            let ahead: int = if provider == "openai"@ && req.system is Some {
                1
            } else {
                0
            };
            let m = req.messages[i];
            &&& shown.len() == req.messages.len() + ahead
            &&& ahead == 1 ==> shown[0].role == "system"@ && Some(shown[0].content) == req.system
            &&& shown[i + ahead].role == match m.role {
                Role::System => "system"@,
                Role::User => "user"@,
                Role::Assistant => "assistant"@,
                Role::Tool => "tool"@,
            }
            &&& shown[i + ahead].content == joined(
                m.content.filter_map(|b: BlockV| text_in_block(b)),
                "\n"@,
            )
            &&& forall|text: Seq<char>|
                m.content == seq![BlockV::Text { text }] ==> shown[i + ahead].content == text
        }),
{
    let m = req.messages[i];
    let shown = projected(req, provider).messages;
    law_content_is_its_texts(m.content);
    let ahead: int = if provider == "openai"@ && req.system is Some {
        1
    } else {
        0
    };
    assert(shown[i + ahead] == plain_message(m));
}

/// A request without messages shows none but, in OpenAI's dialect, the system
/// prompt.
pub proof fn law_view_invents_no_message(req: RequestV, provider: Seq<char>)
    ensures
        projected(req, provider).messages.len() == req.messages.len() + if provider == "openai"@ && req.system is Some {
            1int
        } else {
            0
        },
        provider == "openai"@ && req.system is Some ==> projected(req, provider).messages[0].role == "system"@ && Some(
            projected(req, provider).messages[0].content,
        ) == req.system,
{
}

/// The plain view names the provider, the model, every tool in order, the token
/// limit and whether the answer is streamed, as the request has them; it has no
/// facts of the model yet.
pub proof fn law_view_shows_the_rest(req: RequestV, provider: Seq<char>)
    ensures
        ({
            let view = projected(req, provider);
            &&& view.provider == provider
            &&& view.model == req.model
            &&& view.tools.len() == req.tools.len()
            &&& forall|i: int| 0 <= i < req.tools.len() ==> view.tools[i] == (#[trigger] req.tools[i]).name
            &&& view.max_tokens == req.sampling.max_tokens
            &&& view.stream == req.stream
            &&& view.facts is None
        }),
{
}

} // verus!
