//! What a reply says.

use crate::json::{member, JsonV};
use crate::llm::replies::{
    assistant_said, blocks_of, blocks_or_missing, choice_content, first_said, output_blocks,
    outputs_blocks, said_after, said_with_blocks,
};
use crate::provider::WireApi;
use vstd::prelude::*;

verus! {

/// What is said is the text of the first block of the kind, or of one without a kind.
pub proof fn law_first_block_of_the_kind_is_said(
    blocks: Seq<(Seq<char>, Seq<char>)>,
    kind: Seq<char>,
    k: int,
)
    requires
        0 <= k < blocks.len(),
        blocks[k].0 == kind || blocks[k].0.len() == 0,
        forall|i: int|
            0 <= i < k ==> (#[trigger] blocks[i]).0 != kind && blocks[i].0.len() > 0,
    ensures
        first_said(blocks, kind) == Some(blocks[k].1),
    decreases blocks.len(),
{
    if k > 0 {
        let rest = blocks.drop_first();
        assert(blocks[0].0 != kind);
        assert forall|i: int| 0 <= i < k - 1 implies (#[trigger] rest[i]).0 != kind
            && rest[i].0.len() > 0 by {
            assert(rest[i] == blocks[i + 1]);
        }
        law_first_block_of_the_kind_is_said(rest, kind, k - 1);
    }
}

/// The blocks of a list are read one by one, each with its type and its text.
pub proof fn law_blocks_are_read_one_by_one(
    items: Seq<JsonV>,
    i: int,
    kind: Seq<char>,
    text: Seq<char>,
)
    requires
        blocks_of(items) is Some,
        0 <= i < items.len(),
        items[i] is Object,
    ensures
        blocks_of(items)->0.len() == items.len(),
        member(items[i], "type"@) == Some(JsonV::Text(kind)) ==> (blocks_of(items)->0)[i].0 == kind,
        member(items[i], "text"@) == Some(JsonV::Text(text)) ==> (blocks_of(items)->0)[i].1 == text,
        member(items[i], "type"@) is None ==> (blocks_of(items)->0)[i].0.len() == 0,
    decreases items.len(),
{
    let rest = items.drop_last();
    if i < rest.len() {
        assert(rest[i] == items[i]);
        law_blocks_are_read_one_by_one(rest, i, kind, text);
    } else {
        lemma_blocks_len(rest);
    }
}

proof fn lemma_blocks_len(items: Seq<JsonV>)
    requires
        blocks_of(items) is Some,
    ensures
        blocks_of(items)->0.len() == items.len(),
    decreases items.len(),
{
    if items.len() > 0 {
        lemma_blocks_len(items.drop_last());
    }
}

/// On the chat wire the answer is the content of the message of the first choice, and there is none
/// without a choice.
pub proof fn law_chat_reply_says_its_first_choice(
    j: JsonV,
    items: Seq<JsonV>,
    m: JsonV,
    text: Seq<char>,
)
    requires
        j is Object,
        m is Object,
        member(j, "choices"@) == Some(JsonV::List(items)),
    ensures
        items.len() == 0 ==> assistant_said(WireApi::ChatCompletions, j) is None,
        items.len() == 1 && items[0] is Object && member(items[0], "message"@) == Some(m) && member(
            m,
            "content"@,
        ) == Some(JsonV::Text(text)) ==> assistant_said(WireApi::ChatCompletions, j) == Some(text),
        items.len() > 0 && assistant_said(WireApi::ChatCompletions, j) is Some ==> assistant_said(
            WireApi::ChatCompletions,
            j,
        ) == choice_content(items[0]),
{
}

/// On the messages wire the answer is the first text among the blocks of the content.
pub proof fn law_messages_reply_says_its_first_text(j: JsonV, items: Seq<JsonV>)
    requires
        j is Object,
        member(j, "content"@) == Some(JsonV::List(items)),
    ensures
        blocks_of(items) matches Some(blocks) ==> assistant_said(WireApi::Messages, j) == first_said(
            blocks,
            "text"@,
        ),
        blocks_of(items) is None ==> assistant_said(WireApi::Messages, j) is None,
{
}

/// On the responses wire the answer is the first text among the blocks of all outputs, in their
/// order.
pub proof fn law_response_says_its_first_text(j: JsonV, items: Seq<JsonV>)
    requires
        j is Object,
        member(j, "output"@) == Some(JsonV::List(items)),
    ensures
        outputs_blocks(items) matches Some(blocks) ==> assistant_said(WireApi::Responses, j)
            == first_said(blocks, "output_text"@),
        outputs_blocks(items) is None ==> assistant_said(WireApi::Responses, j) is None,
{
}

/// The blocks of outputs are those of one behind those of the others.
pub proof fn law_outputs_add_their_blocks(items: Seq<JsonV>, j: JsonV, content: Seq<JsonV>)
    requires
        j is Object,
    ensures
        outputs_blocks(Seq::empty()) == Some(Seq::<(Seq<char>, Seq<char>)>::empty()),
        match (outputs_blocks(items), output_blocks(j)) {
            (Some(a), Some(b)) => outputs_blocks(items.push(j)) == Some(a + b),
            _ => outputs_blocks(items.push(j)) is None,
        },
        member(j, "content"@) == Some(JsonV::List(content)) ==> output_blocks(j) == blocks_of(content),
        member(j, "content"@) is None ==> output_blocks(j) == Some(
            Seq::<(Seq<char>, Seq<char>)>::empty(),
        ),
        blocks_or_missing(Some(JsonV::Null)) is None,
{
    assert(items.push(j).drop_last() =~= items);
}

/// What is said in pieces is said on lines of its own; blocks of another kind and empty ones say
/// nothing.
pub proof fn law_pieces_are_said_on_lines(
    said: Seq<char>,
    blocks: Seq<(Seq<char>, Seq<char>)>,
    kind: Seq<char>,
    text: Seq<char>,
)
    ensures
        said_with_blocks(said, Seq::empty()) == said,
        said.len() > 0 ==> said_after(said, text) == said + seq!['\n'] + text,
        said_after(Seq::empty(), text) == text,
        ({
            let before = said_with_blocks(said, blocks);
            let now = said_with_blocks(said, blocks.push((kind, text)));
            &&& text.len() == 0 ==> now == before
            &&& kind.len() > 0 && kind != "output_text"@ ==> now == before
            &&& (kind == "output_text"@ || kind.len() == 0) && text.len() > 0 && before.len() > 0
                ==> now == before + seq!['\n'] + text
            &&& (kind == "output_text"@ || kind.len() == 0) && text.len() > 0 && before.len() == 0
                ==> now == text
        }),
{
    assert(blocks.push((kind, text)).drop_last() =~= blocks);
    let before = said_with_blocks(said, blocks);
    assert(before.push('\n') + text =~= before + seq!['\n'] + text);
    assert(said.push('\n') + text =~= said + seq!['\n'] + text);
    assert(Seq::<char>::empty() + text =~= text);
    if before.len() == 0 {
        assert(before + text =~= text);
    }
}

} // verus!
