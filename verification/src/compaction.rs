//! What is asked of the model to make a long conversation shorter.
use crate::llm::{LlmRequest, LlmRequestV};
use crate::text::{join, join_texts, texts};
use crate::types::{Float32, Message, MessageV, ThinkLevel, ToolDefinition};
use crate::views::{opt_view, views};
use vstd::prelude::*;

verus! {

/// How many tokens a summary may have.
pub const SUMMARY_TOKENS: usize = 512;

/// What the model is told to do.
pub open spec fn summary_prompt() -> Seq<char> {
    "Summarize the conversation below. Keep every fact, decision and result that later turns may need. Reply with the summary alone."@
}

/// A message as it stands in what is to be summarized.
pub open spec fn told(m: MessageV) -> Seq<char> {
    match m {
        MessageV::User { content, .. } => "User: "@ + content,
        MessageV::Assistant { content, .. } => "Assistant: "@ + content,
        MessageV::Tool { content, .. } => "Tool: "@ + content,
    }
}

/// Messages as they stand in what is to be summarized.
pub open spec fn all_told(messages: Seq<MessageV>) -> Seq<Seq<char>> {
    messages.map_values(|m: MessageV| told(m))
}

/// What is asked for a summary of some messages: a question of its own, outside the conversation.
/// Nothing where there are no messages.
pub open spec fn summary_asked(
    model: Seq<char>,
    temperature: Float32,
    messages: Seq<MessageV>,
) -> Option<LlmRequestV> {
    if messages.len() == 0 {
        None
    } else {
        Some(
            LlmRequestV {
                model,
                system: summary_prompt(),
                messages: seq![
                    MessageV::User {
                        content: join(all_told(messages), "\n"@),
                        images: Seq::empty(),
                    },
                ],
                tools: Seq::empty(),
                max_tokens: SUMMARY_TOKENS,
                temperature,
                think: ThinkLevel::Off,
            },
        )
    }
}

/// A message as it stands in what is to be summarized.
fn tell(m: &Message) -> (r: String)
    ensures
        r@ == told(m@),
{
    let (head, content) = match m {
        Message::User { content, .. } => ("User: ", content),
        Message::Assistant { content, .. } => ("Assistant: ", content),
        Message::Tool { content, .. } => ("Tool: ", content),
    };
    let mut r = head.to_owned();
    r.push_str(content.as_str());
    r
}

/// What is asked for a summary of some messages; nothing where there are none.
pub fn summary_request(model: &str, temperature: Float32, messages: &Vec<Message>) -> (r: Option<
    LlmRequest,
>)
    ensures
        opt_view(r) == summary_asked(model@, temperature, views(messages@)),
{
    if messages.len() == 0 {
        return None;
    }
    let ghost all = views(messages@);
    let mut lines: Vec<String> = Vec::new();
    let mut i: usize = 0;
    assert(texts(lines@) =~= all_told(all).take(0));
    while i < messages.len()
        invariant
            i <= messages@.len(),
            all == views(messages@),
            texts(lines@) == all_told(all).take(i as int),
        decreases messages@.len() - i,
    {
        let ghost before = texts(lines@);
        let line = tell(&messages[i]);
        let ghost t = line@;
        lines.push(line);
        assert(texts(lines@) =~= before.push(t));
        assert(all_told(all).take(i + 1) =~= all_told(all).take(i as int).push(t));
        i += 1;
    }
    assert(all_told(all).take(i as int) =~= all_told(all));
    let message = Message::User { content: join_texts(&lines, "\n"), images: Vec::new() };
    let ghost mv = message@;
    let mut asked: Vec<Message> = Vec::new();
    asked.push(message);
    let tools: Vec<ToolDefinition> = Vec::new();
    assert(views(asked@) =~= seq![mv]);
    assert(views(tools@) =~= Seq::empty());
    assert(mv->User_images =~= Seq::empty());
    Some(
        LlmRequest {
            model: model.to_owned(),
            system:
                "Summarize the conversation below. Keep every fact, decision and result that later turns may need. Reply with the summary alone.".to_owned(),
            messages: asked,
            tools,
            max_tokens: SUMMARY_TOKENS,
            temperature,
            think: ThinkLevel::Off,
        },
    )
}

/// A summary is asked for of all that was said, in order: every message is a line of its own, named
/// by who said it. Where nothing was said, none is asked for. The summary is asked of the same
/// model, without tools and without reasoning.
pub proof fn law_the_summary_is_of_everything(
    model: Seq<char>,
    temperature: Float32,
    a: Seq<MessageV>,
    m: MessageV,
)
    ensures
        summary_asked(model, temperature, Seq::empty()) is None,
        summary_asked(model, temperature, a.push(m)) is Some,
        ({
            let asked = summary_asked(model, temperature, a.push(m))->0;
            let before = summary_asked(model, temperature, a)->0;
            let line = match m {
                MessageV::User { content, .. } => "User: "@ + content,
                MessageV::Assistant { content, .. } => "Assistant: "@ + content,
                MessageV::Tool { content, .. } => "Tool: "@ + content,
            };
            &&& asked.messages.len() == 1
            &&& asked.messages[0] is User
            &&& a.len() == 0 ==> asked.messages[0]->User_content == line
            &&& a.len() > 0 ==> asked.messages[0]->User_content == before.messages[0]->User_content
                + "\n"@ + line
            &&& asked.messages[0]->User_images.len() == 0
            &&& asked.model == model
            &&& asked.temperature == temperature
            &&& asked.tools.len() == 0
            &&& asked.think == ThinkLevel::Off
            &&& asked.max_tokens == 512
        }),
{
    let all = all_told(a.push(m));
    assert(all.drop_last() =~= all_told(a));
    assert(all.last() == told(m));
}

} // verus!
