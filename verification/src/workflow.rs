//! Steps of a workflow, run by themselves: a tool with its arguments filled in, or one question to
//! the model that stands alone.
use crate::agent::{Collected, LoopEvent, LoopEventV};
use crate::expr::{filled, filled_json, interpolate_json, interpolate_str};
use crate::json::{Json, JsonV};
use crate::llm::{LlmRequest, LlmRequestV};
use crate::textmap::{Entries, TextMap};
use crate::tools::{admission, Admission, ToolRegistry};
use crate::types::{
    Float32, ImageBlock, Message, MessageV, ThinkLevel, ToolCall, ToolCallV, ToolDefinition,
    ToolResult,
};
use crate::views::views;
use vstd::prelude::*;

verus! {

/// What came of a step.
#[derive(Debug)]
pub struct StepOutput {
    pub content: String,
    pub is_error: bool,
}

/// A tool step that is to run.
#[derive(Debug)]
pub struct ToolStep {
    pub call: ToolCall,
    /// What is reported before it runs.
    pub event: LoopEvent,
    /// Whether it may run.
    pub admission: Admission,
}

/// The call of a tool step, with placeholders filled in its arguments.
pub open spec fn step_call(
    step_id: Seq<char>,
    tool: Seq<char>,
    args: JsonV,
    results: Entries,
    variables: Entries,
) -> ToolCallV {
    ToolCallV {
        id: "wf_"@ + step_id,
        name: tool,
        arguments: filled_json(args, results, variables),
    }
}

/// Prepares a tool step.
pub fn execute_tool_step(
    tools: &ToolRegistry,
    step_id: &str,
    tool_name: &str,
    args: &Json,
    step_results: &TextMap,
    variables: &TextMap,
) -> (r: ToolStep)
    ensures
        r.call@ == step_call(step_id@, tool_name@, args@, step_results@, variables@),
        r.event@ == (LoopEventV::ToolCall { call: r.call@ }),
        r.admission@ == admission(tools.tools(), tools.policy(), tool_name@),
{
    let mut id = "wf_".to_owned();
    id.push_str(step_id);
    let call = ToolCall {
        id,
        name: tool_name.to_owned(),
        arguments: interpolate_json(args, step_results, variables),
    };
    let event = LoopEvent::ToolCall { call: call.clone() };
    let admission = tools.execute(&call);
    ToolStep { call, event, admission }
}

/// What came of a tool step, and what is reported of it.
pub fn finish_tool_step(call: &ToolCall, result: ToolResult) -> (r: (StepOutput, LoopEvent))
    ensures
        r.0.content@ == result.content@,
        r.0.is_error == result.is_error,
        r.1@ == (LoopEventV::ToolResult {
            call_id: call.id@,
            content: result.content@,
            is_error: result.is_error,
        }),
{
    let event = LoopEvent::ToolResult {
        call_id: call.id.clone(),
        content: result.content.clone(),
        is_error: result.is_error,
    };
    (StepOutput { content: result.content, is_error: result.is_error }, event)
}

/// What is asked of the model in a step: the prompt and the input, with placeholders filled, and
/// nothing of a conversation.
pub open spec fn judge_question(
    model: Seq<char>,
    max_tokens: usize,
    temperature: Float32,
    think: ThinkLevel,
    prompt: Seq<char>,
    input: Seq<char>,
    results: Entries,
    variables: Entries,
) -> LlmRequestV {
    LlmRequestV {
        model,
        system: Seq::empty(),
        messages: seq![
            MessageV::User {
                content: filled(prompt, results, variables) + "\n\n---\n\n"@ + filled(
                    input,
                    results,
                    variables,
                ),
                images: Seq::empty(),
            },
        ],
        tools: Seq::empty(),
        max_tokens,
        temperature,
        think,
    }
}

/// Prepares a step that asks the model.
pub fn execute_judge_step(
    model: &str,
    max_tokens: usize,
    temperature: Float32,
    think: ThinkLevel,
    prompt: &str,
    input: &str,
    step_results: &TextMap,
    variables: &TextMap,
) -> (r: LlmRequest)
    ensures
        r@ == judge_question(
            model@,
            max_tokens,
            temperature,
            think,
            prompt@,
            input@,
            step_results@,
            variables@,
        ),
{
    let mut content = interpolate_str(prompt, step_results, variables);
    content.push_str("\n\n---\n\n");
    content.push_str(interpolate_str(input, step_results, variables).as_str());
    let images: Vec<ImageBlock> = Vec::new();
    assert(views(images@) =~= Seq::empty());
    let mut messages: Vec<Message> = Vec::new();
    messages.push(Message::User { content, images });
    let tools: Vec<ToolDefinition> = Vec::new();
    let system = String::new();
    assert(system@ =~= Seq::empty());
    let r = LlmRequest {
        model: model.to_owned(),
        system,
        messages,
        tools,
        max_tokens,
        temperature,
        think,
    };
    proof {
        let want = judge_question(
            model@,
            max_tokens,
            temperature,
            think,
            prompt@,
            input@,
            step_results@,
            variables@,
        );
        assert(r@.messages =~= want.messages);
        assert(r@.tools =~= want.tools);
    }
    r
}

/// What came of a step that asked the model, and what is reported of it.
pub fn finish_judge_step(heard: Collected) -> (r: (StepOutput, LoopEvent))
    ensures
        r.0.content@ == heard@.content,
        r.0.is_error == heard@.failed,
        r.1@ == (LoopEventV::AssistantMessage {
            content: heard@.content,
            tool_calls: Seq::empty(),
        }),
{
    let tool_calls: Vec<ToolCall> = Vec::new();
    assert(views(tool_calls@) =~= Seq::empty());
    let event = LoopEvent::AssistantMessage { content: heard.content.clone(), tool_calls };
    (StepOutput { content: heard.content, is_error: heard.failed }, event)
}

/// A tool step calls its tool under an id of its own, with its arguments filled; a judgement asks
/// the model alone, for its prompt and then its input, both filled, and offers no tools.
pub proof fn law_steps_are_asked_as_written(
    id: Seq<char>,
    tool: Seq<char>,
    args: JsonV,
    model: Seq<char>,
    max_tokens: usize,
    temperature: Float32,
    think: ThinkLevel,
    prompt: Seq<char>,
    input: Seq<char>,
    results: Entries,
    variables: Entries,
)
    ensures
        ({
            let call = step_call(id, tool, args, results, variables);
            &&& call.id == "wf_"@ + id
            &&& call.name == tool
            &&& call.arguments == filled_json(args, results, variables)
        }),
        ({
            let asked = judge_question(
                model,
                max_tokens,
                temperature,
                think,
                prompt,
                input,
                results,
                variables,
            );
            &&& asked.model == model && asked.max_tokens == max_tokens
            &&& asked.temperature == temperature && asked.think == think
            &&& asked.system.len() == 0 && asked.tools.len() == 0
            &&& asked.messages.len() == 1 && asked.messages[0] is User
            &&& asked.messages[0]->User_content == filled(prompt, results, variables)
                + "\n\n---\n\n"@ + filled(input, results, variables)
            &&& asked.messages[0]->User_images.len() == 0
        }),
{
}

} // verus!
