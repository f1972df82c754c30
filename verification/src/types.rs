//! The vocabulary that the modules share: messages, session events, tools, configuration, skills.
use crate::json::{Json, JsonV};
use crate::text::texts;
use crate::textmap::{Entries, TextMap};
use crate::views::{opt_view, views};
use vstd::prelude::*;

verus! {

/// The name of a session.
pub type SessionId = String;

/// The name that ties a tool call to its result.
pub type CallId = String;

/// A single-precision number, carried by its bit pattern and never computed with here.
#[derive(Debug, Clone, Copy, PartialEq, Eq, Structural)]
pub struct Float32 {
    pub bits: u32,
}

/// An image: its media type and its bytes in base64.
#[derive(Debug)]
pub struct ImageBlock {
    pub media_type: String,
    pub data: String,
}

/// What an [`ImageBlock`] stands for.
pub struct ImageBlockV {
    pub media_type: Seq<char>,
    pub data: Seq<char>,
}

impl View for ImageBlock {
    type V = ImageBlockV;

    open spec fn view(&self) -> ImageBlockV {
        ImageBlockV { media_type: self.media_type@, data: self.data@ }
    }
}

impl Clone for ImageBlock {
    fn clone(&self) -> (r: ImageBlock)
        ensures
            r@ == self@,
    {
        ImageBlock { media_type: self.media_type.clone(), data: self.data.clone() }
    }
}

/// A tool call that the model asks for.
#[derive(Debug)]
pub struct ToolCall {
    pub id: CallId,
    pub name: String,
    pub arguments: Json,
}

/// What a [`ToolCall`] stands for.
pub struct ToolCallV {
    pub id: Seq<char>,
    pub name: Seq<char>,
    pub arguments: JsonV,
}

impl View for ToolCall {
    type V = ToolCallV;

    open spec fn view(&self) -> ToolCallV {
        ToolCallV { id: self.id@, name: self.name@, arguments: self.arguments@ }
    }
}

impl Clone for ToolCall {
    fn clone(&self) -> (r: ToolCall)
        ensures
            r@ == self@,
    {
        ToolCall { id: self.id.clone(), name: self.name.clone(), arguments: self.arguments.clone() }
    }
}

/// One message of the conversation as the model sees it, derived from the session log.
#[derive(Debug)]
pub enum Message {
    /// What the user wrote, or what was injected in the user's place.
    User { content: String, images: Vec<ImageBlock> },
    /// What the assistant wrote, with the tool calls it asked for and its reasoning.
    Assistant {
        content: String,
        tool_calls: Vec<ToolCall>,
        reasoning_content: Option<String>,
    },
    /// The outcome of one tool call.
    Tool { call_id: CallId, content: String, is_error: bool, images: Vec<ImageBlock> },
}

/// What a [`Message`] stands for.
pub enum MessageV {
    User { content: Seq<char>, images: Seq<ImageBlockV> },
    Assistant {
        content: Seq<char>,
        tool_calls: Seq<ToolCallV>,
        reasoning_content: Option<Seq<char>>,
    },
    Tool { call_id: Seq<char>, content: Seq<char>, is_error: bool, images: Seq<ImageBlockV> },
}

impl View for Message {
    type V = MessageV;

    open spec fn view(&self) -> MessageV {
        match *self {
            Message::User { content, images } => MessageV::User {
                content: content@,
                images: views(images@),
            },
            Message::Assistant { content, tool_calls, reasoning_content } => MessageV::Assistant {
                content: content@,
                tool_calls: views(tool_calls@),
                reasoning_content: opt_view(reasoning_content),
            },
            Message::Tool { call_id, content, is_error, images } => MessageV::Tool {
                call_id: call_id@,
                content: content@,
                is_error,
                images: views(images@),
            },
        }
    }
}

impl Clone for Message {
    fn clone(&self) -> (r: Message)
        ensures
            r@ == self@,
    {
        match self {
            Message::User { content, images } => Message::User {
                content: content.clone(),
                images: clone_images(images),
            },
            Message::Assistant { content, tool_calls, reasoning_content } => Message::Assistant {
                content: content.clone(),
                tool_calls: clone_calls(tool_calls),
                reasoning_content: clone_opt(reasoning_content),
            },
            Message::Tool { call_id, content, is_error, images } => Message::Tool {
                call_id: call_id.clone(),
                content: content.clone(),
                is_error: *is_error,
                images: clone_images(images),
            },
        }
    }
}

/// A copy of some images.
pub fn clone_images(v: &Vec<ImageBlock>) -> (r: Vec<ImageBlock>)
    ensures
        views(r@) == views(v@),
{
    let r = v.clone();
    assert(views(r@) =~= views(v@));
    r
}

/// A copy of some tool calls.
pub fn clone_calls(v: &Vec<ToolCall>) -> (r: Vec<ToolCall>)
    ensures
        views(r@) == views(v@),
{
    let r = v.clone();
    assert(views(r@) =~= views(v@));
    r
}

/// A copy of some strings.
pub fn clone_texts(v: &Vec<String>) -> (r: Vec<String>)
    ensures
        texts(r@) == texts(v@),
{
    let r = v.clone();
    assert(texts(r@) =~= texts(v@));
    r
}

/// A copy of a string that may not be there.
pub fn clone_opt(o: &Option<String>) -> (r: Option<String>)
    ensures
        opt_view(r) == opt_view(*o),
{
    match o {
        Some(s) => Some(s.clone()),
        None => None,
    }
}

/// A piece of a streamed answer.
#[derive(Debug)]
pub struct StreamChunk {
    pub delta: String,
    pub tool_call_delta: Option<ToolCallDelta>,
}

/// A piece of a streamed tool call.
#[derive(Debug)]
pub struct ToolCallDelta {
    pub index: usize,
    pub id: Option<String>,
    pub name: Option<String>,
    pub arguments_fragment: Option<String>,
}

/// The token counts that the model reports with an answer.
#[derive(Debug, Clone, Copy, PartialEq, Eq, Structural)]
pub struct TokenUsage {
    pub prompt_tokens: u64,
    pub completion_tokens: u64,
    /// Prompt tokens answered from the cache; 0 where it is not reported.
    pub cache_hit_tokens: u64,
    /// Prompt tokens not answered from the cache; 0 where it is not reported.
    pub cache_miss_tokens: u64,
    /// Completion tokens spent on reasoning; 0 where it is not reported.
    pub reasoning_tokens: u64,
}

impl Default for TokenUsage {
    fn default() -> (r: TokenUsage)
        ensures
            r == (TokenUsage {
                prompt_tokens: 0,
                completion_tokens: 0,
                cache_hit_tokens: 0,
                cache_miss_tokens: 0,
                reasoning_tokens: 0,
            }),
    {
        TokenUsage {
            prompt_tokens: 0,
            completion_tokens: 0,
            cache_hit_tokens: 0,
            cache_miss_tokens: 0,
            reasoning_tokens: 0,
        }
    }
}

/// Why a turn ended.
#[derive(Debug, Clone, Copy, PartialEq, Eq, Structural)]
pub enum TurnEndReason {
    /// The model finished with no tool call pending.
    Completed,
    /// The model hit the token limit.
    MaxTokens,
    /// The user or a signal stopped the turn.
    Aborted,
    /// Something failed during the turn.
    Error,
}

/// One event of the append-only session log.
#[derive(Debug)]
pub enum SessionEvent {
    TurnStart { turn: u64 },
    TurnEnd { turn: u64, reason: TurnEndReason },
    StepStart { turn: u64, step: u64 },
    StepEnd { turn: u64, step: u64 },
    UserMessage { content: String, images: Vec<ImageBlock> },
    AssistantChunk { delta: String },
    AssistantMessage {
        content: String,
        tool_calls: Vec<ToolCall>,
        usage: Option<TokenUsage>,
        /// Milliseconds from the start of the step to the first token.
        ttft_ms: u64,
        /// Milliseconds from the first token to the end of the answer.
        decode_ms: u64,
        /// The reasoning that came with the answer.
        thinking: Option<String>,
    },
    ToolCall { call: ToolCall },
    ToolResult { call_id: CallId, content: String, is_error: bool, images: Vec<ImageBlock> },
    TodoWrite { todos: Vec<String> },
    RequestHeader { model: String },
    /// A summary that stands in the place of older events.
    CompactionSummary { summary: String },
}

/// What a [`SessionEvent`] stands for.
pub enum SessionEventV {
    TurnStart { turn: u64 },
    TurnEnd { turn: u64, reason: TurnEndReason },
    StepStart { turn: u64, step: u64 },
    StepEnd { turn: u64, step: u64 },
    UserMessage { content: Seq<char>, images: Seq<ImageBlockV> },
    AssistantChunk { delta: Seq<char> },
    AssistantMessage {
        content: Seq<char>,
        tool_calls: Seq<ToolCallV>,
        usage: Option<TokenUsage>,
        ttft_ms: u64,
        decode_ms: u64,
        thinking: Option<Seq<char>>,
    },
    ToolCall { call: ToolCallV },
    ToolResult {
        call_id: Seq<char>,
        content: Seq<char>,
        is_error: bool,
        images: Seq<ImageBlockV>,
    },
    TodoWrite { todos: Seq<Seq<char>> },
    RequestHeader { model: Seq<char> },
    CompactionSummary { summary: Seq<char> },
}

impl View for SessionEvent {
    type V = SessionEventV;

    open spec fn view(&self) -> SessionEventV {
        match *self {
            SessionEvent::TurnStart { turn } => SessionEventV::TurnStart { turn },
            SessionEvent::TurnEnd { turn, reason } => SessionEventV::TurnEnd { turn, reason },
            SessionEvent::StepStart { turn, step } => SessionEventV::StepStart { turn, step },
            SessionEvent::StepEnd { turn, step } => SessionEventV::StepEnd { turn, step },
            SessionEvent::UserMessage { content, images } => SessionEventV::UserMessage {
                content: content@,
                images: views(images@),
            },
            SessionEvent::AssistantChunk { delta } => SessionEventV::AssistantChunk {
                delta: delta@,
            },
            SessionEvent::AssistantMessage {
                content,
                tool_calls,
                usage,
                ttft_ms,
                decode_ms,
                thinking,
            } => SessionEventV::AssistantMessage {
                content: content@,
                tool_calls: views(tool_calls@),
                usage,
                ttft_ms,
                decode_ms,
                thinking: opt_view(thinking),
            },
            SessionEvent::ToolCall { call } => SessionEventV::ToolCall { call: call@ },
            SessionEvent::ToolResult { call_id, content, is_error, images } => {
                SessionEventV::ToolResult {
                    call_id: call_id@,
                    content: content@,
                    is_error,
                    images: views(images@),
                }
            },
            SessionEvent::TodoWrite { todos } => SessionEventV::TodoWrite { todos: texts(todos@) },
            SessionEvent::RequestHeader { model } => SessionEventV::RequestHeader { model: model@ },
            SessionEvent::CompactionSummary { summary } => SessionEventV::CompactionSummary {
                summary: summary@,
            },
        }
    }
}

impl Clone for SessionEvent {
    fn clone(&self) -> (r: SessionEvent)
        ensures
            r@ == self@,
    {
        match self {
            SessionEvent::TurnStart { turn } => SessionEvent::TurnStart { turn: *turn },
            SessionEvent::TurnEnd { turn, reason } => SessionEvent::TurnEnd {
                turn: *turn,
                reason: *reason,
            },
            SessionEvent::StepStart { turn, step } => SessionEvent::StepStart {
                turn: *turn,
                step: *step,
            },
            SessionEvent::StepEnd { turn, step } => SessionEvent::StepEnd {
                turn: *turn,
                step: *step,
            },
            SessionEvent::UserMessage { content, images } => SessionEvent::UserMessage {
                content: content.clone(),
                images: clone_images(images),
            },
            SessionEvent::AssistantChunk { delta } => SessionEvent::AssistantChunk {
                delta: delta.clone(),
            },
            SessionEvent::AssistantMessage {
                content,
                tool_calls,
                usage,
                ttft_ms,
                decode_ms,
                thinking,
            } => SessionEvent::AssistantMessage {
                content: content.clone(),
                tool_calls: clone_calls(tool_calls),
                usage: *usage,
                ttft_ms: *ttft_ms,
                decode_ms: *decode_ms,
                thinking: clone_opt(thinking),
            },
            SessionEvent::ToolCall { call } => SessionEvent::ToolCall { call: call.clone() },
            SessionEvent::ToolResult { call_id, content, is_error, images } => {
                SessionEvent::ToolResult {
                    call_id: call_id.clone(),
                    content: content.clone(),
                    is_error: *is_error,
                    images: clone_images(images),
                }
            },
            SessionEvent::TodoWrite { todos } => SessionEvent::TodoWrite {
                todos: clone_texts(todos),
            },
            SessionEvent::RequestHeader { model } => SessionEvent::RequestHeader {
                model: model.clone(),
            },
            SessionEvent::CompactionSummary { summary } => SessionEvent::CompactionSummary {
                summary: summary.clone(),
            },
        }
    }
}

/// What a tool is called, what it does, what it takes and how long it may run.
#[derive(Debug)]
pub struct ToolDefinition {
    pub name: String,
    pub description: String,
    /// The JSON schema of the arguments.
    pub parameters: Json,
    /// How long one call may take, in milliseconds.
    pub timeout_ms: u64,
    /// How the tool is to be used.
    pub guidance: String,
}

/// What a [`ToolDefinition`] stands for.
pub struct ToolDefinitionV {
    pub name: Seq<char>,
    pub description: Seq<char>,
    pub parameters: JsonV,
    pub timeout_ms: u64,
    pub guidance: Seq<char>,
}

impl View for ToolDefinition {
    type V = ToolDefinitionV;

    open spec fn view(&self) -> ToolDefinitionV {
        ToolDefinitionV {
            name: self.name@,
            description: self.description@,
            parameters: self.parameters@,
            timeout_ms: self.timeout_ms,
            guidance: self.guidance@,
        }
    }
}

impl Clone for ToolDefinition {
    fn clone(&self) -> (r: ToolDefinition)
        ensures
            r@ == self@,
    {
        ToolDefinition {
            name: self.name.clone(),
            description: self.description.clone(),
            parameters: self.parameters.clone(),
            timeout_ms: self.timeout_ms,
            guidance: self.guidance.clone(),
        }
    }
}

/// A copy of some tool definitions.
pub fn clone_definitions(v: &Vec<ToolDefinition>) -> (r: Vec<ToolDefinition>)
    ensures
        views(r@) == views(v@),
{
    let r = v.clone();
    assert(views(r@) =~= views(v@));
    r
}

/// The outcome of one tool execution.
#[derive(Debug)]
pub struct ToolResult {
    pub content: String,
    pub is_error: bool,
    pub images: Vec<ImageBlock>,
}

/// What a [`ToolResult`] stands for.
pub struct ToolResultV {
    pub content: Seq<char>,
    pub is_error: bool,
    pub images: Seq<ImageBlockV>,
}

impl View for ToolResult {
    type V = ToolResultV;

    open spec fn view(&self) -> ToolResultV {
        ToolResultV {
            content: self.content@,
            is_error: self.is_error,
            images: views(self.images@),
        }
    }
}

impl Clone for ToolResult {
    fn clone(&self) -> (r: ToolResult)
        ensures
            r@ == self@,
    {
        ToolResult {
            content: self.content.clone(),
            is_error: self.is_error,
            images: clone_images(&self.images),
        }
    }
}

/// A result without images.
pub open spec fn plain_result(content: Seq<char>, is_error: bool) -> ToolResultV {
    ToolResultV { content, is_error, images: Seq::empty() }
}

impl ToolResult {
    /// A result without images.
    pub fn plain(content: String, is_error: bool) -> (r: ToolResult)
        ensures
            r@ == plain_result(content@, is_error),
    {
        let r = ToolResult { content, is_error, images: Vec::new() };
        assert(views(r.images@) =~= Seq::empty());
        r
    }
}

/// The whole configuration.
#[derive(Debug)]
pub struct Config {
    pub model: ModelConfig,
    /// Named models to switch between.
    pub models: Vec<ModelPreset>,
    pub server: ServerConfig,
    pub session: SessionConfig,
    pub memory: MemoryConfig,
    pub compaction: CompactionConfig,
    pub skill: SkillConfig,
    pub prompt: PromptConfig,
    pub trajectory: TrajectoryConfig,
    pub tools: ToolsConfig,
    /// Devices that can be reached over SSH.
    pub ssh: SshConfig,
}

/// A named model to switch to.
#[derive(Debug)]
pub struct ModelPreset {
    pub name: String,
    pub base_url: String,
    pub api_key: String,
    pub model: String,
    pub context_window: usize,
    pub max_tokens: usize,
    pub temperature: Float32,
}

/// The context window of a model preset that names none.
pub fn default_context_window() -> (r: usize)
    ensures
        r == 8192,
{
    8192
}

/// The token limit of a model preset that names none.
pub fn default_max_tokens() -> (r: usize)
    ensures
        r == 2048,
{
    2048
}

/// The temperature of a model preset that names none: zero.
pub fn default_temperature() -> (r: Float32)
    ensures
        r.bits == 0,
{
    Float32 { bits: 0 }
}

#[derive(Debug)]
pub struct ModelConfig {
    pub base_url: String,
    pub api_key: String,
    pub model: String,
    pub context_window: usize,
    pub max_tokens: usize,
    pub temperature: Float32,
    /// The proxy to go through; empty for none.
    pub proxy: String,
}

impl Clone for ModelConfig {
    fn clone(&self) -> (r: ModelConfig)
        ensures
            r == *self,
    {
        ModelConfig {
            base_url: self.base_url.clone(),
            api_key: self.api_key.clone(),
            model: self.model.clone(),
            context_window: self.context_window,
            max_tokens: self.max_tokens,
            temperature: self.temperature,
            proxy: self.proxy.clone(),
        }
    }
}

#[derive(Debug)]
pub struct ServerConfig {
    pub listen: String,
}

#[derive(Debug)]
pub struct SessionConfig {
    pub persist_dir: String,
    pub checkpoint_events: usize,
    pub checkpoint_turn_end: bool,
}

#[derive(Debug)]
pub struct MemoryConfig {
    pub backend: String,
    pub path: String,
    pub max_entries: usize,
}

#[derive(Debug)]
pub struct CompactionConfig {
    pub threshold: Float32,
    pub keep_recent_turns: usize,
}

#[derive(Debug)]
pub struct SkillConfig {
    pub dir: String,
    /// The skill to use where none is asked for.
    pub active: Option<String>,
}

#[derive(Debug)]
pub struct PromptConfig {
    /// The instructions of the user, which every prompt holds; empty where there are none.
    pub custom: String,
}

#[derive(Debug)]
pub struct TrajectoryConfig {
    pub enabled: bool,
}

#[derive(Debug)]
pub struct ToolsConfig {
    pub shell: bool,
    pub file_read: bool,
    pub file_write: bool,
    pub file_search: bool,
    pub ssh_exec: bool,
    pub memory: bool,
    pub todo: bool,
    /// How much the tools may do: `read-only`, `workspace-write` or `danger-full-access`.
    pub permission: String,
}

/// The devices that can be reached over SSH.
#[derive(Debug)]
pub struct SshConfig {
    pub targets: Vec<SshTarget>,
}

/// One device that can be reached over SSH.
#[derive(Debug)]
pub struct SshTarget {
    pub name: String,
    pub host: String,
    pub port: u16,
    pub user: String,
    pub password: String,
}

/// What an [`SshTarget`] stands for.
pub struct SshTargetV {
    pub name: Seq<char>,
    pub host: Seq<char>,
    pub port: u16,
    pub user: Seq<char>,
    pub password: Seq<char>,
}

impl View for SshTarget {
    type V = SshTargetV;

    open spec fn view(&self) -> SshTargetV {
        SshTargetV {
            name: self.name@,
            host: self.host@,
            port: self.port,
            user: self.user@,
            password: self.password@,
        }
    }
}

impl Clone for SshTarget {
    fn clone(&self) -> (r: SshTarget)
        ensures
            r@ == self@,
    {
        SshTarget {
            name: self.name.clone(),
            host: self.host.clone(),
            port: self.port,
            user: self.user.clone(),
            password: self.password.clone(),
        }
    }
}

/// The port of an SSH device that names none.
pub fn default_ssh_port() -> (r: u16)
    ensures
        r == 22,
{
    22
}

/// How a skill is executed.
#[derive(Debug, Clone, Copy, PartialEq, Eq, Structural)]
pub enum ExecMode {
    /// Fixed steps, without the model deciding what to do.
    Workflow,
    /// Known steps, through which the model is guided.
    Todo,
    /// The model plans, acts and plans again.
    Plan,
}

impl Default for ExecMode {
    fn default() -> (r: ExecMode)
        ensures
            r == ExecMode::Plan,
    {
        ExecMode::Plan
    }
}

/// The name of a mode, as it is written in reports.
pub open spec fn mode_name(mode: ExecMode) -> Seq<char> {
    match mode {
        ExecMode::Workflow => "Workflow"@,
        ExecMode::Todo => "Todo"@,
        ExecMode::Plan => "Plan"@,
    }
}

/// The name of the reason for which a turn ended, as it is written in reports.
pub open spec fn reason_name(reason: TurnEndReason) -> Seq<char> {
    match reason {
        TurnEndReason::Completed => "Completed"@,
        TurnEndReason::MaxTokens => "MaxTokens"@,
        TurnEndReason::Aborted => "Aborted"@,
        TurnEndReason::Error => "Error"@,
    }
}

impl TurnEndReason {
    /// The name of the reason, as it is written in reports.
    pub fn name(self) -> (r: &'static str)
        ensures
            r@ == reason_name(self),
    {
        match self {
            TurnEndReason::Completed => "Completed",
            TurnEndReason::MaxTokens => "MaxTokens",
            TurnEndReason::Aborted => "Aborted",
            TurnEndReason::Error => "Error",
        }
    }
}

impl ExecMode {
    /// The name of the mode, as it is written in reports.
    pub fn name(self) -> (r: &'static str)
        ensures
            r@ == mode_name(self),
    {
        match self {
            ExecMode::Workflow => "Workflow",
            ExecMode::Todo => "Todo",
            ExecMode::Plan => "Plan",
        }
    }
}

/// How much the model is to reason.
#[derive(Debug, Clone, Copy, PartialEq, Eq, Structural)]
pub enum ThinkLevel {
    Off,
    Low,
    High,
    Max,
}

impl ThinkLevel {
    /// Whether the model is to reason at all.
    pub fn is_enabled(self) -> (r: bool)
        ensures
            r == (self != ThinkLevel::Off),
    {
        match self {
            ThinkLevel::Off => false,
            _ => true,
        }
    }

    /// What a request says of the reasoning: nothing where it is off.
    pub open spec fn effort(self) -> Option<Seq<char>> {
        match self {
            ThinkLevel::Off => None,
            ThinkLevel::Low => Some("low"@),
            ThinkLevel::High => Some("high"@),
            ThinkLevel::Max => Some("max"@),
        }
    }

    /// What a request says of the reasoning: nothing where it is off.
    pub fn as_effort_str(self) -> (r: Option<&'static str>)
        ensures
            match r {
                Some(s) => self.effort() == Some(s@),
                None => self.effort() is None,
            },
    {
        match self {
            ThinkLevel::Off => None,
            ThinkLevel::Low => Some("low"),
            ThinkLevel::High => Some("high"),
            ThinkLevel::Max => Some("max"),
        }
    }
}

/// What a step of a skill does.
#[derive(Debug)]
pub enum StepAction {
    /// Run a tool with these arguments, in which placeholders are filled.
    Tool { tool: String, args: Json },
    /// Ask the model for a judgement on an input.
    LlmJudge { prompt: String, input: String },
}

/// What a [`StepAction`] stands for.
pub enum StepActionV {
    Tool { tool: Seq<char>, args: JsonV },
    LlmJudge { prompt: Seq<char>, input: Seq<char> },
}

impl View for StepAction {
    type V = StepActionV;

    open spec fn view(&self) -> StepActionV {
        match *self {
            StepAction::Tool { tool, args } => StepActionV::Tool { tool: tool@, args: args@ },
            StepAction::LlmJudge { prompt, input } => StepActionV::LlmJudge {
                prompt: prompt@,
                input: input@,
            },
        }
    }
}

impl Clone for StepAction {
    fn clone(&self) -> (r: StepAction)
        ensures
            r@ == self@,
    {
        match self {
            StepAction::Tool { tool, args } => StepAction::Tool {
                tool: tool.clone(),
                args: args.clone(),
            },
            StepAction::LlmJudge { prompt, input } => StepAction::LlmJudge {
                prompt: prompt.clone(),
                input: input.clone(),
            },
        }
    }
}

/// One step of a skill.
#[derive(Debug)]
pub struct SkillStep {
    pub id: String,
    pub action: StepAction,
    /// The condition under which the step runs.
    pub when: Option<String>,
}

/// What a [`SkillStep`] stands for.
pub struct SkillStepV {
    pub id: Seq<char>,
    pub action: StepActionV,
    pub when: Option<Seq<char>>,
}

impl View for SkillStep {
    type V = SkillStepV;

    open spec fn view(&self) -> SkillStepV {
        SkillStepV { id: self.id@, action: self.action@, when: opt_view(self.when) }
    }
}

impl Clone for SkillStep {
    fn clone(&self) -> (r: SkillStep)
        ensures
            r@ == self@,
    {
        SkillStep {
            id: self.id.clone(),
            action: self.action.clone(),
            when: clone_opt(&self.when),
        }
    }
}

/// A copy of some steps.
pub fn clone_steps(v: &Vec<SkillStep>) -> (r: Vec<SkillStep>)
    ensures
        views(r@) == views(v@),
{
    let r = v.clone();
    assert(views(r@) =~= views(v@));
    r
}

/// A skill: what it is for, how it runs, and the instructions it gives the model.
#[derive(Debug)]
pub struct Skill {
    pub name: String,
    pub description: String,
    pub when_to_use: Option<String>,
    pub mode: ExecMode,
    pub think: ThinkLevel,
    /// The tools it may use; all of them where the list is empty.
    pub tools_allow: Vec<String>,
    pub variables: TextMap,
    /// The instructions.
    pub body: String,
    /// The steps of a workflow or a todo list.
    pub steps: Vec<SkillStep>,
}

/// What a [`Skill`] stands for.
pub struct SkillV {
    pub name: Seq<char>,
    pub description: Seq<char>,
    pub when_to_use: Option<Seq<char>>,
    pub mode: ExecMode,
    pub think: ThinkLevel,
    pub tools_allow: Seq<Seq<char>>,
    pub variables: Entries,
    pub body: Seq<char>,
    pub steps: Seq<SkillStepV>,
}

impl View for Skill {
    type V = SkillV;

    open spec fn view(&self) -> SkillV {
        SkillV {
            name: self.name@,
            description: self.description@,
            when_to_use: opt_view(self.when_to_use),
            mode: self.mode,
            think: self.think,
            tools_allow: texts(self.tools_allow@),
            variables: self.variables@,
            body: self.body@,
            steps: views(self.steps@),
        }
    }
}

impl Clone for Skill {
    fn clone(&self) -> (r: Skill)
        ensures
            r@ == self@,
    {
        Skill {
            name: self.name.clone(),
            description: self.description.clone(),
            when_to_use: clone_opt(&self.when_to_use),
            mode: self.mode,
            think: self.think,
            tools_allow: clone_texts(&self.tools_allow),
            variables: self.variables.clone(),
            body: self.body.clone(),
            steps: clone_steps(&self.steps),
        }
    }
}

/// The model is told how much to reason exactly where it is to reason, and each amount by a word of
/// its own.
pub proof fn law_amounts_of_reasoning_have_their_words(a: ThinkLevel, b: ThinkLevel)
    ensures
        a.effort() is None <==> a == ThinkLevel::Off,
        a.effort() == b.effort() ==> a == b,
        ThinkLevel::Low.effort() == Some("low"@),
        ThinkLevel::High.effort() == Some("high"@),
        ThinkLevel::Max.effort() == Some("max"@),
{
    reveal_strlit("low");
    reveal_strlit("high");
    reveal_strlit("max");
    assert("low"@.len() == 3 && "high"@.len() == 4 && "max"@.len() == 3);
    assert("low"@[0] != "max"@[0]);
}

/// No two ways of running and no two ends of a turn have the same name.
pub proof fn law_names_differ(m: ExecMode, n: ExecMode, r: TurnEndReason, s: TurnEndReason)
    ensures
        mode_name(m) == mode_name(n) ==> m == n,
        mode_name(ExecMode::Workflow) == "Workflow"@,
        mode_name(ExecMode::Todo) == "Todo"@,
        mode_name(ExecMode::Plan) == "Plan"@,
        reason_name(r) == reason_name(s) ==> r == s,
        reason_name(TurnEndReason::Completed) == "Completed"@,
        reason_name(TurnEndReason::Error) == "Error"@,
        reason_name(TurnEndReason::Aborted) == "Aborted"@,
        reason_name(TurnEndReason::MaxTokens) == "MaxTokens"@,
{
    reveal_strlit("Workflow");
    reveal_strlit("Todo");
    reveal_strlit("Plan");
    reveal_strlit("Completed");
    reveal_strlit("MaxTokens");
    reveal_strlit("Aborted");
    reveal_strlit("Error");
    assert("Workflow"@.len() == 8 && "Todo"@.len() == 4 && "Plan"@.len() == 4);
    assert("Todo"@[0] != "Plan"@[0]);
    assert("Completed"@.len() == 9 && "MaxTokens"@.len() == 9);
    assert("Aborted"@.len() == 7 && "Error"@.len() == 5);
    assert("Completed"@[0] != "MaxTokens"@[0]);
}

/// A plain result is what was said, as a failure or not, without images.
pub proof fn law_plain_results_say_what_was_said(content: Seq<char>, is_error: bool)
    ensures
        plain_result(content, is_error).content == content,
        plain_result(content, is_error).is_error == is_error,
        plain_result(content, is_error).images.len() == 0,
{
}

} // verus!
