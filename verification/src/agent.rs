//! The agent loop: how a turn runs, step by step.
//!
//! The loop itself does nothing outside of memory. It says what is to be done next, and is told
//! what came of it; what it has to report on the way it hands out as events.
use crate::compaction::{all_told, summary_asked, summary_request};
use crate::hooks::{
    ask_after, ask_before, hooks_conclude, hooks_decide, PostStepContext, PostStepV,
    PreStepContext, PreStepV, StepDecision, StepDecisionV, StepFlow, StepHook,
};
use crate::llm::{LlmClient, LlmRequest, LlmRequestV, StreamEvent, StreamEventV};
use crate::prompt::{
    assemble_turn, turn_prompt, unset, AssembledPrompt, PromptSettings, PromptV, SettingsV,
};
use crate::policy::Policy;
use crate::session::{
    derived, last_n, law_compaction_keeps_the_newest, law_derived_is_append_only, SessionLog,
    SessionLogV,
};
use crate::text::{chars_of, join};
use crate::tools::{
    checked_admission, finalize_result, is_registered, settled, Admission, AdmissionV, RunOutcome,
    RunOutcomeV, ToolRegistry,
};
use crate::types::{
    clone_calls, clone_definitions, clone_images, Float32, ImageBlock, ImageBlockV, Message,
    MessageV, ModelConfig, SessionEvent, SessionEventV, Skill, SkillV, TokenUsage, ToolCall,
    ToolCallV, ToolDefinition, ToolDefinitionV, ToolResult, ToolResultV, TurnEndReason,
};
use crate::views::{opt_view, views};
use vstd::prelude::*;

verus! {

/// What the loop reports.
#[derive(Debug)]
pub enum LoopEvent {
    TurnStart { turn: u64 },
    StepStart { turn: u64, step: u64 },
    /// A piece of the answer.
    Delta { text: String },
    /// The whole answer.
    AssistantMessage { content: String, tool_calls: Vec<ToolCall> },
    ToolCall { call: ToolCall },
    ToolResult { call_id: String, content: String, is_error: bool },
    StepEnd { turn: u64, step: u64 },
    TurnEnd { turn: u64, reason: TurnEndReason },
    /// How many tokens the answer took, and how long it took.
    Usage {
        prompt_tokens: u64,
        completion_tokens: u64,
        cache_hit_tokens: u64,
        cache_miss_tokens: u64,
        /// From the start of the step to the first piece of the answer, in milliseconds.
        ttft_ms: u64,
        /// From the first piece of the answer to its end, in milliseconds.
        decode_ms: u64,
    },
    Error { message: String },
}

/// What a [`LoopEvent`] stands for.
pub enum LoopEventV {
    TurnStart { turn: u64 },
    StepStart { turn: u64, step: u64 },
    Delta { text: Seq<char> },
    AssistantMessage { content: Seq<char>, tool_calls: Seq<ToolCallV> },
    ToolCall { call: ToolCallV },
    ToolResult { call_id: Seq<char>, content: Seq<char>, is_error: bool },
    StepEnd { turn: u64, step: u64 },
    TurnEnd { turn: u64, reason: TurnEndReason },
    Usage {
        prompt_tokens: u64,
        completion_tokens: u64,
        cache_hit_tokens: u64,
        cache_miss_tokens: u64,
        ttft_ms: u64,
        decode_ms: u64,
    },
    Error { message: Seq<char> },
}

impl View for LoopEvent {
    type V = LoopEventV;

    open spec fn view(&self) -> LoopEventV {
        match *self {
            LoopEvent::TurnStart { turn } => LoopEventV::TurnStart { turn },
            LoopEvent::StepStart { turn, step } => LoopEventV::StepStart { turn, step },
            LoopEvent::Delta { text } => LoopEventV::Delta { text: text@ },
            LoopEvent::AssistantMessage { content, tool_calls } => LoopEventV::AssistantMessage {
                content: content@,
                tool_calls: views(tool_calls@),
            },
            LoopEvent::ToolCall { call } => LoopEventV::ToolCall { call: call@ },
            LoopEvent::ToolResult { call_id, content, is_error } => LoopEventV::ToolResult {
                call_id: call_id@,
                content: content@,
                is_error,
            },
            LoopEvent::StepEnd { turn, step } => LoopEventV::StepEnd { turn, step },
            LoopEvent::TurnEnd { turn, reason } => LoopEventV::TurnEnd { turn, reason },
            LoopEvent::Usage {
                prompt_tokens,
                completion_tokens,
                cache_hit_tokens,
                cache_miss_tokens,
                ttft_ms,
                decode_ms,
            } => LoopEventV::Usage {
                prompt_tokens,
                completion_tokens,
                cache_hit_tokens,
                cache_miss_tokens,
                ttft_ms,
                decode_ms,
            },
            LoopEvent::Error { message } => LoopEventV::Error { message: message@ },
        }
    }
}

/// What has come of an answer so far.
#[derive(Debug)]
pub struct Collected {
    pub content: String,
    pub thinking: String,
    pub calls: Vec<ToolCall>,
    pub usage: Option<TokenUsage>,
    pub failed: bool,
    /// When the first piece came, in milliseconds from the start of the step.
    pub first: Option<u64>,
    /// When the answer ended.
    pub done: Option<u64>,
}

/// What a [`Collected`] stands for.
pub struct CollectedV {
    pub content: Seq<char>,
    pub thinking: Seq<char>,
    pub calls: Seq<ToolCallV>,
    pub usage: Option<TokenUsage>,
    pub failed: bool,
    pub first: Option<u64>,
    pub done: Option<u64>,
}

impl View for Collected {
    type V = CollectedV;

    open spec fn view(&self) -> CollectedV {
        CollectedV {
            content: self.content@,
            thinking: self.thinking@,
            calls: views(self.calls@),
            usage: self.usage,
            failed: self.failed,
            first: self.first,
            done: self.done,
        }
    }
}

/// Nothing of an answer.
pub open spec fn nothing_collected() -> CollectedV {
    CollectedV {
        content: Seq::empty(),
        thinking: Seq::empty(),
        calls: Seq::empty(),
        usage: None,
        failed: false,
        first: None,
        done: None,
    }
}

impl CollectedV {
    /// How long the first piece took to come; 0 where none came.
    pub open spec fn ttft(self) -> u64 {
        match self.first {
            Some(t) => t,
            None => 0,
        }
    }

    /// How long the answer took from its first piece to its end; 0 where one of these is missing.
    pub open spec fn decode(self) -> u64 {
        match (self.first, self.done) {
            (Some(a), Some(b)) => if b >= a {
                (b - a) as u64
            } else {
                0
            },
            _ => 0,
        }
    }

    /// What has come of an answer after one more event. The end of the answer repeats all of it,
    /// and counts for more than the pieces unless it repeats nothing.
    pub open spec fn with(self, e: StreamEventV, at: u64) -> CollectedV {
        match e {
            StreamEventV::Delta(text) => CollectedV {
                content: self.content + text,
                first: match self.first {
                    Some(t) => Some(t),
                    None => Some(at),
                },
                ..self
            },
            StreamEventV::ThinkDelta(text) => CollectedV {
                thinking: self.thinking + text,
                ..self
            },
            StreamEventV::ToolCall(call) => CollectedV { calls: self.calls.push(call), ..self },
            StreamEventV::Done { content, tool_calls, usage, .. } => CollectedV {
                content: if content.len() == 0 {
                    self.content
                } else {
                    content
                },
                calls: tool_calls,
                usage,
                done: Some(at),
                ..self
            },
            StreamEventV::Error(_) => CollectedV { failed: true, ..self },
        }
    }

    /// What is reported of an event, where `self` is what has come after it. A judgement reports
    /// no usage.
    pub open spec fn reports(self, e: StreamEventV, judge: bool) -> Seq<LoopEventV> {
        match e {
            StreamEventV::Delta(text) => seq![LoopEventV::Delta { text }],
            StreamEventV::Error(message) => seq![LoopEventV::Error { message }],
            StreamEventV::Done { usage: Some(u), .. } => if judge {
                Seq::empty()
            } else {
                seq![
                    LoopEventV::Usage {
                        prompt_tokens: u.prompt_tokens,
                        completion_tokens: u.completion_tokens,
                        cache_hit_tokens: u.cache_hit_tokens,
                        cache_miss_tokens: u.cache_miss_tokens,
                        ttft_ms: self.ttft(),
                        decode_ms: self.decode(),
                    },
                ]
            },
            _ => Seq::empty(),
        }
    }

    /// What is logged of an answer in a conversation.
    pub open spec fn answer(self) -> SessionEventV {
        SessionEventV::AssistantMessage {
            content: self.content,
            tool_calls: self.calls,
            usage: self.usage,
            ttft_ms: self.ttft(),
            decode_ms: self.decode(),
            thinking: if self.thinking.len() == 0 {
                None
            } else {
                Some(self.thinking)
            },
        }
    }

    /// What is logged of a judgement: what it says and nothing else.
    pub open spec fn judgement(self) -> SessionEventV {
        SessionEventV::AssistantMessage {
            content: self.content,
            tool_calls: Seq::empty(),
            usage: None,
            ttft_ms: 0,
            decode_ms: 0,
            thinking: None,
        }
    }
}

impl Collected {
    /// Nothing of an answer.
    pub fn new() -> (r: Collected)
        ensures
            r@ == nothing_collected(),
    {
        let r = Collected {
            content: String::new(),
            thinking: String::new(),
            calls: Vec::new(),
            usage: None,
            failed: false,
            first: None,
            done: None,
        };
        assert(r@.content =~= Seq::empty());
        assert(r@.thinking =~= Seq::empty());
        assert(r@.calls =~= Seq::empty());
        r
    }

    /// How long the first piece took to come.
    pub fn ttft(&self) -> (r: u64)
        ensures
            r == self@.ttft(),
    {
        match self.first {
            Some(t) => t,
            None => 0,
        }
    }

    /// How long the answer took from its first piece to its end.
    pub fn decode(&self) -> (r: u64)
        ensures
            r == self@.decode(),
    {
        match (self.first, self.done) {
            (Some(a), Some(b)) => if b >= a {
                b - a
            } else {
                0
            },
            _ => 0,
        }
    }

    /// Takes in one more event, which came at `at`, and says what is reported of it.
    pub fn accept(&mut self, event: StreamEvent, at: u64, judge: bool) -> (events: Vec<LoopEvent>)
        ensures
            final(self)@ == old(self)@.with(event@, at),
            views(events@) == old(self)@.with(event@, at).reports(event@, judge),
    {
        let mut events: Vec<LoopEvent> = Vec::new();
        match event {
            StreamEvent::Delta(text) => {
                if self.first.is_none() {
                    self.first = Some(at);
                }
                self.content.push_str(text.as_str());
                events.push(LoopEvent::Delta { text });
                assert(views(events@) =~= seq![LoopEventV::Delta { text: text@ }]);
            },
            StreamEvent::ThinkDelta(text) => {
                self.thinking.push_str(text.as_str());
                assert(views(events@) =~= Seq::empty());
            },
            StreamEvent::ToolCall(call) => {
                let ghost cv = call@;
                self.calls.push(call);
                assert(views(self.calls@) =~= old(self)@.calls.push(cv));
                assert(views(events@) =~= Seq::empty());
            },
            StreamEvent::Done { content, tool_calls, usage, finish_reason: _ } => {
                self.done = Some(at);
                if chars_of(content.as_str()).len() > 0 {
                    self.content = content;
                }
                self.calls = tool_calls;
                self.usage = usage;
                match usage {
                    Some(u) => {
                        if !judge {
                            events.push(
                                LoopEvent::Usage {
                                    prompt_tokens: u.prompt_tokens,
                                    completion_tokens: u.completion_tokens,
                                    cache_hit_tokens: u.cache_hit_tokens,
                                    cache_miss_tokens: u.cache_miss_tokens,
                                    ttft_ms: self.ttft(),
                                    decode_ms: self.decode(),
                                },
                            );
                        }
                    },
                    None => {},
                }
                assert(views(events@) =~= self@.reports(event@, judge));
            },
            StreamEvent::Error(message) => {
                self.failed = true;
                events.push(LoopEvent::Error { message });
                assert(views(events@) =~= seq![LoopEventV::Error { message: message@ }]);
            },
        }
        events
    }
}

/// What came of a step.
#[derive(Debug)]
pub enum StepOutcome {
    /// It ran.
    Done { content: String, is_error: bool, had_tool_calls: bool },
    /// It could not run, and the turn cannot go on.
    Error(String),
}

/// What a [`StepOutcome`] stands for.
pub enum OutcomeV {
    Done { content: Seq<char>, is_error: bool, had_tool_calls: bool },
    Error(Seq<char>),
}

impl View for StepOutcome {
    type V = OutcomeV;

    open spec fn view(&self) -> OutcomeV {
        match *self {
            StepOutcome::Done { content, is_error, had_tool_calls } => OutcomeV::Done {
                content: content@,
                is_error,
                had_tool_calls,
            },
            StepOutcome::Error(message) => OutcomeV::Error(message@),
        }
    }
}

impl StepOutcome {
    /// What the hooks are told: what was said or given back, whether that is an error, and whether
    /// the model asked for tools.
    pub fn as_tuple(self) -> (r: (String, bool, bool))
        ensures
            match self@ {
                OutcomeV::Done { content, is_error, had_tool_calls } => r.0@ == content && r.1
                    == is_error && r.2 == had_tool_calls,
                OutcomeV::Error(message) => r.0@ == message && r.1 && !r.2,
            },
    {
        match self {
            StepOutcome::Done { content, is_error, had_tool_calls } => (
                content,
                is_error,
                had_tool_calls,
            ),
            StepOutcome::Error(message) => (message, true, false),
        }
    }
}

/// Where a turn stands.
#[derive(Debug)]
pub enum Phase {
    /// No turn runs.
    Idle,
    /// A step is to begin.
    StepDue,
    /// The conversation may have to be made shorter before the model is asked.
    Composing,
    /// The model answers.
    Asking { judge: bool, heard: Collected },
    /// Tool calls are to be made. `content` is what the model said; `asked` tells whether it asked
    /// for tools, and `forced` whether there was no model.
    Calling { rest: Vec<ToolCall>, content: String, asked: bool, forced: bool },
    /// A tool runs.
    Running {
        call: ToolCall,
        timeout_ms: u64,
        rest: Vec<ToolCall>,
        content: String,
        asked: bool,
        forced: bool,
    },
    /// The step is to end.
    Closing { outcome: StepOutcome },
}

/// What a [`Phase`] stands for.
pub enum PhaseV {
    Idle,
    StepDue,
    Composing,
    Asking { judge: bool, heard: CollectedV },
    Calling { rest: Seq<ToolCallV>, content: Seq<char>, asked: bool, forced: bool },
    Running {
        call: ToolCallV,
        timeout_ms: u64,
        rest: Seq<ToolCallV>,
        content: Seq<char>,
        asked: bool,
        forced: bool,
    },
    Closing { outcome: OutcomeV },
}

impl View for Phase {
    type V = PhaseV;

    open spec fn view(&self) -> PhaseV {
        match *self {
            Phase::Idle => PhaseV::Idle,
            Phase::StepDue => PhaseV::StepDue,
            Phase::Composing => PhaseV::Composing,
            Phase::Asking { judge, heard } => PhaseV::Asking { judge, heard: heard@ },
            Phase::Calling { rest, content, asked, forced } => PhaseV::Calling {
                rest: views(rest@),
                content: content@,
                asked,
                forced,
            },
            Phase::Running { call, timeout_ms, rest, content, asked, forced } => PhaseV::Running {
                call: call@,
                timeout_ms,
                rest: views(rest@),
                content: content@,
                asked,
                forced,
            },
            Phase::Closing { outcome } => PhaseV::Closing { outcome: outcome@ },
        }
    }
}

/// What is to be done next.
#[derive(Debug)]
pub enum AgentAction {
    /// Go on at once, with [`AgentLoop::resume`].
    Resume,
    /// Ask for a summary, with [`AgentLoop::summary_request`], if these messages take too much room,
    /// and go on with [`AgentLoop::compacted`].
    Compact { messages: Vec<Message> },
    /// Ask the model, and hand over what comes with [`AgentLoop::hear`] and
    /// [`AgentLoop::heard_all`].
    Ask(LlmRequest),
    /// Run a tool, for no longer than this, and go on with [`AgentLoop::tool_done`].
    RunTool { call: ToolCall, timeout_ms: u64 },
    /// Nothing new: what was to be done is still to be done.
    Wait,
    /// The turn has ended.
    Finish(TurnEndReason),
}

/// What an [`AgentAction`] stands for.
pub enum ActionV {
    Resume,
    Compact { messages: Seq<MessageV> },
    Ask(LlmRequestV),
    RunTool { call: ToolCallV, timeout_ms: u64 },
    Wait,
    Finish(TurnEndReason),
}

impl View for AgentAction {
    type V = ActionV;

    open spec fn view(&self) -> ActionV {
        match *self {
            AgentAction::Resume => ActionV::Resume,
            AgentAction::Compact { messages } => ActionV::Compact { messages: views(messages@) },
            AgentAction::Ask(request) => ActionV::Ask(request@),
            AgentAction::RunTool { call, timeout_ms } => ActionV::RunTool {
                call: call@,
                timeout_ms,
            },
            AgentAction::Wait => ActionV::Wait,
            AgentAction::Finish(reason) => ActionV::Finish(reason),
        }
    }
}

/// What the loop hands out: what it reports, and what is to be done next.
#[derive(Debug)]
pub struct AgentOutput {
    pub events: Vec<LoopEvent>,
    pub action: AgentAction,
}

/// The loop: a conversation, the tools and the model that it runs with, and where its turn stands.
pub struct AgentLoop<H: StepHook> {
    session: SessionLog,
    tools: ToolRegistry,
    llm: LlmClient,
    model: String,
    max_tokens: usize,
    temperature: Float32,
    context_window: usize,
    compaction_threshold: Float32,
    keep_recent_turns: usize,
    hooks: Vec<H>,
    settings: PromptSettings,
    prompt: AssembledPrompt,
    phase: Phase,
}

/// What an [`AgentLoop`] stands for, but for its hooks.
pub struct AgentV {
    pub session: SessionLogV,
    pub tools: Seq<ToolDefinitionV>,
    pub policy: Policy,
    pub llm: LlmClient,
    pub model: Seq<char>,
    pub max_tokens: usize,
    pub temperature: Float32,
    pub context_window: usize,
    pub compaction_threshold: Float32,
    pub keep_recent_turns: usize,
    pub settings: SettingsV,
    pub prompt: PromptV,
    pub phase: PhaseV,
}

impl<H: StepHook> View for AgentLoop<H> {
    type V = AgentV;

    closed spec fn view(&self) -> AgentV {
        AgentV {
            session: self.session@,
            tools: self.tools.tools(),
            policy: self.tools.policy(),
            llm: self.llm,
            model: self.model@,
            max_tokens: self.max_tokens,
            temperature: self.temperature,
            context_window: self.context_window,
            compaction_threshold: self.compaction_threshold,
            keep_recent_turns: self.keep_recent_turns,
            settings: self.settings@,
            prompt: self.prompt@,
            phase: self.phase@,
        }
    }
}

/// A loop after something was handed to it, what it reports of that, and what is to be done next.
pub struct TurnV {
    pub agent: AgentV,
    pub events: Seq<LoopEventV>,
    pub action: ActionV,
}

/// What a loop and what it hands out stand for.
pub open spec fn turn_view(agent: AgentV, out: AgentOutput) -> TurnV {
    TurnV { agent, events: views(out.events@), action: out.action@ }
}

/// How many events one keeps of the conversation for each turn that is kept when it is made
/// shorter.
pub const EVENTS_PER_TURN: usize = 6;

/// How many events stay when the conversation is made shorter.
pub open spec fn kept_events(turns: usize) -> usize {
    if turns > usize::MAX / EVENTS_PER_TURN {
        usize::MAX
    } else {
        (turns * EVENTS_PER_TURN) as usize
    }
}

/// How many events stay when the conversation is made shorter.
pub fn events_to_keep(turns: usize) -> (r: usize)
    ensures
        r == kept_events(turns),
{
    if turns > usize::MAX / EVENTS_PER_TURN {
        usize::MAX
    } else {
        assert(turns * 6 <= usize::MAX) by (nonlinear_arith)
            requires
                turns <= usize::MAX / 6,
        ;
        turns * EVENTS_PER_TURN
    }
}

impl AgentV {
    /// Whether the numbers in the log have not run out.
    pub open spec fn ready(self) -> bool {
        &&& self.session.has_room(4)
        &&& self.session.current_turn < u64::MAX
        &&& self.session.current_step < u64::MAX
    }

    /// The loop with something more in its log.
    pub open spec fn logged(self, e: SessionEventV) -> AgentV {
        AgentV { session: self.session.appended(e), ..self }
    }

    /// The loop in another phase.
    pub open spec fn at(self, phase: PhaseV) -> AgentV {
        AgentV { phase, ..self }
    }

    /// A turn begins: the user's message is logged, and the prompt of the skill is made.
    pub open spec fn begun(
        self,
        message: Seq<char>,
        images: Seq<ImageBlockV>,
        skill: SkillV,
    ) -> TurnV {
        let begun = self.session.turn_begun();
        TurnV {
            agent: AgentV {
                session: begun.appended(
                    SessionEventV::UserMessage { content: message, images },
                ),
                prompt: turn_prompt(skill, self.tools, self.settings, self.model),
                phase: PhaseV::StepDue,
                ..self
            },
            events: seq![LoopEventV::TurnStart { turn: begun.current_turn }],
            action: ActionV::Resume,
        }
    }

    /// What is asked of the model in the conversation.
    pub open spec fn request(self, skill: SkillV) -> LlmRequestV {
        LlmRequestV {
            model: self.model,
            system: self.prompt.system,
            messages: derived(self.session.events),
            tools: self.prompt.tools,
            max_tokens: self.max_tokens,
            temperature: self.temperature,
            think: skill.think,
        }
    }

    /// What is asked of the model for a judgement: this prompt alone.
    pub open spec fn judge_request(
        self,
        system: Seq<char>,
        prompt: Seq<char>,
        skill: SkillV,
    ) -> LlmRequestV {
        LlmRequestV {
            model: self.model,
            system,
            messages: seq![MessageV::User { content: prompt, images: Seq::empty() }],
            tools: Seq::empty(),
            max_tokens: self.max_tokens,
            temperature: self.temperature,
            think: skill.think,
        }
    }

    /// The turn ends.
    pub open spec fn ended(self, reason: TurnEndReason, before: Seq<LoopEventV>) -> TurnV {
        TurnV {
            agent: AgentV {
                session: self.session.turn_ended(reason),
                phase: PhaseV::Idle,
                ..self
            },
            events: before.push(
                LoopEventV::TurnEnd { turn: self.session.current_turn, reason },
            ),
            action: ActionV::Finish(reason),
        }
    }

    /// The loop after a step has begun.
    pub open spec fn stepped(self) -> AgentV {
        AgentV { session: self.session.step_begun(), ..self }
    }

    /// What the hooks are told before a step that has begun.
    pub open spec fn before_step(self, skill: SkillV) -> PreStepV {
        PreStepV { turn: self.session.current_turn, step: self.session.current_step, skill }
    }

    /// A step that has begun, by what the hooks decide.
    pub open spec fn decided(self, d: StepDecisionV, skill: SkillV) -> TurnV {
        let turn = self.session.current_turn;
        let step = self.session.current_step;
        let start = seq![LoopEventV::StepStart { turn, step }];
        match d {
            StepDecisionV::Proceed { injection } => {
                let agent = match injection {
                    Some(text) => self.logged(
                        SessionEventV::UserMessage { content: text, images: Seq::empty() },
                    ),
                    None => self,
                };
                TurnV {
                    agent: agent.at(PhaseV::Composing),
                    events: start,
                    action: ActionV::Compact { messages: derived(agent.session.events) },
                }
            },
            StepDecisionV::ForceTool { call } => TurnV {
                agent: self.at(
                    PhaseV::Calling {
                        rest: seq![call],
                        content: Seq::empty(),
                        asked: false,
                        forced: true,
                    },
                ),
                events: start,
                action: ActionV::Resume,
            },
            StepDecisionV::ForceLlm { system, prompt } => TurnV {
                agent: self.at(PhaseV::Asking { judge: true, heard: nothing_collected() }),
                events: start,
                action: ActionV::Ask(self.judge_request(system, prompt, skill)),
            },
            StepDecisionV::Stop { reason } => AgentV {
                session: self.session.step_ended(),
                ..self
            }.ended(reason, start.push(LoopEventV::StepEnd { turn, step })),
        }
    }

    /// What is asked of the model for a summary of what gives way to it.
    pub open spec fn summary_wanted(self) -> Option<LlmRequestV> {
        summary_asked(
            self.model,
            self.temperature,
            derived(self.session.older(kept_events(self.keep_recent_turns) as nat)),
        )
    }

    /// The conversation is as short as it will get, and the model is asked.
    pub open spec fn composed(self, summary: Option<Seq<char>>, skill: SkillV) -> TurnV {
        let agent = match summary {
            Some(text) => AgentV {
                session: self.session.compacted(
                    text,
                    kept_events(self.keep_recent_turns) as nat,
                ),
                ..self
            },
            None => self,
        };
        TurnV {
            agent: agent.at(PhaseV::Asking { judge: false, heard: nothing_collected() }),
            events: Seq::empty(),
            action: ActionV::Ask(agent.request(skill)),
        }
    }

    /// The answer is complete.
    pub open spec fn answered(self, judge: bool, heard: CollectedV) -> TurnV {
        if heard.failed {
            TurnV {
                agent: self.at(
                    PhaseV::Closing {
                        outcome: OutcomeV::Error(
                            if judge {
                                "LLM judge error"@
                            } else {
                                "LLM stream error"@
                            },
                        ),
                    },
                ),
                events: Seq::empty(),
                action: ActionV::Resume,
            }
        } else if judge {
            TurnV {
                agent: self.logged(heard.judgement()).at(
                    PhaseV::Closing {
                        outcome: OutcomeV::Done {
                            content: heard.content,
                            is_error: false,
                            had_tool_calls: false,
                        },
                    },
                ),
                events: seq![
                    LoopEventV::AssistantMessage {
                        content: heard.content,
                        tool_calls: Seq::empty(),
                    },
                ],
                action: ActionV::Resume,
            }
        } else {
            TurnV {
                agent: self.logged(heard.answer()).at(
                    PhaseV::Calling {
                        rest: heard.calls,
                        content: heard.content,
                        asked: heard.calls.len() > 0,
                        forced: false,
                    },
                ),
                events: seq![
                    LoopEventV::AssistantMessage {
                        content: heard.content,
                        tool_calls: heard.calls,
                    },
                ],
                action: ActionV::Resume,
            }
        }
    }

    /// The loop after a call has a result: the next call is due, or the step is to end. Of a call
    /// that was forced, the result is what came of the step.
    pub open spec fn with_result(
        self,
        call: ToolCallV,
        result: ToolResultV,
        rest: Seq<ToolCallV>,
        content: Seq<char>,
        asked: bool,
        forced: bool,
    ) -> AgentV {
        let agent = self.logged(
            SessionEventV::ToolResult {
                call_id: call.id,
                content: result.content,
                is_error: result.is_error,
                images: result.images,
            },
        );
        if forced {
            agent.at(
                PhaseV::Closing {
                    outcome: OutcomeV::Done {
                        content: result.content,
                        is_error: result.is_error,
                        had_tool_calls: false,
                    },
                },
            )
        } else {
            agent.at(PhaseV::Calling { rest, content, asked, forced })
        }
    }

    /// What is reported of a result.
    pub open spec fn result_report(call: ToolCallV, result: ToolResultV) -> LoopEventV {
        LoopEventV::ToolResult {
            call_id: call.id,
            content: result.content,
            is_error: result.is_error,
        }
    }

    /// The next tool call: it is logged, and it runs unless it may not. Where none is left, the step
    /// is to end.
    pub open spec fn called(
        self,
        rest: Seq<ToolCallV>,
        content: Seq<char>,
        asked: bool,
        forced: bool,
        skill: SkillV,
    ) -> TurnV {
        if rest.len() == 0 {
            TurnV {
                agent: self.at(
                    PhaseV::Closing {
                        outcome: OutcomeV::Done {
                            content,
                            is_error: false,
                            had_tool_calls: asked,
                        },
                    },
                ),
                events: Seq::empty(),
                action: ActionV::Resume,
            }
        } else {
            let call = rest[0];
            let agent = self.logged(SessionEventV::ToolCall { call });
            let start = seq![LoopEventV::ToolCall { call }];
            match checked_admission(self.tools, self.policy, call.name, skill.tools_allow) {
                AdmissionV::Run { timeout_ms } => TurnV {
                    agent: agent.at(
                        PhaseV::Running {
                            call,
                            timeout_ms,
                            rest: rest.skip(1),
                            content,
                            asked,
                            forced,
                        },
                    ),
                    events: start,
                    action: ActionV::RunTool { call, timeout_ms },
                },
                AdmissionV::Refuse(result) => TurnV {
                    agent: agent.with_result(call, result, rest.skip(1), content, asked, forced),
                    events: start.push(AgentV::result_report(call, result)),
                    action: ActionV::Resume,
                },
            }
        }
    }

    /// A tool has run.
    pub open spec fn ran(
        self,
        call: ToolCallV,
        result: ToolResultV,
        rest: Seq<ToolCallV>,
        content: Seq<char>,
        asked: bool,
        forced: bool,
    ) -> TurnV {
        TurnV {
            agent: self.with_result(call, result, rest, content, asked, forced),
            events: seq![AgentV::result_report(call, result)],
            action: ActionV::Resume,
        }
    }

    /// The loop after a step has ended.
    pub open spec fn unstepped(self) -> AgentV {
        AgentV { session: self.session.step_ended(), ..self }
    }

    /// What is reported at the end of a step.
    pub open spec fn step_end(self) -> Seq<LoopEventV> {
        seq![
            LoopEventV::StepEnd {
                turn: self.session.current_turn,
                step: self.session.current_step,
            },
        ]
    }

    /// What the hooks are told after a step that has run.
    pub open spec fn after_step(
        self,
        content: Seq<char>,
        is_error: bool,
        had_tool_calls: bool,
        skill: SkillV,
    ) -> PostStepV {
        PostStepV {
            turn: self.session.current_turn,
            step: self.session.current_step,
            skill,
            content,
            is_error,
            had_tool_calls,
        }
    }

    /// A step that has ended, by what the hooks answer.
    pub open spec fn flowed(self, flow: StepFlow) -> TurnV {
        match flow {
            StepFlow::Continue => TurnV {
                agent: self.unstepped().at(PhaseV::StepDue),
                events: self.step_end(),
                action: ActionV::Resume,
            },
            StepFlow::Stop { reason } => self.unstepped().ended(reason, self.step_end()),
        }
    }

    /// A step that could not run ends the turn.
    pub open spec fn broken(self, message: Seq<char>) -> TurnV {
        self.unstepped().ended(
            TurnEndReason::Error,
            self.step_end().push(LoopEventV::Error { message }),
        )
    }

    /// Nothing happens.
    pub open spec fn unmoved(self) -> TurnV {
        TurnV { agent: self, events: Seq::empty(), action: ActionV::Wait }
    }
}

/// Whether a loop `a` with the hooks `before` may go on to `t` with the hooks `after`.
pub open spec fn goes_on<H: StepHook>(
    a: AgentV,
    before: Seq<H>,
    skill: SkillV,
    t: TurnV,
    after: Seq<H>,
) -> bool {
    match a.phase {
        PhaseV::StepDue => exists|d: StepDecisionV|
            {
                &&& #[trigger] hooks_decide(before, a.stepped().before_step(skill), after, d)
                &&& t == a.stepped().decided(d, skill)
            },
        PhaseV::Calling { rest, content, asked, forced } => {
            &&& t == a.called(rest, content, asked, forced, skill)
            &&& after == before
        },
        PhaseV::Closing { outcome } => match outcome {
            OutcomeV::Error(message) => t == a.broken(message) && after == before,
            OutcomeV::Done { content, is_error, had_tool_calls } => exists|flow: StepFlow|
                {
                    &&& #[trigger] hooks_conclude(
                        before,
                        a.after_step(content, is_error, had_tool_calls, skill),
                        after,
                        flow,
                    )
                    &&& t == a.flowed(flow)
                },
        },
        _ => t == a.unmoved() && after == before,
    }
}

/// A list of one event.
fn one(event: LoopEvent) -> (r: Vec<LoopEvent>)
    ensures
        views(r@) == seq![event@],
{
    let mut r: Vec<LoopEvent> = Vec::new();
    r.push(event);
    assert(views(r@) =~= seq![event@]);
    r
}

/// A list with one event more.
fn more(events: Vec<LoopEvent>, event: LoopEvent) -> (r: Vec<LoopEvent>)
    ensures
        views(r@) == views(events@).push(event@),
{
    let mut r = events;
    r.push(event);
    assert(views(r@) =~= views(events@).push(event@));
    r
}

/// A list of no event.
fn none() -> (r: Vec<LoopEvent>)
    ensures
        views(r@) == Seq::<LoopEventV>::empty(),
{
    let r: Vec<LoopEvent> = Vec::new();
    assert(views(r@) =~= Seq::empty());
    r
}

impl<H: StepHook> AgentLoop<H> {
    /// The hooks.
    pub closed spec fn hooks(self) -> Seq<H> {
        self.hooks@
    }

    /// A loop without hooks.
    pub fn new(
        session: SessionLog,
        tools: ToolRegistry,
        llm: LlmClient,
        model_config: &ModelConfig,
    ) -> (r: AgentLoop<H>)
        ensures
            r@ == (AgentV {
                session: session@,
                tools: tools.tools(),
                policy: tools.policy(),
                llm,
                model: model_config.model@,
                max_tokens: model_config.max_tokens,
                temperature: model_config.temperature,
                context_window: model_config.context_window,
                compaction_threshold: (Float32 { bits: 0x3f33_3333 }),
                keep_recent_turns: 3,
                settings: unset(),
                prompt: (PromptV { system: Seq::empty(), tools: Seq::empty() }),
                phase: PhaseV::Idle,
            }),
            r.hooks() == Seq::<H>::empty(),
    {
        let r = AgentLoop {
            session,
            tools,
            llm,
            model: model_config.model.clone(),
            max_tokens: model_config.max_tokens,
            temperature: model_config.temperature,
            context_window: model_config.context_window,
            compaction_threshold: Float32 { bits: 0x3f33_3333 },
            keep_recent_turns: 3,
            hooks: Vec::new(),
            settings: Default::default(),
            prompt: AssembledPrompt { system: String::new(), tools: Vec::new() },
            phase: Phase::Idle,
        };
        assert(r@.prompt.system =~= Seq::empty());
        assert(r@.prompt.tools =~= Seq::empty());
        assert(r.hooks() =~= Seq::<H>::empty());
        r
    }

    /// The loop with other hooks.
    pub fn with_hooks(self, hooks: Vec<H>) -> (r: AgentLoop<H>)
        ensures
            r@ == self@,
            r.hooks() == hooks@,
    {
        AgentLoop {
            session: self.session,
            tools: self.tools,
            llm: self.llm,
            model: self.model,
            max_tokens: self.max_tokens,
            temperature: self.temperature,
            context_window: self.context_window,
            compaction_threshold: self.compaction_threshold,
            keep_recent_turns: self.keep_recent_turns,
            hooks,
            settings: self.settings,
            prompt: self.prompt,
            phase: self.phase,
        }
    }

    /// The loop with other settings for making the conversation shorter.
    pub fn with_compaction(self, threshold: Float32, keep_recent: usize) -> (r: AgentLoop<H>)
        ensures
            r@ == (AgentV {
                compaction_threshold: threshold,
                keep_recent_turns: keep_recent,
                ..self@
            }),
            r.hooks() == self.hooks(),
    {
        AgentLoop {
            session: self.session,
            tools: self.tools,
            llm: self.llm,
            model: self.model,
            max_tokens: self.max_tokens,
            temperature: self.temperature,
            context_window: self.context_window,
            compaction_threshold: threshold,
            keep_recent_turns: keep_recent,
            hooks: self.hooks,
            settings: self.settings,
            prompt: self.prompt,
            phase: self.phase,
        }
    }

    /// The loop with other settings for its prompts.
    pub fn with_prompt(self, settings: PromptSettings) -> (r: AgentLoop<H>)
        ensures
            r@ == (AgentV { settings: settings@, ..self@ }),
            r.hooks() == self.hooks(),
    {
        AgentLoop {
            session: self.session,
            tools: self.tools,
            llm: self.llm,
            model: self.model,
            max_tokens: self.max_tokens,
            temperature: self.temperature,
            context_window: self.context_window,
            compaction_threshold: self.compaction_threshold,
            keep_recent_turns: self.keep_recent_turns,
            hooks: self.hooks,
            settings,
            prompt: self.prompt,
            phase: self.phase,
        }
    }

    /// Whether the numbers in the log have not run out.
    pub fn ready(&self) -> (r: bool)
        ensures
            r == self@.ready(),
    {
        self.session.has_room(4) && self.session.current_turn() < u64::MAX
            && self.session.current_step() < u64::MAX
    }

    /// Takes the phase out.
    fn take_phase(&mut self) -> (phase: Phase)
        ensures
            phase@ == old(self)@.phase,
            final(self)@ == old(self)@.at(PhaseV::Idle),
            final(self).hooks() == old(self).hooks(),
    {
        let mut phase = Phase::Idle;
        std::mem::swap(&mut phase, &mut self.phase);
        phase
    }

    /// Starts a turn with a message of the user.
    pub fn run_turn(
        &mut self,
        user_message: String,
        images: Vec<ImageBlock>,
        skill: &Skill,
    ) -> (out: AgentOutput)
        requires
            old(self)@.ready(),
        ensures
            turn_view(final(self)@, out) == old(self)@.begun(user_message@, views(images@), skill@),
            final(self).hooks() == old(self).hooks(),
    {
        let turn: u64 = self.session.begin_turn();
        let _ = self.session.append(SessionEvent::UserMessage { content: user_message, images });
        let all = self.tools.definitions();
        self.prompt = assemble_turn(skill, &all, &self.settings, self.model.as_str());
        self.phase = Phase::StepDue;
        let out = AgentOutput {
            events: one(LoopEvent::TurnStart { turn }),
            action: AgentAction::Resume,
        };
        out
    }

    /// Goes on with the turn where nothing is waited for: a step begins, the next tool call is made,
    /// or the step ends.
    pub fn resume(&mut self, skill: &Skill) -> (out: AgentOutput)
        requires
            old(self)@.ready(),
        ensures
            goes_on(
                old(self)@,
                old(self).hooks(),
                skill@,
                turn_view(final(self)@, out),
                final(self).hooks(),
            ),
    {
        let phase = self.take_phase();
        match phase {
            Phase::StepDue => self.start_step(skill),
            Phase::Calling { rest, content, asked, forced } => {
                self.next_call(rest, content, asked, forced, skill)
            },
            Phase::Closing { outcome } => self.close_step(outcome, skill),
            other => {
                self.phase = other;
                AgentOutput { events: none(), action: AgentAction::Wait }
            },
        }
    }

    /// Starts a step, and asks the hooks what is to be done in it.
    fn start_step(&mut self, skill: &Skill) -> (out: AgentOutput)
        requires
            old(self)@.ready(),
        ensures
            exists|d: StepDecisionV|
                {
                    &&& #[trigger] hooks_decide(
                        old(self).hooks(),
                        old(self)@.stepped().before_step(skill@),
                        final(self).hooks(),
                        d,
                    )
                    &&& turn_view(final(self)@, out) == old(self)@.stepped().decided(d, skill@)
                },
    {
        let step: u64 = self.session.begin_step();
        let turn: u64 = self.session.current_turn();
        let ghost a = self@;
        let ctx = PreStepContext { turn, step, skill };
        let start = one(LoopEvent::StepStart { turn, step });
        let decision = ask_before(&mut self.hooks, &ctx);
        let ghost d = decision@;
        assert(hooks_decide(
            old(self).hooks(),
            old(self)@.stepped().before_step(skill@),
            self.hooks(),
            d,
        ));
        let ghost hooks = self.hooks();
        let out = match decision {
            StepDecision::Proceed { injection } => {
                match injection {
                    Some(text) => {
                        let images: Vec<ImageBlock> = Vec::new();
                        assert(views(images@) =~= Seq::empty());
                        let _ = self.session.append(
                            SessionEvent::UserMessage { content: text, images },
                        );
                    },
                    None => {},
                }
                let messages = self.session.derive_messages();
                self.phase = Phase::Composing;
                AgentOutput { events: start, action: AgentAction::Compact { messages } }
            },
            StepDecision::ForceTool { call } => {
                let mut rest: Vec<ToolCall> = Vec::new();
                let ghost cv = call@;
                rest.push(call);
                assert(views(rest@) =~= seq![cv]);
                let content = String::new();
                assert(content@ =~= Seq::empty());
                self.phase = Phase::Calling { rest, content, asked: false, forced: true };
                AgentOutput { events: start, action: AgentAction::Resume }
            },
            StepDecision::ForceLlm { system, prompt } => {
                let request = self.make_judge_request(system, prompt, skill);
                self.phase = Phase::Asking { judge: true, heard: Collected::new() };
                AgentOutput { events: start, action: AgentAction::Ask(request) }
            },
            StepDecision::Stop { reason } => {
                self.session.end_step();
                let events = more(start, LoopEvent::StepEnd { turn, step });
                self.finish(reason, events)
            },
        };
        assert(turn_view(self@, out) == a.decided(d, skill@));
        assert(a == old(self)@.stepped());
        assert(self.hooks() == hooks);
        out
    }

    /// What is asked of the model for a judgement.
    fn make_judge_request(&self, system: String, prompt: String, skill: &Skill) -> (r: LlmRequest)
        ensures
            r@ == self@.judge_request(system@, prompt@, skill@),
    {
        let images: Vec<ImageBlock> = Vec::new();
        assert(views(images@) =~= Seq::empty());
        let mut messages: Vec<Message> = Vec::new();
        messages.push(Message::User { content: prompt, images });
        let tools: Vec<ToolDefinition> = Vec::new();
        let r = LlmRequest {
            model: self.model.clone(),
            system,
            messages,
            tools,
            max_tokens: self.max_tokens,
            temperature: self.temperature,
            think: skill.think,
        };
        assert(r@.messages =~= self@.judge_request(system@, prompt@, skill@).messages);
        assert(r@.tools =~= Seq::empty());
        r
    }

    /// Ends the turn.
    fn finish(&mut self, reason: TurnEndReason, before: Vec<LoopEvent>) -> (out: AgentOutput)
        requires
            old(self)@.session.has_room(1),
        ensures
            turn_view(final(self)@, out) == old(self)@.ended(reason, views(before@)),
            final(self).hooks() == old(self).hooks(),
    {
        let turn: u64 = self.session.current_turn();
        self.session.end_turn(reason);
        self.phase = Phase::Idle;
        AgentOutput {
            events: more(before, LoopEvent::TurnEnd { turn, reason }),
            action: AgentAction::Finish(reason),
        }
    }

    /// Goes on after the conversation was looked at. `summary` stands for what is left out of it; it
    /// is missing where nothing is.
    pub fn compacted(&mut self, summary: Option<String>, skill: &Skill) -> (out: AgentOutput)
        ensures
            turn_view(final(self)@, out) == match old(self)@.phase {
                PhaseV::Composing => old(self)@.composed(opt_view(summary), skill@),
                _ => old(self)@.unmoved(),
            },
            final(self).hooks() == old(self).hooks(),
    {
        match self.phase {
            Phase::Composing => {},
            _ => {
                return AgentOutput { events: none(), action: AgentAction::Wait };
            },
        }
        match summary {
            Some(text) => {
                let keep: usize = events_to_keep(self.keep_recent_turns);
                self.session.apply_compaction(text, keep);
            },
            None => {},
        }
        let request = LlmRequest {
            model: self.model.clone(),
            system: self.prompt.system.clone(),
            messages: self.session.derive_messages(),
            tools: clone_definitions(&self.prompt.tools),
            max_tokens: self.max_tokens,
            temperature: self.temperature,
            think: skill.think,
        };
        self.phase = Phase::Asking { judge: false, heard: Collected::new() };
        AgentOutput { events: none(), action: AgentAction::Ask(request) }
    }

    /// Takes in an event of the answer, which came `at` milliseconds after the model was asked.
    pub fn hear(&mut self, event: StreamEvent, at: u64) -> (out: AgentOutput)
        ensures
            turn_view(final(self)@, out) == match old(self)@.phase {
                PhaseV::Asking { judge, heard } => (TurnV {
                    agent: old(self)@.at(
                        PhaseV::Asking { judge, heard: heard.with(event@, at) },
                    ),
                    events: heard.with(event@, at).reports(event@, judge),
                    action: ActionV::Wait,
                }),
                _ => old(self)@.unmoved(),
            },
            final(self).hooks() == old(self).hooks(),
    {
        let phase = self.take_phase();
        match phase {
            Phase::Asking { judge, heard } => {
                let mut heard = heard;
                let events = heard.accept(event, at, judge);
                self.phase = Phase::Asking { judge, heard };
                AgentOutput { events, action: AgentAction::Wait }
            },
            other => {
                self.phase = other;
                AgentOutput { events: none(), action: AgentAction::Wait }
            },
        }
    }

    /// Goes on after the answer is complete, or none will come.
    pub fn heard_all(&mut self) -> (out: AgentOutput)
        requires
            old(self)@.ready(),
        ensures
            turn_view(final(self)@, out) == match old(self)@.phase {
                PhaseV::Asking { judge, heard } => old(self)@.answered(judge, heard),
                _ => old(self)@.unmoved(),
            },
            final(self).hooks() == old(self).hooks(),
    {
        let phase = self.take_phase();
        match phase {
            Phase::Asking { judge, heard } => self.settle_answer(judge, heard),
            other => {
                self.phase = other;
                AgentOutput { events: none(), action: AgentAction::Wait }
            },
        }
    }

    /// Logs a complete answer.
    fn settle_answer(&mut self, judge: bool, heard: Collected) -> (out: AgentOutput)
        requires
            old(self)@.ready(),
        ensures
            turn_view(final(self)@, out) == old(self)@.answered(judge, heard@),
            final(self).hooks() == old(self).hooks(),
    {
        if heard.failed {
            let message = if judge {
                "LLM judge error".to_owned()
            } else {
                "LLM stream error".to_owned()
            };
            self.phase = Phase::Closing { outcome: StepOutcome::Error(message) };
            return AgentOutput { events: none(), action: AgentAction::Resume };
        }
        if judge {
            let calls: Vec<ToolCall> = Vec::new();
            assert(views(calls@) =~= Seq::empty());
            let no_calls: Vec<ToolCall> = Vec::new();
            assert(views(no_calls@) =~= Seq::empty());
            let event = SessionEvent::AssistantMessage {
                content: heard.content.clone(),
                tool_calls: calls,
                usage: None,
                ttft_ms: 0,
                decode_ms: 0,
                thinking: None,
            };
            assert(event@ == heard@.judgement());
            let _ = self.session.append(event);
            let report = LoopEvent::AssistantMessage {
                content: heard.content.clone(),
                tool_calls: no_calls,
            };
            self.phase = Phase::Closing {
                outcome: StepOutcome::Done {
                    content: heard.content,
                    is_error: false,
                    had_tool_calls: false,
                },
            };
            return AgentOutput { events: one(report), action: AgentAction::Resume };
        }
        let thinking = if chars_of(heard.thinking.as_str()).len() == 0 {
            None
        } else {
            Some(heard.thinking.clone())
        };
        let event = SessionEvent::AssistantMessage {
            content: heard.content.clone(),
            tool_calls: clone_calls(&heard.calls),
            usage: heard.usage,
            ttft_ms: heard.ttft(),
            decode_ms: heard.decode(),
            thinking,
        };
        assert(event@ == heard@.answer());
        let _ = self.session.append(event);
        let report = LoopEvent::AssistantMessage {
            content: heard.content.clone(),
            tool_calls: clone_calls(&heard.calls),
        };
        let asked = heard.calls.len() > 0;
        self.phase = Phase::Calling {
            rest: heard.calls,
            content: heard.content,
            asked,
            forced: false,
        };
        AgentOutput { events: one(report), action: AgentAction::Resume }
    }

    /// Logs the result of a call.
    fn settle_result(
        &mut self,
        call: ToolCall,
        result: ToolResult,
        rest: Vec<ToolCall>,
        content: String,
        asked: bool,
        forced: bool,
    ) -> (report: LoopEvent)
        requires
            old(self)@.session.has_room(1),
        ensures
            final(self)@ == old(self)@.with_result(
                call@,
                result@,
                views(rest@),
                content@,
                asked,
                forced,
            ),
            final(self).hooks() == old(self).hooks(),
            report@ == AgentV::result_report(call@, result@),
    {
        let event = SessionEvent::ToolResult {
            call_id: call.id.clone(),
            content: result.content.clone(),
            is_error: result.is_error,
            images: clone_images(&result.images),
        };
        let _ = self.session.append(event);
        let report = LoopEvent::ToolResult {
            call_id: call.id,
            content: result.content.clone(),
            is_error: result.is_error,
        };
        self.phase = if forced {
            Phase::Closing {
                outcome: StepOutcome::Done {
                    content: result.content,
                    is_error: result.is_error,
                    had_tool_calls: false,
                },
            }
        } else {
            Phase::Calling { rest, content, asked, forced }
        };
        report
    }

    /// Makes the next tool call.
    fn next_call(
        &mut self,
        rest: Vec<ToolCall>,
        content: String,
        asked: bool,
        forced: bool,
        skill: &Skill,
    ) -> (out: AgentOutput)
        requires
            old(self)@.ready(),
        ensures
            turn_view(final(self)@, out) == old(self)@.called(
                views(rest@),
                content@,
                asked,
                forced,
                skill@,
            ),
            final(self).hooks() == old(self).hooks(),
    {
        if rest.len() == 0 {
            self.phase = Phase::Closing {
                outcome: StepOutcome::Done { content, is_error: false, had_tool_calls: asked },
            };
            return AgentOutput { events: none(), action: AgentAction::Resume };
        }
        let ghost all = views(rest@);
        let mut rest = rest;
        let call = rest.remove(0);
        assert(all[0] == call@);
        assert(views(rest@) =~= all.skip(1));
        let _ = self.session.append(SessionEvent::ToolCall { call: call.clone() });
        let start = one(LoopEvent::ToolCall { call: call.clone() });
        match self.tools.execute_checked(&call, &skill.tools_allow) {
            Admission::Run { timeout_ms } => {
                let action = AgentAction::RunTool { call: call.clone(), timeout_ms };
                self.phase = Phase::Running { call, timeout_ms, rest, content, asked, forced };
                AgentOutput { events: start, action }
            },
            Admission::Refuse(result) => {
                let report = self.settle_result(call, result, rest, content, asked, forced);
                AgentOutput { events: more(start, report), action: AgentAction::Resume }
            },
        }
    }

    /// Goes on after a tool has run, or was stopped.
    pub fn tool_done(&mut self, outcome: RunOutcome) -> (out: AgentOutput)
        requires
            old(self)@.ready(),
        ensures
            turn_view(final(self)@, out) == match old(self)@.phase {
                PhaseV::Running { call, timeout_ms, rest, content, asked, forced } => {
                    old(self)@.ran(
                        call,
                        settled(outcome@, call.name, timeout_ms),
                        rest,
                        content,
                        asked,
                        forced,
                    )
                },
                _ => old(self)@.unmoved(),
            },
            final(self).hooks() == old(self).hooks(),
    {
        let phase = self.take_phase();
        match phase {
            Phase::Running { call, timeout_ms, rest, content, asked, forced } => {
                let result = finalize_result(outcome, call.name.as_str(), timeout_ms);
                let report = self.settle_result(call, result, rest, content, asked, forced);
                AgentOutput { events: one(report), action: AgentAction::Resume }
            },
            other => {
                self.phase = other;
                AgentOutput { events: none(), action: AgentAction::Wait }
            },
        }
    }

    /// Ends a step, and asks the hooks whether the turn goes on. A step that could not run ends the
    /// turn without asking.
    fn close_step(&mut self, outcome: StepOutcome, skill: &Skill) -> (out: AgentOutput)
        requires
            old(self)@.ready(),
        ensures
            match outcome@ {
                OutcomeV::Error(message) => {
                    &&& turn_view(final(self)@, out) == old(self)@.broken(message)
                    &&& final(self).hooks() == old(self).hooks()
                },
                OutcomeV::Done { content, is_error, had_tool_calls } => exists|flow: StepFlow|
                    {
                        &&& #[trigger] hooks_conclude(
                            old(self).hooks(),
                            old(self)@.after_step(content, is_error, had_tool_calls, skill@),
                            final(self).hooks(),
                            flow,
                        )
                        &&& turn_view(final(self)@, out) == old(self)@.flowed(flow)
                    },
            },
    {
        let turn: u64 = self.session.current_turn();
        let step: u64 = self.session.current_step();
        self.session.end_step();
        let events = one(LoopEvent::StepEnd { turn, step });
        match outcome {
            StepOutcome::Error(message) => {
                let events = more(events, LoopEvent::Error { message });
                self.finish(TurnEndReason::Error, events)
            },
            StepOutcome::Done { content, is_error, had_tool_calls } => {
                let ctx = PostStepContext { turn, step, skill, content, is_error, had_tool_calls };
                let flow = ask_after(&mut self.hooks, &ctx);
                assert(hooks_conclude(
                    old(self).hooks(),
                    old(self)@.after_step(content@, is_error, had_tool_calls, skill@),
                    self.hooks(),
                    flow,
                ));
                let ghost hooks = self.hooks();
                let out = match flow {
                    StepFlow::Continue => {
                        self.phase = Phase::StepDue;
                        AgentOutput { events, action: AgentAction::Resume }
                    },
                    StepFlow::Stop { reason } => self.finish(reason, events),
                };
                assert(turn_view(self@, out) == old(self)@.flowed(flow));
                assert(self.hooks() == hooks);
                out
            },
        }
    }

    /// The log.
    pub fn session(&self) -> (r: &SessionLog)
        ensures
            r@ == self@.session,
    {
        &self.session
    }

    /// The log, to be changed.
    pub fn session_mut(&mut self) -> (r: &mut SessionLog)
        ensures
            r@ == old(self)@.session,
            final(self)@ == (AgentV { session: final(r)@, ..old(self)@ }),
            final(self).hooks() == old(self).hooks(),
    {
        &mut self.session
    }

    /// The size of the model's context window, and the part of it above which the conversation is
    /// to be made shorter.
    pub fn compaction_limits(&self) -> (r: (usize, Float32))
        ensures
            r == (self@.context_window, self@.compaction_threshold),
    {
        (self.context_window, self.compaction_threshold)
    }

    /// What is asked of the model for a summary of what gives way to it; nothing where nothing does.
    pub fn summary_request(&self) -> (r: Option<LlmRequest>)
        ensures
            opt_view(r) == self@.summary_wanted(),
    {
        let keep: usize = events_to_keep(self.keep_recent_turns);
        summary_request(
            self.model.as_str(),
            self.temperature,
            &self.session.older_messages(keep),
        )
    }

    /// Takes the loop apart.
    pub fn into_parts(self) -> (r: (SessionLog, ToolRegistry, LlmClient))
        ensures
            r.0@ == self@.session,
            r.1.tools() == self@.tools,
            r.1.policy() == self@.policy,
            r.2 == self@.llm,
    {
        (self.session, self.tools, self.llm)
    }
}

/// A turn begins in the log with its start and the user's message, whatever the skill.
pub proof fn law_turn_begins_with_the_message(
    a: AgentV,
    message: Seq<char>,
    images: Seq<ImageBlockV>,
    skill: SkillV,
)
    requires
        a.ready(),
        a.session.max_in_memory >= 2,
        a.session.wf(),
    ensures
        ({
            let log = a.begun(message, images, skill).agent.session;
            let n = log.events.len() as int;
            &&& n >= 2
            &&& log.current_turn == a.session.current_turn + 1
            &&& log.events[n - 2] == SessionEventV::TurnStart { turn: log.current_turn }
            &&& log.events[n - 1] == SessionEventV::UserMessage { content: message, images }
        }),
{
}

/// Whenever the turn finishes, the log and the report end with the end of the turn, for the same
/// reason, and no turn runs any more.
pub proof fn law_turn_ends_in_the_log<H: StepHook>(
    a: AgentV,
    before: Seq<H>,
    skill: SkillV,
    t: TurnV,
    after: Seq<H>,
)
    requires
        goes_on(a, before, skill, t, after),
        a.session.max_in_memory >= 1,
        t.action is Finish,
    ensures
        t.agent.phase is Idle,
        t.agent.session.events.len() > 0,
        t.agent.session.events.last() == (SessionEventV::TurnEnd {
            turn: a.session.current_turn,
            reason: t.action->Finish_0,
        }),
        t.events.len() > 0,
        t.events.last() == (LoopEventV::TurnEnd {
            turn: a.session.current_turn,
            reason: t.action->Finish_0,
        }),
{
}

/// What the model is shown of the conversation is just what the log tells, with the prompt of the
/// skill; and what is told to the model in a step is logged before it is asked.
pub proof fn law_the_model_sees_the_log(
    a: AgentV,
    injection: Seq<char>,
    summary: Option<Seq<char>>,
    skill: SkillV,
)
    requires
        a.session.max_in_memory >= 1,
    ensures
        ({
            let t = a.composed(summary, skill);
            &&& t.action is Ask
            &&& t.action->Ask_0.messages == derived(t.agent.session.events)
            &&& t.action->Ask_0.system == a.prompt.system
            &&& t.action->Ask_0.tools == a.prompt.tools
        }),
        a.decided(
            StepDecisionV::Proceed { injection: Some(injection) },
            skill,
        ).agent.session.events.last() == (SessionEventV::UserMessage {
            content: injection,
            images: Seq::empty(),
        }),
{
}

/// Making the conversation shorter loses nothing unseen: each message is either among those that are
/// summarized or still shown to the model, after the summary. The summary is asked for in a context
/// of its own: one message and no tools.
pub proof fn law_compaction_loses_nothing(a: AgentV, summary: Seq<char>, skill: SkillV)
    requires
        a.summary_wanted() is Some,
    ensures
        ({
            let keep = kept_events(a.keep_recent_turns) as nat;
            let summarized = derived(a.session.older(keep));
            let shown = derived(last_n(a.session.events, keep));
            let asked = a.summary_wanted()->0;
            &&& summarized + shown == derived(a.session.events)
            &&& asked.messages == seq![
                MessageV::User {
                    content: join(all_told(summarized), "\n"@),
                    images: Seq::<ImageBlockV>::empty(),
                },
            ]
            &&& asked.tools.len() == 0
            &&& a.composed(Some(summary), skill).action->Ask_0.messages == seq![
                MessageV::User {
                    content: "[Previous conversation summary]\n"@ + summary,
                    images: Seq::<ImageBlockV>::empty(),
                },
            ] + shown
        }),
{
    let keep = kept_events(a.keep_recent_turns) as nat;
    let older = a.session.older(keep);
    let rest = last_n(a.session.events, keep);
    assert(derived(Seq::<SessionEventV>::empty()).len() == 0);
    assert(a.session.events.len() > keep);
    assert(older + rest =~= a.session.events);
    law_derived_is_append_only(older, rest);
    law_compaction_keeps_the_newest(a.session, summary, keep);
}

/// A tool that is forced runs without the model: until the step ends, nothing is asked.
pub proof fn law_forced_tools_ask_no_model(
    a: AgentV,
    call: ToolCallV,
    skill: SkillV,
    outcome: RunOutcomeV,
)
    ensures
        ({
            let start = a.decided(StepDecisionV::ForceTool { call }, skill);
            let rest = seq![call];
            let run = start.agent.called(rest, Seq::empty(), false, true, skill);
            &&& start.action is Resume
            &&& start.agent.phase == PhaseV::Calling {
                rest,
                content: Seq::empty(),
                asked: false,
                forced: true,
            }
            &&& match run.action {
                ActionV::RunTool { call: c, timeout_ms } => {
                    let end = run.agent.ran(
                        c,
                        settled(outcome, c.name, timeout_ms),
                        rest.skip(1),
                        Seq::empty(),
                        false,
                        true,
                    );
                    c == call && end.action is Resume && end.agent.phase is Closing
                },
                _ => run.action is Resume && run.agent.phase is Closing,
            }
        }),
{
}

/// Every tool call that the log holds is followed by its result: at once where the call may not
/// run, and else as soon as the tool has run.
pub proof fn law_calls_get_their_results(
    a: AgentV,
    rest: Seq<ToolCallV>,
    content: Seq<char>,
    asked: bool,
    forced: bool,
    skill: SkillV,
    outcome: RunOutcomeV,
)
    requires
        rest.len() > 0,
        a.session.max_in_memory >= 2,
        a.session.wf(),
    ensures
        ({
            let t = a.called(rest, content, asked, forced, skill);
            let log = match t.action {
                ActionV::RunTool { call, timeout_ms } => t.agent.ran(
                    call,
                    settled(outcome, call.name, timeout_ms),
                    rest.skip(1),
                    content,
                    asked,
                    forced,
                ).agent.session,
                _ => t.agent.session,
            };
            let n = log.events.len() as int;
            &&& n >= 2
            &&& log.events[n - 2] == SessionEventV::ToolCall { call: rest[0] }
            &&& log.events[n - 1] is ToolResult
            &&& log.events[n - 1]->ToolResult_call_id == rest[0].id
        }),
{
    let t = a.called(rest, content, asked, forced, skill);
    let one = a.session.appended(SessionEventV::ToolCall { call: rest[0] });
    assert(one.events.last() == SessionEventV::ToolCall { call: rest[0] });
    assert(one.events.len() >= 1);
}

/// A judgement sees nothing of the conversation and is offered no tool.
pub proof fn law_judgements_stand_alone(
    a: AgentV,
    system: Seq<char>,
    prompt: Seq<char>,
    skill: SkillV,
)
    ensures
        ({
            let t = a.decided(StepDecisionV::ForceLlm { system, prompt }, skill);
            &&& t.action is Ask
            &&& t.action->Ask_0.system == system
            &&& t.action->Ask_0.messages == seq![
                MessageV::User { content: prompt, images: Seq::<ImageBlockV>::empty() },
            ]
            &&& t.action->Ask_0.tools.len() == 0
            &&& t.agent.session == a.session
        }),
{
}

/// Tools run one after the other in the order in which the model asked for them: the first call of
/// those that are left is the one that is made.
pub proof fn law_calls_run_in_order(
    a: AgentV,
    rest: Seq<ToolCallV>,
    content: Seq<char>,
    skill: SkillV,
    outcome: RunOutcomeV,
)
    requires
        rest.len() > 0,
    ensures
        ({
            let t = a.called(rest, content, true, false, skill);
            let next = match t.action {
                ActionV::RunTool { call, timeout_ms } => t.agent.ran(
                    call,
                    settled(outcome, call.name, timeout_ms),
                    rest.skip(1),
                    content,
                    true,
                    false,
                ).agent,
                _ => t.agent,
            };
            &&& t.events[0] == LoopEventV::ToolCall { call: rest[0] }
            &&& next.phase == PhaseV::Calling {
                rest: rest.skip(1),
                content,
                asked: true,
                forced: false,
            }
        }),
{
}

/// What the model streams is kept: the pieces of its text and of its thoughts are put one after the
/// other, its calls are listed in order, and none of these changes the others. The time of the
/// first piece of text stays.
pub proof fn law_what_is_heard_is_kept(c: CollectedV, text: Seq<char>, call: ToolCallV, at: u64)
    ensures
        ({
            let r = c.with(StreamEventV::Delta(text), at);
            &&& r.content == c.content + text
            &&& r.thinking == c.thinking && r.calls == c.calls && r.usage == c.usage
            &&& r.failed == c.failed && r.done == c.done
            &&& c.first is Some ==> r.first == c.first
            &&& c.first is None ==> r.first == Some(at)
        }),
        c.with(StreamEventV::ThinkDelta(text), at) == (CollectedV {
            thinking: c.thinking + text,
            ..c
        }),
        c.with(StreamEventV::ToolCall(call), at) == (CollectedV { calls: c.calls.push(call), ..c }),
        c.with(StreamEventV::Error(text), at) == (CollectedV { failed: true, ..c }),
{
}

/// The end of a stream has the last word: the whole text, where it tells it, the calls and the
/// usage are those that it tells, and the thoughts stay.
pub proof fn law_the_end_of_a_stream_settles_the_answer(
    c: CollectedV,
    content: Seq<char>,
    tool_calls: Seq<ToolCallV>,
    finish_reason: Option<Seq<char>>,
    usage: Option<TokenUsage>,
    at: u64,
)
    ensures
        ({
            let r = c.with(StreamEventV::Done { content, tool_calls, finish_reason, usage }, at);
            &&& content.len() > 0 ==> r.content == content
            &&& content.len() == 0 ==> r.content == c.content
            &&& r.calls == tool_calls
            &&& r.usage == usage
            &&& r.done == Some(at)
            &&& r.thinking == c.thinking && r.failed == c.failed && r.first == c.first
        }),
{
}

/// What is heard is told at once: a piece of text as that piece, a failure as that failure, and
/// the end of an answer with its usage and its times; thoughts and calls are not told, nor the
/// usage of a judgement.
pub proof fn law_what_is_heard_is_told(
    c: CollectedV,
    text: Seq<char>,
    call: ToolCallV,
    content: Seq<char>,
    tool_calls: Seq<ToolCallV>,
    finish_reason: Option<Seq<char>>,
    u: TokenUsage,
    judge: bool,
)
    ensures
        c.reports(StreamEventV::Delta(text), judge) == seq![LoopEventV::Delta { text }],
        c.reports(StreamEventV::Error(text), judge) == seq![LoopEventV::Error { message: text }],
        c.reports(StreamEventV::ThinkDelta(text), judge).len() == 0,
        c.reports(StreamEventV::ToolCall(call), judge).len() == 0,
        c.reports(
            StreamEventV::Done { content, tool_calls, finish_reason, usage: None },
            judge,
        ).len() == 0,
        c.reports(
            StreamEventV::Done { content, tool_calls, finish_reason, usage: Some(u) },
            true,
        ).len() == 0,
        c.reports(
            StreamEventV::Done { content, tool_calls, finish_reason, usage: Some(u) },
            false,
        ) == seq![
            LoopEventV::Usage {
                prompt_tokens: u.prompt_tokens,
                completion_tokens: u.completion_tokens,
                cache_hit_tokens: u.cache_hit_tokens,
                cache_miss_tokens: u.cache_miss_tokens,
                ttft_ms: c.ttft(),
                decode_ms: c.decode(),
            },
        ],
{
}

/// The two times of an answer make up the whole: up to the first piece of text, and from there to
/// the end.
pub proof fn law_times_add_up(c: CollectedV)
    ensures
        c.first is Some ==> c.ttft() == c.first->0,
        c.first is None ==> c.ttft() == 0 && c.decode() == 0,
        c.done is None ==> c.decode() == 0,
        c.first is Some && c.done is Some && c.first->0 <= c.done->0 ==> c.ttft() + c.decode()
            == c.done->0,
        c.first is Some && c.done is Some && c.first->0 > c.done->0 ==> c.decode() == 0,
{
}

/// An answer goes to the log whole, with its text, its calls, its usage, its times and its thoughts,
/// is told, and all of its calls are due; a judgement goes to the log with its text alone, and is
/// what the step gives; and of a stream that failed nothing goes to the log.
pub proof fn law_answers_reach_the_log(a: AgentV, c: CollectedV)
    requires
        !c.failed,
    ensures
        ({
            let t = a.answered(false, c);
            &&& t.agent.session == a.session.appended(
                SessionEventV::AssistantMessage {
                    content: c.content,
                    tool_calls: c.calls,
                    usage: c.usage,
                    ttft_ms: c.ttft(),
                    decode_ms: c.decode(),
                    thinking: if c.thinking.len() > 0 {
                        Some(c.thinking)
                    } else {
                        None
                    },
                },
            )
            &&& t.agent.phase == (PhaseV::Calling {
                rest: c.calls,
                content: c.content,
                asked: c.calls.len() > 0,
                forced: false,
            })
            &&& t.events == seq![
                LoopEventV::AssistantMessage { content: c.content, tool_calls: c.calls },
            ]
        }),
        ({
            let t = a.answered(true, c);
            &&& t.agent.session == a.session.appended(
                SessionEventV::AssistantMessage {
                    content: c.content,
                    tool_calls: Seq::empty(),
                    usage: None,
                    ttft_ms: 0,
                    decode_ms: 0,
                    thinking: None,
                },
            )
            &&& t.agent.phase == (PhaseV::Closing {
                outcome: OutcomeV::Done {
                    content: c.content,
                    is_error: false,
                    had_tool_calls: false,
                },
            })
            &&& t.events == seq![
                LoopEventV::AssistantMessage { content: c.content, tool_calls: Seq::empty() },
            ]
        }),
        forall|judge: bool|
            {
                let t = #[trigger] a.answered(judge, CollectedV { failed: true, ..c });
                &&& t.agent.session == a.session
                &&& t.events.len() == 0
                &&& t.agent.phase is Closing
                &&& t.agent.phase->outcome is Error
            },
{
}

/// The model is asked under the settings of the agent, with the prompt of the turn, what the log
/// shows and the tools of the turn; it reasons as much as the skill says.
pub proof fn law_requests_follow_the_settings(a: AgentV, skill: SkillV)
    ensures
        a.request(skill).model == a.model,
        a.request(skill).system == a.prompt.system,
        a.request(skill).messages == derived(a.session.events),
        a.request(skill).tools == a.prompt.tools,
        a.request(skill).max_tokens == a.max_tokens,
        a.request(skill).temperature == a.temperature,
        a.request(skill).think == skill.think,
{
}

/// A step that goes on is ended in the log and told, and the next is due; one that stops ends the
/// turn for the reason that was given; one that failed ends it as failed, with its message told.
pub proof fn law_steps_end_before_what_follows(a: AgentV, reason: TurnEndReason, message: Seq<char>)
    ensures
        ({
            let end = LoopEventV::StepEnd {
                turn: a.session.current_turn,
                step: a.session.current_step,
            };
            let on = a.flowed(StepFlow::Continue);
            let stop = a.flowed(StepFlow::Stop { reason });
            let failed = a.broken(message);
            &&& on.agent.session == a.session.step_ended()
            &&& on.agent.phase is StepDue
            &&& on.events == seq![end]
            &&& on.action is Resume
            &&& stop.agent.session == a.session.step_ended().turn_ended(reason)
            &&& stop.agent.phase is Idle
            &&& stop.events.len() == 2 && stop.events[0] == end
            &&& stop.action == ActionV::Finish(reason)
            &&& failed.agent.session == a.session.step_ended().turn_ended(TurnEndReason::Error)
            &&& failed.events.len() == 3 && failed.events[0] == end
            &&& failed.events[1] == (LoopEventV::Error { message })
            &&& failed.action == ActionV::Finish(TurnEndReason::Error)
        }),
{
}

/// A step is told when it begins, whatever is decided. What a hook wants to say goes to the log as
/// the user's, and the model is asked on what the log then shows; without that, nothing is logged.
pub proof fn law_steps_begin_with_the_decision(
    a: AgentV,
    text: Seq<char>,
    d: StepDecisionV,
    skill: SkillV,
)
    ensures
        a.decided(d, skill).events.len() > 0,
        a.decided(d, skill).events[0] == (LoopEventV::StepStart {
            turn: a.session.current_turn,
            step: a.session.current_step,
        }),
        ({
            let t = a.decided(StepDecisionV::Proceed { injection: Some(text) }, skill);
            let log = a.session.appended(
                SessionEventV::UserMessage { content: text, images: Seq::empty() },
            );
            &&& t.agent.session == log
            &&& t.action == (ActionV::Compact { messages: derived(log.events) })
        }),
        ({
            let t = a.decided(StepDecisionV::Proceed { injection: None }, skill);
            &&& t.agent.session == a.session
            &&& t.action == (ActionV::Compact { messages: derived(a.session.events) })
        }),
        d is Stop ==> a.decided(d, skill).action == ActionV::Finish(d->reason),
{
}

/// What a tool gave goes to the log whole, under the id of its call, and is told; where a step
/// forced the tool, that is also what the step gives.
pub proof fn law_results_reach_the_log(
    a: AgentV,
    call: ToolCallV,
    result: ToolResultV,
    rest: Seq<ToolCallV>,
    content: Seq<char>,
    asked: bool,
    forced: bool,
)
    ensures
        ({
            let t = a.ran(call, result, rest, content, asked, forced);
            &&& t.agent.session == a.session.appended(
                SessionEventV::ToolResult {
                    call_id: call.id,
                    content: result.content,
                    is_error: result.is_error,
                    images: result.images,
                },
            )
            &&& t.events == seq![
                LoopEventV::ToolResult {
                    call_id: call.id,
                    content: result.content,
                    is_error: result.is_error,
                },
            ]
            &&& forced ==> t.agent.phase == (PhaseV::Closing {
                outcome: OutcomeV::Done {
                    content: result.content,
                    is_error: result.is_error,
                    had_tool_calls: false,
                },
            })
            &&& !forced ==> t.agent.phase == (PhaseV::Calling { rest, content, asked, forced })
        }),
{
}

/// When all calls are done, the step gives the text of the answer, and tells whether the model had
/// called for tools.
pub proof fn law_the_step_gives_the_answer(
    a: AgentV,
    content: Seq<char>,
    asked: bool,
    forced: bool,
    skill: SkillV,
)
    ensures
        ({
            let t = a.called(Seq::empty(), content, asked, forced, skill);
            &&& t.agent.phase == (PhaseV::Closing {
                outcome: OutcomeV::Done { content, is_error: false, had_tool_calls: asked },
            })
            &&& t.agent.session == a.session
            &&& t.events.len() == 0
        }),
        a.after_step(content, asked, forced, skill).content == content,
        a.after_step(content, asked, forced, skill).is_error == asked,
        a.after_step(content, asked, forced, skill).had_tool_calls == forced,
{
}

/// An answer, a result or a decision leaves the settings of the agent, its tools and its prompt as
/// they are.
pub proof fn law_settings_stay(
    a: AgentV,
    d: StepDecisionV,
    c: CollectedV,
    judge: bool,
    flow: StepFlow,
    summary: Option<Seq<char>>,
    skill: SkillV,
)
    ensures
        same_settings(a, a.decided(d, skill).agent),
        same_settings(a, a.answered(judge, c).agent),
        same_settings(a, a.flowed(flow).agent),
        same_settings(a, a.composed(summary, skill).agent),
{
}

/// Whether two agents are set alike and have the same prompt and tools.
pub open spec fn same_settings(a: AgentV, b: AgentV) -> bool {
    &&& a.tools == b.tools
    &&& a.policy == b.policy
    &&& a.llm == b.llm
    &&& a.model == b.model
    &&& a.max_tokens == b.max_tokens
    &&& a.temperature == b.temperature
    &&& a.context_window == b.context_window
    &&& a.compaction_threshold == b.compaction_threshold
    &&& a.keep_recent_turns == b.keep_recent_turns
    &&& a.settings == b.settings
    &&& a.prompt == b.prompt
}

/// As many events are kept as the turns to keep may take, six for each; more turns never keep
/// fewer.
pub proof fn law_kept_events_grow_with_the_turns(turns: usize, more: usize)
    requires
        turns <= more,
    ensures
        kept_events(turns) <= kept_events(more),
        turns * 6 <= usize::MAX ==> kept_events(turns) == turns * 6,
        turns * 6 > usize::MAX ==> kept_events(turns) == usize::MAX,
{
}

/// Hearing begins with nothing; a step begins with the next number in the log, and its hooks are told
/// which turn, which step and which skill it is. What is not waited for changes nothing.
pub proof fn law_steps_begin_afresh(a: AgentV, skill: SkillV)
    requires
        a.session.current_step < u64::MAX,
        a.session.max_in_memory >= 1,
    ensures
        nothing_collected().content.len() == 0,
        nothing_collected().thinking.len() == 0,
        nothing_collected().calls.len() == 0,
        nothing_collected().usage is None && !nothing_collected().failed,
        nothing_collected().first is None && nothing_collected().done is None,
        a.stepped().session.current_step == a.session.current_step + 1,
        a.stepped().session.current_turn == a.session.current_turn,
        a.stepped().session.events.last() == (SessionEventV::StepStart {
            turn: a.session.current_turn,
            step: (a.session.current_step + 1) as u64,
        }),
        a.stepped().phase == a.phase && same_settings(a, a.stepped()),
        a.before_step(skill).turn == a.session.current_turn,
        a.before_step(skill).step == a.session.current_step,
        a.before_step(skill).skill == skill,
        a.unmoved().agent == a,
        a.unmoved().events.len() == 0,
        a.unmoved().action is Wait,
{
}

/// What a hook is told after a step is what the step gave.
pub proof fn law_hooks_are_told_what_the_step_gave<H: StepHook>(
    a: AgentV,
    before: Seq<H>,
    skill: SkillV,
    t: TurnV,
    after: Seq<H>,
    content: Seq<char>,
    is_error: bool,
    had_tool_calls: bool,
)
    requires
        goes_on(a, before, skill, t, after),
        a.phase == (PhaseV::Closing { outcome: OutcomeV::Done { content, is_error, had_tool_calls } }),
    ensures
        exists|flow: StepFlow|
            #[trigger] hooks_conclude(
                before,
                PostStepV {
                    turn: a.session.current_turn,
                    step: a.session.current_step,
                    skill,
                    content,
                    is_error,
                    had_tool_calls,
                },
                after,
                flow,
            ) && t == a.flowed(flow),
{
}

/// A call runs exactly where the skill allows the tool, the policy does, and it is registered; then
/// that very call runs, and the calls behind it wait. A call that may not run is answered at once,
/// with a failure. Either way it goes to the log and is told.
pub proof fn law_calls_run_where_they_may(
    a: AgentV,
    rest: Seq<ToolCallV>,
    content: Seq<char>,
    asked: bool,
    skill: SkillV,
)
    requires
        rest.len() > 0,
    ensures
        ({
            let t = a.called(rest, content, asked, false, skill);
            let call = rest[0];
            let may = (skill.tools_allow.len() == 0 || skill.tools_allow.contains(call.name))
                && a.policy.allows(call.name) && is_registered(a.tools, call.name);
            &&& may <==> t.action is RunTool
            &&& t.action is RunTool ==> t.action->RunTool_call == call
            &&& t.events.len() > 0 && t.events[0] == (LoopEventV::ToolCall { call })
            &&& may ==> t.agent.session == a.session.appended(SessionEventV::ToolCall { call })
            &&& may ==> t.agent.phase is Running
            &&& may ==> t.agent.phase->Running_call == call
            &&& may ==> t.agent.phase->Running_rest == rest.skip(1)
            &&& !may ==> {
                &&& t.action is Resume
                &&& t.events.len() == 2
                &&& t.events[1] is ToolResult
                &&& t.events[1]->call_id == call.id
                &&& t.events[1]->is_error
                &&& t.agent.phase is Calling
                &&& t.agent.phase->Calling_rest == rest.skip(1)
            }
        }),
{
}

/// A turn is prompted for its skill, with the tools that the skill allows and no others.
pub proof fn law_turns_are_prompted_for_their_skill(
    a: AgentV,
    message: Seq<char>,
    images: Seq<ImageBlockV>,
    skill: SkillV,
)
    ensures
        a.begun(message, images, skill).agent.prompt == turn_prompt(
            skill,
            a.tools,
            a.settings,
            a.model,
        ),
        a.begun(message, images, skill).agent.phase is StepDue,
        a.begun(message, images, skill).action is Resume,
{
}

} // verus!
