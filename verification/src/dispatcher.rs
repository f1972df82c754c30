//! The dispatcher: it owns a conversation, the tools and the model, and lends them to an agent loop
//! for each request.
use crate::agent::{AgentLoop, AgentV, PhaseV};
use crate::llm::{LlmClient, LlmRequest, LlmRequestV};
use crate::policy::Policy;
use crate::prompt::{assemble_turn, turn_prompt, unset, PromptSettings, PromptV, SettingsV};
use crate::session::{SessionLog, SessionLogV};
use crate::strategies::{build_hooks, starts_as, Strategy};
use crate::subagent::empty_log;
use crate::tools::ToolRegistry;
use crate::types::{
    ExecMode, Float32, ImageBlock, ImageBlockV, Message, MessageV, ModelConfig, Skill, SkillV,
    ThinkLevel, ToolDefinition, ToolDefinitionV, ToolsConfig, TurnEndReason,
};
use crate::views::views;
use vstd::prelude::*;

verus! {

/// What came of a request.
#[derive(Debug)]
pub enum DispatchResult {
    /// Its turn ended.
    Done { mode: ExecMode, reason: TurnEndReason },
    /// It could not run.
    Failed { mode: ExecMode, message: String },
}

/// The dispatcher.
pub struct Dispatcher {
    session: SessionLog,
    tools: ToolRegistry,
    llm: LlmClient,
    model: String,
    max_tokens: usize,
    temperature: Float32,
    context_window: usize,
    compaction_threshold: Float32,
    keep_recent_turns: usize,
    settings: PromptSettings,
}

/// What a [`Dispatcher`] stands for.
pub struct DispatcherV {
    pub session: SessionLogV,
    pub tools: Seq<ToolDefinitionV>,
    pub policy: Policy,
    pub llm: LlmClient,
    pub model: Seq<char>,
    pub max_tokens: usize,
    pub temperature: Float32,
    pub context_window: usize,
    pub compaction_threshold: Float32,
    pub keep_recent_turns: usize,
    pub settings: SettingsV,
}

impl View for Dispatcher {
    type V = DispatcherV;

    closed spec fn view(&self) -> DispatcherV {
        DispatcherV {
            session: self.session@,
            tools: self.tools.tools(),
            policy: self.tools.policy(),
            llm: self.llm,
            model: self.model@,
            max_tokens: self.max_tokens,
            temperature: self.temperature,
            context_window: self.context_window,
            compaction_threshold: self.compaction_threshold,
            keep_recent_turns: self.keep_recent_turns,
            settings: self.settings@,
        }
    }
}

/// The loop that a dispatcher lends its parts to.
pub open spec fn lent(d: DispatcherV) -> AgentV {
    AgentV {
        session: d.session,
        tools: d.tools,
        policy: d.policy,
        llm: d.llm,
        model: d.model,
        max_tokens: d.max_tokens,
        temperature: d.temperature,
        context_window: d.context_window,
        compaction_threshold: d.compaction_threshold,
        keep_recent_turns: d.keep_recent_turns,
        settings: d.settings,
        prompt: PromptV { system: Seq::empty(), tools: Seq::empty() },
        phase: PhaseV::Idle,
    }
}

/// A configuration in which every tool is off.
fn no_tools() -> (r: ToolsConfig)
    ensures
        !r.shell,
        !r.file_read,
        !r.file_write,
        !r.file_search,
        !r.ssh_exec,
        !r.memory,
        !r.todo,
        r.permission@ == "workspace-write"@,
{
    ToolsConfig {
        shell: false,
        file_read: false,
        file_write: false,
        file_search: false,
        ssh_exec: false,
        memory: false,
        todo: false,
        permission: "workspace-write".to_owned(),
    }
}

impl Dispatcher {
    /// A dispatcher for a model.
    pub fn new(
        session: SessionLog,
        tools: ToolRegistry,
        llm: LlmClient,
        model_config: &ModelConfig,
    ) -> (r: Dispatcher)
        ensures
            r@ == (DispatcherV {
                session: session@,
                tools: tools.tools(),
                policy: tools.policy(),
                llm,
                model: model_config.model@,
                max_tokens: model_config.max_tokens,
                temperature: model_config.temperature,
                context_window: model_config.context_window,
                compaction_threshold: (Float32 { bits: 0x3f33_3333 }),
                keep_recent_turns: 3,
                settings: unset(),
            }),
    {
        Dispatcher {
            session,
            tools,
            llm,
            model: model_config.model.clone(),
            max_tokens: model_config.max_tokens,
            temperature: model_config.temperature,
            context_window: model_config.context_window,
            compaction_threshold: Float32 { bits: 0x3f33_3333 },
            keep_recent_turns: 3,
            settings: Default::default(),
        }
    }

    /// The dispatcher with other settings for making the conversation shorter.
    pub fn with_compaction(self, threshold: Float32, keep_recent: usize) -> (r: Dispatcher)
        ensures
            r@ == (DispatcherV {
                compaction_threshold: threshold,
                keep_recent_turns: keep_recent,
                ..self@
            }),
    {
        Dispatcher {
            session: self.session,
            tools: self.tools,
            llm: self.llm,
            model: self.model,
            max_tokens: self.max_tokens,
            temperature: self.temperature,
            context_window: self.context_window,
            compaction_threshold: threshold,
            keep_recent_turns: keep_recent,
            settings: self.settings,
        }
    }

    /// The dispatcher with other settings for prompts.
    pub fn with_prompt(self, settings: PromptSettings) -> (r: Dispatcher)
        ensures
            r@ == (DispatcherV { settings: settings@, ..self@ }),
    {
        Dispatcher {
            session: self.session,
            tools: self.tools,
            llm: self.llm,
            model: self.model,
            max_tokens: self.max_tokens,
            temperature: self.temperature,
            context_window: self.context_window,
            compaction_threshold: self.compaction_threshold,
            keep_recent_turns: self.keep_recent_turns,
            settings,
        }
    }

    /// Lends the conversation and the tools to a loop for a skill, with the strategy of its mode.
    /// They come back with [`Dispatcher::take_back`].
    pub fn dispatch(&mut self, skill: &Skill) -> (r: AgentLoop<Strategy>)
        ensures
            r@ == lent(old(self)@),
            r.hooks().len() == 1,
            starts_as(r.hooks()[0], skill@),
            final(self)@ == (DispatcherV {
                session: empty_log(0),
                tools: Seq::empty(),
                policy: final(self)@.policy,
                ..old(self)@
            }),
            forall|name: Seq<char>|
                final(self)@.policy.allows(name) ==> name == "subagent"@ || name == "workflow"@,
    {
        let mut session = SessionLog::new(0);
        std::mem::swap(&mut session, &mut self.session);
        let mut tools = ToolRegistry::new(Policy::from_config(&no_tools()));
        std::mem::swap(&mut tools, &mut self.tools);
        let config = ModelConfig {
            base_url: String::new(),
            api_key: String::new(),
            model: self.model.clone(),
            context_window: self.context_window,
            max_tokens: self.max_tokens,
            temperature: self.temperature,
            proxy: String::new(),
        };
        let agent: AgentLoop<Strategy> = AgentLoop::new(session, tools, self.llm.clone(), &config);
        agent.with_hooks(build_hooks(skill)).with_compaction(
            self.compaction_threshold,
            self.keep_recent_turns,
        ).with_prompt(self.settings.clone())
    }

    /// Takes back what a loop was lent, and says what came of the request.
    pub fn take_back(
        &mut self,
        agent: AgentLoop<Strategy>,
        mode: ExecMode,
        outcome: Result<TurnEndReason, String>,
    ) -> (r: DispatchResult)
        ensures
            final(self)@ == (DispatcherV {
                session: agent@.session,
                tools: agent@.tools,
                policy: agent@.policy,
                ..old(self)@
            }),
            match outcome {
                Ok(reason) => r == (DispatchResult::Done { mode, reason }),
                Err(message) => r == (DispatchResult::Failed { mode, message }),
            },
    {
        let (session, tools, _) = agent.into_parts();
        self.session = session;
        self.tools = tools;
        match outcome {
            Ok(reason) => DispatchResult::Done { mode, reason },
            Err(message) => DispatchResult::Failed { mode, message },
        }
    }

    /// The conversation.
    pub fn session(&self) -> (r: &SessionLog)
        ensures
            r@ == self@.session,
    {
        &self.session
    }

    /// Takes the conversation out.
    pub fn take_session(&mut self) -> (r: SessionLog)
        ensures
            r@ == old(self)@.session,
            final(self)@ == (DispatcherV { session: empty_log(0), ..old(self)@ }),
    {
        let mut session = SessionLog::new(0);
        std::mem::swap(&mut session, &mut self.session);
        session
    }
}

/// What is asked of the model at the start, so that it has seen the prompt and the tools of a skill
/// before the first turn: as little as can be.
pub open spec fn preheat_asked(
    model: ModelConfig,
    settings: SettingsV,
    skill: SkillV,
    tools: Seq<ToolDefinitionV>,
) -> LlmRequestV {
    let prompt = turn_prompt(skill, tools, settings, model.model@);
    LlmRequestV {
        model: model.model@,
        system: prompt.system,
        messages: seq![MessageV::User { content: "ready"@, images: Seq::empty() }],
        tools: prompt.tools,
        max_tokens: 1,
        temperature: model.temperature,
        think: ThinkLevel::Off,
    }
}

/// What is asked of the model at the start.
pub fn preheat_request(
    model: &ModelConfig,
    settings: &PromptSettings,
    skill: &Skill,
    tools: &Vec<ToolDefinition>,
) -> (r: LlmRequest)
    ensures
        r@ == preheat_asked(*model, settings@, skill@, views(tools@)),
{
    let prompt = assemble_turn(skill, tools, settings, model.model.as_str());
    let images: Vec<ImageBlock> = Vec::new();
    assert(views(images@) =~= Seq::empty());
    let message = Message::User { content: "ready".to_owned(), images };
    let ghost mv = message@;
    let mut messages: Vec<Message> = Vec::new();
    messages.push(message);
    assert(views(messages@) =~= seq![mv]);
    LlmRequest {
        model: model.model.clone(),
        system: prompt.system,
        messages,
        tools: prompt.tools,
        max_tokens: 1,
        temperature: model.temperature,
        think: ThinkLevel::Off,
    }
}

/// What a model has seen at the start is what the first turn of the skill begins with: the same
/// prompt and the same tools.
pub proof fn law_the_first_turn_is_prepared(
    model: ModelConfig,
    a: AgentV,
    message: Seq<char>,
    images: Seq<ImageBlockV>,
    skill: SkillV,
)
    requires
        model.model@ == a.model,
    ensures
        ({
            let seen = preheat_asked(model, a.settings, skill, a.tools);
            let asked = a.begun(message, images, skill).agent.request(skill);
            &&& seen.system == asked.system
            &&& seen.tools == asked.tools
        }),
{
}

/// The agent of a turn has all that the dispatcher has: its log, its tools and its settings; it
/// begins idle and without a prompt.
pub proof fn law_the_agent_gets_everything(d: DispatcherV)
    ensures
        lent(d).session == d.session,
        lent(d).tools == d.tools,
        lent(d).policy == d.policy,
        lent(d).llm == d.llm,
        lent(d).model == d.model,
        lent(d).max_tokens == d.max_tokens,
        lent(d).temperature == d.temperature,
        lent(d).context_window == d.context_window,
        lent(d).compaction_threshold == d.compaction_threshold,
        lent(d).keep_recent_turns == d.keep_recent_turns,
        lent(d).settings == d.settings,
        lent(d).phase is Idle,
        lent(d).prompt.system.len() == 0,
{
}

/// The request that warms the model up asks it for one token, on a single message of the user.
pub proof fn law_warming_up_asks_for_one_token(
    model: ModelConfig,
    settings: SettingsV,
    skill: SkillV,
    tools: Seq<ToolDefinitionV>,
)
    ensures
        ({
            let asked = preheat_asked(model, settings, skill, tools);
            &&& asked.max_tokens == 1
            &&& asked.messages.len() == 1
            &&& asked.messages[0] is User
            &&& asked.model == model.model@
            &&& asked.temperature == model.temperature
            &&& asked.think == ThinkLevel::Off
        }),
{
}

} // verus!
