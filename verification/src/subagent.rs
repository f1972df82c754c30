//! The tool that hands a task to a child agent, and what child agents are made of.
//!
//! A child starts without the conversation of its parent, with the tools of its parent, and gives
//! back what it says last.
use crate::agent::AgentLoop;
use crate::json::{field_models, with_field, Json, JsonV};
use crate::llm::LlmClient;
use crate::policy::{enabled, Policy};
use crate::session::{SessionLog, SessionLogV};
use crate::prompt::unset;
use crate::skill::{find_by_name, skill_index};
use crate::strategies::{build_hooks, starts_as, Strategy};
use crate::text::{chars_of, same, texts};
use crate::textmap::TextMap;
use crate::tools::file::{get_text_or, text_or};
use crate::tools::schema::{make_object_schema, make_text_arg, object_schema, text_arg};
use crate::tools::{is_registered, registered, tool_index, ToolPlugin, ToolRegistry};
use crate::types::{
    plain_result, reason_name, ExecMode, Float32, ModelConfig, SessionEvent, SessionEventV, Skill,
    SkillStep, SkillV, ThinkLevel, ToolDefinition, ToolDefinitionV, ToolResult, ToolResultV,
    ToolsConfig, TurnEndReason,
};
use crate::views::{opt_view, views};
use vstd::prelude::*;

verus! {

/// How deep agents may hand on tasks.
pub const MAX_DEPTH: u32 = 3;

/// How many events a child keeps of its conversation.
pub const CHILD_EVENTS: usize = 512;

/// What child agents are made of.
pub struct ChildKit {
    pub llm: LlmClient,
    pub model_config: ModelConfig,
    pub compaction_threshold: Float32,
    pub keep_recent_turns: usize,
    pub skills_dir: String,
    /// The tools that children have.
    pub shared: Vec<ToolDefinition>,
}

/// Some tools with one more, unless there is one of its name already.
pub open spec fn shared_with(tools: Seq<ToolDefinitionV>, tool: ToolDefinitionV) -> Seq<
    ToolDefinitionV,
> {
    if is_registered(tools, tool.name) {
        tools
    } else {
        tools.push(tool)
    }
}

/// Some tools with others.
pub open spec fn all_shared(
    tools: Seq<ToolDefinitionV>,
    others: Seq<ToolDefinitionV>,
) -> Seq<ToolDefinitionV>
    decreases others.len(),
{
    if others.len() == 0 {
        tools
    } else {
        shared_with(all_shared(tools, others.drop_last()), others.last())
    }
}

/// A registry with some tools registered, one after the other.
pub open spec fn all_registered(
    tools: Seq<ToolDefinitionV>,
    others: Seq<ToolDefinitionV>,
) -> Seq<ToolDefinitionV>
    decreases others.len(),
{
    if others.len() == 0 {
        tools
    } else {
        registered(all_registered(tools, others.drop_last()), others.last())
    }
}

/// Which tools a child may use, of those that it has.
pub fn child_tools_config() -> (r: ToolsConfig)
    ensures
        r.shell,
        r.file_read,
        r.file_write,
        r.file_search,
        !r.ssh_exec,
        r.memory,
        !r.todo,
        r.permission@ == "workspace-write"@,
{
    ToolsConfig {
        shell: true,
        file_read: true,
        file_write: true,
        file_search: true,
        ssh_exec: false,
        memory: true,
        todo: false,
        permission: "workspace-write".to_owned(),
    }
}

/// Whether a child may use a tool.
pub open spec fn child_may_use(name: Seq<char>) -> bool {
    ||| name == "shell"@
    ||| name == "file_read"@
    ||| name == "file_write"@
    ||| name == "file_search"@
    ||| name == "memory_read"@
    ||| name == "memory_recall"@
    ||| name == "memory_write"@
    ||| name == "subagent"@
    ||| name == "workflow"@
}

/// A log without events.
pub open spec fn empty_log(max_in_memory: usize) -> SessionLogV {
    SessionLogV {
        next_seq: 0,
        events: Seq::empty(),
        max_in_memory,
        current_turn: 0,
        current_step: 0,
    }
}

impl ChildKit {
    /// A kit without tools.
    pub fn new(
        llm: LlmClient,
        model_config: ModelConfig,
        compaction_threshold: Float32,
        keep_recent_turns: usize,
        skills_dir: String,
    ) -> (r: ChildKit)
        ensures
            r.llm == llm,
            r.model_config == model_config,
            r.compaction_threshold == compaction_threshold,
            r.keep_recent_turns == keep_recent_turns,
            r.skills_dir == skills_dir,
            views(r.shared@) == Seq::<ToolDefinitionV>::empty(),
    {
        let r = ChildKit {
            llm,
            model_config,
            compaction_threshold,
            keep_recent_turns,
            skills_dir,
            shared: Vec::new(),
        };
        assert(views(r.shared@) =~= Seq::empty());
        r
    }

    /// Whether a tool is shared already.
    fn shares(&self, name: &str) -> (r: bool)
        ensures
            r == is_registered(views(self.shared@), name@),
    {
        let ghost all = views(self.shared@);
        let mut i: usize = 0;
        while i < self.shared.len()
            invariant
                i <= self.shared@.len(),
                all == views(self.shared@),
                tool_index(all, name@, i as int) == tool_index(all, name@, 0),
            decreases self.shared@.len() - i,
        {
            assert(all[i as int].name == self.shared@[i as int].name@);
            if same(self.shared[i].name.as_str(), name) {
                return true;
            }
            i += 1;
        }
        false
    }

    /// Shares a tool with children, unless there is one of its name already.
    pub fn share_tool(&mut self, tool: ToolDefinition)
        ensures
            views(final(self).shared@) == shared_with(views(old(self).shared@), tool@),
            final(self).llm == old(self).llm,
            final(self).model_config == old(self).model_config,
            final(self).compaction_threshold == old(self).compaction_threshold,
            final(self).keep_recent_turns == old(self).keep_recent_turns,
            final(self).skills_dir == old(self).skills_dir,
    {
        if !self.shares(tool.name.as_str()) {
            let ghost tv = tool@;
            self.shared.push(tool);
            assert(views(self.shared@) =~= views(old(self).shared@).push(tv));
        }
    }

    /// The tools of a child.
    pub fn child_tools(&self) -> (r: ToolRegistry)
        ensures
            r.tools() == all_registered(Seq::empty(), views(self.shared@)),
            forall|name: Seq<char>| r.policy().allows(name) <==> child_may_use(name),
    {
        let config = child_tools_config();
        let policy = Policy::from_config(&config);
        proof {
            lemma_child_policy(config);
        }
        let mut tools = ToolRegistry::new(policy);
        let ghost all = views(self.shared@);
        let mut i: usize = 0;
        assert(all.take(0) =~= Seq::empty());
        while i < self.shared.len()
            invariant
                i <= self.shared@.len(),
                all == views(self.shared@),
                tools.tools() == all_registered(Seq::empty(), all.take(i as int)),
                tools.policy() == policy,
            decreases self.shared@.len() - i,
        {
            assert(all.take(i + 1).drop_last() =~= all.take(i as int));
            assert(all[i as int] == self.shared@[i as int]@);
            tools.register(self.shared[i].clone());
            i += 1;
        }
        assert(all.take(i as int) =~= all);
        tools
    }

    /// A child for a skill: no conversation yet, and the strategy of the skill.
    pub fn child_loop(&self, skill: &Skill) -> (r: AgentLoop<Strategy>)
        ensures
            r@.session == empty_log(CHILD_EVENTS),
            r@.tools == all_registered(Seq::empty(), views(self.shared@)),
            forall|name: Seq<char>| r@.policy.allows(name) <==> child_may_use(name),
            r@.llm == self.llm,
            r@.model == self.model_config.model@,
            r@.max_tokens == self.model_config.max_tokens,
            r@.temperature == self.model_config.temperature,
            r@.context_window == self.model_config.context_window,
            r@.compaction_threshold == self.compaction_threshold,
            r@.keep_recent_turns == self.keep_recent_turns,
            r@.settings == unset(),
            r@.phase is Idle,
            r.hooks().len() == 1,
            starts_as(r.hooks()[0], skill@),
    {
        let agent: AgentLoop<Strategy> = AgentLoop::new(
            SessionLog::new(CHILD_EVENTS),
            self.child_tools(),
            self.llm.clone(),
            &self.model_config,
        );
        agent.with_hooks(build_hooks(skill)).with_compaction(
            self.compaction_threshold,
            self.keep_recent_turns,
        )
    }
}

/// What the policy of a child allows.
proof fn lemma_child_policy(config: ToolsConfig)
    requires
        config.shell,
        config.file_read,
        config.file_write,
        config.file_search,
        !config.ssh_exec,
        config.memory,
        !config.todo,
        config.permission@ == "workspace-write"@,
    ensures
        forall|name: Seq<char>| enabled(config, name) <==> child_may_use(name),
{
    reveal_strlit("workspace-write");
    reveal_strlit("read-only");
    assert("workspace-write"@.len() != "read-only"@.len());
}

/// The skill of a child that is given none.
pub open spec fn plan_skill(name: Seq<char>, description: Seq<char>, body: Seq<char>) -> SkillV {
    SkillV {
        name,
        description,
        when_to_use: None,
        mode: ExecMode::Plan,
        think: ThinkLevel::High,
        tools_allow: Seq::empty(),
        variables: Seq::empty(),
        body,
        steps: Seq::empty(),
    }
}

/// A skill in which the model plans by itself, with all tools.
pub fn make_plan_skill(name: &str, description: &str, body: &str) -> (r: Skill)
    ensures
        r@ == plan_skill(name@, description@, body@),
{
    let tools_allow: Vec<String> = Vec::new();
    let steps: Vec<SkillStep> = Vec::new();
    let r = Skill {
        name: name.to_owned(),
        description: description.to_owned(),
        when_to_use: None,
        mode: ExecMode::Plan,
        think: ThinkLevel::High,
        tools_allow,
        variables: TextMap::new(),
        body: body.to_owned(),
        steps,
    };
    assert(r@.tools_allow =~= Seq::empty());
    assert(r@.steps =~= Seq::empty());
    assert(r@.variables =~= Seq::empty());
    r
}

/// The skill of a child that is given none.
pub open spec fn default_plan() -> SkillV {
    plan_skill(
        "subagent-default"@,
        "Default plan skill for subagent delegation"@,
        "You are a focused subagent. Complete the given task autonomously. Use available tools as needed. Provide a clear final answer."@,
    )
}

/// The skill of a child that is given none.
pub fn default_plan_skill() -> (r: Skill)
    ensures
        r@ == default_plan(),
{
    make_plan_skill(
        "subagent-default",
        "Default plan skill for subagent delegation",
        "You are a focused subagent. Complete the given task autonomously. Use available tools as needed. Provide a clear final answer.",
    )
}

/// The skill of a child: the one that is named, or else the default.
pub open spec fn child_skill(
    name: Option<Seq<char>>,
    skills: Seq<SkillV>,
    default: SkillV,
) -> SkillV {
    match name {
        Some(n) => {
            let k = skill_index(skills, n, 0);
            if k < skills.len() {
                skills[k]
            } else {
                default
            }
        },
        None => default,
    }
}

/// The skill of a child: the one that is named, or else the default.
pub fn pick_skill(name: &Option<String>, skills: &Vec<Skill>, default: Skill) -> (r: Skill)
    ensures
        r@ == child_skill(opt_view(*name), views(skills@), default@),
{
    match name {
        Some(n) => match find_by_name(skills, n.as_str()) {
            Some(s) => {
                s.clone()
            },
            None => default,
        },
        None => default,
    }
}

/// What the assistant said last, leaving out answers without text.
pub open spec fn final_output(events: Seq<SessionEventV>) -> Seq<char>
    decreases events.len(),
{
    if events.len() == 0 {
        Seq::empty()
    } else {
        match events.last() {
            SessionEventV::AssistantMessage { content, .. } => if content.len() > 0 {
                content
            } else {
                final_output(events.drop_last())
            },
            _ => final_output(events.drop_last()),
        }
    }
}

/// What the assistant said last, leaving out answers without text; nothing where it said nothing.
pub fn extract_final_output(session: &SessionLog) -> (r: String)
    ensures
        r@ == final_output(session@.events),
{
    let events = session.events();
    let ghost all = session@.events;
    let mut last = String::new();
    let mut i: usize = 0;
    assert(all.take(0) =~= Seq::empty());
    assert(last@ =~= Seq::empty());
    while i < events.len()
        invariant
            i <= events@.len(),
            all == views(events@),
            last@ == final_output(all.take(i as int)),
        decreases events@.len() - i,
    {
        assert(all.take(i + 1).drop_last() =~= all.take(i as int));
        assert(all[i as int] == events@[i as int]@);
        match &events[i] {
            SessionEvent::AssistantMessage {
                content,
                tool_calls: _,
                usage: _,
                ttft_ms: _,
                decode_ms: _,
                thinking: _,
            } => {
                if chars_of(content.as_str()).len() > 0 {
                    last = content.clone();
                }
            },
            _ => {
                assert(!(all[i as int] is AssistantMessage));
            },
        }
        i += 1;
    }
    assert(all.take(i as int) =~= all);
    last
}

/// The tool that hands a task to a child agent.
pub struct SubagentTool {
    pub kit: ChildKit,
}

/// The arguments of the tool.
pub open spec fn subagent_args() -> Seq<(Seq<char>, JsonV)> {
    seq![
        ("description"@, text_arg("Short 3-5 word description of the delegated task"@)),
        (
            "prompt"@,
            text_arg(
                "The complete, self-contained task for the child agent. Include all context needed — the child sees nothing from the parent conversation."@,
            ),
        ),
        (
            "skill"@,
            text_arg(
                "Optional skill name to use for strategy selection. If specified, child uses that skill's mode (workflow=deterministic, plan=autonomous). If omitted, child uses plan mode (full LLM autonomy)."@,
            ),
        ),
    ]
}

impl ToolPlugin for SubagentTool {
    open spec fn described(&self) -> ToolDefinitionV {
        ToolDefinitionV {
            name: "subagent"@,
            description:
                "Delegate a self-contained task to a child agent. The child runs independently and returns only its final result. Use for focused subtasks (research, scoped analysis, verification) to save parent context."@,
            parameters: object_schema(subagent_args(), seq!["description"@, "prompt"@]),
            timeout_ms: 120000,
            guidance: ""@,
        }
    }

    fn definition(&self) -> (r: ToolDefinition) {
        let props: Vec<(String, Json)> = Vec::new();
        let props = with_field(
            props,
            "description",
            make_text_arg("Short 3-5 word description of the delegated task"),
        );
        let props = with_field(
            props,
            "prompt",
            make_text_arg(
                "The complete, self-contained task for the child agent. Include all context needed — the child sees nothing from the parent conversation.",
            ),
        );
        let props = with_field(
            props,
            "skill",
            make_text_arg(
                "Optional skill name to use for strategy selection. If specified, child uses that skill's mode (workflow=deterministic, plan=autonomous). If omitted, child uses plan mode (full LLM autonomy).",
            ),
        );
        assert(field_models(props@) =~= subagent_args());
        let mut required: Vec<String> = Vec::new();
        required.push("description".to_owned());
        required.push("prompt".to_owned());
        assert(texts(required@) =~= seq!["description"@, "prompt"@]);
        ToolDefinition {
            name: "subagent".to_owned(),
            description:
                "Delegate a self-contained task to a child agent. The child runs independently and returns only its final result. Use for focused subtasks (research, scoped analysis, verification) to save parent context.".to_owned(),
            parameters: make_object_schema(props, &required),
            timeout_ms: 120000,
            guidance: "".to_owned(),
        }
    }
}

/// A task for a child.
#[derive(Debug)]
pub struct Delegation {
    pub description: String,
    pub prompt: String,
    /// The skill to use.
    pub skill: Option<String>,
    /// How deep the child is.
    pub depth: u32,
}

/// What a [`Delegation`] stands for.
pub struct DelegationV {
    pub description: Seq<char>,
    pub prompt: Seq<char>,
    pub skill: Option<Seq<char>>,
    pub depth: u32,
}

impl View for Delegation {
    type V = DelegationV;

    open spec fn view(&self) -> DelegationV {
        DelegationV {
            description: self.description@,
            prompt: self.prompt@,
            skill: opt_view(self.skill),
            depth: self.depth,
        }
    }
}

/// The task that a call asks for, where the agent that calls is at `depth`, or what is wrong with
/// the call.
pub open spec fn task_asked(args: JsonV, depth: u32) -> Result<DelegationV, ToolResultV> {
    let prompt = text_or(args, "prompt"@, ""@);
    if prompt.len() == 0 {
        Err(
            plain_result(
                "Error: `prompt` parameter is required and must be non-empty"@,
                true,
            ),
        )
    } else if depth >= MAX_DEPTH {
        Err(
            plain_result(
                "Error: subagent delegation depth limit (3) reached. Cannot spawn another subagent."@,
                true,
            ),
        )
    } else {
        Ok(
            DelegationV {
                description: text_or(args, "description"@, "subagent task"@),
                prompt,
                skill: args.text_field("skill"@),
                depth: (depth + 1) as u32,
            },
        )
    }
}

/// What the parent is told: what the child said last, or how its turn ended where it said nothing.
pub open spec fn delegation_report(
    outcome: Result<TurnEndReason, Seq<char>>,
    output: Seq<char>,
) -> ToolResultV {
    match outcome {
        Ok(reason) => plain_result(
            if output.len() == 0 {
                "Subagent completed (no text output). Turn end: "@ + reason_name(reason)
            } else {
                output
            },
            reason == TurnEndReason::Error,
        ),
        Err(e) => plain_result("Subagent failed: "@ + e, true),
    }
}

impl SubagentTool {
    /// The tool, with no tools for children yet.
    pub fn new(
        llm: LlmClient,
        model_config: ModelConfig,
        compaction_threshold: Float32,
        keep_recent_turns: usize,
        skills_dir: String,
    ) -> (r: SubagentTool)
        ensures
            r.kit.llm == llm,
            r.kit.model_config == model_config,
            r.kit.compaction_threshold == compaction_threshold,
            r.kit.keep_recent_turns == keep_recent_turns,
            r.kit.skills_dir == skills_dir,
            views(r.kit.shared@) == Seq::<ToolDefinitionV>::empty(),
    {
        SubagentTool {
            kit: ChildKit::new(
                llm,
                model_config,
                compaction_threshold,
                keep_recent_turns,
                skills_dir,
            ),
        }
    }

    /// Shares a tool with children, unless there is one of its name already.
    pub fn share_tool(&mut self, tool: ToolDefinition)
        ensures
            views(final(self).kit.shared@) == shared_with(views(old(self).kit.shared@), tool@),
            final(self).kit.llm == old(self).kit.llm,
            final(self).kit.model_config == old(self).kit.model_config,
            final(self).kit.compaction_threshold == old(self).kit.compaction_threshold,
            final(self).kit.keep_recent_turns == old(self).kit.keep_recent_turns,
            final(self).kit.skills_dir == old(self).kit.skills_dir,
    {
        self.kit.share_tool(tool);
    }

    /// The task that a call asks for, where the agent that calls is at `depth`, or what is wrong
    /// with the call.
    pub fn prepare(&self, args: &Json, depth: u32) -> (r: Result<Delegation, ToolResult>)
        ensures
            match r {
                Ok(d) => task_asked(args@, depth) == Ok::<DelegationV, ToolResultV>(d@),
                Err(e) => task_asked(args@, depth) == Err::<DelegationV, ToolResultV>(e@),
            },
    {
        let description = get_text_or(args, "description", "subagent task");
        let prompt = get_text_or(args, "prompt", "");
        if chars_of(prompt.as_str()).len() == 0 {
            return Err(
                ToolResult::plain(
                    "Error: `prompt` parameter is required and must be non-empty".to_owned(),
                    true,
                ),
            );
        }
        if depth >= MAX_DEPTH {
            return Err(
                ToolResult::plain(
                    "Error: subagent delegation depth limit (3) reached. Cannot spawn another subagent.".to_owned(),
                    true,
                ),
            );
        }
        let skill = match args.get_text("skill") {
            Some(s) => Some(s.clone()),
            None => None,
        };
        Ok(Delegation { description, prompt, skill, depth: depth + 1 })
    }

    /// What the parent is told.
    pub fn report(&self, outcome: Result<TurnEndReason, String>, output: String) -> (r: ToolResult)
        ensures
            r@ == delegation_report(
                match outcome {
                    Ok(reason) => Ok(reason),
                    Err(e) => Err(e@),
                },
                output@,
            ),
    {
        match outcome {
            Ok(reason) => {
                let is_error = reason == TurnEndReason::Error;
                if chars_of(output.as_str()).len() == 0 {
                    let mut m = "Subagent completed (no text output). Turn end: ".to_owned();
                    m.push_str(reason.name());
                    ToolResult::plain(m, is_error)
                } else {
                    ToolResult::plain(output, is_error)
                }
            },
            Err(e) => {
                let mut m = "Subagent failed: ".to_owned();
                m.push_str(e.as_str());
                ToolResult::plain(m, true)
            },
        }
    }
}

/// No agent is deeper than the limit: where a task is handed on, the child is one deeper than its
/// parent and still within it.
pub proof fn law_delegation_is_bounded(args: JsonV, depth: u32)
    ensures
        match task_asked(args, depth) {
            Ok(d) => d.depth == depth + 1 && d.depth <= MAX_DEPTH && d.prompt.len() > 0,
            Err(e) => e.is_error,
        },
        depth >= MAX_DEPTH ==> task_asked(args, depth) is Err,
{
}

/// What a child gives back is something that its assistant said, and nothing that it said later
/// has text; where it gives back nothing, its assistant said nothing.
pub proof fn law_last_word_counts(events: Seq<SessionEventV>)
    ensures
        final_output(events).len() == 0 ==> forall|i: int|
            0 <= i < events.len() && #[trigger] events[i] is AssistantMessage
                ==> events[i]->AssistantMessage_content.len() == 0,
        final_output(events).len() > 0 ==> exists|k: int|
            {
                &&& 0 <= k < events.len()
                &&& #[trigger] events[k] is AssistantMessage
                &&& events[k]->AssistantMessage_content == final_output(events)
                &&& forall|i: int|
                    k < i < events.len() && #[trigger] events[i] is AssistantMessage
                        ==> events[i]->AssistantMessage_content.len() == 0
            },
    decreases events.len(),
{
    if events.len() > 0 {
        let init = events.drop_last();
        law_last_word_counts(init);
        let last = events.last();
        if last is AssistantMessage && last->AssistantMessage_content.len() > 0 {
            assert(events[events.len() - 1] is AssistantMessage);
        } else {
            assert(final_output(events) == final_output(init));
            if final_output(events).len() == 0 {
                assert forall|i: int|
                    0 <= i < events.len() && #[trigger] events[i] is AssistantMessage implies
                    events[i]->AssistantMessage_content.len() == 0 by {
                    if i < init.len() {
                        assert(init[i] == events[i]);
                    }
                }
            } else {
                let k = choose|k: int|
                    {
                        &&& 0 <= k < init.len()
                        &&& #[trigger] init[k] is AssistantMessage
                        &&& init[k]->AssistantMessage_content == final_output(init)
                        &&& forall|i: int|
                            k < i < init.len() && #[trigger] init[i] is AssistantMessage
                                ==> init[i]->AssistantMessage_content.len() == 0
                    };
                assert(init[k] == events[k]);
                assert(events[k] is AssistantMessage);
                assert forall|i: int|
                    k < i < events.len() && #[trigger] events[i] is AssistantMessage implies
                    events[i]->AssistantMessage_content.len() == 0 by {
                    if i < init.len() {
                        assert(init[i] == events[i]);
                    }
                }
            }
        }
    }
}

/// A delegation hands on what was asked: the task as it is, its description and the skill where they
/// are given, one level deeper. Without a task, or three levels down, there is none.
pub proof fn law_delegations_hand_on_the_task(args: JsonV, depth: u32)
    ensures
        task_asked(args, depth) is Ok <==> args.text_field("prompt"@) is Some && args.text_field(
            "prompt"@,
        )->0.len() > 0 && depth < 3,
        task_asked(args, depth) is Ok ==> {
            let d = task_asked(args, depth)->Ok_0;
            &&& args.text_field("prompt"@) == Some(d.prompt)
            &&& d.skill == args.text_field("skill"@)
            &&& args.text_field("description"@) is Some ==> args.text_field("description"@) == Some(
                d.description,
            )
            &&& args.text_field("description"@) is None ==> d.description == "subagent task"@
            &&& d.depth == depth + 1
        },
{
    reveal_strlit("");
}

/// What the child said last is what it gives, as a failure where its turn failed; a child that could
/// not run gives a failure that tells why.
pub proof fn law_children_give_their_last_word(
    reason: TurnEndReason,
    output: Seq<char>,
    error: Seq<char>,
)
    ensures
        output.len() > 0 ==> delegation_report(Ok(reason), output).content == output,
        output.len() == 0 ==> delegation_report(Ok(reason), output).content
            == "Subagent completed (no text output). Turn end: "@ + reason_name(reason),
        delegation_report(Ok(reason), output).is_error <==> reason == TurnEndReason::Error,
        delegation_report(Err(error), output).is_error,
        delegation_report(Err(error), output).content == "Subagent failed: "@ + error,
{
}

/// The last thing that the model said counts, whatever follows it that is not said by the model or
/// is empty.
pub proof fn law_what_is_said_last_counts(
    events: Seq<SessionEventV>,
    content: Seq<char>,
    e: SessionEventV,
)
    requires
        content.len() > 0,
    ensures
        !(e is AssistantMessage) ==> final_output(events.push(e)) == final_output(events),
        e is AssistantMessage && e->AssistantMessage_content == content ==> final_output(
            events.push(e),
        ) == content,
        e is AssistantMessage && e->AssistantMessage_content.len() == 0 ==> final_output(
            events.push(e),
        ) == final_output(events),
        final_output(Seq::empty()).len() == 0,
{
    assert(events.push(e).drop_last() =~= events);
}

/// A child runs the skill that was asked for by name, and the default where none was or it is not
/// there.
pub proof fn law_children_run_the_skill_asked_for(
    skills: Seq<SkillV>,
    name: Seq<char>,
    default: SkillV,
    i: int,
)
    requires
        0 <= i <= skills.len(),
        forall|k: int| 0 <= k < i ==> (#[trigger] skills[k]).name != name,
    ensures
        i < skills.len() && skills[i].name == name ==> child_skill(Some(name), skills, default)
            == skills[i],
        i == skills.len() ==> child_skill(Some(name), skills, default) == default,
        child_skill(None, skills, default) == default,
{
    lemma_named(skills, name, 0, i);
}

proof fn lemma_named(skills: Seq<SkillV>, name: Seq<char>, from: int, i: int)
    requires
        0 <= from <= i <= skills.len(),
        forall|k: int| from <= k < i ==> (#[trigger] skills[k]).name != name,
    ensures
        skill_index(skills, name, from) == skill_index(skills, name, i),
    decreases i - from,
{
    if from < i {
        lemma_named(skills, name, from + 1, i);
    }
}

/// A tool that is shared is there for the child, unless one of its name was shared before, which
/// stays; no other is lost.
pub proof fn law_shared_tools_are_there(
    tools: Seq<ToolDefinitionV>,
    others: Seq<ToolDefinitionV>,
    tool: ToolDefinitionV,
)
    ensures
        !is_registered(tools, tool.name) ==> shared_with(tools, tool) == tools.push(tool),
        is_registered(tools, tool.name) ==> shared_with(tools, tool) == tools,
        tools.is_prefix_of(all_shared(tools, others)),
        all_shared(tools, others.push(tool)) == shared_with(all_shared(tools, others), tool),
        all_registered(tools, others.push(tool)) == registered(all_registered(tools, others), tool),
        all_registered(tools, Seq::empty()) == tools,
    decreases others.len(),
{
    assert(others.push(tool).drop_last() =~= others);
    if others.len() > 0 {
        law_shared_tools_are_there(tools, others.drop_last(), tool);
    }
}

/// A skill made for a plan is run as one, with its words as given, every tool and no steps.
pub proof fn law_plan_skills_are_plans(name: Seq<char>, description: Seq<char>, body: Seq<char>)
    ensures
        ({
            let s = plan_skill(name, description, body);
            &&& s.name == name && s.description == description && s.body == body
            &&& s.mode == ExecMode::Plan
            &&& s.think == ThinkLevel::High
            &&& s.tools_allow.len() == 0 && s.steps.len() == 0 && s.variables.len() == 0
            &&& s.when_to_use is None
        }),
        default_plan().mode == ExecMode::Plan,
        default_plan().name == "subagent-default"@,
        empty_log(512).events.len() == 0,
        empty_log(512).max_in_memory == 512,
{
}

/// A child may use the tools for files, for the shell and for the memory and may delegate, and
/// nothing that reaches further.
pub proof fn law_children_reach_no_further()
    ensures
        child_may_use("shell"@),
        child_may_use("file_read"@),
        child_may_use("file_write"@),
        child_may_use("file_search"@),
        child_may_use("memory_read"@),
        child_may_use("memory_write"@),
        child_may_use("memory_recall"@),
        child_may_use("subagent"@),
        child_may_use("workflow"@),
        !child_may_use("ssh_exec"@),
        !child_may_use("todo_write"@),
{
    reveal_strlit("shell");
    reveal_strlit("file_read");
    reveal_strlit("file_write");
    reveal_strlit("file_search");
    reveal_strlit("memory_read");
    reveal_strlit("memory_write");
    reveal_strlit("memory_recall");
    reveal_strlit("subagent");
    reveal_strlit("workflow");
    reveal_strlit("ssh_exec");
    reveal_strlit("todo_write");
    assert("ssh_exec"@.len() == 8 && "subagent"@.len() == 8 && "workflow"@.len() == 8);
    assert("shell"@.len() == 5 && "file_read"@.len() == 9 && "file_write"@.len() == 10);
    assert("file_search"@.len() == 11 && "memory_read"@.len() == 11);
    assert("memory_write"@.len() == 12 && "memory_recall"@.len() == 13);
    assert("todo_write"@.len() == 10);
    assert("ssh_exec"@[1] != "subagent"@[1]);
    assert("ssh_exec"@[0] != "workflow"@[0]);
    assert("todo_write"@[0] != "file_write"@[0]);
}

} // verus!
