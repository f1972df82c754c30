//! The tools that are registered, and what is done before and after one runs: it is checked first,
//! then it runs with a time limit, and at last its output is cut to size.
pub mod file;
pub mod memory;
pub mod schema;
pub mod shell;
pub mod ssh;
pub mod workflow;

use crate::llm::LlmClient;
use crate::policy::{not_enabled, Policy};
use crate::subagent::{all_registered, all_shared, SubagentTool};
use crate::text::{
    back_text, back_within, byte_len, byte_len_of, decimal, decimal_text, front_text,
    front_within, lemma_back_within, lemma_front_within, same, strip_end, texts, CharClass,
};
use crate::tools::file::{FileReadTool, FileSearchTool, FileWriteTool};
use crate::tools::memory::{MemoryReadTool, MemoryRecallTool, MemoryWriteTool};
use crate::tools::shell::ShellTool;
use crate::tools::ssh::{ssh_described, SshExecTool};
use crate::types::{
    clone_definitions, plain_result, Config, SshTarget, ToolCall, ToolDefinition, ToolDefinitionV,
    ToolResult, ToolResultV, ToolsConfig,
};
use crate::views::views;
use vstd::prelude::*;

verus! {

/// The number of bytes above which the output of a tool is cut.
pub const MAX_OUTPUT_BYTES: usize = 16384;

/// The number of bytes that are kept of each end of an output that is cut.
pub const HALF_OUTPUT_BYTES: usize = 8192;

/// A tool: what the model is told of it.
pub trait ToolPlugin {
    /// What the model is told of the tool.
    spec fn described(&self) -> ToolDefinitionV;

    /// What the model is told of the tool.
    fn definition(&self) -> (r: ToolDefinition)
        ensures
            r@ == self.described(),
    ;
}

/// The tools that are registered, and the policy that says which may run.
pub struct ToolRegistry {
    tools: Vec<ToolDefinition>,
    policy: Policy,
}

/// Where a tool of that name stands among `tools`, from `i` on; their number where it does not.
pub open spec fn tool_index(tools: Seq<ToolDefinitionV>, name: Seq<char>, i: int) -> int
    decreases tools.len() - i,
{
    if i < 0 || i >= tools.len() {
        tools.len() as int
    } else if tools[i].name == name {
        i
    } else {
        tool_index(tools, name, i + 1)
    }
}

/// Whether a tool of that name is among `tools`.
pub open spec fn is_registered(tools: Seq<ToolDefinitionV>, name: Seq<char>) -> bool {
    tool_index(tools, name, 0) < tools.len()
}

/// `tools` with one more, in the place of another of its name.
pub open spec fn registered(tools: Seq<ToolDefinitionV>, tool: ToolDefinitionV) -> Seq<
    ToolDefinitionV,
> {
    let i = tool_index(tools, tool.name, 0);
    if i < tools.len() {
        tools.update(i, tool)
    } else {
        tools.push(tool)
    }
}

/// Whether an allow-list allows a tool: an empty one allows all.
pub open spec fn allow_listed(name: Seq<char>, allow: Seq<Seq<char>>) -> bool {
    allow.len() == 0 || allow.contains(name)
}

/// The tools that an allow-list allows.
pub open spec fn allowed_tools(tools: Seq<ToolDefinitionV>, allow: Seq<Seq<char>>) -> Seq<
    ToolDefinitionV,
>
    decreases tools.len(),
{
    if tools.len() == 0 {
        Seq::empty()
    } else {
        let front = allowed_tools(tools.drop_last(), allow);
        if allow_listed(tools.last().name, allow) {
            front.push(tools.last())
        } else {
            front
        }
    }
}

/// What happens to a tool call before it runs.
#[derive(Debug)]
pub enum Admission {
    /// It runs, for no longer than this.
    Run { timeout_ms: u64 },
    /// It does not run; this is its result.
    Refuse(ToolResult),
}

/// What an [`Admission`] stands for.
pub enum AdmissionV {
    Run { timeout_ms: u64 },
    Refuse(ToolResultV),
}

impl View for Admission {
    type V = AdmissionV;

    open spec fn view(&self) -> AdmissionV {
        match *self {
            Admission::Run { timeout_ms } => AdmissionV::Run { timeout_ms },
            Admission::Refuse(r) => AdmissionV::Refuse(r@),
        }
    }
}

/// The result of a call that is not permitted.
pub open spec fn denied(reason: Seq<char>) -> ToolResultV {
    plain_result("Error: permission denied — "@ + reason, true)
}

/// What happens to a tool call: it runs where the policy allows it and the tool is registered.
pub open spec fn admission(tools: Seq<ToolDefinitionV>, policy: Policy, name: Seq<char>) -> AdmissionV {
    if !policy.allows(name) {
        AdmissionV::Refuse(denied(not_enabled(name)))
    } else if !is_registered(tools, name) {
        AdmissionV::Refuse(denied("tool `"@ + name + "` is not registered"@))
    } else {
        AdmissionV::Run { timeout_ms: tools[tool_index(tools, name, 0)].timeout_ms }
    }
}

/// What happens to a tool call of a skill: it is refused where the skill does not allow it.
pub open spec fn checked_admission(
    tools: Seq<ToolDefinitionV>,
    policy: Policy,
    name: Seq<char>,
    allow: Seq<Seq<char>>,
) -> AdmissionV {
    if allow_listed(name, allow) {
        admission(tools, policy, name)
    } else {
        AdmissionV::Refuse(
            plain_result(
                "Error: tool `"@ + name + "` is not allowed by the active skill"@,
                true,
            ),
        )
    }
}

/// How the run of a tool ended.
#[derive(Debug)]
pub enum RunOutcome {
    Finished(ToolResult),
    Panicked(String),
    TimedOut,
}

/// What a [`RunOutcome`] stands for.
pub enum RunOutcomeV {
    Finished(ToolResultV),
    Panicked(Seq<char>),
    TimedOut,
}

impl View for RunOutcome {
    type V = RunOutcomeV;

    open spec fn view(&self) -> RunOutcomeV {
        match *self {
            RunOutcome::Finished(r) => RunOutcomeV::Finished(r@),
            RunOutcome::Panicked(e) => RunOutcomeV::Panicked(e@),
            RunOutcome::TimedOut => RunOutcomeV::TimedOut,
        }
    }
}

/// An output cut to size: as it is where it is short, else its beginning and its end.
pub open spec fn cut(content: Seq<char>) -> Seq<char> {
    if byte_len(content) <= MAX_OUTPUT_BYTES {
        content
    } else {
        front_within(content, HALF_OUTPUT_BYTES as int) + "\n\n... [output truncated: "@ + decimal(
            byte_len(content),
        ) + " bytes total, showing first 8192 and last 8192] ...\n\n"@ + back_within(
            content,
            HALF_OUTPUT_BYTES as int,
        )
    }
}

/// The result of a call whose run has ended.
pub open spec fn settled(outcome: RunOutcomeV, name: Seq<char>, timeout_ms: u64) -> ToolResultV {
    match outcome {
        RunOutcomeV::Finished(r) => ToolResultV { content: cut(r.content), ..r },
        RunOutcomeV::Panicked(e) => plain_result(
            "Error: tool `"@ + name + "` panicked: "@ + e,
            true,
        ),
        RunOutcomeV::TimedOut => plain_result(
            "Error: tool `"@ + name + "` timed out after "@ + decimal(timeout_ms as nat) + "ms"@,
            true,
        ),
    }
}

/// Whether an allow-list allows a tool.
pub fn allow_lists(name: &str, allow: &Vec<String>) -> (r: bool)
    ensures
        r == allow_listed(name@, texts(allow@)),
{
    if allow.len() == 0 {
        return true;
    }
    let mut i: usize = 0;
    while i < allow.len()
        invariant
            i <= allow@.len(),
            allow@.len() > 0,
            forall|k: int| 0 <= k < i ==> texts(allow@)[k] != name@,
        decreases allow@.len() - i,
    {
        if same(allow[i].as_str(), name) {
            assert(texts(allow@)[i as int] == name@);
            return true;
        }
        i += 1;
    }
    false
}

/// The tools that an allow-list allows.
pub fn filter_tools(tools: &Vec<ToolDefinition>, allow: &Vec<String>) -> (r: Vec<ToolDefinition>)
    ensures
        views(r@) == allowed_tools(views(tools@), texts(allow@)),
{
    let ghost all = views(tools@);
    let mut r: Vec<ToolDefinition> = Vec::new();
    let mut i: usize = 0;
    assert(all.take(0) =~= Seq::empty());
    assert(views(r@) =~= Seq::empty());
    while i < tools.len()
        invariant
            i <= tools@.len(),
            all == views(tools@),
            views(r@) == allowed_tools(all.take(i as int), texts(allow@)),
        decreases tools@.len() - i,
    {
        let ghost before = views(r@);
        assert(all.take(i + 1).drop_last() =~= all.take(i as int));
        assert(all.take(i + 1).last() == tools@[i as int]@);
        if allow_lists(tools[i].name.as_str(), allow) {
            r.push(tools[i].clone());
            assert(views(r@) =~= before.push(all[i as int]));
        }
        i += 1;
    }
    assert(all.take(i as int) =~= all);
    r
}

/// An output cut to size.
pub fn cut_output(content: String) -> (r: String)
    ensures
        r@ == cut(content@),
{
    let n: usize = byte_len_of(content.as_str());
    if n <= MAX_OUTPUT_BYTES {
        return content;
    }
    let mut r = front_text(content.as_str(), HALF_OUTPUT_BYTES);
    let tail = back_text(content.as_str(), HALF_OUTPUT_BYTES);
    r.push_str("\n\n... [output truncated: ");
    r.push_str(decimal_text(n as u64).as_str());
    r.push_str(" bytes total, showing first 8192 and last 8192] ...\n\n");
    r.push_str(tail.as_str());
    r
}

/// The result of a call whose run has ended.
pub fn finalize_result(outcome: RunOutcome, name: &str, timeout_ms: u64) -> (r: ToolResult)
    ensures
        r@ == settled(outcome@, name@, timeout_ms),
{
    match outcome {
        RunOutcome::Finished(result) => ToolResult {
            content: cut_output(result.content),
            is_error: result.is_error,
            images: result.images,
        },
        RunOutcome::Panicked(e) => {
            let mut m = "Error: tool `".to_owned();
            m.push_str(name);
            m.push_str("` panicked: ");
            m.push_str(e.as_str());
            ToolResult::plain(m, true)
        },
        RunOutcome::TimedOut => {
            let mut m = "Error: tool `".to_owned();
            m.push_str(name);
            m.push_str("` timed out after ");
            m.push_str(decimal_text(timeout_ms).as_str());
            m.push_str("ms");
            ToolResult::plain(m, true)
        },
    }
}

impl ToolRegistry {
    /// What the model is told of the tools, in the order in which they were registered first.
    pub closed spec fn tools(self) -> Seq<ToolDefinitionV> {
        views(self.tools@)
    }

    /// The policy that says which tools may run.
    pub closed spec fn policy(self) -> Policy {
        self.policy
    }

    /// A registry without tools.
    pub fn new(policy: Policy) -> (r: ToolRegistry)
        ensures
            r.tools() == Seq::<ToolDefinitionV>::empty(),
            r.policy() == policy,
    {
        let r = ToolRegistry { tools: Vec::new(), policy };
        assert(r.tools() =~= Seq::empty());
        r
    }

    /// Where a tool of that name stands.
    fn index_of(&self, name: &str) -> (r: usize)
        ensures
            r == tool_index(self.tools(), name@, 0),
            r <= self.tools@.len(),
    {
        let mut i: usize = 0;
        while i < self.tools.len()
            invariant
                i <= self.tools@.len(),
                tool_index(self.tools(), name@, i as int) == tool_index(self.tools(), name@, 0),
            decreases self.tools@.len() - i,
        {
            assert(self.tools()[i as int].name == self.tools@[i as int].name@);
            if same(self.tools[i].name.as_str(), name) {
                return i;
            }
            i += 1;
        }
        i
    }

    /// Registers a tool; one that has its name gives way.
    pub fn register(&mut self, tool: ToolDefinition)
        ensures
            final(self).tools() == registered(old(self).tools(), tool@),
            final(self).policy() == old(self).policy(),
    {
        let i: usize = self.index_of(tool.name.as_str());
        if i < self.tools.len() {
            self.tools.set(i, tool);
        } else {
            self.tools.push(tool);
        }
        assert(views(self.tools@) =~= registered(views(old(self).tools@), tool@));
    }

    /// What the model is told of all tools.
    pub fn definitions(&self) -> (r: Vec<ToolDefinition>)
        ensures
            views(r@) == self.tools(),
    {
        clone_definitions(&self.tools)
    }

    /// What the model is told of the tools that an allow-list allows.
    pub fn definitions_for(&self, allow: &Vec<String>) -> (r: Vec<ToolDefinition>)
        ensures
            views(r@) == allowed_tools(self.tools(), texts(allow@)),
    {
        filter_tools(&self.tools, allow)
    }

    /// Whether an allow-list allows a tool.
    pub fn is_allowed(&self, tool_name: &str, allow: &Vec<String>) -> (r: bool)
        ensures
            r == allow_listed(tool_name@, texts(allow@)),
    {
        allow_lists(tool_name, allow)
    }

    /// What happens to a tool call before it runs.
    pub fn execute(&self, call: &ToolCall) -> (r: Admission)
        ensures
            r@ == admission(self.tools(), self.policy(), call.name@),
    {
        match self.policy.check_tool(call.name.as_str()) {
            Some(reason) => {
                let mut m = "Error: permission denied — ".to_owned();
                m.push_str(reason.as_str());
                Admission::Refuse(ToolResult::plain(m, true))
            },
            None => {
                let i: usize = self.index_of(call.name.as_str());
                if i < self.tools.len() {
                    return Admission::Run { timeout_ms: self.tools[i].timeout_ms };
                }
                let mut reason = "tool `".to_owned();
                reason.push_str(call.name.as_str());
                reason.push_str("` is not registered");
                let mut m = "Error: permission denied — ".to_owned();
                m.push_str(reason.as_str());
                Admission::Refuse(ToolResult::plain(m, true))
            },
        }
    }

    /// What happens to a tool call of a skill before it runs.
    pub fn execute_checked(&self, call: &ToolCall, allow: &Vec<String>) -> (r: Admission)
        ensures
            r@ == checked_admission(self.tools(), self.policy(), call.name@, texts(allow@)),
    {
        if !self.is_allowed(call.name.as_str(), allow) {
            let mut m = "Error: tool `".to_owned();
            m.push_str(call.name.as_str());
            m.push_str("` is not allowed by the active skill");
            return Admission::Refuse(ToolResult::plain(m, true));
        }
        self.execute(call)
    }
}

/// A tool runs only where the skill, the policy and the registry all know it.
pub proof fn law_nothing_runs_unchecked(
    tools: Seq<ToolDefinitionV>,
    policy: Policy,
    name: Seq<char>,
    allow: Seq<Seq<char>>,
)
    ensures
        checked_admission(tools, policy, name, allow) is Run <==> allow_listed(name, allow)
            && policy.allows(name) && is_registered(tools, name),
        checked_admission(tools, policy, name, allow) matches AdmissionV::Refuse(r) ==> r.is_error,
{
}

/// An empty allow-list does not restrict anything.
pub proof fn law_empty_allow_list_allows_all(tools: Seq<ToolDefinitionV>, name: Seq<char>)
    ensures
        allow_listed(name, Seq::empty()),
        allowed_tools(tools, Seq::empty()) == tools,
    decreases tools.len(),
{
    if tools.len() > 0 {
        law_empty_allow_list_allows_all(tools.drop_last(), name);
        assert(tools =~= tools.drop_last().push(tools.last()));
    }
}

/// The tools that a skill is offered are just those of the registry that it may use.
pub proof fn law_offered_tools_are_allowed(
    tools: Seq<ToolDefinitionV>,
    allow: Seq<Seq<char>>,
    tool: ToolDefinitionV,
)
    ensures
        allowed_tools(tools, allow).contains(tool) <==> tools.contains(tool) && allow_listed(
            tool.name,
            allow,
        ),
    decreases tools.len(),
{
    if tools.len() > 0 {
        let front = allowed_tools(tools.drop_last(), allow);
        let last = tools.last();
        law_offered_tools_are_allowed(tools.drop_last(), allow, tool);
        assert(tools =~= tools.drop_last().push(last));
        assert(tools.contains(tool) <==> tools.drop_last().contains(tool) || tool == last) by {
            if tools.drop_last().contains(tool) {
                let i = choose|i: int| 0 <= i < tools.len() - 1 && tools.drop_last()[i] == tool;
                assert(tools[i] == tool);
            }
            if tool == last {
                assert(tools[tools.len() - 1] == tool);
            }
            if tools.contains(tool) && tool != last {
                let i = choose|i: int| 0 <= i < tools.len() && tools[i] == tool;
                assert(tools.drop_last()[i] == tool);
            }
        }
        let with = front.push(last);
        assert(with.contains(tool) <==> front.contains(tool) || tool == last) by {
            if front.contains(tool) {
                let i = choose|i: int| 0 <= i < front.len() && front[i] == tool;
                assert(with[i] == tool);
            }
            assert(with[front.len() as int] == last);
            if with.contains(tool) && tool != last {
                let i = choose|i: int| 0 <= i < with.len() && with[i] == tool;
                assert(front[i] == tool);
            }
        }
    }
}

/// An output that is cut keeps a beginning and an end of at most half the limit each; a short one
/// stays as it is.
pub proof fn law_output_is_bounded(content: Seq<char>)
    ensures
        byte_len(content) <= MAX_OUTPUT_BYTES ==> cut(content) == content,
        byte_len(front_within(content, HALF_OUTPUT_BYTES as int)) <= HALF_OUTPUT_BYTES,
        byte_len(back_within(content, HALF_OUTPUT_BYTES as int)) <= HALF_OUTPUT_BYTES,
{
    lemma_front_within(content, HALF_OUTPUT_BYTES as int);
    lemma_back_within(content, HALF_OUTPUT_BYTES as int);
}

/// The tools that are built in, as far as a configuration turns them on.
pub open spec fn builtins(config: ToolsConfig) -> Seq<ToolDefinitionV> {
    (if config.shell {
        seq![(ShellTool {  }).described()]
    } else {
        Seq::empty()
    }) + (if config.file_read {
        seq![(FileReadTool {  }).described()]
    } else {
        Seq::empty()
    }) + (if config.file_write {
        seq![(FileWriteTool {  }).described()]
    } else {
        Seq::empty()
    }) + (if config.file_search {
        seq![(FileSearchTool {  }).described()]
    } else {
        Seq::empty()
    }) + (if config.memory {
        seq![
            (MemoryReadTool {  }).described(),
            (MemoryWriteTool {  }).described(),
            (MemoryRecallTool {  }).described(),
        ]
    } else {
        Seq::empty()
    }) + (if config.ssh_exec {
        seq![ssh_described()]
    } else {
        Seq::<ToolDefinitionV>::empty()
    })
}

/// The built-in tools, as far as a configuration turns them on.
pub fn builtin_definitions(config: &Config) -> (r: Vec<ToolDefinition>)
    ensures
        views(r@) == builtins(config.tools),
{
    let mut r: Vec<ToolDefinition> = Vec::new();
    if config.tools.shell {
        r.push((ShellTool {  }).definition());
    }
    if config.tools.file_read {
        r.push((FileReadTool {  }).definition());
    }
    if config.tools.file_write {
        r.push((FileWriteTool {  }).definition());
    }
    if config.tools.file_search {
        r.push((FileSearchTool {  }).definition());
    }
    if config.tools.memory {
        r.push((MemoryReadTool {  }).definition());
        r.push((MemoryWriteTool {  }).definition());
        r.push((MemoryRecallTool {  }).definition());
    }
    if config.tools.ssh_exec {
        let targets: Vec<SshTarget> = Vec::new();
        r.push(SshExecTool::new(targets).definition());
    }
    assert(views(r@) =~= builtins(config.tools));
    r
}

/// Registers the built-in tools, as far as a configuration turns them on.
pub fn register_builtins(registry: &mut ToolRegistry, config: &Config)
    ensures
        final(registry).tools() == all_registered(old(registry).tools(), builtins(config.tools)),
        final(registry).policy() == old(registry).policy(),
{
    let tools = builtin_definitions(config);
    let ghost all = views(tools@);
    let mut i: usize = 0;
    assert(all.take(0) =~= Seq::empty());
    while i < tools.len()
        invariant
            i <= tools@.len(),
            all == views(tools@),
            registry.tools() == all_registered(old(registry).tools(), all.take(i as int)),
            registry.policy() == old(registry).policy(),
        decreases tools@.len() - i,
    {
        assert(all.take(i + 1).drop_last() =~= all.take(i as int));
        assert(all[i as int] == tools@[i as int]@);
        registry.register(tools[i].clone());
        i += 1;
    }
    assert(all.take(i as int) =~= all);
}

/// Registers the tool that hands tasks to child agents, and gives back that tool, which shares with
/// children the tools that were registered before.
pub fn register_subagent(registry: &mut ToolRegistry, config: &Config) -> (r: SubagentTool)
    ensures
        final(registry).tools() == registered(old(registry).tools(), r.described()),
        final(registry).policy() == old(registry).policy(),
        views(r.kit.shared@) == all_shared(Seq::empty(), old(registry).tools()),
        r.kit.llm.base_url@ == strip_end(config.model.base_url@, CharClass::Only('/')),
        r.kit.llm.api_key@ == config.model.api_key@,
        r.kit.llm.proxy@ == config.model.proxy@,
        r.kit.model_config == config.model,
        r.kit.compaction_threshold == config.compaction.threshold,
        r.kit.keep_recent_turns == config.compaction.keep_recent_turns,
        r.kit.skills_dir@ == config.skill.dir@,
{
    let llm = LlmClient::new(&config.model);
    let ghost client = llm;
    let mut subagent = SubagentTool::new(
        llm,
        config.model.clone(),
        config.compaction.threshold,
        config.compaction.keep_recent_turns,
        config.skill.dir.clone(),
    );
    let tools = registry.definitions();
    let ghost all = views(tools@);
    let mut i: usize = 0;
    assert(all.take(0) =~= Seq::empty());
    while i < tools.len()
        invariant
            i <= tools@.len(),
            all == views(tools@),
            views(subagent.kit.shared@) == all_shared(Seq::empty(), all.take(i as int)),
            subagent.kit.llm == client,
            subagent.kit.model_config == config.model,
            subagent.kit.compaction_threshold == config.compaction.threshold,
            subagent.kit.keep_recent_turns == config.compaction.keep_recent_turns,
            subagent.kit.skills_dir@ == config.skill.dir@,
        decreases tools@.len() - i,
    {
        assert(all.take(i + 1).drop_last() =~= all.take(i as int));
        assert(all[i as int] == tools@[i as int]@);
        subagent.share_tool(tools[i].clone());
        i += 1;
    }
    assert(all.take(i as int) =~= all);
    registry.register(subagent.definition());
    subagent
}

/// A tool that is registered is there under its name and takes the place of an earlier one of that
/// name; every other tool stays as it was.
pub proof fn law_registering_keeps_the_others(
    tools: Seq<ToolDefinitionV>,
    tool: ToolDefinitionV,
    other: Seq<char>,
)
    ensures
        tool_named(registered(tools, tool), tool.name) == Some(tool),
        other != tool.name ==> tool_named(registered(tools, tool), other) == tool_named(
            tools,
            other,
        ),
        tool_named(Seq::empty(), other) is None,
{
    let after = registered(tools, tool);
    lemma_tool_index(tools, tool.name, 0);
    lemma_tool_index(after, tool.name, 0);
    lemma_tool_index(tools, other, 0);
    lemma_tool_index(after, other, 0);
    let i = tool_index(tools, tool.name, 0);
    let j = tool_index(after, tool.name, 0);
    assert(after[i] == tool);
    if j < i {
        assert(after[j] == tools[j]);
    }
    if other != tool.name {
        let a = tool_index(tools, other, 0);
        let b = tool_index(after, other, 0);
        if a < tools.len() {
            assert(after[a] == tools[a]);
        }
        if b < after.len() {
            assert(b < tools.len());
            assert(after[b] == tools[b]);
        }
    }
}

/// The tool of a name: the first that has it.
pub open spec fn tool_named(tools: Seq<ToolDefinitionV>, name: Seq<char>) -> Option<
    ToolDefinitionV,
> {
    if is_registered(tools, name) {
        Some(tools[tool_index(tools, name, 0)])
    } else {
        None
    }
}

proof fn lemma_tool_index(tools: Seq<ToolDefinitionV>, name: Seq<char>, i: int)
    requires
        0 <= i <= tools.len(),
    ensures
        i <= tool_index(tools, name, i) <= tools.len(),
        tool_index(tools, name, i) < tools.len() ==> tools[tool_index(tools, name, i)].name == name,
        forall|j: int| i <= j < tool_index(tools, name, i) ==> (#[trigger] tools[j]).name != name,
    decreases tools.len() - i,
{
    if i < tools.len() && tools[i].name != name {
        lemma_tool_index(tools, name, i + 1);
    }
}

/// A name is registered exactly where a tool has it, and the tool of a name has that name.
pub proof fn law_tools_are_found_by_name(tools: Seq<ToolDefinitionV>, name: Seq<char>, i: int)
    ensures
        0 <= i < tools.len() && tools[i].name == name ==> is_registered(tools, name),
        is_registered(tools, name) ==> tools.contains(tool_named(tools, name)->0) && tool_named(
            tools,
            name,
        )->0.name == name,
{
    lemma_tool_index(tools, name, 0);
}

/// A tool that may run has as long as it says; one that may not is refused as a failure that names
/// it and tells why.
pub proof fn law_refusals_say_why(
    tools: Seq<ToolDefinitionV>,
    policy: Policy,
    name: Seq<char>,
    allow: Seq<Seq<char>>,
)
    ensures
        allow.len() > 0 && !allow.contains(name) ==> checked_admission(tools, policy, name, allow)
            == AdmissionV::Refuse(
            ToolResultV {
                content: "Error: tool `"@ + name + "` is not allowed by the active skill"@,
                is_error: true,
                images: Seq::empty(),
            },
        ),
        !policy.allows(name) ==> admission(tools, policy, name) == AdmissionV::Refuse(
            ToolResultV {
                content: "Error: permission denied — "@ + not_enabled(name),
                is_error: true,
                images: Seq::empty(),
            },
        ),
        policy.allows(name) && !is_registered(tools, name) ==> admission(tools, policy, name)
            == AdmissionV::Refuse(
            ToolResultV {
                content: "Error: permission denied — "@ + ("tool `"@ + name
                    + "` is not registered"@),
                is_error: true,
                images: Seq::empty(),
            },
        ),
        policy.allows(name) && is_registered(tools, name) ==> admission(tools, policy, name)
            == (AdmissionV::Run { timeout_ms: tool_named(tools, name)->0.timeout_ms }),
        allow.len() == 0 || allow.contains(name) ==> checked_admission(tools, policy, name, allow)
            == admission(tools, policy, name),
{
}

/// A long output keeps its beginning and its end, with a note of its length between them.
pub proof fn law_long_output_keeps_both_ends(content: Seq<char>)
    ensures
        byte_len(content) <= 16384 ==> cut(content) == content,
        byte_len(content) > 16384 ==> {
            let front = front_within(content, 8192);
            let back = back_within(content, 8192);
            &&& front.is_prefix_of(cut(content))
            &&& back.is_suffix_of(cut(content))
            &&& cut(content) == front + ("\n\n... [output truncated: "@ + decimal(byte_len(content))
                + " bytes total, showing first 8192 and last 8192] ...\n\n"@) + back
        },
{
    if byte_len(content) > 16384 {
        let front = front_within(content, 8192);
        let back = back_within(content, 8192);
        let note = "\n\n... [output truncated: "@ + decimal(byte_len(content))
            + " bytes total, showing first 8192 and last 8192] ...\n\n"@;
        assert(cut(content) =~= front + note + back);
        assert(cut(content).take(front.len() as int) =~= front);
        assert(cut(content).skip(cut(content).len() - back.len()) =~= back);
    }
}

/// A tool that finished gives what it gave, a failure as a failure, with its images and its output
/// cut to size; one that broke off or took too long gives a failure that names it.
pub proof fn law_runs_give_what_the_tool_gave(
    r: ToolResultV,
    e: Seq<char>,
    name: Seq<char>,
    timeout_ms: u64,
)
    ensures
        settled(RunOutcomeV::Finished(r), name, timeout_ms).content == cut(r.content),
        settled(RunOutcomeV::Finished(r), name, timeout_ms).is_error == r.is_error,
        settled(RunOutcomeV::Finished(r), name, timeout_ms).images == r.images,
        settled(RunOutcomeV::Panicked(e), name, timeout_ms).is_error,
        settled(RunOutcomeV::Panicked(e), name, timeout_ms).content == "Error: tool `"@ + name
            + "` panicked: "@ + e,
        settled(RunOutcomeV::TimedOut, name, timeout_ms).is_error,
        settled(RunOutcomeV::TimedOut, name, timeout_ms).content == "Error: tool `"@ + name
            + "` timed out after "@ + decimal(timeout_ms as nat) + "ms"@,
{
}

/// The tools of the library are there exactly where they are switched on.
pub proof fn law_switched_on_tools_are_there(config: ToolsConfig)
    ensures
        config.shell ==> builtins(config).contains((ShellTool {  }).described()),
        config.file_read ==> builtins(config).contains((FileReadTool {  }).described()),
        config.file_write ==> builtins(config).contains((FileWriteTool {  }).described()),
        config.file_search ==> builtins(config).contains((FileSearchTool {  }).described()),
        config.memory ==> builtins(config).contains((MemoryReadTool {  }).described()),
        config.memory ==> builtins(config).contains((MemoryWriteTool {  }).described()),
        config.memory ==> builtins(config).contains((MemoryRecallTool {  }).described()),
        config.ssh_exec ==> builtins(config).contains(ssh_described()),
        builtins(config).len() == count(config.shell) + count(config.file_read) + count(
            config.file_write,
        ) + count(config.file_search) + 3 * count(config.memory) + count(config.ssh_exec),
{
    let b = builtins(config);
    let s = count(config.shell);
    let r = s + count(config.file_read);
    let w = r + count(config.file_write);
    let f = w + count(config.file_search);
    let m = f + 3 * count(config.memory);
    assert(config.shell ==> b[0] == (ShellTool {  }).described());
    assert(config.file_read ==> b[s] == (FileReadTool {  }).described());
    assert(config.file_write ==> b[r] == (FileWriteTool {  }).described());
    assert(config.file_search ==> b[w] == (FileSearchTool {  }).described());
    assert(config.memory ==> b[f] == (MemoryReadTool {  }).described());
    assert(config.memory ==> b[f + 1] == (MemoryWriteTool {  }).described());
    assert(config.memory ==> b[f + 2] == (MemoryRecallTool {  }).described());
    assert(config.ssh_exec ==> b[m] == ssh_described());
}

/// One for a switch that is on, and nothing for one that is off.
pub open spec fn count(on: bool) -> int {
    if on {
        1
    } else {
        0
    }
}

} // verus!
