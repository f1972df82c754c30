//! The tool that runs several child agents at once and groups what they give back.
use crate::json::{field_models, json_str, lemma_models, with_field, Json, JsonV};
use crate::llm::LlmClient;
use crate::sorting::{law_sorting_orders, law_text_order, sort_texts, sorted_by, text_le};
use crate::subagent::{make_plan_skill, plan_skill, shared_with, ChildKit};
use crate::text::{
    chars_of, decimal, decimal_text, escape_json, escaped, hex, hex4_text, join, join_texts, listed,
    law_padding_adds_zeros, same, texts, zero_padded,
};
use crate::tools::file::{get_text_or, text_or};
use crate::tools::schema::{make_object_schema, make_text_arg, object_schema, text_arg};
use crate::tools::ToolPlugin;
use crate::types::{
    plain_result, reason_name, Float32, ModelConfig, Skill, SkillV, ToolDefinition,
    ToolDefinitionV, ToolResult, ToolResultV, TurnEndReason,
};
use crate::views::{opt_view, views};
use vstd::prelude::*;

verus! {

/// How deep agents may hand on tasks.
pub const MAX_DEPTH: u32 = 3;

/// How many child agents one call may start.
pub const MAX_CONCURRENT: usize = 8;

/// One task of a call.
#[derive(Debug)]
pub struct WorkflowTask {
    pub label: String,
    pub phase: String,
    pub prompt: String,
    pub skill: Option<String>,
}

/// What a [`WorkflowTask`] stands for.
pub struct TaskV {
    pub label: Seq<char>,
    pub phase: Seq<char>,
    pub prompt: Seq<char>,
    pub skill: Option<Seq<char>>,
}

impl View for WorkflowTask {
    type V = TaskV;

    open spec fn view(&self) -> TaskV {
        TaskV {
            label: self.label@,
            phase: self.phase@,
            prompt: self.prompt@,
            skill: opt_view(self.skill),
        }
    }
}

/// What came of one task.
#[derive(Debug)]
pub struct TaskResult {
    pub label: String,
    pub phase: String,
    pub completed: bool,
    /// What the child said last, or what went wrong.
    pub result: String,
}

/// What a [`TaskResult`] stands for.
pub struct TaskResultV {
    pub label: Seq<char>,
    pub phase: Seq<char>,
    pub completed: bool,
    pub result: Seq<char>,
}

impl View for TaskResult {
    type V = TaskResultV;

    open spec fn view(&self) -> TaskResultV {
        TaskResultV {
            label: self.label@,
            phase: self.phase@,
            completed: self.completed,
            result: self.result@,
        }
    }
}

/// How the run of a child ended.
#[derive(Debug)]
pub enum TaskRun {
    /// Its turn ended, and this is what it said last.
    Ended { reason: TurnEndReason, output: String },
    /// It could not run.
    Failed(String),
    /// It broke down.
    Panicked,
}

/// What came of a task.
pub open spec fn task_result(label: Seq<char>, phase: Seq<char>, run: TaskRun) -> TaskResultV {
    match run {
        TaskRun::Ended { reason, output } => TaskResultV {
            label,
            phase,
            completed: true,
            result: if output@.len() == 0 {
                "Task completed (no text output). Turn end: "@ + reason_name(reason)
            } else {
                output@
            },
        },
        TaskRun::Failed(e) => TaskResultV { label, phase, completed: false, result: e@ },
        TaskRun::Panicked => TaskResultV {
            label,
            phase,
            completed: false,
            result: "thread panic"@,
        },
    }
}

/// What came of a task.
pub fn make_task_result(task: &WorkflowTask, run: TaskRun) -> (r: TaskResult)
    ensures
        r@ == task_result(task.label@, task.phase@, run),
{
    let label = task.label.clone();
    let phase = task.phase.clone();
    match run {
        TaskRun::Ended { reason, output } => {
            let result = if chars_of(output.as_str()).len() == 0 {
                let mut m = "Task completed (no text output). Turn end: ".to_owned();
                m.push_str(reason.name());
                m
            } else {
                output
            };
            TaskResult { label, phase, completed: true, result }
        },
        TaskRun::Failed(e) => TaskResult { label, phase, completed: false, result: e },
        TaskRun::Panicked => TaskResult {
            label,
            phase,
            completed: false,
            result: "thread panic".to_owned(),
        },
    }
}

/// The tool.
pub struct WorkflowTool {
    pub kit: ChildKit,
}

/// The arguments of one task.
pub open spec fn task_args() -> Seq<(Seq<char>, JsonV)> {
    seq![
        ("label"@, text_arg("Short label for the task (e.g. 'core-router-1')"@)),
        (
            "phase"@,
            text_arg("Phase name for grouping (e.g. 'health-check', 'diagnosis')"@),
        ),
        (
            "prompt"@,
            text_arg("Complete, self-contained task prompt for the child agent"@),
        ),
        ("skill"@, text_arg("Optional skill name for the child agent's strategy"@)),
    ]
}

/// The schema of the list of tasks.
pub open spec fn tasks_schema() -> JsonV {
    JsonV::Object(
        seq![
            ("description"@, JsonV::Text("Array of tasks to execute in parallel"@)),
            ("items"@, object_schema(task_args(), seq!["label"@, "phase"@, "prompt"@])),
            ("maxItems"@, JsonV::UInt(8)),
            ("minItems"@, JsonV::UInt(1)),
            ("type"@, JsonV::Text("array"@)),
        ],
    )
}

/// The arguments of the tool.
pub open spec fn workflow_args() -> Seq<(Seq<char>, JsonV)> {
    seq![
        ("name"@, text_arg("Short name for this workflow run (e.g. 'batch-health-check')"@)),
        ("description"@, text_arg("One-line description of what the workflow does"@)),
        ("tasks"@, tasks_schema()),
    ]
}

/// The schema of the list of tasks.
fn make_tasks_schema() -> (r: Json)
    ensures
        r@ == tasks_schema(),
{
    let args: Vec<(String, Json)> = Vec::new();
    let args = with_field(
        args,
        "label",
        make_text_arg("Short label for the task (e.g. 'core-router-1')"),
    );
    let args = with_field(
        args,
        "phase",
        make_text_arg("Phase name for grouping (e.g. 'health-check', 'diagnosis')"),
    );
    let args = with_field(
        args,
        "prompt",
        make_text_arg("Complete, self-contained task prompt for the child agent"),
    );
    let args = with_field(
        args,
        "skill",
        make_text_arg("Optional skill name for the child agent's strategy"),
    );
    assert(field_models(args@) =~= task_args());
    let mut required: Vec<String> = Vec::new();
    required.push("label".to_owned());
    required.push("phase".to_owned());
    required.push("prompt".to_owned());
    assert(texts(required@) =~= seq!["label"@, "phase"@, "prompt"@]);
    let fields: Vec<(String, Json)> = Vec::new();
    let fields = with_field(
        fields,
        "description",
        json_str("Array of tasks to execute in parallel"),
    );
    let fields = with_field(fields, "items", make_object_schema(args, &required));
    let fields = with_field(fields, "maxItems", Json::UInt(8));
    let fields = with_field(fields, "minItems", Json::UInt(1));
    let fields = with_field(fields, "type", json_str("array"));
    let r = Json::Object(fields);
    assert(r@->Object_0 =~= tasks_schema()->Object_0);
    r
}

impl ToolPlugin for WorkflowTool {
    open spec fn described(&self) -> ToolDefinitionV {
        ToolDefinitionV {
            name: "workflow"@,
            description:
                "Run a parallel multi-agent orchestration. Submit a declarative task list; each task runs as an independent subagent. Use for large-scale fan-out (batch inspection, parallel diagnostics, multi-device audit). For one or two delegations, prefer the subagent tool."@,
            parameters: object_schema(
                workflow_args(),
                seq!["name"@, "description"@, "tasks"@],
            ),
            timeout_ms: 300000,
            guidance:
                "Use the workflow tool ONLY when the user explicitly asks for a workflow or large multi-agent orchestration. Submit a JSON task list with name, description, and tasks array. Each task has label, phase, and prompt. Tasks in the same phase run in parallel; results are grouped by phase."@,
        }
    }

    fn definition(&self) -> (r: ToolDefinition) {
        let props: Vec<(String, Json)> = Vec::new();
        let props = with_field(
            props,
            "name",
            make_text_arg("Short name for this workflow run (e.g. 'batch-health-check')"),
        );
        let props = with_field(
            props,
            "description",
            make_text_arg("One-line description of what the workflow does"),
        );
        let props = with_field(props, "tasks", make_tasks_schema());
        assert(field_models(props@) =~= workflow_args());
        let mut required: Vec<String> = Vec::new();
        required.push("name".to_owned());
        required.push("description".to_owned());
        required.push("tasks".to_owned());
        assert(texts(required@) =~= seq!["name"@, "description"@, "tasks"@]);
        ToolDefinition {
            name: "workflow".to_owned(),
            description:
                "Run a parallel multi-agent orchestration. Submit a declarative task list; each task runs as an independent subagent. Use for large-scale fan-out (batch inspection, parallel diagnostics, multi-device audit). For one or two delegations, prefer the subagent tool.".to_owned(),
            parameters: make_object_schema(props, &required),
            timeout_ms: 300000,
            guidance:
                "Use the workflow tool ONLY when the user explicitly asks for a workflow or large multi-agent orchestration. Submit a JSON task list with name, description, and tasks array. Each task has label, phase, and prompt. Tasks in the same phase run in parallel; results are grouped by phase.".to_owned(),
        }
    }
}

/// The skill of a child that is given none.
pub open spec fn default_plan() -> SkillV {
    plan_skill(
        "workflow-default"@,
        "Default plan skill for workflow children"@,
        "You are a focused workflow task agent. Complete the given task autonomously. Use available tools as needed. Provide a clear final answer."@,
    )
}

/// The skill of a child that is given none.
pub fn default_plan_skill() -> (r: Skill)
    ensures
        r@ == default_plan(),
{
    make_plan_skill(
        "workflow-default",
        "Default plan skill for workflow children",
        "You are a focused workflow task agent. Complete the given task autonomously. Use available tools as needed. Provide a clear final answer.",
    )
}

/// The task that an item of the list describes; none where a part of it is missing or nothing is
/// asked.
pub open spec fn task_of(item: JsonV) -> Option<TaskV> {
    match (item.text_field("label"@), item.text_field("phase"@), item.text_field("prompt"@)) {
        (Some(label), Some(phase), Some(prompt)) => if prompt.len() == 0 {
            None
        } else {
            Some(TaskV { label, phase, prompt, skill: item.text_field("skill"@) })
        },
        _ => None,
    }
}

/// The tasks that some items describe.
pub open spec fn tasks_of(items: Seq<JsonV>) -> Seq<TaskV>
    decreases items.len(),
{
    if items.len() == 0 {
        Seq::empty()
    } else {
        match task_of(items.last()) {
            Some(task) => tasks_of(items.drop_last()).push(task),
            None => tasks_of(items.drop_last()),
        }
    }
}

/// The task that an item of the list describes.
fn parse_task(item: &Json) -> (r: Option<WorkflowTask>)
    ensures
        opt_view(r) == task_of(item@),
{
    match (item.get_text("label"), item.get_text("phase"), item.get_text("prompt")) {
        (Some(label), Some(phase), Some(prompt)) => {
            if chars_of(prompt.as_str()).len() == 0 {
                return None;
            }
            let skill = match item.get_text("skill") {
                Some(s) => Some(s.clone()),
                None => None,
            };
            Some(
                WorkflowTask {
                    label: label.clone(),
                    phase: phase.clone(),
                    prompt: prompt.clone(),
                    skill,
                },
            )
        },
        _ => None,
    }
}

/// The tasks that some items describe.
fn parse_tasks(items: &Vec<Json>) -> (r: Vec<WorkflowTask>)
    ensures
        views(r@) == tasks_of(views(items@)),
{
    let ghost all = views(items@);
    let mut r: Vec<WorkflowTask> = Vec::new();
    let mut i: usize = 0;
    assert(all.take(0) =~= Seq::empty());
    assert(views(r@) =~= Seq::empty());
    while i < items.len()
        invariant
            i <= items@.len(),
            all == views(items@),
            views(r@) == tasks_of(all.take(i as int)),
        decreases items@.len() - i,
    {
        let ghost before = views(r@);
        assert(all.take(i + 1).drop_last() =~= all.take(i as int));
        assert(all[i as int] == items@[i as int]@);
        match parse_task(&items[i]) {
            Some(task) => {
                let ghost tv = task@;
                r.push(task);
                assert(views(r@) =~= before.push(tv));
            },
            None => {},
        }
        i += 1;
    }
    assert(all.take(i as int) =~= all);
    r
}

/// What a call asks for.
#[derive(Debug)]
pub struct WorkflowPlan {
    pub name: String,
    pub description: String,
    pub tasks: Vec<WorkflowTask>,
    /// How deep the children are.
    pub depth: u32,
}

/// What a [`WorkflowPlan`] stands for.
pub struct PlanV {
    pub name: Seq<char>,
    pub description: Seq<char>,
    pub tasks: Seq<TaskV>,
    pub depth: u32,
}

impl View for WorkflowPlan {
    type V = PlanV;

    open spec fn view(&self) -> PlanV {
        PlanV {
            name: self.name@,
            description: self.description@,
            tasks: views(self.tasks@),
            depth: self.depth,
        }
    }
}

/// What a call asks for, where the agent that calls is at `depth`, or what is wrong with the call.
pub open spec fn plan_asked(args: JsonV, depth: u32) -> Result<PlanV, ToolResultV> {
    let items = match args.items_field("tasks"@) {
        Some(items) => items,
        None => Seq::empty(),
    };
    if items.len() == 0 {
        Err(
            plain_result(
                "Error: `tasks` parameter is required and must be a non-empty array"@,
                true,
            ),
        )
    } else if items.len() > MAX_CONCURRENT {
        Err(
            plain_result(
                "Error: too many tasks ("@ + decimal(items.len()) + "). Maximum is 8."@,
                true,
            ),
        )
    } else if depth >= MAX_DEPTH {
        Err(plain_result("Error: workflow delegation depth limit (3) reached."@, true))
    } else if tasks_of(items).len() == 0 {
        Err(
            plain_result(
                "Error: no valid tasks found (each task needs label, phase, and non-empty prompt)"@,
                true,
            ),
        )
    } else {
        Ok(
            PlanV {
                name: text_or(args, "name"@, "unnamed"@),
                description: text_or(args, "description"@, ""@),
                tasks: tasks_of(items),
                depth: (depth + 1) as u32,
            },
        )
    }
}

/// The phases of some results, each once, in the order in which they first come.
pub open spec fn phases_of(results: Seq<TaskResultV>) -> Seq<Seq<char>>
    decreases results.len(),
{
    if results.len() == 0 {
        Seq::empty()
    } else {
        let before = phases_of(results.drop_last());
        if before.contains(results.last().phase) {
            before
        } else {
            before.push(results.last().phase)
        }
    }
}

/// What came of one task, as it is reported: a task that failed has an error in the place of a
/// result.
pub open spec fn member_text(r: TaskResultV) -> Seq<char> {
    "{\"label\":\""@ + escaped(r.label) + if r.completed {
        "\",\"status\":\"completed\",\"result\":\""@
    } else {
        "\",\"status\":\"failed\",\"error\":\""@
    } + escaped(r.result) + "\"}"@
}

/// The results of one phase, as they are reported.
pub open spec fn member_texts(results: Seq<TaskResultV>, phase: Seq<char>) -> Seq<Seq<char>>
    decreases results.len(),
{
    if results.len() == 0 {
        Seq::empty()
    } else {
        let before = member_texts(results.drop_last(), phase);
        if results.last().phase == phase {
            before.push(member_text(results.last()))
        } else {
            before
        }
    }
}

/// One phase, as it is reported.
pub open spec fn phase_text(results: Seq<TaskResultV>, phase: Seq<char>) -> Seq<char> {
    "\""@ + escaped(phase) + "\":["@ + join(member_texts(results, phase), ","@) + "]"@
}

/// The order of texts.
pub open spec fn text_order() -> spec_fn(Seq<char>, Seq<char>) -> bool {
    |a: Seq<char>, b: Seq<char>| text_le(a, b)
}

/// The phases in the order of their names, as they are reported.
pub open spec fn phase_texts(results: Seq<TaskResultV>) -> Seq<Seq<char>> {
    sorted_by(phases_of(results), text_order()).map_values(
        |phase: Seq<char>| phase_text(results, phase),
    )
}

/// How many tasks completed, or did not.
pub open spec fn tally(results: Seq<TaskResultV>, completed: bool) -> nat
    decreases results.len(),
{
    if results.len() == 0 {
        0
    } else {
        tally(results.drop_last(), completed) + if results.last().completed == completed {
            1nat
        } else {
            0nat
        }
    }
}

/// The name of a run.
pub open spec fn run_id(number: u64) -> Seq<char> {
    "wf-"@ + zero_padded(hex(number as nat), 4)
}

/// What the parent is told. It counts as an error where no task completed and one failed.
pub open spec fn workflow_report(
    number: u64,
    name: Seq<char>,
    description: Seq<char>,
    results: Seq<TaskResultV>,
) -> ToolResultV {
    plain_result(
        "{\"runId\":\""@ + escaped(run_id(number)) + "\",\"name\":\""@ + escaped(name)
            + "\",\"description\":\""@ + escaped(description) + "\",\"agentsStarted\":"@ + decimal(
            results.len(),
        ) + ",\"completed\":"@ + decimal(tally(results, true)) + ",\"failed\":"@ + decimal(
            tally(results, false),
        ) + ",\"phases\":{"@ + join(phase_texts(results), ","@) + "}}"@,
        tally(results, false) > 0 && tally(results, true) == 0,
    )
}

/// What came of one task, as it is reported.
fn make_member_text(r: &TaskResult) -> (t: String)
    ensures
        t@ == member_text(r@),
{
    let mut t = "{\"label\":\"".to_owned();
    t.push_str(escape_json(r.label.as_str()).as_str());
    if r.completed {
        t.push_str("\",\"status\":\"completed\",\"result\":\"");
    } else {
        t.push_str("\",\"status\":\"failed\",\"error\":\"");
    }
    t.push_str(escape_json(r.result.as_str()).as_str());
    t.push_str("\"}");
    t
}

/// One phase, as it is reported.
fn make_phase_text(results: &Vec<TaskResult>, phase: &str) -> (t: String)
    ensures
        t@ == phase_text(views(results@), phase@),
{
    let ghost all = views(results@);
    let mut members: Vec<String> = Vec::new();
    let mut i: usize = 0;
    assert(all.take(0) =~= Seq::empty());
    assert(texts(members@) =~= Seq::empty());
    while i < results.len()
        invariant
            i <= results@.len(),
            all == views(results@),
            texts(members@) == member_texts(all.take(i as int), phase@),
        decreases results@.len() - i,
    {
        let ghost before = texts(members@);
        assert(all.take(i + 1).drop_last() =~= all.take(i as int));
        assert(all[i as int] == results@[i as int]@);
        if same(results[i].phase.as_str(), phase) {
            let m = make_member_text(&results[i]);
            let ghost mv = m@;
            members.push(m);
            assert(texts(members@) =~= before.push(mv));
        }
        i += 1;
    }
    assert(all.take(i as int) =~= all);
    let mut t = "\"".to_owned();
    t.push_str(escape_json(phase).as_str());
    t.push_str("\":[");
    t.push_str(join_texts(&members, ",").as_str());
    t.push_str("]");
    t
}

/// The phases of some results, each once.
fn list_phases(results: &Vec<TaskResult>) -> (r: Vec<String>)
    ensures
        texts(r@) == phases_of(views(results@)),
{
    let ghost all = views(results@);
    let mut r: Vec<String> = Vec::new();
    let mut i: usize = 0;
    assert(all.take(0) =~= Seq::empty());
    assert(texts(r@) =~= Seq::empty());
    while i < results.len()
        invariant
            i <= results@.len(),
            all == views(results@),
            texts(r@) == phases_of(all.take(i as int)),
        decreases results@.len() - i,
    {
        let ghost before = texts(r@);
        assert(all.take(i + 1).drop_last() =~= all.take(i as int));
        assert(all[i as int] == results@[i as int]@);
        if !listed(&r, results[i].phase.as_str()) {
            r.push(results[i].phase.clone());
            assert(texts(r@) =~= before.push(all[i as int].phase));
        }
        i += 1;
    }
    assert(all.take(i as int) =~= all);
    r
}

/// How many tasks completed, or did not.
fn count_tasks(results: &Vec<TaskResult>, completed: bool) -> (r: usize)
    ensures
        r == tally(views(results@), completed),
        r <= results@.len(),
{
    let ghost all = views(results@);
    let mut n: usize = 0;
    let mut i: usize = 0;
    assert(all.take(0) =~= Seq::empty());
    while i < results.len()
        invariant
            i <= results@.len(),
            all == views(results@),
            n <= i,
            n == tally(all.take(i as int), completed),
        decreases results@.len() - i,
    {
        assert(all.take(i + 1).drop_last() =~= all.take(i as int));
        assert(all[i as int] == results@[i as int]@);
        if results[i].completed == completed {
            n += 1;
        }
        i += 1;
    }
    assert(all.take(i as int) =~= all);
    n
}

impl WorkflowTool {
    /// The tool, with no tools for children yet.
    pub fn new(
        llm: LlmClient,
        model_config: ModelConfig,
        compaction_threshold: Float32,
        keep_recent_turns: usize,
        skills_dir: String,
    ) -> (r: WorkflowTool)
        ensures
            r.kit.llm == llm,
            r.kit.model_config == model_config,
            r.kit.compaction_threshold == compaction_threshold,
            r.kit.keep_recent_turns == keep_recent_turns,
            r.kit.skills_dir == skills_dir,
            views(r.kit.shared@) == Seq::<ToolDefinitionV>::empty(),
    {
        WorkflowTool {
            kit: ChildKit::new(
                llm,
                model_config,
                compaction_threshold,
                keep_recent_turns,
                skills_dir,
            ),
        }
    }

    /// Shares a tool with children, unless there is one of its name already.
    pub fn share_tool(&mut self, tool: ToolDefinition)
        ensures
            views(final(self).kit.shared@) == shared_with(views(old(self).kit.shared@), tool@),
            final(self).kit.llm == old(self).kit.llm,
            final(self).kit.model_config == old(self).kit.model_config,
            final(self).kit.compaction_threshold == old(self).kit.compaction_threshold,
            final(self).kit.keep_recent_turns == old(self).kit.keep_recent_turns,
            final(self).kit.skills_dir == old(self).kit.skills_dir,
    {
        self.kit.share_tool(tool);
    }

    /// What a call asks for, where the agent that calls is at `depth`, or what is wrong with the
    /// call.
    pub fn prepare(&self, args: &Json, depth: u32) -> (r: Result<WorkflowPlan, ToolResult>)
        ensures
            match r {
                Ok(p) => plan_asked(args@, depth) == Ok::<PlanV, ToolResultV>(p@),
                Err(e) => plan_asked(args@, depth) == Err::<PlanV, ToolResultV>(e@),
            },
    {
        let name = get_text_or(args, "name", "unnamed");
        let description = get_text_or(args, "description", "");
        let missing = "Error: `tasks` parameter is required and must be a non-empty array";
        let items = match args.get_items("tasks") {
            Some(items) => items,
            None => {
                return Err(ToolResult::plain(missing.to_owned(), true));
            },
        };
        proof {
            lemma_models(items@);
        }
        if items.len() == 0 {
            return Err(ToolResult::plain(missing.to_owned(), true));
        }
        if items.len() > MAX_CONCURRENT {
            let mut m = "Error: too many tasks (".to_owned();
            m.push_str(decimal_text(items.len() as u64).as_str());
            m.push_str("). Maximum is 8.");
            return Err(ToolResult::plain(m, true));
        }
        if depth >= MAX_DEPTH {
            return Err(
                ToolResult::plain(
                    "Error: workflow delegation depth limit (3) reached.".to_owned(),
                    true,
                ),
            );
        }
        let tasks = parse_tasks(items);
        assert(tasks@.len() == views(tasks@).len());
        if tasks.len() == 0 {
            return Err(
                ToolResult::plain(
                    "Error: no valid tasks found (each task needs label, phase, and non-empty prompt)".to_owned(),
                    true,
                ),
            );
        }
        Ok(WorkflowPlan { name, description, tasks, depth: depth + 1 })
    }

    /// What the parent is told. `number` is the number of the run.
    pub fn report(
        &self,
        number: u64,
        name: &str,
        description: &str,
        results: &Vec<TaskResult>,
    ) -> (r: ToolResult)
        ensures
            r@ == workflow_report(number, name@, description@, views(results@)),
    {
        let ghost all = views(results@);
        let phases = sort_texts(list_phases(results));
        let ghost order = sorted_by(phases_of(all), text_order());
        assert(texts(phases@) == order);
        let ghost want = phase_texts(all);
        let mut parts: Vec<String> = Vec::new();
        let mut i: usize = 0;
        assert(texts(parts@) =~= want.take(0));
        while i < phases.len()
            invariant
                i <= phases@.len(),
                all == views(results@),
                order == sorted_by(phases_of(all), text_order()),
                texts(phases@) == order,
                want == phase_texts(all),
                texts(parts@) == want.take(i as int),
            decreases phases@.len() - i,
        {
            let ghost before = texts(parts@);
            let t = make_phase_text(results, phases[i].as_str());
            assert(order[i as int] == phases@[i as int]@);
            assert(t@ == want[i as int]);
            parts.push(t);
            assert(texts(parts@) =~= before.push(want[i as int]));
            assert(want.take(i + 1) =~= want.take(i as int).push(want[i as int]));
            i += 1;
        }
        assert(want.take(i as int) =~= want);
        let completed: usize = count_tasks(results, true);
        let failed: usize = count_tasks(results, false);
        let mut id = "wf-".to_owned();
        id.push_str(hex4_text(number).as_str());
        let mut m = "{\"runId\":\"".to_owned();
        m.push_str(escape_json(id.as_str()).as_str());
        m.push_str("\",\"name\":\"");
        m.push_str(escape_json(name).as_str());
        m.push_str("\",\"description\":\"");
        m.push_str(escape_json(description).as_str());
        m.push_str("\",\"agentsStarted\":");
        m.push_str(decimal_text(results.len() as u64).as_str());
        m.push_str(",\"completed\":");
        m.push_str(decimal_text(completed as u64).as_str());
        m.push_str(",\"failed\":");
        m.push_str(decimal_text(failed as u64).as_str());
        m.push_str(",\"phases\":{");
        m.push_str(join_texts(&parts, ",").as_str());
        m.push_str("}}");
        ToolResult::plain(m, failed > 0 && completed == 0)
    }
}

/// A call never starts more children than may run, never goes deeper than the limit, and starts at
/// least one.
pub proof fn law_runs_are_bounded(args: JsonV, depth: u32)
    ensures
        match plan_asked(args, depth) {
            Ok(p) => {
                &&& 1 <= p.tasks.len() <= MAX_CONCURRENT
                &&& p.depth == depth + 1
                &&& p.depth <= MAX_DEPTH
            },
            Err(e) => e.is_error,
        },
{
    match args.items_field("tasks"@) {
        Some(items) => {
            lemma_tasks_len(items);
        },
        None => {},
    }
}

proof fn lemma_tasks_len(items: Seq<JsonV>)
    ensures
        tasks_of(items).len() <= items.len(),
    decreases items.len(),
{
    if items.len() > 0 {
        lemma_tasks_len(items.drop_last());
    }
}

/// Every task is counted once: those that completed and those that failed make up all of them.
pub proof fn law_tallies_add_up(results: Seq<TaskResultV>)
    ensures
        tally(results, true) + tally(results, false) == results.len(),
    decreases results.len(),
{
    if results.len() > 0 {
        law_tallies_add_up(results.drop_last());
    }
}

/// The phase of every result is reported.
pub proof fn law_every_phase_is_reported(results: Seq<TaskResultV>, i: int)
    requires
        0 <= i < results.len(),
    ensures
        phases_of(results).contains(results[i].phase),
    decreases results.len(),
{
    let before = phases_of(results.drop_last());
    if i < results.len() - 1 {
        law_every_phase_is_reported(results.drop_last(), i);
        let k = choose|k: int| 0 <= k < before.len() && before[k] == results[i].phase;
        assert(phases_of(results)[k] == results[i].phase);
    } else if !before.contains(results.last().phase) {
        assert(phases_of(results)[before.len() as int] == results[i].phase);
    }
}

/// A task is taken as it is written, where it has a label, a phase and something to do; anything
/// else is none.
pub proof fn law_tasks_are_what_is_written(item: JsonV)
    ensures
        task_of(item) is Some <==> item.text_field("label"@) is Some && item.text_field("phase"@)
            is Some && item.text_field("prompt"@) is Some && item.text_field("prompt"@)->0.len()
            > 0,
        task_of(item) is Some ==> {
            let t = task_of(item)->0;
            &&& item.text_field("label"@) == Some(t.label)
            &&& item.text_field("phase"@) == Some(t.phase)
            &&& item.text_field("prompt"@) == Some(t.prompt)
            &&& item.text_field("skill"@) == t.skill
        },
{
}

/// The tasks of a list keep their order, and only what is no task is left out.
pub proof fn law_tasks_keep_their_order(a: Seq<JsonV>, b: Seq<JsonV>, item: JsonV)
    ensures
        tasks_of(a + b) == tasks_of(a) + tasks_of(b),
        task_of(item) is Some ==> tasks_of(seq![item]) == seq![task_of(item)->0],
        task_of(item) is None ==> tasks_of(seq![item]).len() == 0,
    decreases b.len(),
{
    assert(seq![item].drop_last() =~= Seq::empty());
    assert(tasks_of(Seq::<JsonV>::empty()) =~= Seq::empty());
    if task_of(item) is Some {
        assert(tasks_of(seq![item]) =~= seq![task_of(item)->0]);
    }
    if b.len() == 0 {
        assert(a + b =~= a);
        assert(tasks_of(a) + tasks_of(b) =~= tasks_of(a));
    } else {
        assert((a + b).drop_last() =~= a + b.drop_last());
        law_tasks_keep_their_order(a, b.drop_last(), item);
        assert(tasks_of(a + b) =~= tasks_of(a) + tasks_of(b));
    }
}

/// A run has the tasks that were asked for, one level deeper. It is refused without tasks, with more
/// than eight, three levels down, and where none of its tasks has all that a task needs.
pub proof fn law_runs_have_the_tasks_asked_for(args: JsonV, depth: u32)
    ensures
        plan_asked(args, depth) is Ok <==> {
            &&& args.items_field("tasks"@) is Some
            &&& 0 < args.items_field("tasks"@)->0.len() <= 8
            &&& depth < 3
            &&& tasks_of(args.items_field("tasks"@)->0).len() > 0
        },
        plan_asked(args, depth) is Ok ==> {
            let p = plan_asked(args, depth)->Ok_0;
            &&& p.tasks == tasks_of(args.items_field("tasks"@)->0)
            &&& p.depth == depth + 1
            &&& args.text_field("name"@) is Some ==> args.text_field("name"@) == Some(p.name)
            &&& args.text_field("name"@) is None ==> p.name == "unnamed"@
            &&& args.text_field("description"@) is Some ==> args.text_field("description"@) == Some(
                p.description,
            )
            &&& args.text_field("description"@) is None ==> p.description == ""@
        },
        plan_asked(args, depth) is Err ==> plan_asked(args, depth)->Err_0.is_error,
{
}

/// A task that ended gives what it said, one that could not run gives the failure; each keeps its
/// label and its phase.
pub proof fn law_tasks_give_what_they_said(label: Seq<char>, phase: Seq<char>, run: TaskRun)
    ensures
        task_result(label, phase, run).label == label,
        task_result(label, phase, run).phase == phase,
        task_result(label, phase, run).completed <==> run is Ended,
        run is Ended && run->output@.len() > 0 ==> task_result(label, phase, run).result
            == run->output@,
        run is Ended && run->output@.len() == 0 ==> task_result(label, phase, run).result
            == "Task completed (no text output). Turn end: "@ + reason_name(run->reason),
        run is Failed ==> task_result(label, phase, run).result == run->Failed_0@,
{
}

/// A result stands in the report under its phase and no other, after those before it, with its
/// label, how it ended and what it gave.
pub proof fn law_results_stand_under_their_phase(
    results: Seq<TaskResultV>,
    r: TaskResultV,
    phase: Seq<char>,
)
    ensures
        member_texts(Seq::empty(), phase).len() == 0,
        r.phase == phase ==> member_texts(results.push(r), phase) == member_texts(
            results,
            phase,
        ).push(
            "{\"label\":\""@ + escaped(r.label) + if r.completed {
                "\",\"status\":\"completed\",\"result\":\""@
            } else {
                "\",\"status\":\"failed\",\"error\":\""@
            } + escaped(r.result) + "\"}"@,
        ),
        r.phase != phase ==> member_texts(results.push(r), phase) == member_texts(results, phase),
        phase_text(results, phase) == "\""@ + escaped(phase) + "\":["@ + join(
            member_texts(results, phase),
            ","@,
        ) + "]"@,
        tally(results.push(r), true) == tally(results, true) + if r.completed {
            1nat
        } else {
            0nat
        },
        tally(results.push(r), false) == tally(results, false) + if r.completed {
            0nat
        } else {
            1nat
        },
        tally(Seq::empty(), true) == 0 && tally(Seq::empty(), false) == 0,
{
    assert(results.push(r).drop_last() =~= results);
}

/// Every phase is listed once, in the order in which it first came.
pub proof fn law_phases_are_listed_once(results: Seq<TaskResultV>, r: TaskResultV)
    ensures
        phases_of(Seq::empty()).len() == 0,
        phases_of(results).contains(r.phase) ==> phases_of(results.push(r)) == phases_of(results),
        !phases_of(results).contains(r.phase) ==> phases_of(results.push(r)) == phases_of(
            results,
        ).push(r.phase),
{
    assert(results.push(r).drop_last() =~= results);
}

/// A report tells the run, how many tasks there were and how each phase went; it is a failure exactly
/// where tasks failed and none was completed.
pub proof fn law_reports_tell_the_run(
    number: u64,
    name: Seq<char>,
    description: Seq<char>,
    results: Seq<TaskResultV>,
)
    ensures
        ({
            let r = workflow_report(number, name, description, results);
            &&& r.is_error <==> results.len() > 0 && tally(results, true) == 0
            &&& r.images.len() == 0
            &&& r.content == "{\"runId\":\""@ + escaped(run_id(number)) + "\",\"name\":\""@
                + escaped(name) + "\",\"description\":\""@ + escaped(description)
                + "\",\"agentsStarted\":"@ + decimal(results.len()) + ",\"completed\":"@ + decimal(
                tally(results, true),
            ) + ",\"failed\":"@ + decimal(tally(results, false)) + ",\"phases\":{"@ + join(
                phase_texts(results),
                ","@,
            ) + "}}"@
        }),
        phase_texts(results).len() == phases_of(results).len(),
        "wf-"@.is_prefix_of(run_id(number)),
        run_id(number).len() >= 7,
{
    law_tallies_add_up(results);
    law_text_order();
    law_sorting_orders(phases_of(results), text_order());
    reveal_strlit("wf-");
    law_padding_adds_zeros(hex(number as nat), 4);
    assert(run_id(number).take(3) =~= "wf-"@);
}

} // verus!
