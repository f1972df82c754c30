//! The tool that writes new skill files from templates.
use crate::json::{field_models, lemma_models, with_field, Json, JsonV};
use crate::skill::parts_of;
use crate::text::{
    chars_of, contains, contains_text, decimal, decimal_text, find, is_digit, is_space, join,
    join_texts, law_strip_start, law_trim, lemma_find_from, lines, lines_of, occurs_at, replace,
    replace_text, same, strip_start, strip_start_text, texts, trim, trim_text, upper_text,
    uppercase, CharClass,
};
use crate::tools::file::{get_text_or, text_or};
use crate::tools::schema::{
    choice_arg, list_arg, make_choice_arg, make_list_arg, make_object_schema, make_text_arg,
    object_schema, text_arg,
};
use crate::tools::ToolPlugin;
use crate::types::{plain_result, ToolDefinition, ToolDefinitionV, ToolResult, ToolResultV};
use crate::views::views;
use vstd::prelude::*;

verus! {

/// The tool that writes new skill files.
pub struct SkillCreatorTool {
    /// Where skill files are.
    pub skills_dir: String,
}

/// The arguments of the tool.
pub open spec fn creator_args() -> Seq<(Seq<char>, JsonV)> {
    seq![
        (
            "name"@,
            text_arg(
                "Skill name in kebab-case (e.g. 'interface-health-check'). Will be used as the filename."@,
            ),
        ),
        ("description"@, text_arg("One-line description of what the skill does"@)),
        (
            "mode"@,
            choice_arg(
                "Execution mode: workflow=deterministic steps, todo=LLM with step guidance, plan=autonomous LLM exploration"@,
                seq!["workflow"@, "todo"@, "plan"@],
            ),
        ),
        ("when_to_use"@, text_arg("When this skill should be activated (optional)"@)),
        (
            "tools"@,
            list_arg(
                "List of allowed tool names (e.g. [\"shell\", \"file_read\"]). If omitted, all tools are allowed."@,
            ),
        ),
        (
            "steps_intent"@,
            text_arg(
                "For workflow/todo modes: describe the steps in natural language. The tool will generate appropriate step definitions. For plan mode, this is ignored."@,
            ),
        ),
        (
            "body"@,
            text_arg(
                "Optional custom body text for the skill. If omitted, a template body is generated based on the mode."@,
            ),
        ),
    ]
}

impl ToolPlugin for SkillCreatorTool {
    open spec fn described(&self) -> ToolDefinitionV {
        ToolDefinitionV {
            name: "skill_creator"@,
            description:
                "Generate a new skill file. Creates a well-structured .md skill file with correct frontmatter and body template based on the requested mode. Use this to create reusable SOPs, diagnostic procedures, or workflow definitions."@,
            parameters: object_schema(creator_args(), seq!["name"@, "description"@, "mode"@]),
            timeout_ms: 10000,
            guidance: ""@,
        }
    }

    fn definition(&self) -> (r: ToolDefinition) {
        let mut modes: Vec<String> = Vec::new();
        modes.push("workflow".to_owned());
        modes.push("todo".to_owned());
        modes.push("plan".to_owned());
        assert(texts(modes@) =~= seq!["workflow"@, "todo"@, "plan"@]);
        let props: Vec<(String, Json)> = Vec::new();
        let props = with_field(
            props,
            "name",
            make_text_arg(
                "Skill name in kebab-case (e.g. 'interface-health-check'). Will be used as the filename.",
            ),
        );
        let props = with_field(
            props,
            "description",
            make_text_arg("One-line description of what the skill does"),
        );
        let props = with_field(
            props,
            "mode",
            make_choice_arg(
                "Execution mode: workflow=deterministic steps, todo=LLM with step guidance, plan=autonomous LLM exploration",
                &modes,
            ),
        );
        let props = with_field(
            props,
            "when_to_use",
            make_text_arg("When this skill should be activated (optional)"),
        );
        let props = with_field(
            props,
            "tools",
            make_list_arg(
                "List of allowed tool names (e.g. [\"shell\", \"file_read\"]). If omitted, all tools are allowed.",
            ),
        );
        let props = with_field(
            props,
            "steps_intent",
            make_text_arg(
                "For workflow/todo modes: describe the steps in natural language. The tool will generate appropriate step definitions. For plan mode, this is ignored.",
            ),
        );
        let props = with_field(
            props,
            "body",
            make_text_arg(
                "Optional custom body text for the skill. If omitted, a template body is generated based on the mode.",
            ),
        );
        assert(field_models(props@) =~= creator_args());
        let mut required: Vec<String> = Vec::new();
        required.push("name".to_owned());
        required.push("description".to_owned());
        required.push("mode".to_owned());
        assert(texts(required@) =~= seq!["name"@, "description"@, "mode"@]);
        ToolDefinition {
            name: "skill_creator".to_owned(),
            description:
                "Generate a new skill file. Creates a well-structured .md skill file with correct frontmatter and body template based on the requested mode. Use this to create reusable SOPs, diagnostic procedures, or workflow definitions.".to_owned(),
            parameters: make_object_schema(props, &required),
            timeout_ms: 10000,
            guidance: "".to_owned(),
        }
    }
}

/// Whether a character can stand in a kebab-case name.
pub open spec fn kebab_char(c: char) -> bool {
    'a' <= c <= 'z' || is_digit(c) || c == '-'
}

/// Whether a name is kebab-case: small letters, digits and single hyphens inside.
pub open spec fn kebab(s: Seq<char>) -> bool {
    &&& s.len() > 0
    &&& forall|i: int| 0 <= i < s.len() ==> kebab_char(#[trigger] s[i])
    &&& s[0] != '-'
    &&& s.last() != '-'
    &&& !contains(s, "--"@)
}

/// Whether a name is kebab-case.
pub fn is_kebab_case(s: &str) -> (r: bool)
    ensures
        r == kebab(s@),
{
    let v = chars_of(s);
    if v.len() == 0 {
        return false;
    }
    let mut i: usize = 0;
    while i < v.len()
        invariant
            i <= v@.len(),
            v@ == s@,
            forall|j: int| 0 <= j < i ==> kebab_char(#[trigger] v@[j]),
        decreases v@.len() - i,
    {
        let c = v[i];
        if !(('a' <= c && c <= 'z') || ('0' <= c && c <= '9') || c == '-') {
            assert(!kebab_char(s@[i as int]));
            return false;
        }
        i += 1;
    }
    v[0] != '-' && v[v.len() - 1] != '-' && !contains_text(s, "--")
}

/// The line that says when a skill is to be used.
pub open spec fn when_line(when_to_use: Option<Seq<char>>) -> Seq<char> {
    match when_to_use {
        Some(w) => "whenToUse: "@ + w + "\n"@,
        None => ""@,
    }
}

/// The line that says which tools a skill may use.
pub open spec fn tools_line(tools: Seq<Seq<char>>, default: Seq<char>) -> Seq<char> {
    if tools.len() == 0 {
        default
    } else {
        "  allow: ["@ + join(tools, ", "@) + "]"@
    }
}

/// The head of a skill file.
pub open spec fn head_text(
    name: Seq<char>,
    description: Seq<char>,
    when_to_use: Option<Seq<char>>,
    rest: Seq<char>,
) -> Seq<char> {
    "name: "@ + name + "\ndescription: "@ + description + "\n"@ + when_line(when_to_use) + rest
}

/// A skill file.
pub open spec fn file_text(head: Seq<char>, body: Seq<char>) -> Seq<char> {
    "---\n"@ + head + "\n---\n\n"@ + body + "\n"@
}

/// The title that a name makes, before it is put in capitals.
pub open spec fn spaced(name: Seq<char>) -> Seq<char> {
    replace(name, "-"@, " "@)
}

/// The steps of a workflow of which nothing is known.
pub open spec fn sample_steps() -> Seq<char> {
    "  - id: step_1\n"@ + "    tool: shell\n"@ + "    args:\n"@
        + "      command: \"echo 'Replace with actual command'\"\n"@ + "  - id: step_2\n"@
        + "    tool: shell\n"@ + "    args:\n"@
        + "      command: \"echo 'Replace with actual command'\"\n"@ + "  - id: summarize\n"@
        + "    llm_judge: \"Summarize the results and flag any issues.\"\n"@
        + "    input: \"{{steps.step_1.result}}\\n{{steps.step_2.result}}\""@
}

/// The instructions of a workflow.
pub open spec fn workflow_body(title: Seq<char>) -> Seq<char> {
    "# "@ + title + "\n\n"@
        + "This skill runs a deterministic workflow. Each step executes a fixed command (0 LLM calls), with an optional LLM judge step at the end to summarize results.\n\n"@
        + "## Steps\n\n"@
        + "The steps are defined in the frontmatter above. Tool steps run deterministically; llm_judge steps make a single LLM call with an independent context (no conversation history).\n\n"@
        + "## Customization\n\n"@
        + "Edit the steps in the frontmatter to match your SOP. Use {{steps.step_id.result}} to reference previous step outputs."@
}

/// The steps that the instructions of a todo list suggest.
pub open spec fn suggested(steps_intent: Seq<char>) -> Seq<char> {
    if steps_intent.len() == 0 {
        "## Suggested steps\n\n1. First step description\n2. Second step description\n3. Final step description\n"@
    } else {
        "## Suggested steps\n\n"@ + steps_intent + "\n"@
    }
}

/// The instructions of a todo list.
pub open spec fn todo_body(title: Seq<char>, steps_intent: Seq<char>) -> Seq<char> {
    "# "@ + title + "\n\n"@
        + "This skill provides step-by-step guidance. The LLM executes each step with awareness of which step it is on, receiving guidance injection before each step.\n\n"@
        + suggested(steps_intent) + "## Notes\n\n"@
        + "The LLM will follow the suggested steps but can adapt based on tool results. Each step result is recorded and the LLM is guided to the next step."@
}

/// The instructions of a plan.
pub open spec fn plan_body(title: Seq<char>) -> Seq<char> {
    "# "@ + title + "\n\n"@
        + "You are an autonomous diagnostic agent. Explore the problem freely using available tools, form hypotheses, and verify them.\n\n"@
        + "## Approach\n\n"@ + "1. **Gather information** — use tools to inspect device state\n"@
        + "2. **Form hypotheses** — reason about possible causes\n"@
        + "3. **Verify** — run targeted checks to confirm or rule out\n"@
        + "4. **Report** — provide findings with evidence\n\n"@ + "## Rules\n\n"@
        + "- Always inspect actual device state before drawing conclusions\n"@
        + "- Report exact values from command output\n"@
        + "- Prefer targeted fixes over broad changes\n"@
        + "- Record findings to long-term memory for future reference"@
}

/// What a line of an intent says: without what opens a line of a list.
pub open spec fn intent_of(line: Seq<char>) -> Seq<char> {
    strip_start(trim(line), CharClass::ListMark)
}

/// What the lines of an intent say; lines that say nothing are left out.
pub open spec fn intents(lines: Seq<Seq<char>>) -> Seq<Seq<char>>
    decreases lines.len(),
{
    if lines.len() == 0 {
        Seq::empty()
    } else if intent_of(lines.last()).len() == 0 {
        intents(lines.drop_last())
    } else {
        intents(lines.drop_last()).push(intent_of(lines.last()))
    }
}

/// The step for one line of an intent.
pub open spec fn intent_step(number: nat, intent: Seq<char>) -> Seq<char> {
    "  - id: step_"@ + decimal(number) + "\n    tool: shell\n    args:\n      command: \"# TODO: "@
        + intent + "\"\n"@
}

/// The steps for the lines of an intent, numbered from one.
pub open spec fn intent_steps(all: Seq<Seq<char>>) -> Seq<char>
    decreases all.len(),
{
    if all.len() == 0 {
        Seq::empty()
    } else {
        intent_steps(all.drop_last()) + intent_step(all.len(), all.last())
    }
}

/// The steps of a workflow for an intent, and a summary at their end.
pub open spec fn steps_from_intent(intent: Seq<char>) -> Seq<char> {
    let all = intents(lines(intent));
    (if all.len() == 0 {
        "  - id: step_1\n    tool: shell\n    args:\n      command: \"echo 'TODO: replace with actual command'\"\n"@
    } else {
        intent_steps(all)
    })
        + "  - id: summarize\n    llm_judge: \"Summarize the results and report any issues found.\"\n    input: \"{{steps.step_1.result}}\""@
}

/// A body of one's own, or the template.
pub open spec fn body_or(custom: Option<Seq<char>>, template: Seq<char>) -> Seq<char> {
    match custom {
        Some(b) => b,
        None => template,
    }
}

/// The head of a workflow.
pub open spec fn workflow_head(
    name: Seq<char>,
    description: Seq<char>,
    when_to_use: Option<Seq<char>>,
    tools: Seq<Seq<char>>,
    steps_intent: Seq<char>,
) -> Seq<char> {
    head_text(
        name,
        description,
        when_to_use,
        "mode: workflow\nthink: false\ntools:\n"@ + tools_line(
            tools,
            "  allow: [shell, file_read, file_search]"@,
        ) + "\nsteps:\n"@ + if steps_intent.len() == 0 {
            sample_steps()
        } else {
            steps_from_intent(steps_intent)
        },
    )
}

/// The head of a todo list.
pub open spec fn todo_head(
    name: Seq<char>,
    description: Seq<char>,
    when_to_use: Option<Seq<char>>,
    tools: Seq<Seq<char>>,
) -> Seq<char> {
    head_text(
        name,
        description,
        when_to_use,
        "mode: todo\nthink: false\ntools:\n"@ + tools_line(
            tools,
            "  allow: [shell, file_read, file_write, memory_read, memory_write]"@,
        ),
    )
}

/// The head of a plan.
pub open spec fn plan_head(
    name: Seq<char>,
    description: Seq<char>,
    when_to_use: Option<Seq<char>>,
    tools: Seq<Seq<char>>,
) -> Seq<char> {
    head_text(
        name,
        description,
        when_to_use,
        "mode: plan\nthink: true\ntools:\n"@ + tools_line(
            tools,
            "  allow: [shell, file_read, file_write, file_search, memory_read, memory_write]"@,
        ),
    )
}

/// The file of a workflow.
pub open spec fn workflow_file(
    name: Seq<char>,
    description: Seq<char>,
    when_to_use: Option<Seq<char>>,
    tools: Seq<Seq<char>>,
    steps_intent: Seq<char>,
    custom_body: Option<Seq<char>>,
) -> Seq<char> {
    file_text(
        workflow_head(name, description, when_to_use, tools, steps_intent),
        body_or(custom_body, workflow_body(uppercase(spaced(name)))),
    )
}

/// The file of a todo list.
pub open spec fn todo_file(
    name: Seq<char>,
    description: Seq<char>,
    when_to_use: Option<Seq<char>>,
    tools: Seq<Seq<char>>,
    steps_intent: Seq<char>,
    custom_body: Option<Seq<char>>,
) -> Seq<char> {
    file_text(
        todo_head(name, description, when_to_use, tools),
        body_or(custom_body, todo_body(uppercase(spaced(name)), steps_intent)),
    )
}

/// The file of a plan.
pub open spec fn plan_file(
    name: Seq<char>,
    description: Seq<char>,
    when_to_use: Option<Seq<char>>,
    tools: Seq<Seq<char>>,
    custom_body: Option<Seq<char>>,
) -> Seq<char> {
    file_text(
        plan_head(name, description, when_to_use, tools),
        body_or(custom_body, plan_body(uppercase(spaced(name)))),
    )
}

/// What an optional text stands for.
pub open spec fn opt_str(o: Option<&str>) -> Option<Seq<char>> {
    match o {
        Some(s) => Some(s@),
        None => None,
    }
}

/// The line that says which tools a skill may use.
fn make_tools_line(tools: &Vec<String>, default: &str) -> (r: String)
    ensures
        r@ == tools_line(texts(tools@), default@),
{
    if tools.len() == 0 {
        return default.to_owned();
    }
    let mut r = "  allow: [".to_owned();
    r.push_str(join_texts(tools, ", ").as_str());
    r.push_str("]");
    r
}

/// A skill file with this head and these instructions.
fn make_file(
    name: &str,
    description: &str,
    when_to_use: Option<&str>,
    rest: &str,
    body: &str,
) -> (r: String)
    ensures
        r@ == file_text(head_text(name@, description@, opt_str(when_to_use), rest@), body@),
{
    let mut head = "name: ".to_owned();
    head.push_str(name);
    head.push_str("\ndescription: ");
    head.push_str(description);
    head.push_str("\n");
    let ghost before = head@;
    match when_to_use {
        Some(w) => {
            head.push_str("whenToUse: ");
            head.push_str(w);
            head.push_str("\n");
            assert(head@ =~= before + when_line(opt_str(when_to_use)));
        },
        None => {
            head.push_str("");
        },
    }
    head.push_str(rest);
    let mut r = "---\n".to_owned();
    r.push_str(head.as_str());
    r.push_str("\n---\n\n");
    r.push_str(body);
    r.push_str("\n");
    r
}

/// The title that a name makes, in capitals.
fn title_of(name: &str) -> (r: String)
    ensures
        r@ == uppercase(spaced(name@)),
{
    proof {
        reveal_strlit("-");
    }
    upper_text(replace_text(name, "-", " ").as_str())
}

/// The instructions of a workflow.
pub fn make_workflow_body(title: &str) -> (r: String)
    ensures
        r@ == workflow_body(title@),
{
    let mut s = "# ".to_owned();
    s.push_str(title);
    s.push_str("\n\n");
    s.push_str(
        "This skill runs a deterministic workflow. Each step executes a fixed command (0 LLM calls), with an optional LLM judge step at the end to summarize results.\n\n",
    );
    s.push_str("## Steps\n\n");
    s.push_str(
        "The steps are defined in the frontmatter above. Tool steps run deterministically; llm_judge steps make a single LLM call with an independent context (no conversation history).\n\n",
    );
    s.push_str("## Customization\n\n");
    s.push_str(
        "Edit the steps in the frontmatter to match your SOP. Use {{steps.step_id.result}} to reference previous step outputs.",
    );
    s
}

/// The instructions of a todo list.
pub fn make_todo_body(title: &str, steps_intent: &str) -> (r: String)
    ensures
        r@ == todo_body(title@, steps_intent@),
{
    let section = if chars_of(steps_intent).len() == 0 {
        "## Suggested steps\n\n1. First step description\n2. Second step description\n3. Final step description\n".to_owned()
    } else {
        let mut t = "## Suggested steps\n\n".to_owned();
        t.push_str(steps_intent);
        t.push_str("\n");
        t
    };
    let mut s = "# ".to_owned();
    s.push_str(title);
    s.push_str("\n\n");
    s.push_str(
        "This skill provides step-by-step guidance. The LLM executes each step with awareness of which step it is on, receiving guidance injection before each step.\n\n",
    );
    s.push_str(section.as_str());
    s.push_str("## Notes\n\n");
    s.push_str(
        "The LLM will follow the suggested steps but can adapt based on tool results. Each step result is recorded and the LLM is guided to the next step.",
    );
    s
}

/// The instructions of a plan.
pub fn make_plan_body(title: &str) -> (r: String)
    ensures
        r@ == plan_body(title@),
{
    let mut s = "# ".to_owned();
    s.push_str(title);
    s.push_str("\n\n");
    s.push_str(
        "You are an autonomous diagnostic agent. Explore the problem freely using available tools, form hypotheses, and verify them.\n\n",
    );
    s.push_str("## Approach\n\n");
    s.push_str("1. **Gather information** — use tools to inspect device state\n");
    s.push_str("2. **Form hypotheses** — reason about possible causes\n");
    s.push_str("3. **Verify** — run targeted checks to confirm or rule out\n");
    s.push_str("4. **Report** — provide findings with evidence\n\n");
    s.push_str("## Rules\n\n");
    s.push_str("- Always inspect actual device state before drawing conclusions\n");
    s.push_str("- Report exact values from command output\n");
    s.push_str("- Prefer targeted fixes over broad changes\n");
    s.push_str("- Record findings to long-term memory for future reference");
    s
}

/// The steps of a workflow of which nothing is known.
fn make_sample_steps() -> (r: String)
    ensures
        r@ == sample_steps(),
{
    let mut s = "  - id: step_1\n".to_owned();
    s.push_str("    tool: shell\n");
    s.push_str("    args:\n");
    s.push_str("      command: \"echo 'Replace with actual command'\"\n");
    s.push_str("  - id: step_2\n");
    s.push_str("    tool: shell\n");
    s.push_str("    args:\n");
    s.push_str("      command: \"echo 'Replace with actual command'\"\n");
    s.push_str("  - id: summarize\n");
    s.push_str("    llm_judge: \"Summarize the results and flag any issues.\"\n");
    s.push_str("    input: \"{{steps.step_1.result}}\\n{{steps.step_2.result}}\"");
    s
}

/// The steps of a workflow for an intent in words: one for each line that says something, and a
/// summary at their end.
pub fn generate_workflow_steps_from_intent(intent: &str) -> (r: String)
    ensures
        r@ == steps_from_intent(intent@),
{
    let all = lines_of(intent);
    let ghost ls = lines(intent@);
    let mut steps = String::new();
    let mut count: usize = 0;
    let mut i: usize = 0;
    assert(ls.take(0) =~= Seq::empty());
    while i < all.len()
        invariant
            i <= all@.len(),
            ls == texts(all@),
            count <= i,
            count == intents(ls.take(i as int)).len(),
            steps@ == intent_steps(intents(ls.take(i as int))),
        decreases all@.len() - i,
    {
        assert(ls.take(i + 1).drop_last() =~= ls.take(i as int));
        let line = trim_text(all[i].as_str());
        let cleaned = strip_start_text(line.as_str(), CharClass::ListMark);
        if chars_of(cleaned.as_str()).len() > 0 {
            let ghost before = steps@;
            let ghost done = intents(ls.take(i as int));
            count += 1;
            steps.push_str("  - id: step_");
            steps.push_str(decimal_text(count as u64).as_str());
            steps.push_str("\n    tool: shell\n    args:\n      command: \"# TODO: ");
            steps.push_str(cleaned.as_str());
            steps.push_str("\"\n");
            assert(steps@ =~= before + intent_step(count as nat, cleaned@));
            assert(done.push(cleaned@).drop_last() =~= done);
        }
        i += 1;
    }
    assert(ls.take(i as int) =~= ls);
    if count == 0 {
        steps.push_str(
            "  - id: step_1\n    tool: shell\n    args:\n      command: \"echo 'TODO: replace with actual command'\"\n",
        );
        assert(steps@ =~= "  - id: step_1\n    tool: shell\n    args:\n      command: \"echo 'TODO: replace with actual command'\"\n"@);
    }
    steps.push_str(
        "  - id: summarize\n    llm_judge: \"Summarize the results and report any issues found.\"\n    input: \"{{steps.step_1.result}}\"",
    );
    steps
}

/// The file of a workflow.
pub fn generate_workflow_skill(
    name: &str,
    description: &str,
    when_to_use: Option<&str>,
    tools: &Vec<String>,
    steps_intent: &str,
    custom_body: Option<&str>,
) -> (r: String)
    ensures
        r@ == workflow_file(
            name@,
            description@,
            opt_str(when_to_use),
            texts(tools@),
            steps_intent@,
            opt_str(custom_body),
        ),
{
    let steps = if chars_of(steps_intent).len() == 0 {
        make_sample_steps()
    } else {
        generate_workflow_steps_from_intent(steps_intent)
    };
    let body = match custom_body {
        Some(b) => b.to_owned(),
        None => make_workflow_body(title_of(name).as_str()),
    };
    let mut rest = "mode: workflow\nthink: false\ntools:\n".to_owned();
    rest.push_str(make_tools_line(tools, "  allow: [shell, file_read, file_search]").as_str());
    rest.push_str("\nsteps:\n");
    rest.push_str(steps.as_str());
    make_file(name, description, when_to_use, rest.as_str(), body.as_str())
}

/// The file of a todo list.
pub fn generate_todo_skill(
    name: &str,
    description: &str,
    when_to_use: Option<&str>,
    tools: &Vec<String>,
    steps_intent: &str,
    custom_body: Option<&str>,
) -> (r: String)
    ensures
        r@ == todo_file(
            name@,
            description@,
            opt_str(when_to_use),
            texts(tools@),
            steps_intent@,
            opt_str(custom_body),
        ),
{
    let body = match custom_body {
        Some(b) => b.to_owned(),
        None => make_todo_body(title_of(name).as_str(), steps_intent),
    };
    let mut rest = "mode: todo\nthink: false\ntools:\n".to_owned();
    rest.push_str(
        make_tools_line(
            tools,
            "  allow: [shell, file_read, file_write, memory_read, memory_write]",
        ).as_str(),
    );
    make_file(name, description, when_to_use, rest.as_str(), body.as_str())
}

/// The file of a plan.
pub fn generate_plan_skill(
    name: &str,
    description: &str,
    when_to_use: Option<&str>,
    tools: &Vec<String>,
    custom_body: Option<&str>,
) -> (r: String)
    ensures
        r@ == plan_file(
            name@,
            description@,
            opt_str(when_to_use),
            texts(tools@),
            opt_str(custom_body),
        ),
{
    let body = match custom_body {
        Some(b) => b.to_owned(),
        None => make_plan_body(title_of(name).as_str()),
    };
    let mut rest = "mode: plan\nthink: true\ntools:\n".to_owned();
    rest.push_str(
        make_tools_line(
            tools,
            "  allow: [shell, file_read, file_write, file_search, memory_read, memory_write]",
        ).as_str(),
    );
    make_file(name, description, when_to_use, rest.as_str(), body.as_str())
}

/// A skill file that is to be written.
#[derive(Debug)]
pub struct SkillFile {
    pub filename: String,
    pub content: String,
    pub name: String,
    pub mode: String,
    pub description: String,
}

/// What a [`SkillFile`] stands for.
pub struct SkillFileV {
    pub filename: Seq<char>,
    pub content: Seq<char>,
    pub name: Seq<char>,
    pub mode: Seq<char>,
    pub description: Seq<char>,
}

impl View for SkillFile {
    type V = SkillFileV;

    open spec fn view(&self) -> SkillFileV {
        SkillFileV {
            filename: self.filename@,
            content: self.content@,
            name: self.name@,
            mode: self.mode@,
            description: self.description@,
        }
    }
}

/// The texts among some values.
pub open spec fn texts_in(items: Seq<JsonV>) -> Seq<Seq<char>>
    decreases items.len(),
{
    if items.len() == 0 {
        Seq::empty()
    } else {
        match items.last() {
            JsonV::Text(t) => texts_in(items.drop_last()).push(t),
            _ => texts_in(items.drop_last()),
        }
    }
}

/// The texts of a list among the arguments; none where there is no such list.
pub open spec fn texts_arg(args: JsonV, field: Seq<char>) -> Seq<Seq<char>> {
    match args.items_field(field) {
        Some(items) => texts_in(items),
        None => Seq::empty(),
    }
}

/// The texts of a list among the arguments.
pub fn get_texts(args: &Json, field: &str) -> (r: Vec<String>)
    ensures
        texts(r@) == texts_arg(args@, field@),
{
    let mut r: Vec<String> = Vec::new();
    assert(texts(r@) =~= Seq::empty());
    match args.get_items(field) {
        Some(items) => {
            let ghost all = views(items@);
            proof {
                lemma_models(items@);
            }
            let mut i: usize = 0;
            assert(all.take(0) =~= Seq::empty());
            while i < items.len()
                invariant
                    i <= items@.len(),
                    all == views(items@),
                    texts(r@) == texts_in(all.take(i as int)),
                decreases items@.len() - i,
            {
                let ghost before = texts(r@);
                assert(all.take(i + 1).drop_last() =~= all.take(i as int));
                assert(all[i as int] == items@[i as int]@);
                match &items[i] {
                    Json::Text(t) => {
                        r.push(t.clone());
                        assert(texts(r@) =~= before.push(t@));
                    },
                    _ => {
                        assert(!(all[i as int] is Text));
                    },
                }
                i += 1;
            }
            assert(all.take(i as int) =~= all);
        },
        None => {},
    }
    r
}

/// The file that a call asks for, or what is wrong with the call.
pub open spec fn file_asked(args: JsonV) -> Result<SkillFileV, ToolResultV> {
    let name = text_or(args, "name"@, ""@);
    let description = text_or(args, "description"@, ""@);
    let mode = text_or(args, "mode"@, "plan"@);
    let when = args.text_field("when_to_use"@);
    let tools = texts_arg(args, "tools"@);
    let intent = text_or(args, "steps_intent"@, ""@);
    let body = args.text_field("body"@);
    if name.len() == 0 {
        Err(plain_result("Error: `name` is required and must be kebab-case"@, true))
    } else if !kebab(name) {
        Err(
            plain_result(
                "Error: name `"@ + name
                    + "` must be kebab-case (lowercase letters, numbers, hyphens only)"@,
                true,
            ),
        )
    } else if description.len() == 0 {
        Err(plain_result("Error: `description` is required"@, true))
    } else if mode != "workflow"@ && mode != "todo"@ && mode != "plan"@ {
        Err(
            plain_result(
                "Error: mode must be 'workflow', 'todo', or 'plan', got '"@ + mode + "'"@,
                true,
            ),
        )
    } else {
        Ok(
            SkillFileV {
                filename: name + ".md"@,
                content: if mode == "workflow"@ {
                    workflow_file(name, description, when, tools, intent, body)
                } else if mode == "todo"@ {
                    todo_file(name, description, when, tools, intent, body)
                } else {
                    plan_file(name, description, when, tools, body)
                },
                name,
                mode,
                description,
            },
        )
    }
}

/// What the outcome of a call stands for.
pub open spec fn asked_view(r: Result<SkillFile, ToolResult>) -> Result<SkillFileV, ToolResultV> {
    match r {
        Ok(f) => Ok(f@),
        Err(e) => Err(e@),
    }
}

fn as_str_opt(o: Option<&String>) -> (r: Option<&str>)
    ensures
        opt_str(r) == match o {
            Some(s) => Some(s@),
            None => None::<Seq<char>>,
        },
{
    match o {
        Some(s) => Some(s.as_str()),
        None => None,
    }
}

/// What came of writing a skill file.
#[derive(Debug)]
pub enum WriteOutcome {
    /// There is such a file already.
    Exists,
    /// The directory could not be made.
    NoDirectory(String),
    /// The file could not be written.
    Failed(String),
    /// The file is written, at this path.
    Written(String),
}

/// What the model is told of the outcome.
pub open spec fn write_report(outcome: WriteOutcome, file: SkillFileV, dir: Seq<char>) -> ToolResultV {
    match outcome {
        WriteOutcome::Exists => plain_result(
            "Error: skill file `"@ + file.filename + "` already exists in "@ + dir
                + ". Use a different name or delete the existing file first."@,
            true,
        ),
        WriteOutcome::NoDirectory(e) => plain_result(
            "Error: failed to create skills directory: "@ + e@,
            true,
        ),
        WriteOutcome::Failed(e) => plain_result(
            "Error: failed to write skill file: "@ + e@,
            true,
        ),
        WriteOutcome::Written(path) => plain_result(
            "Created skill file: "@ + path@ + "\n\nName: "@ + file.name + "\nMode: "@ + file.mode
                + "\nDescription: "@ + file.description
                + "\n\nThe skill is now available. Restart or reload skills to use it."@,
            false,
        ),
    }
}

impl SkillCreatorTool {
    /// The file that a call asks for, or what is wrong with the call.
    pub fn prepare(&self, args: &Json) -> (r: Result<SkillFile, ToolResult>)
        ensures
            asked_view(r) == file_asked(args@),
    {
        let name = get_text_or(args, "name", "");
        let description = get_text_or(args, "description", "");
        let mode = get_text_or(args, "mode", "plan");
        let when = as_str_opt(args.get_text("when_to_use"));
        let intent = get_text_or(args, "steps_intent", "");
        let body = as_str_opt(args.get_text("body"));
        if chars_of(name.as_str()).len() == 0 {
            return Err(
                ToolResult::plain(
                    "Error: `name` is required and must be kebab-case".to_owned(),
                    true,
                ),
            );
        }
        if !is_kebab_case(name.as_str()) {
            let mut m = "Error: name `".to_owned();
            m.push_str(name.as_str());
            m.push_str("` must be kebab-case (lowercase letters, numbers, hyphens only)");
            return Err(ToolResult::plain(m, true));
        }
        if chars_of(description.as_str()).len() == 0 {
            return Err(ToolResult::plain("Error: `description` is required".to_owned(), true));
        }
        let tools = get_texts(args, "tools");
        let content = if same(mode.as_str(), "workflow") {
            generate_workflow_skill(
                name.as_str(),
                description.as_str(),
                when,
                &tools,
                intent.as_str(),
                body,
            )
        } else if same(mode.as_str(), "todo") {
            generate_todo_skill(
                name.as_str(),
                description.as_str(),
                when,
                &tools,
                intent.as_str(),
                body,
            )
        } else if same(mode.as_str(), "plan") {
            generate_plan_skill(name.as_str(), description.as_str(), when, &tools, body)
        } else {
            let mut m = "Error: mode must be 'workflow', 'todo', or 'plan', got '".to_owned();
            m.push_str(mode.as_str());
            m.push_str("'");
            return Err(ToolResult::plain(m, true));
        };
        let mut filename = name.clone();
        filename.push_str(".md");
        Ok(SkillFile { filename, content, name, mode, description })
    }

    /// What the model is told of the outcome.
    pub fn report(&self, file: &SkillFile, outcome: WriteOutcome) -> (r: ToolResult)
        ensures
            r@ == write_report(outcome, file@, self.skills_dir@),
    {
        match outcome {
            WriteOutcome::Exists => {
                let mut m = "Error: skill file `".to_owned();
                m.push_str(file.filename.as_str());
                m.push_str("` already exists in ");
                m.push_str(self.skills_dir.as_str());
                m.push_str(". Use a different name or delete the existing file first.");
                ToolResult::plain(m, true)
            },
            WriteOutcome::NoDirectory(e) => {
                let mut m = "Error: failed to create skills directory: ".to_owned();
                m.push_str(e.as_str());
                ToolResult::plain(m, true)
            },
            WriteOutcome::Failed(e) => {
                let mut m = "Error: failed to write skill file: ".to_owned();
                m.push_str(e.as_str());
                ToolResult::plain(m, true)
            },
            WriteOutcome::Written(path) => {
                let mut m = "Created skill file: ".to_owned();
                m.push_str(path.as_str());
                m.push_str("\n\nName: ");
                m.push_str(file.name.as_str());
                m.push_str("\nMode: ");
                m.push_str(file.mode.as_str());
                m.push_str("\nDescription: ");
                m.push_str(file.description.as_str());
                m.push_str("\n\nThe skill is now available. Restart or reload skills to use it.");
                ToolResult::plain(m, false)
            },
        }
    }
}

/// A file that is written has a kebab-case name: it holds nothing that could lead to another
/// directory.
pub proof fn law_files_stay_in_the_directory(args: JsonV, i: int)
    requires
        file_asked(args) is Ok,
        0 <= i < file_asked(args)->Ok_0.name.len(),
    ensures
        file_asked(args)->Ok_0.filename == file_asked(args)->Ok_0.name + ".md"@,
        kebab(file_asked(args)->Ok_0.name),
        file_asked(args)->Ok_0.name[i] != '/',
        file_asked(args)->Ok_0.name[i] != '\\',
        file_asked(args)->Ok_0.name[i] != '.',
{
    assert(kebab_char(file_asked(args)->Ok_0.name[i]));
}

/// A file of a head and instructions is read back as that head and these instructions, as long as
/// no line of the head begins with three dashes.
pub proof fn law_written_files_are_read_back(head: Seq<char>, body: Seq<char>)
    requires
        !contains("\n"@ + head, "\n---"@),
    ensures
        parts_of(file_text(head, body)) == (
            trim("\n"@ + head),
            strip_start("\n\n"@ + body + "\n"@, CharClass::Only('\n')),
        ),
{
    reveal_strlit("---\n");
    reveal_strlit("\n---\n\n");
    reveal_strlit("---");
    reveal_strlit("\n---");
    reveal_strlit("\n\n");
    reveal_strlit("\n");
    let mark = "\n---"@;
    let file = file_text(head, body);
    assert(file[0] == '-');
    assert(strip_start(file, CharClass::Space) == file);
    assert(occurs_at(file, "---"@, 0)) by {
        assert(file.subrange(0, 3) =~= "---"@);
    }
    let after = file.skip(3);
    let first = "\n"@ + head;
    let end = first.len() as int;
    assert(after =~= first + "\n---\n\n"@ + body + "\n"@);
    assert(occurs_at(after, mark, end)) by {
        assert(after.subrange(end, end + 4) =~= mark);
    }
    lemma_find_from(first, mark, 0);
    lemma_find_from(after, mark, 0);
    assert forall|j: int| 0 <= j < end implies !occurs_at(after, mark, j) by {
        if occurs_at(after, mark, j) {
            let piece = after.subrange(j, j + 4);
            assert(piece == mark);
            if j + 4 <= end {
                assert(first.subrange(j, j + 4) =~= piece);
                assert(occurs_at(first, mark, j));
            } else {
                assert(after[end] == '\n');
                assert(piece[end - j] == after[end]);
                assert(mark[end - j] == '-');
            }
        }
    }
    assert(find(after, mark) == Some(end));
    assert(after.take(end) =~= first);
    assert(after.skip(end + 4) =~= "\n\n"@ + body + "\n"@);
}

/// A skill file is made of what was asked for: it is named after the skill, and holds the name, the
/// description, when to use it, the tools and the instructions that were given, in the way of
/// running that was asked for. It is refused exactly where the name is missing or not in kebab
/// case, the description is missing, or the way of running is unknown.
pub proof fn law_files_are_made_as_asked(args: JsonV)
    ensures
        ({
            let name = text_or(args, "name"@, ""@);
            let description = text_or(args, "description"@, ""@);
            let mode = text_or(args, "mode"@, "plan"@);
            let f = file_asked(args)->Ok_0;
            &&& file_asked(args) is Ok <==> kebab(name) && description.len() > 0 && (mode
                == "workflow"@ || mode == "todo"@ || mode == "plan"@)
            &&& file_asked(args) is Err ==> file_asked(args)->Err_0.is_error
            &&& file_asked(args) is Ok ==> {
                &&& f.name == name && f.description == description && f.mode == mode
                &&& f.filename == name + ".md"@
                &&& mode == "workflow"@ ==> f.content == workflow_file(
                    name,
                    description,
                    args.text_field("when_to_use"@),
                    texts_arg(args, "tools"@),
                    text_or(args, "steps_intent"@, ""@),
                    args.text_field("body"@),
                )
                &&& mode == "todo"@ ==> f.content == todo_file(
                    name,
                    description,
                    args.text_field("when_to_use"@),
                    texts_arg(args, "tools"@),
                    text_or(args, "steps_intent"@, ""@),
                    args.text_field("body"@),
                )
                &&& mode == "plan"@ ==> f.content == plan_file(
                    name,
                    description,
                    args.text_field("when_to_use"@),
                    texts_arg(args, "tools"@),
                    args.text_field("body"@),
                )
            }
        }),
{
    reveal_strlit("workflow");
    reveal_strlit("todo");
    reveal_strlit("plan");
    assert("workflow"@.len() == 8 && "todo"@.len() == 4 && "plan"@.len() == 4);
    assert("todo"@[0] != "plan"@[0]);
}

/// Every kind of file begins with a head that gives the name and the description on lines of their
/// own, when to use the skill where that is given, and how it runs; the instructions that were
/// given follow it, whole.
pub proof fn law_files_hold_what_was_given(
    name: Seq<char>,
    description: Seq<char>,
    when: Seq<char>,
    tools: Seq<Seq<char>>,
    intent: Seq<char>,
    body: Seq<char>,
    rest: Seq<char>,
    default: Seq<char>,
)
    ensures
        workflow_file(name, description, Some(when), tools, intent, Some(body)) == file_text(
            workflow_head(name, description, Some(when), tools, intent),
            body,
        ),
        todo_file(name, description, Some(when), tools, intent, Some(body)) == file_text(
            todo_head(name, description, Some(when), tools),
            body,
        ),
        plan_file(name, description, Some(when), tools, Some(body)) == file_text(
            plan_head(name, description, Some(when), tools),
            body,
        ),
        file_text(rest, body) == "---\n"@ + rest + "\n---\n\n"@ + body + "\n"@,
        head_text(name, description, None, rest) == "name: "@ + name + "\ndescription: "@
            + description + "\n"@ + rest,
        head_text(name, description, Some(when), rest) == "name: "@ + name + "\ndescription: "@
            + description + "\n"@ + ("whenToUse: "@ + when + "\n"@) + rest,
        tools.len() > 0 ==> tools_line(tools, default) == "  allow: ["@ + join(tools, ", "@) + "]"@,
        tools_line(Seq::empty(), default) == default,
        body_or(Some(body), default) == body,
        body_or(None, default) == default,
{
    reveal_strlit("");
    assert(head_text(name, description, None, rest) =~= "name: "@ + name + "\ndescription: "@
        + description + "\n"@ + rest);
}

/// The three kinds of files run as they say.
pub proof fn law_heads_say_how_the_skill_runs(
    name: Seq<char>,
    description: Seq<char>,
    when: Option<Seq<char>>,
    tools: Seq<Seq<char>>,
    intent: Seq<char>,
)
    requires
        tools.len() > 0,
        intent.len() > 0,
    ensures
        workflow_head(name, description, when, tools, intent) == head_text(
            name,
            description,
            when,
            "mode: workflow\nthink: false\ntools:\n"@ + ("  allow: ["@ + join(tools, ", "@) + "]"@)
                + "\nsteps:\n"@ + steps_from_intent(intent),
        ),
        todo_head(name, description, when, tools) == head_text(
            name,
            description,
            when,
            "mode: todo\nthink: false\ntools:\n"@ + ("  allow: ["@ + join(tools, ", "@) + "]"@),
        ),
        plan_head(name, description, when, tools) == head_text(
            name,
            description,
            when,
            "mode: plan\nthink: true\ntools:\n"@ + ("  allow: ["@ + join(tools, ", "@) + "]"@),
        ),
{
}

/// Every line of what the steps are to do becomes a step of its own, in order and numbered, without
/// the mark that opened it; empty lines become none.
pub proof fn law_every_line_becomes_a_step(
    all: Seq<Seq<char>>,
    line: Seq<char>,
    mark: Seq<char>,
    intent: Seq<char>,
)
    requires
        intent.len() > 0,
        !is_space(intent[0]) && !is_space(intent.last()),
        !CharClass::ListMark.has(intent[0]),
        forall|i: int| 0 <= i < mark.len() ==> CharClass::ListMark.has(#[trigger] mark[i]),
        mark.len() > 0 ==> !is_space(mark[0]),
        line == mark + intent,
    ensures
        intents(all.push(line)) == intents(all).push(intent),
        intents(all.push(Seq::empty())) == intents(all),
        intents(Seq::empty()).len() == 0,
        intent_steps(all.push(intent)) == intent_steps(all) + ("  - id: step_"@ + decimal(
            (all.len() + 1) as nat,
        ) + "\n    tool: shell\n    args:\n      command: \"# TODO: "@ + intent + "\"\n"@),
        intent_steps(Seq::empty()).len() == 0,
{
    let none = Seq::<char>::empty();
    assert(all.push(line).drop_last() =~= all);
    assert(all.push(none).drop_last() =~= all);
    assert(all.push(intent).drop_last() =~= all);
    law_trim(none, line, none);
    assert(none + line + none =~= line);
    law_strip_start(mark, intent, CharClass::ListMark);
    assert(intent_of(line) == intent);
    law_trim(none, none, none);
    assert(none + none + none =~= none);
    assert(intent_of(none).len() == 0);
}

/// The tools of a call are its texts, in order.
pub proof fn law_texts_of_a_call_keep_their_order(a: Seq<JsonV>, t: Seq<char>, other: JsonV)
    requires
        !(other is Text),
    ensures
        texts_in(a.push(JsonV::Text(t))) == texts_in(a).push(t),
        texts_in(a.push(other)) == texts_in(a),
        texts_in(Seq::empty()).len() == 0,
{
    assert(a.push(JsonV::Text(t)).drop_last() =~= a);
    assert(a.push(other).drop_last() =~= a);
}

/// Writing a file is told: where it went, or why it did not.
pub proof fn law_writing_is_told(outcome: WriteOutcome, file: SkillFileV, dir: Seq<char>)
    ensures
        write_report(outcome, file, dir).is_error <==> !(outcome is Written),
        outcome is Written ==> write_report(outcome, file, dir).content == "Created skill file: "@
            + outcome->Written_0@ + "\n\nName: "@ + file.name + "\nMode: "@ + file.mode
            + "\nDescription: "@ + file.description
            + "\n\nThe skill is now available. Restart or reload skills to use it."@,
        outcome is Failed ==> write_report(outcome, file, dir).content
            == "Error: failed to write skill file: "@ + outcome->Failed_0@,
        outcome is NoDirectory ==> write_report(outcome, file, dir).content
            == "Error: failed to create skills directory: "@ + outcome->NoDirectory_0@,
{
}

/// A name is in kebab case exactly where it is made of small letters, digits and single hyphens
/// between them.
pub proof fn law_kebab_case(s: Seq<char>)
    ensures
        kebab(s) <==> {
            &&& s.len() > 0
            &&& forall|i: int|
                0 <= i < s.len() ==> 'a' <= #[trigger] s[i] <= 'z' || '0' <= s[i] <= '9' || s[i]
                    == '-'
            &&& s[0] != '-' && s.last() != '-'
            &&& forall|i: int, j: int|
                0 <= i && j == i + 1 && j < s.len() ==> #[trigger] s[i] != '-' || #[trigger] s[j]
                    != '-'
        },
{
    reveal_strlit("--");
    let p = "--"@;
    if contains(s, p) {
        let k = choose|i: int| occurs_at(s, p, i);
        assert(s.subrange(k, k + 2)[0] == s[k]);
        assert(s.subrange(k, k + 2)[1] == s[k + 1]);
        assert(s[k] == '-' && s[k + 1] == '-');
    } else {
        assert forall|i: int, j: int| 0 <= i && j == i + 1 && j < s.len() implies #[trigger] s[i]
            != '-' || #[trigger] s[j] != '-' by {
            if s[i] == '-' && s[j] == '-' {
                assert(s.subrange(i, i + p.len()) =~= p);
                assert(occurs_at(s, p, i));
            }
        }
    }
}

/// A template begins with the title of the skill, which is its name in capitals with blanks for
/// hyphens; what the steps are to do stands in the template of a list of steps, where it is given.
pub proof fn law_templates_begin_with_the_title(title: Seq<char>, intent: Seq<char>)
    ensures
        ("# "@ + title + "\n\n"@).is_prefix_of(workflow_body(title)),
        ("# "@ + title + "\n\n"@).is_prefix_of(todo_body(title, intent)),
        ("# "@ + title + "\n\n"@).is_prefix_of(plan_body(title)),
        intent.len() > 0 ==> suggested(intent) == "## Suggested steps\n\n"@ + intent + "\n"@,
        contains(todo_body(title, intent), suggested(intent)),
{
    let head = "# "@ + title + "\n\n"@;
    let w = workflow_body(title);
    assert(w.take(head.len() as int) =~= head);
    let p = plan_body(title);
    assert(p.take(head.len() as int) =~= head);
    let t = todo_body(title, intent);
    assert(t.take(head.len() as int) =~= head);
    let a = head
        + "This skill provides step-by-step guidance. The LLM executes each step with awareness of which step it is on, receiving guidance injection before each step.\n\n"@;
    let n = a.len() as int;
    assert(t.subrange(n, n + suggested(intent).len()) =~= suggested(intent));
    assert(occurs_at(t, suggested(intent), n));
}

} // verus!
