//! The system prompt: sections in order, how the tools that are offered are to be used, and
//! variables filled in.
use crate::expr::{fill_variables, fill_variables_text, variable_placeholder};
use crate::sorting::{
    in_order, is_order, law_sorted_stays, law_sorting_orders, lemma_insert_at, sorted_by,
};
use crate::text::{chars_of, join, join_texts, replace, texts};
use crate::textmap::{
    assign, key_index, law_assign_then_lookup, lemma_key_index, lookup, Entries, TextMap,
};
use crate::tools::{allowed_tools, filter_tools};
use crate::types::{Skill, SkillV, ToolDefinition, ToolDefinitionV};
use crate::views::views;
use vstd::prelude::*;

verus! {

/// A prompt that is ready for a request.
pub struct AssembledPrompt {
    pub system: String,
    /// The tools that are offered.
    pub tools: Vec<ToolDefinition>,
}

/// What an [`AssembledPrompt`] stands for.
pub struct PromptV {
    pub system: Seq<char>,
    pub tools: Seq<ToolDefinitionV>,
}

impl View for AssembledPrompt {
    type V = PromptV;

    open spec fn view(&self) -> PromptV {
        PromptV { system: self.system@, tools: views(self.tools@) }
    }
}

/// A part of the system prompt. Parts with a smaller `order` come first.
pub struct PromptSection {
    pub name: String,
    pub order: i32,
    pub text: String,
}

/// What a [`PromptSection`] stands for.
pub struct SectionV {
    pub name: Seq<char>,
    pub order: i32,
    pub text: Seq<char>,
}

impl View for PromptSection {
    type V = SectionV;

    open spec fn view(&self) -> SectionV {
        SectionV { name: self.name@, order: self.order, text: self.text@ }
    }
}

/// Where the section stands that says what the model is.
pub const ORDER_IDENTITY: i32 = -100;

/// Where the instructions of the skill stand.
pub const ORDER_PERSONA: i32 = 0;

/// Where the instructions of the user stand.
pub const ORDER_CUSTOM: i32 = 5;

/// Where the rules stand that hold for every skill.
pub const ORDER_RULES: i32 = 10;

/// Where the tools stand.
pub const ORDER_TOOLS: i32 = 100;

/// What a prompt holds beside the skill and the tools.
pub struct PromptSettings {
    /// The directory that the agent works in.
    pub cwd: String,
    /// The instructions of the user; empty where there are none.
    pub custom: String,
}

/// What [`PromptSettings`] stand for.
pub struct SettingsV {
    pub cwd: Seq<char>,
    pub custom: Seq<char>,
}

impl View for PromptSettings {
    type V = SettingsV;

    open spec fn view(&self) -> SettingsV {
        SettingsV { cwd: self.cwd@, custom: self.custom@ }
    }
}

impl Clone for PromptSettings {
    fn clone(&self) -> (r: PromptSettings)
        ensures
            r@ == self@,
    {
        PromptSettings { cwd: self.cwd.clone(), custom: self.custom.clone() }
    }
}

/// The settings where nothing is set: the directory is named as the current one, and the user has
/// no instructions.
pub open spec fn unset() -> SettingsV {
    SettingsV { cwd: "."@, custom: Seq::empty() }
}

impl Default for PromptSettings {
    fn default() -> (r: PromptSettings)
        ensures
            r@ == unset(),
    {
        let r = PromptSettings { cwd: ".".to_owned(), custom: String::new() };
        assert(r@.custom =~= Seq::empty());
        r
    }
}

/// What the model is told that it is.
pub open spec fn identity_text() -> Seq<char> {
    "You are an AI agent. Working dir: {{cwd}}."@
}

/// The rules that hold for every skill.
pub open spec fn rules_text() -> Seq<char> {
    "## Rules\n\n- Check exit codes: investigate a failure before moving on.\n- Verify facts with tools instead of guessing.\n- Be concise."@
}

/// The line that says how a tool is to be used.
pub open spec fn tool_line(t: ToolDefinitionV) -> Seq<char> {
    if t.guidance.len() == 0 {
        "- `"@ + t.name + "`"@
    } else {
        "- `"@ + t.name + "`: "@ + t.guidance
    }
}

/// The lines that say how some tools are to be used.
pub open spec fn tool_lines(tools: Seq<ToolDefinitionV>) -> Seq<Seq<char>> {
    tools.map_values(|t: ToolDefinitionV| tool_line(t))
}

/// The section that says how some tools are to be used.
pub open spec fn tool_text(tools: Seq<ToolDefinitionV>) -> Seq<char> {
    "## Available tools\n\nYou may call these tools:\n\n"@ + join(tool_lines(tools), "\n"@)
        + "\n\nCall a tool by name with JSON arguments. Wait for the result before proceeding."@
}

/// A section, unless it is to be left out.
pub open spec fn section_if(
    wanted: bool,
    name: Seq<char>,
    order: i32,
    text: Seq<char>,
) -> Seq<SectionV> {
    if wanted {
        seq![SectionV { name, order, text }]
    } else {
        Seq::empty()
    }
}

/// The sections of a prompt: what the model is, the instructions of the skill, those of the user,
/// the rules, and how the tools that the skill may use are to be used. Instructions that are empty
/// are left out, and so are the tools where there are none.
pub open spec fn sections_of(
    skill: SkillV,
    tools: Seq<ToolDefinitionV>,
    custom: Seq<char>,
) -> Seq<SectionV> {
    let allowed = allowed_tools(tools, skill.tools_allow);
    section_if(true, "identity"@, ORDER_IDENTITY, identity_text()) + section_if(
        skill.body.len() > 0,
        "persona"@,
        ORDER_PERSONA,
        skill.body,
    ) + section_if(custom.len() > 0, "custom"@, ORDER_CUSTOM, custom) + section_if(
        true,
        "rules"@,
        ORDER_RULES,
        rules_text(),
    ) + section_if(allowed.len() > 0, "tools"@, ORDER_TOOLS, tool_text(allowed))
}

/// The order of sections.
pub open spec fn section_le() -> spec_fn(SectionV, SectionV) -> bool {
    |a: SectionV, b: SectionV| a.order <= b.order
}

/// The texts of some sections.
pub open spec fn section_texts(sections: Seq<SectionV>) -> Seq<Seq<char>> {
    sections.map_values(|s: SectionV| s.text)
}

/// The sections in order, with an empty line between them, and variables filled in.
pub open spec fn system_text(sections: Seq<SectionV>, variables: Entries) -> Seq<char> {
    fill_variables(
        join(section_texts(sorted_by(sections, section_le())), "\n\n"@),
        variables,
    )
}

/// The variables of `base`, with those of `extra` in the place of others of their names.
pub open spec fn overridden(base: Entries, extra: Entries) -> Entries
    decreases extra.len(),
{
    if extra.len() == 0 {
        base
    } else {
        assign(overridden(base, extra.drop_last()), extra.last().0, extra.last().1)
    }
}

/// A prompt, with the variables that are known while the agent runs, those of the skill in their
/// place, and others in the place of both.
pub open spec fn prompt_with(
    skill: SkillV,
    tools: Seq<ToolDefinitionV>,
    custom: Seq<char>,
    runtime: Entries,
    extra: Entries,
) -> PromptV {
    PromptV {
        system: system_text(
            sections_of(skill, tools, custom),
            overridden(overridden(runtime, skill.variables), extra),
        ),
        tools: allowed_tools(tools, skill.tools_allow),
    }
}

/// The prompt of a skill where nothing is set. The directory is named as the current one, unless
/// there is a variable for it.
pub open spec fn prompt_of(
    skill: SkillV,
    tools: Seq<ToolDefinitionV>,
    extra: Entries,
) -> PromptV {
    prompt_with(skill, tools, unset().custom, seq![("cwd"@, unset().cwd)], extra)
}

/// The variables that are known while the agent runs.
pub open spec fn runtime_variables(cwd: Seq<char>, model: Seq<char>) -> Entries {
    seq![("cwd"@, cwd), ("model"@, model)]
}

/// The prompt of a turn.
pub open spec fn turn_prompt(
    skill: SkillV,
    tools: Seq<ToolDefinitionV>,
    settings: SettingsV,
    model: Seq<char>,
) -> PromptV {
    prompt_with(
        skill,
        tools,
        settings.custom,
        runtime_variables(settings.cwd, model),
        Entries::empty(),
    )
}

/// The section that says how some tools are to be used.
fn make_tool_text(tools: &Vec<ToolDefinition>) -> (r: String)
    ensures
        r@ == tool_text(views(tools@)),
{
    let ghost all = tool_lines(views(tools@));
    let mut lines: Vec<String> = Vec::new();
    let mut i: usize = 0;
    assert(texts(lines@) =~= all.take(0));
    while i < tools.len()
        invariant
            i <= tools@.len(),
            all == tool_lines(views(tools@)),
            texts(lines@) == all.take(i as int),
        decreases tools@.len() - i,
    {
        let mut line = "- `".to_owned();
        line.push_str(tools[i].name.as_str());
        if chars_of(tools[i].guidance.as_str()).len() == 0 {
            line.push_str("`");
        } else {
            line.push_str("`: ");
            line.push_str(tools[i].guidance.as_str());
        }
        assert(line@ == all[i as int]);
        let ghost before = texts(lines@);
        lines.push(line);
        assert(texts(lines@) =~= before.push(all[i as int]));
        assert(all.take(i + 1) =~= all.take(i as int).push(all[i as int]));
        i += 1;
    }
    assert(all.take(i as int) =~= all);
    let mut r = "## Available tools\n\nYou may call these tools:\n\n".to_owned();
    r.push_str(join_texts(&lines, "\n").as_str());
    r.push_str("\n\nCall a tool by name with JSON arguments. Wait for the result before proceeding.");
    r
}

/// Adds a section, unless it is to be left out.
fn push_section(
    sections: &mut Vec<PromptSection>,
    wanted: bool,
    name: &str,
    order: i32,
    text: &str,
)
    ensures
        views(final(sections)@) == views(old(sections)@) + section_if(wanted, name@, order, text@),
{
    let ghost before = views(sections@);
    if wanted {
        let section = PromptSection { name: name.to_owned(), order, text: text.to_owned() };
        let ghost sv = section@;
        sections.push(section);
        assert(views(sections@) =~= before + seq![sv]);
    } else {
        assert(before + Seq::<SectionV>::empty() =~= before);
    }
}

/// The sections of a prompt with the instructions of the user, and the tools that the skill may
/// use.
pub fn build_custom_sections(skill: &Skill, all_tools: &Vec<ToolDefinition>, custom: &str) -> (r: (
    Vec<PromptSection>,
    Vec<ToolDefinition>,
))
    ensures
        views(r.0@) == sections_of(skill@, views(all_tools@), custom@),
        views(r.1@) == allowed_tools(views(all_tools@), texts(skill.tools_allow@)),
{
    let allowed = filter_tools(all_tools, &skill.tools_allow);
    let mut sections: Vec<PromptSection> = Vec::new();
    assert(views(sections@) =~= Seq::empty());
    push_section(
        &mut sections,
        true,
        "identity",
        ORDER_IDENTITY,
        "You are an AI agent. Working dir: {{cwd}}.",
    );
    assert(views(sections@) =~= section_if(true, "identity"@, ORDER_IDENTITY, identity_text()));
    push_section(
        &mut sections,
        chars_of(skill.body.as_str()).len() > 0,
        "persona",
        ORDER_PERSONA,
        skill.body.as_str(),
    );
    push_section(&mut sections, chars_of(custom).len() > 0, "custom", ORDER_CUSTOM, custom);
    push_section(
        &mut sections,
        true,
        "rules",
        ORDER_RULES,
        "## Rules\n\n- Check exit codes: investigate a failure before moving on.\n- Verify facts with tools instead of guessing.\n- Be concise.",
    );
    let text = make_tool_text(&allowed);
    push_section(&mut sections, allowed.len() > 0, "tools", ORDER_TOOLS, text.as_str());
    (sections, allowed)
}

/// The sections of a prompt, and the tools that the skill may use.
pub fn build_sections(skill: &Skill, all_tools: &Vec<ToolDefinition>) -> (r: (
    Vec<PromptSection>,
    Vec<ToolDefinition>,
))
    ensures
        views(r.0@) == sections_of(skill@, views(all_tools@), Seq::empty()),
        views(r.1@) == allowed_tools(views(all_tools@), texts(skill.tools_allow@)),
{
    proof {
        reveal_strlit("");
        assert(""@ =~= Seq::<char>::empty());
    }
    build_custom_sections(skill, all_tools, "")
}

/// Sections in order; those with the same `order` stay as they were.
fn sort_sections(sections: Vec<PromptSection>) -> (r: Vec<PromptSection>)
    ensures
        views(r@) == sorted_by(views(sections@), section_le()),
{
    let ghost all = views(sections@);
    let ghost le = section_le();
    let mut rest = sections;
    let mut r: Vec<PromptSection> = Vec::new();
    let mut i: usize = 0;
    let n: usize = rest.len();
    assert(all.take(0) =~= Seq::empty());
    assert(views(r@) =~= Seq::empty());
    assert(views(rest@) =~= all.skip(0));
    while i < n
        invariant
            i <= n,
            n == all.len(),
            le == section_le(),
            views(rest@) == all.skip(i as int),
            views(r@) == sorted_by(all.take(i as int), le),
        decreases n - i,
    {
        let ghost before = views(rest@);
        assert(rest@.len() == before.len());
        let x = rest.remove(0);
        assert(before[0] == x@);
        assert(views(rest@) =~= before.skip(1));
        assert(all.skip(i as int).skip(1) =~= all.skip(i + 1));
        assert(x@ == all[i as int]);
        let ghost s = views(r@);
        let mut k: usize = r.len();
        while k > 0 && r[k - 1].order > x.order
            invariant
                k <= r@.len(),
                s == views(r@),
                le == section_le(),
                forall|j: int| k <= j < s.len() ==> !le(#[trigger] s[j], x@),
            decreases k,
        {
            k -= 1;
            assert(s[k as int] == r@[k as int]@);
        }
        proof {
            assert(all.take(i + 1).drop_last() =~= all.take(i as int));
            if k > 0 {
                assert(s[k - 1] == r@[k - 1]@);
            }
            lemma_insert_at(s, x@, le, k as int);
        }
        let ghost xv = x@;
        r.insert(k, x);
        assert(views(r@) =~= s.insert(k as int, xv));
        i += 1;
    }
    assert(all.take(i as int) =~= all);
    r
}

/// The prompt that some sections make.
pub fn assemble_sections(
    sections: Vec<PromptSection>,
    tools: Vec<ToolDefinition>,
    variables: &TextMap,
) -> (r: AssembledPrompt)
    ensures
        r@.system == system_text(views(sections@), variables@),
        r@.tools == views(tools@),
{
    let sorted = sort_sections(sections);
    let ghost all = section_texts(views(sorted@));
    let mut parts: Vec<String> = Vec::new();
    let mut i: usize = 0;
    assert(texts(parts@) =~= all.take(0));
    while i < sorted.len()
        invariant
            i <= sorted@.len(),
            all == section_texts(views(sorted@)),
            texts(parts@) == all.take(i as int),
        decreases sorted@.len() - i,
    {
        let ghost before = texts(parts@);
        parts.push(sorted[i].text.clone());
        assert(texts(parts@) =~= before.push(all[i as int]));
        assert(all.take(i + 1) =~= all.take(i as int).push(all[i as int]));
        i += 1;
    }
    assert(all.take(i as int) =~= all);
    let joined = join_texts(&parts, "\n\n");
    AssembledPrompt { system: fill_variables_text(joined.as_str(), variables), tools }
}

/// The variables of `base`, with those of `extra` in the place of others of their names.
pub fn override_variables(base: &TextMap, extra: &TextMap) -> (r: TextMap)
    ensures
        r@ == overridden(base@, extra@),
{
    let mut r = base.clone();
    let mut i: usize = 0;
    assert(extra@.take(0) =~= Entries::empty());
    while i < extra.len()
        invariant
            i <= extra@.len(),
            r@ == overridden(base@, extra@.take(i as int)),
        decreases extra@.len() - i,
    {
        assert(extra@.take(i + 1).drop_last() =~= extra@.take(i as int));
        let e = extra.entry(i);
        r.insert(e.0.clone(), e.1.clone());
        i += 1;
    }
    assert(extra@.take(i as int) =~= extra@);
    r
}

/// A prompt, with the variables that are known while the agent runs, those of the skill in their
/// place, and others in the place of both.
fn assemble_with(
    skill: &Skill,
    all_tools: &Vec<ToolDefinition>,
    custom: &str,
    runtime: &TextMap,
    extra_variables: &TextMap,
) -> (r: AssembledPrompt)
    ensures
        r@ == prompt_with(skill@, views(all_tools@), custom@, runtime@, extra_variables@),
{
    let vars = override_variables(
        &override_variables(runtime, &skill.variables),
        extra_variables,
    );
    let (sections, allowed) = build_custom_sections(skill, all_tools, custom);
    assemble_sections(sections, allowed, &vars)
}

/// The prompt of a skill where nothing is set.
pub fn assemble(skill: &Skill, all_tools: &Vec<ToolDefinition>, extra_variables: &TextMap) -> (r:
    AssembledPrompt)
    ensures
        r@ == prompt_of(skill@, views(all_tools@), extra_variables@),
{
    let settings: PromptSettings = Default::default();
    let mut runtime = TextMap::new();
    runtime.insert("cwd".to_owned(), settings.cwd.clone());
    assert(runtime@ =~= seq![("cwd"@, unset().cwd)]);
    assemble_with(skill, all_tools, settings.custom.as_str(), &runtime, extra_variables)
}

/// The prompt of a turn.
pub fn assemble_turn(
    skill: &Skill,
    all_tools: &Vec<ToolDefinition>,
    settings: &PromptSettings,
    model: &str,
) -> (r: AssembledPrompt)
    ensures
        r@ == turn_prompt(skill@, views(all_tools@), settings@, model@),
{
    let mut runtime = TextMap::new();
    runtime.insert("cwd".to_owned(), settings.cwd.clone());
    assert(runtime@ =~= seq![("cwd"@, settings.cwd@)]);
    proof {
        reveal_strlit("cwd");
        reveal_strlit("model");
        assert("cwd"@.len() != "model"@.len());
        assert(key_index(runtime@, "model"@, 1) == 1);
    }
    runtime.insert("model".to_owned(), model.to_owned());
    assert(runtime@ =~= runtime_variables(settings.cwd@, model@));
    assemble_with(skill, all_tools, settings.custom.as_str(), &runtime, &TextMap::new())
}

/// The sections stand in order in the prompt, whatever order they are given in.
pub proof fn law_sections_stand_in_order(sections: Seq<SectionV>)
    ensures
        in_order(sorted_by(sections, section_le()), section_le()),
        sorted_by(sections, section_le()).to_multiset() == sections.to_multiset(),
{
    assert(is_order(section_le()));
    law_sorting_orders(sections, section_le());
}

/// A prompt begins with what the model is. The instructions of the skill, those of the user, the
/// rules and the tools follow in this order, and only what is empty is left out.
pub proof fn law_five_sections(skill: SkillV, tools: Seq<ToolDefinitionV>, custom: Seq<char>)
    ensures
        ({
            let sorted = sorted_by(sections_of(skill, tools, custom), section_le());
            let allowed = allowed_tools(tools, skill.tools_allow);
            let identity = SectionV {
                name: "identity"@,
                order: ORDER_IDENTITY,
                text: identity_text(),
            };
            let persona = SectionV { name: "persona"@, order: ORDER_PERSONA, text: skill.body };
            let own = SectionV { name: "custom"@, order: ORDER_CUSTOM, text: custom };
            let rules = SectionV { name: "rules"@, order: ORDER_RULES, text: rules_text() };
            let guides = SectionV {
                name: "tools"@,
                order: ORDER_TOOLS,
                text: tool_text(allowed),
            };
            &&& sorted == sections_of(skill, tools, custom)
            &&& sorted.first() == identity
            &&& sorted.contains(rules)
            &&& skill.body.len() > 0 && custom.len() > 0 && allowed.len() > 0 ==> sorted == seq![
                identity,
                persona,
                own,
                rules,
                guides,
            ]
            &&& skill.body.len() > 0 && custom.len() == 0 && allowed.len() > 0 ==> sorted == seq![
                identity,
                persona,
                rules,
                guides,
            ]
        }),
{
    let s = sections_of(skill, tools, custom);
    law_sorted_stays(s, section_le());
    let rules = SectionV { name: "rules"@, order: ORDER_RULES, text: rules_text() };
    let k: int = 1 + (if skill.body.len() > 0 {
        1int
    } else {
        0
    }) + (if custom.len() > 0 {
        1int
    } else {
        0
    });
    assert(s[k] == rules);
}

/// Of a tool, its name and how it is to be used enter the prompt, and nothing else: tools that agree
/// on these give the same sections.
pub proof fn law_only_guidance_is_shown(
    skill: SkillV,
    a: Seq<ToolDefinitionV>,
    b: Seq<ToolDefinitionV>,
    custom: Seq<char>,
)
    requires
        a.len() == b.len(),
        forall|i: int|
            0 <= i < a.len() ==> (#[trigger] a[i]).name == (#[trigger] b[i]).name && a[i].guidance
                == b[i].guidance,
    ensures
        sections_of(skill, a, custom) == sections_of(skill, b, custom),
{
    lemma_same_lines(a, b, skill.tools_allow);
    let x = allowed_tools(a, skill.tools_allow);
    let y = allowed_tools(b, skill.tools_allow);
    assert(tool_text(x) == tool_text(y));
}

proof fn lemma_same_lines(a: Seq<ToolDefinitionV>, b: Seq<ToolDefinitionV>, allow: Seq<Seq<char>>)
    requires
        a.len() == b.len(),
        forall|i: int|
            0 <= i < a.len() ==> (#[trigger] a[i]).name == (#[trigger] b[i]).name && a[i].guidance
                == b[i].guidance,
    ensures
        tool_lines(allowed_tools(a, allow)) == tool_lines(allowed_tools(b, allow)),
        allowed_tools(a, allow).len() == allowed_tools(b, allow).len(),
    decreases a.len(),
{
    if a.len() > 0 {
        let p = a.drop_last();
        let q = b.drop_last();
        assert forall|i: int| 0 <= i < p.len() implies (#[trigger] p[i]).name == (
        #[trigger] q[i]).name && p[i].guidance == q[i].guidance by {
            assert(p[i] == a[i] && q[i] == b[i]);
        }
        lemma_same_lines(p, q, allow);
        assert(a[a.len() - 1].name == b[b.len() - 1].name);
        let x = allowed_tools(p, allow);
        let y = allowed_tools(q, allow);
        assert(tool_lines(x.push(a.last())) =~= tool_lines(x).push(tool_line(a.last())));
        assert(tool_lines(y.push(b.last())) =~= tool_lines(y).push(tool_line(b.last())));
    }
}

/// The directory and the model are filled in, wherever the sections name them, before the variables
/// of the skill.
pub proof fn law_runtime_variables_are_filled(
    skill: SkillV,
    tools: Seq<ToolDefinitionV>,
    settings: SettingsV,
    model: Seq<char>,
)
    requires
        forall|i: int|
            0 <= i < skill.variables.len() ==> (#[trigger] skill.variables[i]).0 != "cwd"@
                && skill.variables[i].0 != "model"@,
    ensures
        ({
            let text = join(
                section_texts(sections_of(skill, tools, settings.custom)),
                "\n\n"@,
            );
            let rest = overridden(
                runtime_variables(settings.cwd, model),
                skill.variables,
            ).skip(2);
            turn_prompt(skill, tools, settings, model).system == fill_variables(
                replace(replace(text, "{{cwd}}"@, settings.cwd), "{{model}}"@, model),
                rest,
            )
        }),
{
    let runtime = runtime_variables(settings.cwd, model);
    let text = join(section_texts(sections_of(skill, tools, settings.custom)), "\n\n"@);
    law_five_sections(skill, tools, settings.custom);
    lemma_runtime_first(runtime, skill.variables);
    let all = overridden(runtime, skill.variables);
    assert(all.take(2) =~= runtime);
    assert(all =~= all.take(2) + all.skip(2));
    lemma_fill_both(text, all.take(2), all.skip(2));
    reveal_strlit("cwd");
    reveal_strlit("model");
    reveal_strlit("{{");
    reveal_strlit("}}");
    reveal_strlit("{{cwd}}");
    reveal_strlit("{{model}}");
    assert(variable_placeholder("cwd"@) =~= "{{cwd}}"@);
    assert(variable_placeholder("model"@) =~= "{{model}}"@);
    reveal_with_fuel(fill_variables, 3);
    assert(runtime.drop_last() =~= seq![("cwd"@, settings.cwd)]);
    assert(runtime.drop_last().drop_last() =~= Entries::empty());
}

/// Variables of other names leave those in front as they are.
proof fn lemma_runtime_first(base: Entries, extra: Entries)
    requires
        forall|i: int, j: int|
            0 <= i < extra.len() && 0 <= j < base.len() ==> (#[trigger] extra[i]).0 != (
            #[trigger] base[j]).0,
    ensures
        overridden(base, extra).len() >= base.len(),
        overridden(base, extra).take(base.len() as int) == base,
    decreases extra.len(),
{
    if extra.len() > 0 {
        let front = extra.drop_last();
        assert forall|i: int, j: int| 0 <= i < front.len() && 0 <= j < base.len() implies (
        #[trigger] front[i]).0 != (#[trigger] base[j]).0 by {
            assert(front[i] == extra[i]);
        }
        lemma_runtime_first(base, front);
        let so_far = overridden(base, front);
        let last = extra[extra.len() - 1];
        lemma_key_index(so_far, last.0, 0);
        let k = key_index(so_far, last.0, 0);
        assert(k >= base.len()) by {
            if k < base.len() {
                assert(so_far.take(base.len() as int)[k] == so_far[k]);
                assert(base[k].0 == last.0);
            }
        }
        assert(overridden(base, extra).take(base.len() as int) =~= base) by {
            assert forall|j: int| 0 <= j < base.len() implies #[trigger] overridden(
                base,
                extra,
            )[j] == base[j] by {
                assert(so_far.take(base.len() as int)[j] == so_far[j]);
            }
        }
    } else {
        assert(base.take(base.len() as int) =~= base);
    }
}

/// Filling in some variables and then others is filling in all of them.
proof fn lemma_fill_both(text: Seq<char>, a: Entries, b: Entries)
    ensures
        fill_variables(text, a + b) == fill_variables(fill_variables(text, a), b),
    decreases b.len(),
{
    if b.len() > 0 {
        assert((a + b).drop_last() =~= a + b.drop_last());
        assert((a + b).last() == b.last());
        lemma_fill_both(text, a, b.drop_last());
    } else {
        assert(a + b =~= a);
    }
}

/// What the prompt depends on: skills that agree on their instructions, their allow-list and their
/// variables have the same prompt, so requests of one skill begin alike.
pub proof fn law_prompt_is_stable(
    a: SkillV,
    b: SkillV,
    tools: Seq<ToolDefinitionV>,
    settings: SettingsV,
    model: Seq<char>,
)
    requires
        a.body == b.body,
        a.tools_allow == b.tools_allow,
        a.variables == b.variables,
    ensures
        turn_prompt(a, tools, settings, model) == turn_prompt(b, tools, settings, model),
{
}

/// A variable that is set again has its new value, and every other keeps the one that it had.
pub proof fn law_later_variables_win(
    base: Entries,
    extra: Entries,
    key: Seq<char>,
    value: Seq<char>,
    other: Seq<char>,
)
    ensures
        overridden(base, Seq::empty()) == base,
        lookup(overridden(base, extra.push((key, value))), key) == Some(value),
        other != key ==> lookup(overridden(base, extra.push((key, value))), other) == lookup(
            overridden(base, extra),
            other,
        ),
{
    assert(extra.push((key, value)).drop_last() =~= extra);
    law_assign_then_lookup(overridden(base, extra), key, value, other);
}

/// Variables that are not set again keep the value that they had.
pub proof fn law_variables_not_set_again_stay(base: Entries, extra: Entries, key: Seq<char>)
    requires
        forall|i: int| 0 <= i < extra.len() ==> (#[trigger] extra[i]).0 != key,
    ensures
        lookup(overridden(base, extra), key) == lookup(base, key),
    decreases extra.len(),
{
    if extra.len() > 0 {
        assert(extra.last() == extra[extra.len() - 1]);
        law_variables_not_set_again_stay(base, extra.drop_last(), key);
        law_assign_then_lookup(
            overridden(base, extra.drop_last()),
            extra.last().0,
            extra.last().1,
            key,
        );
    }
}

/// The prompt tells of every tool, in order, by its name and how to use it.
pub proof fn law_every_tool_is_told_of(tools: Seq<ToolDefinitionV>, t: ToolDefinitionV)
    ensures
        t.guidance.len() > 0 ==> tool_lines(tools.push(t)) == tool_lines(tools).push(
            "- `"@ + t.name + "`: "@ + t.guidance,
        ),
        t.guidance.len() == 0 ==> tool_lines(tools.push(t)) == tool_lines(tools).push(
            "- `"@ + t.name + "`"@,
        ),
        tool_lines(Seq::empty()).len() == 0,
        tool_text(tools) == "## Available tools\n\nYou may call these tools:\n\n"@ + join(
            tool_lines(tools),
            "\n"@,
        ) + "\n\nCall a tool by name with JSON arguments. Wait for the result before proceeding."@,
{
    assert(tool_lines(tools.push(t)) =~= tool_lines(tools).push(tool_line(t)));
}

/// What a prompt is made of: the identity, the instructions of the skill, the words of the user's
/// own, the rules, and the tools that the skill allows; what is empty is left out.
pub proof fn law_prompts_hold_what_is_set(
    skill: SkillV,
    tools: Seq<ToolDefinitionV>,
    custom: Seq<char>,
)
    ensures
        ({
            let sections = sections_of(skill, tools, custom);
            let allowed = allowed_tools(tools, skill.tools_allow);
            &&& sections[0].text == identity_text()
            &&& skill.body.len() > 0 ==> sections[1].text == skill.body
            &&& custom.len() > 0 ==> exists|i: int|
                0 <= i < sections.len() && (#[trigger] sections[i]).text == custom
            &&& exists|i: int|
                0 <= i < sections.len() && (#[trigger] sections[i]).text == rules_text()
            &&& allowed.len() > 0 ==> sections.last().text == tool_text(allowed)
            &&& sections.len() == 2 + (if skill.body.len() > 0 {
                1int
            } else {
                0
            }) + (if custom.len() > 0 {
                1int
            } else {
                0
            }) + (if allowed.len() > 0 {
                1int
            } else {
                0
            })
        }),
        prompt_with(skill, tools, custom, Seq::empty(), Seq::empty()).tools == allowed_tools(
            tools,
            skill.tools_allow,
        ),
{
    let sections = sections_of(skill, tools, custom);
    let b: int = if skill.body.len() > 0 {
        1
    } else {
        0
    };
    let c: int = if custom.len() > 0 {
        1
    } else {
        0
    };
    assert(custom.len() > 0 ==> sections[1 + b].text == custom);
    assert(sections[1 + b + c].text == rules_text());
}

/// A turn is prompted with the folder that it works in and the name of the model as variables, which
/// the skill may set again.
pub proof fn law_turns_know_where_they_are(cwd: Seq<char>, model: Seq<char>)
    ensures
        lookup(runtime_variables(cwd, model), "cwd"@) == Some(cwd),
        lookup(runtime_variables(cwd, model), "model"@) == Some(model),
        unset().cwd == "."@,
        unset().custom.len() == 0,
{
    reveal_strlit("cwd");
    reveal_strlit("model");
    assert("cwd"@.len() == 3 && "model"@.len() == 5);
    let v = runtime_variables(cwd, model);
    lemma_key_index(v, "cwd"@, 0);
    lemma_key_index(v, "model"@, 0);
    assert(v[0].0 == "cwd"@ && v[1].0 == "model"@);
}

/// The prompt is its sections in order, an empty line between each two, with the variables filled.
pub proof fn law_sections_are_joined_and_filled(sections: Seq<SectionV>, variables: Entries)
    ensures
        ({
            let sorted = sorted_by(sections, section_le());
            &&& system_text(sections, variables) == fill_variables(
                join(section_texts(sorted), "\n\n"@),
                variables,
            )
            &&& section_texts(sorted).len() == sections.len()
            &&& forall|i: int|
                0 <= i < sections.len() ==> #[trigger] section_texts(sorted)[i] == sorted[i].text
        }),
{
    assert(is_order(section_le()));
    law_sorting_orders(sections, section_le());
}

/// Without settings of a turn the prompt is as with none set: the folder is the present one, the
/// skill's own variables win over it, and those given besides win over both.
pub proof fn law_prompts_without_settings(
    skill: SkillV,
    tools: Seq<ToolDefinitionV>,
    extra: Entries,
)
    ensures
        prompt_of(skill, tools, extra).system == system_text(
            sections_of(skill, tools, Seq::empty()),
            overridden(overridden(seq![("cwd"@, "."@)], skill.variables), extra),
        ),
        prompt_of(skill, tools, extra).tools == allowed_tools(tools, skill.tools_allow),
{
}

} // verus!
