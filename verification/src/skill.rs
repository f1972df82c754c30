//! Skills as they are written down: a head in YAML between two lines of dashes, and the
//! instructions under it.
use crate::sorting::{
    in_order, is_order, law_sorting_orders, law_text_order, lemma_insert_at, sorted_by,
    text_at_most, text_le,
};
use crate::text::{
    alphanumeric, char_is_alphanumeric, chars_of, contains, find, find_chars, is_space,
    law_strip_start, law_what_stands_there_is_found, law_white_space_is_blank, lemma_find_from,
    listed, lower_text, lowercase, occurs_at, same, starts_with, string_of, strip_start,
    strip_start_text, texts, trim, trim_text, CharClass,
};
use crate::textmap::{assign, law_assign_then_lookup, lookup, Entries, TextMap};
use crate::types::{
    mode_name, ExecMode, Skill, SkillStep, SkillStepV, SkillV, StepAction, StepActionV,
    ThinkLevel,
};
use crate::views::{opt_str, opt_view, views};
use crate::yaml::{
    as_json, item_models, lemma_item_models, lemma_pair_models, pair_models, pair_view, parse_yaml,
    yaml_documents, yaml_to_json, Node, NodeV,
};
use vstd::prelude::*;

verus! {

/// The head and the instructions of a skill file. The head stands between a first line of dashes
/// and the next one; without these, everything is instructions.
pub open spec fn parts_of(content: Seq<char>) -> (Seq<char>, Seq<char>) {
    let trimmed = strip_start(content, CharClass::Space);
    if !occurs_at(trimmed, "---"@, 0) {
        (Seq::empty(), content)
    } else {
        let after = trimmed.skip(3);
        match find(after, "\n---"@) {
            Some(end) => (
                trim(after.take(end)),
                strip_start(after.skip(end + 4), CharClass::Only('\n')),
            ),
            None => (Seq::empty(), content),
        }
    }
}

/// Splits a skill file into its head and its instructions.
pub fn split_frontmatter(content: &str) -> (r: (String, String))
    ensures
        (r.0@, r.1@) == parts_of(content@),
{
    let trimmed = strip_start_text(content, CharClass::Space);
    if !starts_with(trimmed.as_str(), "---") {
        return (String::new(), content.to_owned());
    }
    proof {
        reveal_strlit("---");
        reveal_strlit("\n---");
    }
    let v = chars_of(trimmed.as_str());
    let after = string_of(&v, 3, v.len());
    assert(after@ =~= trimmed@.skip(3));
    let a = chars_of(after.as_str());
    let mark = chars_of("\n---");
    match find_chars(&a, &mark, 0) {
        Some(end) => {
            proof {
                lemma_find_from(a@, mark@, 0);
            }
            let head = string_of(&a, 0, end);
            assert(head@ =~= after@.take(end as int));
            let rest = string_of(&a, end + 4, a.len());
            assert(rest@ =~= after@.skip(end + 4));
            (trim_text(head.as_str()), strip_start_text(rest.as_str(), CharClass::Only('\n')))
        },
        None => (String::new(), content.to_owned()),
    }
}

/// The mode that a name in small letters means; a plan where it means none.
pub open spec fn mode_named(lower: Seq<char>) -> ExecMode {
    if lower == "workflow"@ {
        ExecMode::Workflow
    } else if lower == "todo"@ {
        ExecMode::Todo
    } else {
        ExecMode::Plan
    }
}

/// The mode that a name in small letters means.
pub fn mode_of(lower: &str) -> (r: ExecMode)
    ensures
        r == mode_named(lower@),
{
    if same(lower, "workflow") {
        ExecMode::Workflow
    } else if same(lower, "todo") {
        ExecMode::Todo
    } else {
        ExecMode::Plan
    }
}

/// The mode that a name means, whatever the case of its letters.
pub fn parse_mode(s: &str) -> (r: ExecMode)
    ensures
        r == mode_named(lowercase(s@)),
{
    mode_of(lower_text(s).as_str())
}

/// How much reasoning a word in small letters means; none where it means nothing.
pub open spec fn think_named(lower: Seq<char>) -> ThinkLevel {
    if lower == "low"@ {
        ThinkLevel::Low
    } else if lower == "high"@ || lower == "true"@ || lower == "yes"@ || lower == "1"@ {
        ThinkLevel::High
    } else if lower == "max"@ {
        ThinkLevel::Max
    } else {
        ThinkLevel::Off
    }
}

/// How much reasoning a word in small letters means.
pub fn think_of(lower: &str) -> (r: ThinkLevel)
    ensures
        r == think_named(lower@),
{
    if same(lower, "low") {
        ThinkLevel::Low
    } else if same(lower, "high") || same(lower, "true") || same(lower, "yes") || same(
        lower,
        "1",
    ) {
        ThinkLevel::High
    } else if same(lower, "max") {
        ThinkLevel::Max
    } else {
        ThinkLevel::Off
    }
}

/// How much reasoning a field of the head asks for: a truth value, or a word.
pub open spec fn think_asked(y: NodeV) -> ThinkLevel {
    match y {
        NodeV::Bool(b) => if b {
            ThinkLevel::High
        } else {
            ThinkLevel::Off
        },
        NodeV::Text(t) => think_named(lowercase(t)),
        _ => ThinkLevel::Off,
    }
}

/// How much reasoning a field of the head asks for.
pub fn parse_think(y: Option<&Node>) -> (r: ThinkLevel)
    ensures
        r == think_asked(node_or_bad(y)),
{
    match y {
        Some(Node::Bool(b)) => if *b {
            ThinkLevel::High
        } else {
            ThinkLevel::Off
        },
        Some(Node::Text(t)) => think_of(lower_text(t.as_str()).as_str()),
        _ => ThinkLevel::Off,
    }
}

/// The value of a field that may not be there.
pub open spec fn node_or_bad(y: Option<&Node>) -> NodeV {
    match y {
        Some(n) => n@,
        None => NodeV::Bad,
    }
}

/// The texts among some values.
pub open spec fn texts_among(items: Seq<NodeV>) -> Seq<Seq<char>>
    decreases items.len(),
{
    if items.len() == 0 {
        Seq::empty()
    } else {
        match items.last() {
            NodeV::Text(t) => texts_among(items.drop_last()).push(t),
            _ => texts_among(items.drop_last()),
        }
    }
}

/// The texts of a list; none in what is no list.
pub fn parse_string_list(y: Option<&Node>) -> (r: Vec<String>)
    ensures
        texts(r@) == texts_among(node_or_bad(y).items()),
{
    let mut r: Vec<String> = Vec::new();
    assert(texts(r@) =~= Seq::empty());
    match y {
        Some(Node::Array(items)) => {
            let ghost all = item_models(items@);
            proof {
                lemma_item_models(items@);
            }
            let mut i: usize = 0;
            assert(all.take(0) =~= Seq::empty());
            while i < items.len()
                invariant
                    i <= items@.len(),
                    all == views(items@),
                    texts(r@) == texts_among(all.take(i as int)),
                decreases items@.len() - i,
            {
                let ghost before = texts(r@);
                assert(all.take(i + 1).drop_last() =~= all.take(i as int));
                assert(all[i as int] == items@[i as int]@);
                match &items[i] {
                    Node::Text(t) => {
                        r.push(t.clone());
                        assert(texts(r@) =~= before.push(t@));
                    },
                    _ => {
                        assert(!(all[i as int] is Text));
                    },
                }
                i += 1;
            }
            assert(all.take(i as int) =~= all);
        },
        _ => {},
    }
    r
}

/// The pairs of texts among some pairs.
pub open spec fn entries_among(pairs: Seq<(NodeV, NodeV)>) -> Entries
    decreases pairs.len(),
{
    if pairs.len() == 0 {
        Seq::empty()
    } else {
        match (pairs.last().0, pairs.last().1) {
            (NodeV::Text(k), NodeV::Text(v)) => assign(entries_among(pairs.drop_last()), k, v),
            _ => entries_among(pairs.drop_last()),
        }
    }
}

/// The variables of a hash: its pairs of texts. None in what is no hash.
pub fn parse_variables(y: Option<&Node>) -> (r: TextMap)
    ensures
        r@ == entries_among(node_or_bad(y).pairs()),
{
    let mut r = TextMap::new();
    match y {
        Some(Node::Hash(pairs)) => {
            let ghost all = pair_models(pairs@);
            proof {
                lemma_pair_models(pairs@);
            }
            let mut i: usize = 0;
            assert(all.take(0) =~= Seq::empty());
            while i < pairs.len()
                invariant
                    i <= pairs@.len(),
                    all == pairs@.map_values(|e: (Node, Node)| pair_view(e)),
                    r@ == entries_among(all.take(i as int)),
                decreases pairs@.len() - i,
            {
                assert(all.take(i + 1).drop_last() =~= all.take(i as int));
                assert(all[i as int] == pair_view(pairs@[i as int]));
                match (&pairs[i].0, &pairs[i].1) {
                    (Node::Text(k), Node::Text(v)) => {
                        r.insert(k.clone(), v.clone());
                    },
                    _ => {
                        assert(!(all[i as int].0 is Text && all[i as int].1 is Text));
                    },
                }
                i += 1;
            }
            assert(all.take(i as int) =~= all);
        },
        _ => {},
    }
    r
}

/// The text of a field, or `default`.
pub open spec fn text_or(y: NodeV, default: Seq<char>) -> Seq<char> {
    match y.text() {
        Some(t) => t,
        None => default,
    }
}

/// The step that an item of the list of steps describes: one that names a tool or holds a question
/// for the model; others describe none.
pub open spec fn step_of(y: NodeV) -> Option<SkillStepV> {
    let id = text_or(y.at("id"@), "step"@);
    let when = y.at("when"@).text();
    match y.at("tool"@).text() {
        Some(tool) => Some(
            SkillStepV {
                id,
                action: StepActionV::Tool { tool, args: as_json(y.at("args"@)) },
                when,
            },
        ),
        None => match y.at("llm_judge"@).text() {
            Some(prompt) => Some(
                SkillStepV {
                    id,
                    action: StepActionV::LlmJudge {
                        prompt,
                        input: text_or(y.at("input"@), ""@),
                    },
                    when,
                },
            ),
            None => None,
        },
    }
}

/// The steps that some items describe.
pub open spec fn steps_among(items: Seq<NodeV>) -> Seq<SkillStepV>
    decreases items.len(),
{
    if items.len() == 0 {
        Seq::empty()
    } else {
        match step_of(items.last()) {
            Some(step) => steps_among(items.drop_last()).push(step),
            None => steps_among(items.drop_last()),
        }
    }
}

fn owned_or(t: Option<&String>, default: &str) -> (r: String)
    ensures
        r@ == match t {
            Some(t) => t@,
            None => default@,
        },
{
    match t {
        Some(t) => t.clone(),
        None => default.to_owned(),
    }
}

fn owned(t: Option<&String>) -> (r: Option<String>)
    ensures
        opt_view(r) == match t {
            Some(t) => Some(t@),
            None => None::<Seq<char>>,
        },
{
    match t {
        Some(t) => Some(t.clone()),
        None => None,
    }
}

/// The step that an item of the list of steps describes.
fn parse_step(y: &Node) -> (r: Option<SkillStep>)
    ensures
        opt_view(r) == step_of(y@),
{
    let id = owned_or(y.get_text("id"), "step");
    let when = owned(y.get_text("when"));
    match y.get_text("tool") {
        Some(tool) => {
            let args = match y.get("args") {
                Some(a) => yaml_to_json(a),
                None => yaml_to_json(&Node::Bad),
            };
            Some(SkillStep { id, action: StepAction::Tool { tool: tool.clone(), args }, when })
        },
        None => match y.get_text("llm_judge") {
            Some(prompt) => {
                let input = owned_or(y.get_text("input"), "");
                Some(
                    SkillStep {
                        id,
                        action: StepAction::LlmJudge { prompt: prompt.clone(), input },
                        when,
                    },
                )
            },
            None => None,
        },
    }
}

/// The steps that a list describes; none in what is no list.
pub fn parse_steps(y: Option<&Node>) -> (r: Vec<SkillStep>)
    ensures
        views(r@) == steps_among(node_or_bad(y).items()),
{
    let mut r: Vec<SkillStep> = Vec::new();
    assert(views(r@) =~= Seq::empty());
    match y {
        Some(Node::Array(items)) => {
            let ghost all = item_models(items@);
            proof {
                lemma_item_models(items@);
            }
            let mut i: usize = 0;
            assert(all.take(0) =~= Seq::empty());
            while i < items.len()
                invariant
                    i <= items@.len(),
                    all == views(items@),
                    views(r@) == steps_among(all.take(i as int)),
                decreases items@.len() - i,
            {
                let ghost before = views(r@);
                assert(all.take(i + 1).drop_last() =~= all.take(i as int));
                assert(all[i as int] == items@[i as int]@);
                match parse_step(&items[i]) {
                    Some(step) => {
                        let ghost sv = step@;
                        r.push(step);
                        assert(views(r@) =~= before.push(sv));
                    },
                    None => {},
                }
                i += 1;
            }
            assert(all.take(i as int) =~= all);
        },
        _ => {},
    }
    r
}

/// The name of a skill whose head names none: that of its file.
pub open spec fn file_name(stem: Option<Seq<char>>) -> Seq<char> {
    match stem {
        Some(s) => s,
        None => "unnamed"@,
    }
}

/// The skill that a head describes. It is wrong only where it has no description.
pub open spec fn skill_described(meta: NodeV, body: Seq<char>, stem: Option<Seq<char>>) -> Result<
    SkillV,
    Seq<char>,
> {
    match meta.at("description"@).text() {
        Some(description) => Ok(
            SkillV {
                name: text_or(meta.at("name"@), file_name(stem)),
                description,
                when_to_use: meta.at("whenToUse"@).text(),
                mode: mode_named(lowercase(text_or(meta.at("mode"@), "plan"@))),
                think: think_asked(meta.at("think"@)),
                tools_allow: texts_among(meta.at("tools"@).at("allow"@).items()),
                variables: entries_among(meta.at("variables"@).pairs()),
                body: trim(body),
                steps: steps_among(meta.at("steps"@).items()),
            },
        ),
        None => Err("missing required field: description"@),
    }
}

/// The skill that a file describes, or what is wrong with the file.
pub open spec fn skill_of(content: Seq<char>, stem: Option<Seq<char>>) -> Result<
    SkillV,
    Seq<char>,
> {
    let (head, body) = parts_of(content);
    match yaml_documents(head) {
        Ok(docs) => if docs.len() == 0 {
            Err("empty frontmatter"@)
        } else {
            skill_described(docs[0], body, stem)
        },
        Err(e) => Err("YAML parse error: "@ + e),
    }
}

/// What the outcome of reading a skill stands for.
pub open spec fn skill_view(r: Result<Skill, String>) -> Result<SkillV, Seq<char>> {
    match r {
        Ok(s) => Ok(s@),
        Err(e) => Err(e@),
    }
}

/// What an optional text stands for.
pub open spec fn stem_view(stem: Option<&str>) -> Option<Seq<char>> {
    match stem {
        Some(s) => Some(s@),
        None => None,
    }
}

/// The skill that a head describes.
pub fn describe_skill(meta: &Node, body: &str, stem: Option<&str>) -> (r: Result<Skill, String>)
    ensures
        skill_view(r) == skill_described(meta@, body@, stem_view(stem)),
{
    let description = match meta.get_text("description") {
        Some(d) => d.clone(),
        None => {
            return Err("missing required field: description".to_owned());
        },
    };
    let name = match meta.get_text("name") {
        Some(n) => n.clone(),
        None => match stem {
            Some(s) => s.to_owned(),
            None => "unnamed".to_owned(),
        },
    };
    let when_to_use = owned(meta.get_text("whenToUse"));
    let mode = parse_mode(owned_or(meta.get_text("mode"), "plan").as_str());
    let think = parse_think(meta.get("think"));
    let allow = match meta.get("tools") {
        Some(tools) => tools.get("allow"),
        None => None,
    };
    let tools_allow = parse_string_list(allow);
    let variables = parse_variables(meta.get("variables"));
    let steps = parse_steps(meta.get("steps"));
    Ok(
        Skill {
            name,
            description,
            when_to_use,
            mode,
            think,
            tools_allow,
            variables,
            body: trim_text(body),
            steps,
        },
    )
}

/// The skill that a file describes, or what is wrong with the file. `stem` is the name of the file
/// without its ending.
pub fn parse_skill_content(content: &str, stem: Option<&str>) -> (r: Result<Skill, String>)
    ensures
        skill_view(r) == skill_of(content@, stem_view(stem)),
{
    let (head, body) = split_frontmatter(content);
    match parse_yaml(head.as_str()) {
        Ok(Some(meta)) => describe_skill(&meta, body.as_str(), stem),
        Ok(None) => Err("empty frontmatter".to_owned()),
        Err(e) => {
            let mut m = "YAML parse error: ".to_owned();
            m.push_str(e.as_str());
            Err(m)
        },
    }
}

/// The order of skills: by name.
pub open spec fn skill_le() -> spec_fn(SkillV, SkillV) -> bool {
    |a: SkillV, b: SkillV| text_le(a.name, b.name)
}

/// The skills among what came of reading files.
pub open spec fn skills_among(parsed: Seq<Result<SkillV, Seq<char>>>) -> Seq<SkillV>
    decreases parsed.len(),
{
    if parsed.len() == 0 {
        Seq::empty()
    } else {
        match parsed.last() {
            Ok(skill) => skills_among(parsed.drop_last()).push(skill),
            Err(_) => skills_among(parsed.drop_last()),
        }
    }
}

/// What came of reading some files.
pub open spec fn skill_views(parsed: Seq<Result<Skill, String>>) -> Seq<
    Result<SkillV, Seq<char>>,
> {
    parsed.map_values(|r: Result<Skill, String>| skill_view(r))
}

/// The skills of a directory, sorted by name. A file that is wrong is left out and spoils nothing
/// else.
pub fn load_dir(parsed: Vec<Result<Skill, String>>) -> (r: Vec<Skill>)
    ensures
        views(r@) == sorted_by(skills_among(skill_views(parsed@)), skill_le()),
{
    let ghost all = skill_views(parsed@);
    let ghost le = skill_le();
    let mut rest = parsed;
    let n: usize = rest.len();
    let mut r: Vec<Skill> = Vec::new();
    let mut i: usize = 0;
    assert(all.take(0) =~= Seq::empty());
    assert(views(r@) =~= Seq::empty());
    assert(skill_views(rest@) =~= all.skip(0));
    while i < n
        invariant
            i <= n,
            n == all.len(),
            le == skill_le(),
            skill_views(rest@) == all.skip(i as int),
            views(r@) == sorted_by(skills_among(all.take(i as int)), le),
        decreases n - i,
    {
        let ghost before = skill_views(rest@);
        assert(rest@.len() == before.len());
        let item = rest.remove(0);
        assert(before[0] == skill_view(item));
        assert(skill_views(rest@) =~= before.skip(1));
        assert(all.skip(i as int).skip(1) =~= all.skip(i + 1));
        assert(skill_view(item) == all[i as int]);
        assert(all.take(i + 1).drop_last() =~= all.take(i as int));
        match item {
            Ok(x) => {
                let ghost s = views(r@);
                let ghost found = skills_among(all.take(i as int));
                let mut k: usize = r.len();
                while k > 0 && !text_at_most(r[k - 1].name.as_str(), x.name.as_str())
                    invariant
                        k <= r@.len(),
                        s == views(r@),
                        le == skill_le(),
                        forall|j: int| k <= j < s.len() ==> !le(#[trigger] s[j], x@),
                    decreases k,
                {
                    k -= 1;
                    assert(s[k as int] == r@[k as int]@);
                }
                proof {
                    assert(found.push(x@).drop_last() =~= found);
                    if k > 0 {
                        assert(s[k - 1] == r@[k - 1]@);
                    }
                    lemma_insert_at(s, x@, le, k as int);
                }
                let ghost xv = x@;
                r.insert(k, x);
                assert(views(r@) =~= s.insert(k as int, xv));
            },
            Err(_) => {},
        }
        i += 1;
    }
    assert(all.take(i as int) =~= all);
    r
}

/// Whether a character can stand in the name of a step.
pub open spec fn name_char(c: char) -> bool {
    alphanumeric(c) || c == '_' || c == '-'
}

/// How long the name is that a text begins with.
pub open spec fn name_len(s: Seq<char>) -> nat
    decreases s.len(),
{
    if s.len() == 0 || !name_char(s[0]) {
        0
    } else {
        1 + name_len(s.drop_first())
    }
}

/// A name is no longer than the text that it begins.
pub proof fn lemma_name_len(s: Seq<char>)
    ensures
        name_len(s) <= s.len(),
    decreases s.len(),
{
    if s.len() > 0 && name_char(s[0]) {
        lemma_name_len(s.drop_first());
    }
}

/// The steps that a text speaks of: the names behind `steps.`.
pub open spec fn step_refs(s: Seq<char>) -> Seq<Seq<char>>
    decreases s.len(),
{
    match find(s, "steps."@) {
        Some(at) => {
            proof {
                reveal_strlit("steps.");
                lemma_find_from(s, "steps."@, 0);
                lemma_name_len(s.skip(at + 6));
            }
            let rest = s.skip(at + 6);
            let n = name_len(rest) as int;
            let more = step_refs(rest.skip(n));
            if n > 0 {
                seq![rest.take(n)] + more
            } else {
                more
            }
        },
        None => Seq::empty(),
    }
}

/// The steps that a text speaks of.
pub fn extract_step_refs(text: &str) -> (r: Vec<String>)
    ensures
        texts(r@) == step_refs(text@),
{
    let v = chars_of(text);
    let mark = chars_of("steps.");
    proof {
        reveal_strlit("steps.");
    }
    let mut r: Vec<String> = Vec::new();
    let mut i: usize = 0;
    let ghost all = step_refs(text@);
    assert(v@.skip(0) =~= text@);
    assert(texts(r@) + step_refs(v@.skip(0)) =~= all);
    while i <= v.len()
        invariant
            i <= v@.len(),
            mark@ == "steps."@,
            mark@.len() == 6,
            texts(r@) + step_refs(v@.skip(i as int)) == all,
        ensures
            texts(r@) == all,
        decreases v@.len() - i,
    {
        let tail = string_of(&v, i, v.len());
        assert(tail@ =~= v@.skip(i as int));
        let t = chars_of(tail.as_str());
        match find_chars(&t, &mark, 0) {
            Some(at) => {
                proof {
                    lemma_find_from(t@, mark@, 0);
                }
                let from: usize = i + at + 6;
                let ghost rest = v@.skip(i as int).skip(at + 6);
                assert(rest =~= v@.skip(from as int));
                let mut j: usize = from;
                while j < v.len() && (char_is_alphanumeric(v[j]) || v[j] == '_' || v[j] == '-')
                    invariant
                        from <= j <= v@.len(),
                        rest == v@.skip(from as int),
                        name_len(rest) == (j - from) + name_len(v@.skip(j as int)),
                    decreases v@.len() - j,
                {
                    assert(v@.skip(j as int)[0] == v@[j as int]);
                    assert(v@.skip(j as int).drop_first() =~= v@.skip(j + 1));
                    j += 1;
                }
                proof {
                    if j < v@.len() {
                        assert(v@.skip(j as int)[0] == v@[j as int]);
                    }
                    assert(name_len(v@.skip(j as int)) == 0);
                    assert(rest.skip(j - from) =~= v@.skip(j as int));
                }
                let ghost before = texts(r@);
                if j > from {
                    let id = string_of(&v, from, j);
                    assert(id@ =~= rest.take(j - from));
                    let ghost idv = id@;
                    r.push(id);
                    assert(texts(r@) =~= before.push(idv));
                    assert(before + (seq![idv] + step_refs(v@.skip(j as int))) =~= before.push(idv)
                        + step_refs(v@.skip(j as int)));
                }
                i = j;
            },
            None => {
                assert(texts(r@) + Seq::<Seq<char>>::empty() =~= texts(r@));
                break;
            },
        }
    }
    r
}

/// The warnings for tools in an allow-list that there are not.
pub open spec fn tool_warnings(allow: Seq<Seq<char>>, known: Seq<Seq<char>>) -> Seq<Seq<char>>
    decreases allow.len(),
{
    if allow.len() == 0 {
        Seq::empty()
    } else {
        let before = tool_warnings(allow.drop_last(), known);
        if known.contains(allow.last()) {
            before
        } else {
            before.push("tool `"@ + allow.last() + "` in allow-list is not registered"@)
        }
    }
}

/// The warnings that the mode of a skill gives rise to.
pub open spec fn mode_warnings(skill: SkillV) -> Seq<Seq<char>> {
    (if skill.mode != ExecMode::Plan && skill.steps.len() == 0 {
        seq!["mode "@ + mode_name(skill.mode) + " but no steps defined"@]
    } else {
        Seq::empty()
    }) + (if skill.mode == ExecMode::Workflow && skill.think != ThinkLevel::Off {
        seq![
            "workflow mode with think enabled — reasoning will only apply to llm_judge steps"@,
        ]
    } else {
        Seq::<Seq<char>>::empty()
    })
}

/// The warnings for references to steps that there are not.
pub open spec fn ref_warnings(
    refs: Seq<Seq<char>>,
    ids: Seq<Seq<char>>,
    id: Seq<char>,
    place: Seq<char>,
) -> Seq<Seq<char>>
    decreases refs.len(),
{
    if refs.len() == 0 {
        Seq::empty()
    } else {
        let before = ref_warnings(refs.drop_last(), ids, id, place);
        if ids.contains(refs.last()) {
            before
        } else {
            before.push("step `"@ + id + "` "@ + place + " references unknown step `"@ + refs.last() + "`"@)
        }
    }
}

/// The steps that the condition of a step speaks of.
pub open spec fn when_refs(step: SkillStepV) -> Seq<Seq<char>> {
    match step.when {
        Some(when) => step_refs(when),
        None => Seq::empty(),
    }
}

/// The steps that the input of a question speaks of.
pub open spec fn input_refs(step: SkillStepV) -> Seq<Seq<char>> {
    match step.action {
        StepActionV::LlmJudge { input, .. } => step_refs(input),
        _ => Seq::empty(),
    }
}

/// The warnings that one step gives rise to.
pub open spec fn warnings_of_step(step: SkillStepV, ids: Seq<Seq<char>>) -> Seq<Seq<char>> {
    ref_warnings(when_refs(step), ids, step.id, "when-condition"@) + ref_warnings(
        input_refs(step),
        ids,
        step.id,
        "llm_judge input"@,
    )
}

/// The warnings that some steps give rise to.
pub open spec fn step_warnings(steps: Seq<SkillStepV>, ids: Seq<Seq<char>>) -> Seq<Seq<char>>
    decreases steps.len(),
{
    if steps.len() == 0 {
        Seq::empty()
    } else {
        step_warnings(steps.drop_last(), ids) + warnings_of_step(steps.last(), ids)
    }
}

/// The names of some steps.
pub open spec fn step_ids(steps: Seq<SkillStepV>) -> Seq<Seq<char>> {
    steps.map_values(|s: SkillStepV| s.id)
}

/// The warnings for what a skill has to say of itself and does not.
pub open spec fn field_warnings(skill: SkillV) -> Seq<Seq<char>> {
    (if skill.name.len() == 0 {
        seq!["required field `name` is empty"@]
    } else {
        Seq::empty()
    }) + (if skill.description.len() == 0 {
        seq!["required field `description` is empty"@]
    } else {
        Seq::empty()
    })
}

/// Everything about a skill that looks wrong.
pub open spec fn warnings_of(skill: SkillV, known: Seq<Seq<char>>) -> Seq<Seq<char>> {
    field_warnings(skill) + tool_warnings(skill.tools_allow, known) + mode_warnings(skill) + step_warnings(
        skill.steps,
        step_ids(skill.steps),
    )
}

/// Adds the warnings for references to steps that there are not.
fn warn_refs(
    warnings: &mut Vec<String>,
    refs: &Vec<String>,
    ids: &Vec<String>,
    id: &str,
    place: &str,
)
    ensures
        texts(final(warnings)@) == texts(old(warnings)@) + ref_warnings(
            texts(refs@),
            texts(ids@),
            id@,
            place@,
        ),
{
    let ghost first = texts(warnings@);
    let ghost all = texts(refs@);
    let mut i: usize = 0;
    assert(all.take(0) =~= Seq::empty());
    assert(first + Seq::<Seq<char>>::empty() =~= first);
    while i < refs.len()
        invariant
            i <= refs@.len(),
            all == texts(refs@),
            texts(warnings@) == first + ref_warnings(all.take(i as int), texts(ids@), id@, place@),
        decreases refs@.len() - i,
    {
        let ghost before = texts(warnings@);
        let ghost done = ref_warnings(all.take(i as int), texts(ids@), id@, place@);
        assert(all.take(i + 1).drop_last() =~= all.take(i as int));
        if !listed(ids, refs[i].as_str()) {
            let mut w = "step `".to_owned();
            w.push_str(id);
            w.push_str("` ");
            w.push_str(place);
            w.push_str(" references unknown step `");
            w.push_str(refs[i].as_str());
            w.push_str("`");
            let ghost wv = w@;
            warnings.push(w);
            assert(texts(warnings@) =~= before.push(wv));
            assert(first + done.push(wv) =~= (first + done).push(wv));
        }
        i += 1;
    }
    assert(all.take(i as int) =~= all);
}

/// Adds the warnings that one step gives rise to.
fn warn_step(warnings: &mut Vec<String>, step: &SkillStep, ids: &Vec<String>)
    ensures
        texts(final(warnings)@) == texts(old(warnings)@) + warnings_of_step(step@, texts(ids@)),
{
    let ghost first = texts(warnings@);
    let when = match &step.when {
        Some(when) => extract_step_refs(when.as_str()),
        None => Vec::new(),
    };
    assert(texts(when@) =~= when_refs(step@));
    warn_refs(warnings, &when, ids, step.id.as_str(), "when-condition");
    let input = match &step.action {
        StepAction::LlmJudge { prompt: _, input } => extract_step_refs(input.as_str()),
        StepAction::Tool { tool: _, args: _ } => Vec::new(),
    };
    assert(texts(input@) =~= input_refs(step@));
    warn_refs(warnings, &input, ids, step.id.as_str(), "llm_judge input");
    assert(texts(warnings@) =~= first + warnings_of_step(step@, texts(ids@)));
}

/// Everything about a skill that looks wrong: a name or a description that is missing, tools that
/// there are not, a mode that does not fit, and references to steps that there are not. Nothing
/// where the skill is sound.
pub fn validate(skill: &Skill, known_tools: &Vec<String>) -> (r: Vec<String>)
    ensures
        texts(r@) == warnings_of(skill@, texts(known_tools@)),
        r@.len() == 0 <==> sound(skill@, texts(known_tools@)),
{
    proof {
        law_sound_skills_have_no_warnings(skill@, texts(known_tools@));
    }
    let mut warnings: Vec<String> = Vec::new();
    if chars_of(skill.name.as_str()).len() == 0 {
        warnings.push("required field `name` is empty".to_owned());
    }
    if chars_of(skill.description.as_str()).len() == 0 {
        warnings.push("required field `description` is empty".to_owned());
    }
    let ghost fields = field_warnings(skill@);
    assert(texts(warnings@) =~= fields);
    let ghost known = texts(known_tools@);
    let ghost allow = texts(skill.tools_allow@);
    let mut i: usize = 0;
    assert(allow.take(0) =~= Seq::empty());
    assert(fields + Seq::<Seq<char>>::empty() =~= fields);
    while i < skill.tools_allow.len()
        invariant
            i <= skill.tools_allow@.len(),
            known == texts(known_tools@),
            allow == texts(skill.tools_allow@),
            texts(warnings@) == fields + tool_warnings(allow.take(i as int), known),
        decreases skill.tools_allow@.len() - i,
    {
        let ghost before = texts(warnings@);
        assert(allow.take(i + 1).drop_last() =~= allow.take(i as int));
        if !listed(known_tools, skill.tools_allow[i].as_str()) {
            let mut w = "tool `".to_owned();
            w.push_str(skill.tools_allow[i].as_str());
            w.push_str("` in allow-list is not registered");
            let ghost wv = w@;
            warnings.push(w);
            assert(texts(warnings@) =~= before.push(wv));
            assert(before.push(wv) =~= fields + tool_warnings(allow.take(i as int), known).push(
                wv,
            ));
        }
        i += 1;
    }
    assert(allow.take(i as int) =~= allow);
    let ghost tools = texts(warnings@);
    if skill.mode != ExecMode::Plan && skill.steps.len() == 0 {
        let mut w = "mode ".to_owned();
        w.push_str(skill.mode.name());
        w.push_str(" but no steps defined");
        warnings.push(w);
    }
    if skill.mode == ExecMode::Workflow && skill.think.is_enabled() {
        warnings.push(
            "workflow mode with think enabled — reasoning will only apply to llm_judge steps".to_owned(),
        );
    }
    let ghost head = tools + mode_warnings(skill@);
    assert(texts(warnings@) =~= head);
    let ghost steps = views(skill.steps@);
    let mut ids: Vec<String> = Vec::new();
    let mut j: usize = 0;
    while j < skill.steps.len()
        invariant
            j <= skill.steps@.len(),
            steps == views(skill.steps@),
            texts(ids@) == step_ids(steps).take(j as int),
        decreases skill.steps@.len() - j,
    {
        let ghost before = texts(ids@);
        ids.push(skill.steps[j].id.clone());
        assert(step_ids(steps)[j as int] == skill.steps@[j as int].id@);
        assert(texts(ids@) =~= before.push(step_ids(steps)[j as int]));
        assert(step_ids(steps).take(j + 1) =~= step_ids(steps).take(j as int).push(
            step_ids(steps)[j as int],
        ));
        j += 1;
    }
    assert(texts(ids@) =~= step_ids(steps));
    let mut k: usize = 0;
    assert(steps.take(0) =~= Seq::empty());
    assert(head + Seq::<Seq<char>>::empty() =~= head);
    while k < skill.steps.len()
        invariant
            k <= skill.steps@.len(),
            steps == views(skill.steps@),
            texts(ids@) == step_ids(steps),
            texts(warnings@) == head + step_warnings(steps.take(k as int), step_ids(steps)),
        decreases skill.steps@.len() - k,
    {
        let ghost done = step_warnings(steps.take(k as int), step_ids(steps));
        let ghost more = warnings_of_step(steps[k as int], step_ids(steps));
        assert(steps.take(k + 1).drop_last() =~= steps.take(k as int));
        warn_step(&mut warnings, &skill.steps[k], &ids);
        assert((head + done) + more =~= head + (done + more));
        k += 1;
    }
    assert(steps.take(k as int) =~= steps);
    warnings
}

/// Where the skill of a name stands, from `i` on.
pub open spec fn skill_index(skills: Seq<SkillV>, name: Seq<char>, i: int) -> int
    decreases skills.len() - i,
{
    if i < 0 || i >= skills.len() {
        skills.len() as int
    } else if skills[i].name == name {
        i
    } else {
        skill_index(skills, name, i + 1)
    }
}

/// The skill of a name, where there is one.
pub fn find_by_name<'a>(skills: &'a Vec<Skill>, name: &str) -> (r: Option<&'a Skill>)
    ensures
        match r {
            Some(s) => {
                let k = skill_index(views(skills@), name@, 0);
                0 <= k < skills@.len() && s@ == views(skills@)[k]
            },
            None => skill_index(views(skills@), name@, 0) == skills@.len(),
        },
{
    let mut i: usize = 0;
    while i < skills.len()
        invariant
            i <= skills@.len(),
            skill_index(views(skills@), name@, i as int) == skill_index(views(skills@), name@, 0),
        decreases skills@.len() - i,
    {
        assert(views(skills@)[i as int].name == skills@[i as int].name@);
        if same(skills[i].name.as_str(), name) {
            return Some(&skills[i]);
        }
        i += 1;
    }
    None
}

/// The skill that is selected: the one of the name, or the first where there is none of it. None
/// where no name is given or there are no skills.
pub open spec fn selected(skills: Seq<SkillV>, name: Option<Seq<char>>) -> Option<SkillV> {
    match name {
        Some(n) => {
            let k = skill_index(skills, n, 0);
            if k < skills.len() {
                Some(skills[k])
            } else if skills.len() > 0 {
                Some(skills[0])
            } else {
                None
            }
        },
        None => None,
    }
}

/// Selects a skill by its name. Where there is no such skill, the first takes its place.
pub fn select_by_name<'a>(skills: &'a Vec<Skill>, name: Option<&str>) -> (r: Option<&'a Skill>)
    ensures
        match r {
            Some(s) => selected(views(skills@), opt_str(name)) == Some(s@),
            None => selected(views(skills@), opt_str(name)) is None,
        },
{
    match name {
        Some(n) => match find_by_name(skills, n) {
            Some(s) => Some(s),
            None => if skills.len() > 0 {
                assert(views(skills@)[0] == skills@[0]@);
                Some(&skills[0])
            } else {
                None
            },
        },
        None => None,
    }
}

/// The skills of a directory come in the order of their names.
pub proof fn law_skills_come_sorted(parsed: Seq<Result<SkillV, Seq<char>>>)
    ensures
        in_order(sorted_by(skills_among(parsed), skill_le()), skill_le()),
        sorted_by(skills_among(parsed), skill_le()).len() == skills_among(parsed).len(),
{
    law_text_order();
    assert(is_order(skill_le())) by {
        let le = skill_le();
        let tl = |a: Seq<char>, b: Seq<char>| text_le(a, b);
        assert forall|a: SkillV, b: SkillV| #[trigger] le(a, b) || le(b, a) by {
            assert(tl(a.name, b.name) || tl(b.name, a.name));
        }
        assert forall|a: SkillV, b: SkillV, c: SkillV| #[trigger] le(a, b) && #[trigger] le(b, c)
            implies le(a, c) by {
            assert(tl(a.name, b.name) && tl(b.name, c.name));
        }
    }
    law_sorting_orders(skills_among(parsed), skill_le());
}

/// Whether all of some names are among others.
pub open spec fn all_known(names: Seq<Seq<char>>, known: Seq<Seq<char>>) -> bool {
    forall|i: int| 0 <= i < names.len() ==> known.contains(#[trigger] names[i])
}

/// Whether nothing about a skill looks wrong.
pub open spec fn sound(skill: SkillV, known: Seq<Seq<char>>) -> bool {
    &&& skill.name.len() > 0
    &&& skill.description.len() > 0
    &&& all_known(skill.tools_allow, known)
    &&& skill.mode != ExecMode::Plan ==> skill.steps.len() > 0
    &&& !(skill.mode == ExecMode::Workflow && skill.think != ThinkLevel::Off)
    &&& forall|i: int|
        0 <= i < skill.steps.len() ==> all_known(
            when_refs(#[trigger] skill.steps[i]),
            step_ids(skill.steps),
        ) && all_known(input_refs(skill.steps[i]), step_ids(skill.steps))
}

proof fn lemma_tool_warnings(allow: Seq<Seq<char>>, known: Seq<Seq<char>>)
    ensures
        tool_warnings(allow, known).len() == 0 <==> all_known(allow, known),
    decreases allow.len(),
{
    if allow.len() > 0 {
        let init = allow.drop_last();
        lemma_tool_warnings(init, known);
        if all_known(init, known) && known.contains(allow.last()) {
            assert forall|i: int| 0 <= i < allow.len() implies known.contains(
                #[trigger] allow[i],
            ) by {
                if i < init.len() {
                    assert(init[i] == allow[i]);
                }
            }
        }
        if all_known(allow, known) {
            assert(known.contains(allow[allow.len() - 1]));
            assert forall|i: int| 0 <= i < init.len() implies known.contains(
                #[trigger] init[i],
            ) by {
                assert(init[i] == allow[i]);
            }
        }
    }
}

proof fn lemma_ref_warnings(
    refs: Seq<Seq<char>>,
    ids: Seq<Seq<char>>,
    id: Seq<char>,
    place: Seq<char>,
)
    ensures
        ref_warnings(refs, ids, id, place).len() == 0 <==> all_known(refs, ids),
    decreases refs.len(),
{
    if refs.len() > 0 {
        let init = refs.drop_last();
        lemma_ref_warnings(init, ids, id, place);
        if all_known(init, ids) && ids.contains(refs.last()) {
            assert forall|i: int| 0 <= i < refs.len() implies ids.contains(#[trigger] refs[i]) by {
                if i < init.len() {
                    assert(init[i] == refs[i]);
                }
            }
        }
        if all_known(refs, ids) {
            assert(ids.contains(refs[refs.len() - 1]));
            assert forall|i: int| 0 <= i < init.len() implies ids.contains(#[trigger] init[i]) by {
                assert(init[i] == refs[i]);
            }
        }
    }
}

/// Whether all steps speak of steps that there are.
pub open spec fn refs_known(steps: Seq<SkillStepV>, ids: Seq<Seq<char>>) -> bool {
    forall|i: int|
        0 <= i < steps.len() ==> all_known(when_refs(#[trigger] steps[i]), ids) && all_known(
            input_refs(steps[i]),
            ids,
        )
}

proof fn lemma_step_warnings(steps: Seq<SkillStepV>, ids: Seq<Seq<char>>)
    ensures
        step_warnings(steps, ids).len() == 0 <==> refs_known(steps, ids),
    decreases steps.len(),
{
    if steps.len() > 0 {
        let init = steps.drop_last();
        let last = steps.last();
        lemma_step_warnings(init, ids);
        lemma_ref_warnings(when_refs(last), ids, last.id, "when-condition"@);
        lemma_ref_warnings(input_refs(last), ids, last.id, "llm_judge input"@);
        if refs_known(steps, ids) {
            assert(steps[steps.len() - 1] == last);
            assert forall|i: int| 0 <= i < init.len() implies all_known(
                when_refs(#[trigger] init[i]),
                ids,
            ) && all_known(input_refs(init[i]), ids) by {
                assert(init[i] == steps[i]);
            }
        }
        if step_warnings(steps, ids).len() == 0 {
            assert forall|i: int| 0 <= i < steps.len() implies all_known(
                when_refs(#[trigger] steps[i]),
                ids,
            ) && all_known(input_refs(steps[i]), ids) by {
                if i < init.len() {
                    assert(init[i] == steps[i]);
                }
            }
        }
    }
}

/// A skill gives rise to no warning exactly where nothing about it looks wrong.
pub proof fn law_sound_skills_have_no_warnings(skill: SkillV, known: Seq<Seq<char>>)
    ensures
        warnings_of(skill, known).len() == 0 <==> sound(skill, known),
{
    lemma_tool_warnings(skill.tools_allow, known);
    lemma_step_warnings(skill.steps, step_ids(skill.steps));
}

/// A text with a head between two lines of dashes falls into that head and the text behind it; one
/// that does not begin with dashes is all text.
pub proof fn law_the_head_stands_between_dashes(
    blank: Seq<char>,
    head: Seq<char>,
    body: Seq<char>,
    plain: Seq<char>,
)
    requires
        forall|i: int| 0 <= i < blank.len() ==> is_space(#[trigger] blank[i]),
        forall|j: int|
            0 <= j < head.len() ==> !#[trigger] occurs_at(head + "\n---"@, "\n---"@, j),
        plain.len() > 0 ==> plain[0] != '-' && !is_space(plain[0]),
    ensures
        parts_of(blank + "---"@ + head + "\n---"@ + body) == (
            trim(head),
            strip_start(body, CharClass::Only('\n')),
        ),
        parts_of(blank + plain) == (Seq::<char>::empty(), blank + plain),
{
    reveal_strlit("---");
    reveal_strlit("\n---");
    let mark = "---"@;
    let close = "\n---"@;
    let rest = mark + head + close + body;
    let content = blank + mark + head + close + body;
    assert(content =~= blank + rest);
    law_white_space_is_blank('-');
    law_strip_start(blank, rest, CharClass::Space);
    assert(rest.subrange(0, 3) =~= mark);
    let after = rest.skip(3);
    assert(after =~= head + close + body);
    law_what_stands_there_is_found(head, close, body);
    assert(after.take(head.len() as int) =~= head);
    assert(after.skip(head.len() as int + 4) =~= body);
    law_strip_start(blank, plain, CharClass::Space);
    if occurs_at(plain, mark, 0) {
        assert(plain.subrange(0, 3)[0] == plain[0]);
    }
}

/// The words for the ways of running and for the amounts of reasoning: each means what it says, and
/// any other is the plainest.
pub proof fn law_words_mean_what_they_say(word: Seq<char>)
    ensures
        mode_named(word) == ExecMode::Workflow <==> word == "workflow"@,
        mode_named(word) == ExecMode::Todo <==> word == "todo"@,
        mode_named(word) == ExecMode::Plan <==> word != "workflow"@ && word != "todo"@,
        think_named(word) == ThinkLevel::Low <==> word == "low"@,
        think_named(word) == ThinkLevel::Max <==> word == "max"@,
        think_named(word) == ThinkLevel::High <==> word == "high"@ || word == "true"@ || word
            == "yes"@ || word == "1"@,
        think_asked(NodeV::Bool(true)) == ThinkLevel::High,
        think_asked(NodeV::Bool(false)) == ThinkLevel::Off,
        think_asked(NodeV::Bad) == ThinkLevel::Off,
        think_asked(NodeV::Text(word)) == think_named(lowercase(word)),
{
    reveal_strlit("workflow");
    reveal_strlit("todo");
    reveal_strlit("low");
    reveal_strlit("high");
    reveal_strlit("true");
    reveal_strlit("yes");
    reveal_strlit("1");
    reveal_strlit("max");
    assert("workflow"@.len() != "todo"@.len());
    assert("high"@.len() == 4 && "true"@.len() == 4 && "1"@.len() == 1);
    assert("low"@.len() == 3 && "max"@.len() == 3 && "yes"@.len() == 3);
    assert("low"@[0] != "yes"@[0]);
    assert("max"@[0] != "yes"@[0]);
    assert("max"@[0] != "low"@[0]);
}

/// A step with a tool runs that tool, with the arguments that it gives; a step without a tool but
/// with a question for the model is a judgement on that question, with the input that it gives or
/// none; anything else is no step. A step keeps its id and its condition.
pub proof fn law_steps_are_what_is_written(y: NodeV, t: Seq<char>)
    ensures
        y.at("tool"@) == NodeV::Text(t) ==> {
            &&& step_of(y) is Some
            &&& step_of(y)->0.action == (StepActionV::Tool { tool: t, args: as_json(y.at("args"@)) })
        },
        !(y.at("tool"@) is Text) && y.at("llm_judge"@) == NodeV::Text(t) ==> {
            &&& step_of(y) is Some
            &&& step_of(y)->0.action is LlmJudge
            &&& step_of(y)->0.action->prompt == t
            &&& y.at("input"@) is Text ==> y.at("input"@) == NodeV::Text(
                step_of(y)->0.action->input,
            )
            &&& !(y.at("input"@) is Text) ==> step_of(y)->0.action->input.len() == 0
        },
        !(y.at("tool"@) is Text) && !(y.at("llm_judge"@) is Text) ==> step_of(y) is None,
        step_of(y) is Some ==> {
            &&& y.at("id"@) is Text ==> y.at("id"@) == NodeV::Text(step_of(y)->0.id)
            &&& !(y.at("id"@) is Text) ==> step_of(y)->0.id == "step"@
            &&& step_of(y)->0.when is Some <==> y.at("when"@) is Text
            &&& y.at("when"@) is Text ==> y.at("when"@) == NodeV::Text(step_of(y)->0.when->0)
        },
{
    reveal_strlit("");
}

/// Lists keep their order and lose only what is not of their kind: of two lists after each other
/// come the texts, steps or skills of the first and then those of the second.
pub proof fn law_lists_keep_their_order(a: Seq<NodeV>, b: Seq<NodeV>, item: NodeV)
    ensures
        texts_among(a + b) == texts_among(a) + texts_among(b),
        steps_among(a + b) == steps_among(a) + steps_among(b),
        item is Text ==> texts_among(seq![item]) == seq![item->Text_0],
        !(item is Text) ==> texts_among(seq![item]).len() == 0,
        step_of(item) is Some ==> steps_among(seq![item]) == seq![step_of(item)->0],
        step_of(item) is None ==> steps_among(seq![item]).len() == 0,
    decreases b.len(),
{
    assert(seq![item].drop_last() =~= Seq::empty());
    assert(texts_among(Seq::<NodeV>::empty()) =~= Seq::empty());
    assert(steps_among(Seq::<NodeV>::empty()) =~= Seq::empty());
    if item is Text {
        assert(texts_among(seq![item]) =~= seq![item->Text_0]);
    }
    if step_of(item) is Some {
        assert(steps_among(seq![item]) =~= seq![step_of(item)->0]);
    }
    if b.len() == 0 {
        assert(a + b =~= a);
        assert(texts_among(a) + texts_among(b) =~= texts_among(a));
        assert(steps_among(a) + steps_among(b) =~= steps_among(a));
    } else {
        assert((a + b).drop_last() =~= a + b.drop_last());
        law_lists_keep_their_order(a, b.drop_last(), item);
        assert(texts_among(a + b) =~= texts_among(a) + texts_among(b));
        assert(steps_among(a + b) =~= steps_among(a) + steps_among(b));
    }
}

/// A variable has the value that is written for it last; a pair that is not of texts gives none and
/// changes none.
pub proof fn law_variables_have_their_last_values(
    pairs: Seq<(NodeV, NodeV)>,
    key: Seq<char>,
    value: Seq<char>,
    odd: (NodeV, NodeV),
    other: Seq<char>,
)
    requires
        !(odd.0 is Text && odd.1 is Text),
    ensures
        lookup(entries_among(pairs.push((NodeV::Text(key), NodeV::Text(value)))), key) == Some(
            value,
        ),
        other != key ==> lookup(
            entries_among(pairs.push((NodeV::Text(key), NodeV::Text(value)))),
            other,
        ) == lookup(entries_among(pairs), other),
        entries_among(pairs.push(odd)) == entries_among(pairs),
        lookup(entries_among(Seq::empty()), key) is None,
{
    assert(pairs.push((NodeV::Text(key), NodeV::Text(value))).drop_last() =~= pairs);
    assert(pairs.push(odd).drop_last() =~= pairs);
    law_assign_then_lookup(entries_among(pairs), key, value, other);
}

/// A head with a description makes a skill that has what the head says, and the instructions under
/// it without white space around them; a head without one makes none. A skill without a name has
/// that of its file.
pub proof fn law_skills_are_what_is_written(
    meta: NodeV,
    body: Seq<char>,
    stem: Option<Seq<char>>,
)
    ensures
        skill_described(meta, body, stem) is Ok <==> meta.at("description"@) is Text,
        meta.at("description"@) is Text ==> {
            let s = skill_described(meta, body, stem)->Ok_0;
            &&& meta.at("description"@) == NodeV::Text(s.description)
            &&& meta.at("name"@) is Text ==> meta.at("name"@) == NodeV::Text(s.name)
            &&& !(meta.at("name"@) is Text) && stem is Some ==> s.name == stem->0
            &&& !(meta.at("name"@) is Text) && stem is None ==> s.name == "unnamed"@
            &&& s.when_to_use is Some <==> meta.at("whenToUse"@) is Text
            &&& s.when_to_use is Some ==> meta.at("whenToUse"@) == NodeV::Text(s.when_to_use->0)
            &&& meta.at("mode"@) is Text ==> s.mode == mode_named(
                lowercase(meta.at("mode"@)->Text_0),
            )
            &&& !(meta.at("mode"@) is Text) ==> s.mode == mode_named(lowercase("plan"@))
            &&& s.think == think_asked(meta.at("think"@))
            &&& s.tools_allow == texts_among(meta.at("tools"@).at("allow"@).items())
            &&& s.variables == entries_among(meta.at("variables"@).pairs())
            &&& s.steps == steps_among(meta.at("steps"@).items())
            &&& s.body == trim(body)
        },
{
}

/// The skills of a folder are those that could be read, each once: a file that cannot be read costs
/// no other.
pub proof fn law_unreadable_files_cost_no_other(
    a: Seq<Result<SkillV, Seq<char>>>,
    b: Seq<Result<SkillV, Seq<char>>>,
    skill: SkillV,
    error: Seq<char>,
)
    ensures
        skills_among(a + b) == skills_among(a) + skills_among(b),
        skills_among(seq![Ok(skill)]) == seq![skill],
        skills_among(seq![Err(error)]).len() == 0,
    decreases b.len(),
{
    let good: Seq<Result<SkillV, Seq<char>>> = seq![Ok(skill)];
    let bad: Seq<Result<SkillV, Seq<char>>> = seq![Err(error)];
    assert(good.drop_last() =~= Seq::empty());
    assert(bad.drop_last() =~= Seq::empty());
    assert(skills_among(Seq::empty()) =~= Seq::empty());
    assert(skills_among(good) =~= seq![skill]);
    if b.len() == 0 {
        assert(a + b =~= a);
        assert(skills_among(a) + skills_among(b) =~= skills_among(a));
    } else {
        assert((a + b).drop_last() =~= a + b.drop_last());
        law_unreadable_files_cost_no_other(a, b.drop_last(), skill, error);
        assert(skills_among(a + b) =~= skills_among(a) + skills_among(b));
    }
}

/// A text refers to the steps that it names: a name after `steps.` is a reference, whole, and what
/// follows it may hold more; a text in which `steps.` does not stand refers to none.
pub proof fn law_references_are_the_names_after_steps(
    a: Seq<char>,
    name: Seq<char>,
    b: Seq<char>,
)
    requires
        forall|j: int| 0 <= j < a.len() ==> !#[trigger] occurs_at(a + "steps."@, "steps."@, j),
        forall|i: int|
            0 <= i < name.len() ==> alphanumeric(#[trigger] name[i]) || name[i] == '_' || name[i]
                == '-',
        b.len() > 0 ==> !alphanumeric(b[0]) && b[0] != '_' && b[0] != '-',
    ensures
        name.len() > 0 ==> step_refs(a + "steps."@ + name + b) == seq![name] + step_refs(b),
        name.len() == 0 ==> step_refs(a + "steps."@ + name + b) == step_refs(b),
        !contains(b, "steps."@) ==> step_refs(b).len() == 0,
{
    reveal_strlit("steps.");
    let p = "steps."@;
    let s = a + p + name + b;
    assert(s =~= a + p + (name + b));
    law_what_stands_there_is_found(a, p, name + b);
    let rest = s.skip(a.len() as int + 6);
    assert(rest =~= name + b);
    lemma_name_then(name, b);
    assert(rest.take(name.len() as int) =~= name);
    assert(rest.skip(name.len() as int) =~= b);
    lemma_find_from(b, p, 0);
}

proof fn lemma_name_then(name: Seq<char>, b: Seq<char>)
    requires
        forall|i: int| 0 <= i < name.len() ==> name_char(#[trigger] name[i]),
        b.len() > 0 ==> !name_char(b[0]),
    ensures
        name_len(name + b) == name.len(),
    decreases name.len(),
{
    if name.len() > 0 {
        assert((name + b).drop_first() =~= name.drop_first() + b);
        assert forall|i: int| 0 <= i < name.drop_first().len() implies name_char(
            #[trigger] name.drop_first()[i],
        ) by {
            assert(name.drop_first()[i] == name[i + 1]);
        }
        lemma_name_then(name.drop_first(), b);
    } else {
        assert(name + b =~= b);
    }
}

/// A skill that is asked for by its name is the first with that name; where none has it, it is the
/// first of all. Where no name is given, or there are no skills, there is none.
pub proof fn law_skills_are_chosen_by_name(skills: Seq<SkillV>, name: Seq<char>, i: int)
    requires
        0 <= i <= skills.len(),
        forall|k: int| 0 <= k < i ==> (#[trigger] skills[k]).name != name,
    ensures
        i < skills.len() && skills[i].name == name ==> selected(skills, Some(name)) == Some(
            skills[i],
        ),
        i == skills.len() && skills.len() > 0 ==> selected(skills, Some(name)) == Some(skills[0]),
        skills.len() == 0 ==> selected(skills, Some(name)) is None,
        selected(skills, None) is None,
{
    lemma_skill_index(skills, name, 0, i);
}

proof fn lemma_skill_index(skills: Seq<SkillV>, name: Seq<char>, from: int, i: int)
    requires
        0 <= from <= i <= skills.len(),
        forall|k: int| from <= k < i ==> (#[trigger] skills[k]).name != name,
    ensures
        skill_index(skills, name, from) == skill_index(skills, name, i),
    decreases i - from,
{
    if from < i {
        lemma_skill_index(skills, name, from + 1, i);
    }
}

/// A warning names what it is about: every tool that is not known, and every reference to a step
/// that is not there, is warned of by its name, and one that is known is not.
pub proof fn law_warnings_name_what_is_missing(
    names: Seq<Seq<char>>,
    known: Seq<Seq<char>>,
    name: Seq<char>,
    id: Seq<char>,
    place: Seq<char>,
)
    ensures
        !known.contains(name) ==> tool_warnings(names.push(name), known) == tool_warnings(
            names,
            known,
        ).push("tool `"@ + name + "` in allow-list is not registered"@),
        known.contains(name) ==> tool_warnings(names.push(name), known) == tool_warnings(
            names,
            known,
        ),
        !known.contains(name) ==> ref_warnings(names.push(name), known, id, place) == ref_warnings(
            names,
            known,
            id,
            place,
        ).push("step `"@ + id + "` "@ + place + " references unknown step `"@ + name + "`"@),
        known.contains(name) ==> ref_warnings(names.push(name), known, id, place) == ref_warnings(
            names,
            known,
            id,
            place,
        ),
{
    assert(names.push(name).drop_last() =~= names);
}

/// A skill is warned about where its name or its description is missing, where it is to run steps
/// and has none, and where it reasons without a model to steer it; a skill that is right in this is
/// not.
pub proof fn law_warnings_tell_what_is_wrong(skill: SkillV)
    ensures
        field_warnings(skill).contains("required field `name` is empty"@) <==> skill.name.len()
            == 0,
        field_warnings(skill).contains("required field `description` is empty"@)
            <==> skill.description.len() == 0,
        field_warnings(skill).len() <= 2,
        skill.name.len() > 0 && skill.description.len() > 0 ==> field_warnings(skill).len() == 0,
        skill.mode != ExecMode::Plan && skill.steps.len() == 0 ==> mode_warnings(skill).contains(
            "mode "@ + mode_name(skill.mode) + " but no steps defined"@,
        ),
        skill.mode == ExecMode::Workflow && skill.think != ThinkLevel::Off ==> mode_warnings(
            skill,
        ).contains(
            "workflow mode with think enabled — reasoning will only apply to llm_judge steps"@,
        ),
        skill.mode == ExecMode::Plan ==> mode_warnings(skill).len() == 0,
        skill.steps.len() > 0 && skill.think == ThinkLevel::Off ==> mode_warnings(skill).len() == 0,
{
    reveal_strlit("required field `name` is empty");
    reveal_strlit("required field `description` is empty");
    assert("required field `name` is empty"@.len() != "required field `description` is empty"@.len());
    let f = field_warnings(skill);
    if skill.name.len() == 0 {
        assert(f[0] == "required field `name` is empty"@);
    }
    if skill.description.len() == 0 {
        assert(f.last() == "required field `description` is empty"@);
    }
    let m = mode_warnings(skill);
    if skill.mode != ExecMode::Plan && skill.steps.len() == 0 {
        assert(m[0] == "mode "@ + mode_name(skill.mode) + " but no steps defined"@);
    }
    if skill.mode == ExecMode::Workflow && skill.think != ThinkLevel::Off {
        assert(m.last()
            == "workflow mode with think enabled — reasoning will only apply to llm_judge steps"@);
    }
}

/// References are looked for in the condition of a step and in the input of a judgement, and each
/// warning tells in which of the two it is; the warnings of the steps come in the order of the
/// steps, and are held against the ids of all.
pub proof fn law_references_of_steps_are_held_against_all_ids(
    steps: Seq<SkillStepV>,
    step: SkillStepV,
    ids: Seq<Seq<char>>,
    when: Seq<char>,
    prompt: Seq<char>,
    input: Seq<char>,
)
    ensures
        step_warnings(steps.push(step), ids) == step_warnings(steps, ids) + warnings_of_step(
            step,
            ids,
        ),
        step_warnings(Seq::empty(), ids).len() == 0,
        step_ids(steps.push(step)) == step_ids(steps).push(step.id),
        warnings_of_step(
            SkillStepV {
                id: step.id,
                action: StepActionV::LlmJudge { prompt, input },
                when: Some(when),
            },
            ids,
        ) == ref_warnings(step_refs(when), ids, step.id, "when-condition"@) + ref_warnings(
            step_refs(input),
            ids,
            step.id,
            "llm_judge input"@,
        ),
        step.action is Tool && step.when is None ==> warnings_of_step(step, ids).len() == 0,
{
    assert(steps.push(step).drop_last() =~= steps);
    assert(step_ids(steps.push(step)) =~= step_ids(steps).push(step.id));
}

/// All warnings are told: those about fields, about tools, about the way of running and about steps.
pub proof fn law_all_warnings_are_told(skill: SkillV, known: Seq<Seq<char>>, w: Seq<char>)
    ensures
        warnings_of(skill, known).contains(w) <==> field_warnings(skill).contains(w)
            || tool_warnings(skill.tools_allow, known).contains(w) || mode_warnings(skill).contains(
            w,
        ) || step_warnings(skill.steps, step_ids(skill.steps)).contains(w),
{
    let a = field_warnings(skill);
    let b = tool_warnings(skill.tools_allow, known);
    let c = mode_warnings(skill);
    let d = step_warnings(skill.steps, step_ids(skill.steps));
    let all = a + b + c + d;
    if a.contains(w) {
        let i = choose|i: int| 0 <= i < a.len() && a[i] == w;
        assert(all[i] == w);
    }
    if b.contains(w) {
        let i = choose|i: int| 0 <= i < b.len() && b[i] == w;
        assert(all[a.len() + i] == w);
    }
    if c.contains(w) {
        let i = choose|i: int| 0 <= i < c.len() && c[i] == w;
        assert(all[a.len() + b.len() + i] == w);
    }
    if d.contains(w) {
        let i = choose|i: int| 0 <= i < d.len() && d[i] == w;
        assert(all[a.len() + b.len() + c.len() + i] == w);
    }
    if all.contains(w) {
        let i = choose|i: int| 0 <= i < all.len() && all[i] == w;
        if i < a.len() {
            assert(a[i] == w);
        } else if i < a.len() + b.len() {
            assert(b[i - a.len()] == w);
        } else if i < a.len() + b.len() + c.len() {
            assert(c[i - a.len() - b.len()] == w);
        } else {
            assert(d[i - a.len() - b.len() - c.len()] == w);
        }
    }
}

/// A skill file is read from its head and its text: the first document of the head describes the
/// skill; a head that is no YAML, or empty, makes none.
pub proof fn law_files_are_read_from_head_and_text(content: Seq<char>, stem: Option<Seq<char>>)
    ensures
        ({
            let docs = yaml_documents(parts_of(content).0);
            &&& docs is Ok && docs->Ok_0.len() > 0 ==> skill_of(content, stem) == skill_described(
                docs->Ok_0[0],
                parts_of(content).1,
                stem,
            )
            &&& docs is Ok && docs->Ok_0.len() == 0 ==> skill_of(content, stem) is Err
            &&& docs is Err ==> skill_of(content, stem) == Err::<SkillV, Seq<char>>(
                "YAML parse error: "@ + docs->Err_0,
            )
        }),
{
}

} // verus!
