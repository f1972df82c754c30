//! Which skill takes an input: one that the input names, or else one that the model picks.
//! Whatever goes wrong on the way, the answer is a plain conversation.
use crate::llm::{LlmRequest, LlmRequestV, StreamEvent, StreamEventV};
use crate::session::last_n;
use crate::text::{
    byte_len, byte_len_of, chars_of, contains, contains_text, is_space, join, join_texts,
    lower_text, law_strip_end, law_strip_start, law_trim, law_white_space_is_blank, lowercase,
    same, strip_end, strip_end_text, strip_start, strip_start_text, texts, trim, trim_text,
    CharClass,
};
use crate::types::{
    Float32, Message, MessageV, ModelConfig, Skill, SkillV, ThinkLevel, ToolDefinition,
};
use crate::views::{opt_view, views};
use vstd::prelude::*;

verus! {

/// Where an input goes.
#[derive(Debug)]
pub enum RouteDecision {
    /// To the skill of this name.
    UseSkill(String),
    /// To no skill.
    Direct,
}

/// What a [`RouteDecision`] stands for.
pub enum RouteV {
    UseSkill(Seq<char>),
    Direct,
}

impl View for RouteDecision {
    type V = RouteV;

    open spec fn view(&self) -> RouteV {
        match *self {
            RouteDecision::UseSkill(name) => RouteV::UseSkill(name@),
            RouteDecision::Direct => RouteV::Direct,
        }
    }
}

/// What comes first of the routing of an input.
#[derive(Debug)]
pub enum RouteStep {
    /// It is settled.
    Settled(RouteDecision),
    /// The model is to be asked.
    Ask(LlmRequest),
}

/// What a [`RouteStep`] stands for.
pub enum RouteStepV {
    Settled(RouteV),
    Ask(LlmRequestV),
}

impl View for RouteStep {
    type V = RouteStepV;

    open spec fn view(&self) -> RouteStepV {
        match *self {
            RouteStep::Settled(d) => RouteStepV::Settled(d@),
            RouteStep::Ask(request) => RouteStepV::Ask(request@),
        }
    }
}

/// How long the model may take, in seconds.
pub const ROUTE_TIMEOUT_SECS: u64 = 8;

/// How many tokens the model may answer with.
pub const ROUTE_MAX_TOKENS: usize = 16;

/// How many messages of the conversation the model is shown.
pub const ROUTE_CONTEXT: usize = 4;

/// The names of some skills.
pub open spec fn skill_names(skills: Seq<SkillV>) -> Seq<Seq<char>> {
    skills.map_values(|s: SkillV| s.name)
}

/// Among the names that are hit, the first of the longest, measured in bytes.
pub open spec fn longest(names: Seq<Seq<char>>, hits: Seq<bool>) -> Option<int>
    decreases names.len(),
{
    if names.len() == 0 {
        None
    } else {
        let before = longest(names.drop_last(), hits);
        let i = names.len() - 1;
        if !hits[i] {
            before
        } else {
            match before {
                Some(k) => if byte_len(names[k]) >= byte_len(names[i]) {
                    before
                } else {
                    Some(i)
                },
                None => Some(i),
            }
        }
    }
}

/// Which skills an input names, whatever the case of the letters.
pub open spec fn named_in(input: Seq<char>, names: Seq<Seq<char>>) -> Seq<bool> {
    names.map_values(|name: Seq<char>| contains(lowercase(input), lowercase(name)))
}

/// The skill that an input names.
pub open spec fn named_skill(input: Seq<char>, names: Seq<Seq<char>>) -> Option<Seq<char>> {
    match longest(names, named_in(input, names)) {
        Some(i) => Some(names[i]),
        None => None,
    }
}

/// The line that offers a skill.
pub open spec fn skill_line(s: SkillV) -> Seq<char> {
    "- name: "@ + s.name + " — "@ + s.description + " | when: "@ + match s.when_to_use {
        Some(when) => when,
        None => "always"@,
    } + "\n"@
}

/// The lines that offer some skills.
pub open spec fn skill_lines(skills: Seq<SkillV>) -> Seq<char>
    decreases skills.len(),
{
    if skills.len() == 0 {
        Seq::empty()
    } else {
        skill_lines(skills.drop_last()) + skill_line(skills.last())
    }
}

/// What the model is told to do.
pub open spec fn route_prompt(skills: Seq<SkillV>) -> Seq<char> {
    "You are a skill router. Available skills:\n"@ + skill_lines(skills)
        + "\nThe user request is below. Choose the ONE skill that best matches it.\n"@
        + "Reply with ONLY the skill name, or \"none\" if no skill applies."@
}

/// What a message says; nothing for the result of a tool.
pub open spec fn said(m: MessageV) -> Option<Seq<char>> {
    match m {
        MessageV::User { content, .. } => Some(content),
        MessageV::Assistant { content, .. } => Some(content),
        MessageV::Tool { .. } => None,
    }
}

/// What some messages say.
pub open spec fn all_said(messages: Seq<MessageV>) -> Seq<Seq<char>>
    decreases messages.len(),
{
    if messages.len() == 0 {
        Seq::empty()
    } else {
        match said(messages.last()) {
            Some(text) => all_said(messages.drop_last()).push(text),
            None => all_said(messages.drop_last()),
        }
    }
}

/// What the model is shown: the input, and under it what was said last.
pub open spec fn route_message(input: Seq<char>, context: Seq<MessageV>) -> Seq<char> {
    let lines = all_said(last_n(context, ROUTE_CONTEXT as nat));
    if lines.len() == 0 {
        input
    } else {
        input + "\n[context]\n"@ + join(lines, "\n"@)
    }
}

/// What the model is asked.
pub open spec fn route_request(
    model: Seq<char>,
    input: Seq<char>,
    skills: Seq<SkillV>,
    context: Seq<MessageV>,
) -> LlmRequestV {
    LlmRequestV {
        model,
        system: route_prompt(skills),
        messages: seq![
            MessageV::User { content: route_message(input, context), images: Seq::empty() },
        ],
        tools: Seq::empty(),
        max_tokens: ROUTE_MAX_TOKENS,
        temperature: Float32 { bits: 0 },
        think: ThinkLevel::Off,
    }
}

/// What comes first of the routing of an input. Where it names a skill, or there is none, the model
/// is not asked.
pub open spec fn route_start(
    model: Seq<char>,
    input: Seq<char>,
    skills: Seq<SkillV>,
    context: Seq<MessageV>,
) -> RouteStepV {
    match named_skill(input, skill_names(skills)) {
        Some(name) => RouteStepV::Settled(RouteV::UseSkill(name)),
        None => if skills.len() == 0 {
            RouteStepV::Settled(RouteV::Direct)
        } else {
            RouteStepV::Ask(route_request(model, input, skills, context))
        },
    }
}

/// The answer of the model without quotation marks round it and full stops behind it.
pub open spec fn cleaned(content: Seq<char>) -> Seq<char> {
    trim(
        strip_end(
            strip_start(trim(content), CharClass::Quote),
            CharClass::QuoteOrDot,
        ),
    )
}

/// The first of some names that reads `lower` in small letters, where `lowered` are the names in
/// small letters.
pub open spec fn first_equal(lowered: Seq<Seq<char>>, lower: Seq<char>, i: int) -> Option<int>
    decreases lowered.len() - i,
{
    if i < 0 || i >= lowered.len() {
        None
    } else if lowered[i] == lower {
        Some(i)
    } else {
        first_equal(lowered, lower, i + 1)
    }
}

/// Which skill an answer means, in small letters: none where it is empty or just "none".
pub open spec fn meant(lower: Seq<char>, lowered: Seq<Seq<char>>) -> Option<int> {
    if lower.len() == 0 || lower == "none"@ {
        None
    } else {
        first_equal(lowered, lower, 0)
    }
}

/// Some texts in small letters.
pub open spec fn lowered_all(names: Seq<Seq<char>>) -> Seq<Seq<char>> {
    names.map_values(|name: Seq<char>| lowercase(name))
}

/// The skill that the model's answer names.
pub open spec fn answered_skill(content: Seq<char>, names: Seq<Seq<char>>) -> Option<Seq<char>> {
    match meant(lowercase(cleaned(content)), lowered_all(names)) {
        Some(i) => Some(names[i]),
        None => None,
    }
}

/// Where an input goes by the model's answer; `None` stands for a request that failed or took too
/// long.
pub open spec fn route_end(outcome: Option<Seq<char>>, names: Seq<Seq<char>>) -> RouteV {
    match outcome {
        Some(content) => match answered_skill(content, names) {
            Some(name) => RouteV::UseSkill(name),
            None => RouteV::Direct,
        },
        None => RouteV::Direct,
    }
}

/// Among the skills that are hit, the first of those with the longest name.
pub fn longest_named(skills: &Vec<Skill>, hits: &Vec<bool>) -> (r: Option<usize>)
    requires
        hits@.len() == skills@.len(),
    ensures
        match r {
            Some(k) => k < skills@.len() && longest(skill_names(views(skills@)), hits@) == Some(
                k as int,
            ),
            None => longest(skill_names(views(skills@)), hits@) is None,
        },
{
    let ghost names = skill_names(views(skills@));
    let mut best: Option<usize> = None;
    let mut i: usize = 0;
    assert(names.take(0) =~= Seq::empty());
    while i < skills.len()
        invariant
            i <= skills@.len(),
            hits@.len() == skills@.len(),
            names == skill_names(views(skills@)),
            match best {
                Some(k) => k < i && longest(names.take(i as int), hits@) == Some(k as int),
                None => longest(names.take(i as int), hits@) is None,
            },
        decreases skills@.len() - i,
    {
        assert(names.take(i + 1).drop_last() =~= names.take(i as int));
        assert(names[i as int] == skills@[i as int].name@);
        if hits[i] {
            best = match best {
                Some(k) => {
                    assert(names[k as int] == skills@[k as int].name@);
                    if byte_len_of(skills[k].name.as_str()) >= byte_len_of(
                        skills[i].name.as_str(),
                    ) {
                        Some(k)
                    } else {
                        Some(i)
                    }
                },
                None => Some(i),
            };
        }
        i += 1;
    }
    assert(names.take(i as int) =~= names);
    best
}

/// The skill that an input names, whatever the case of the letters. Where it names several, the
/// longest name counts.
pub fn rule_match(user_input: &str, skills: &Vec<Skill>) -> (r: Option<String>)
    ensures
        opt_view(r) == named_skill(user_input@, skill_names(views(skills@))),
{
    let lower = lower_text(user_input);
    let ghost names = skill_names(views(skills@));
    let ghost all = named_in(user_input@, names);
    let mut hits: Vec<bool> = Vec::new();
    let mut i: usize = 0;
    assert(hits@ =~= all.take(0));
    while i < skills.len()
        invariant
            i <= skills@.len(),
            names == skill_names(views(skills@)),
            all == named_in(user_input@, names),
            lower@ == lowercase(user_input@),
            hits@ == all.take(i as int),
        decreases skills@.len() - i,
    {
        let name = lower_text(skills[i].name.as_str());
        assert(names[i as int] == skills@[i as int].name@);
        hits.push(contains_text(lower.as_str(), name.as_str()));
        assert(all.take(i + 1) =~= all.take(i as int).push(all[i as int]));
        i += 1;
    }
    assert(all.take(i as int) =~= all);
    match longest_named(skills, &hits) {
        Some(k) => {
            assert(names[k as int] == skills@[k as int].name@);
            Some(skills[k].name.clone())
        },
        None => None,
    }
}

/// What the model is told to do.
pub fn build_system_prompt(skills: &Vec<Skill>) -> (r: String)
    ensures
        r@ == route_prompt(views(skills@)),
{
    let ghost all = views(skills@);
    let head = "You are a skill router. Available skills:\n";
    let mut out = head.to_owned();
    let mut i: usize = 0;
    assert(all.take(0) =~= Seq::empty());
    assert(out@ =~= head@ + skill_lines(all.take(0)));
    while i < skills.len()
        invariant
            i <= skills@.len(),
            all == views(skills@),
            out@ == head@ + skill_lines(all.take(i as int)),
        decreases skills@.len() - i,
    {
        let ghost before = out@;
        assert(all.take(i + 1).drop_last() =~= all.take(i as int));
        out.push_str("- name: ");
        out.push_str(skills[i].name.as_str());
        out.push_str(" — ");
        out.push_str(skills[i].description.as_str());
        out.push_str(" | when: ");
        match &skills[i].when_to_use {
            Some(when) => out.push_str(when.as_str()),
            None => out.push_str("always"),
        }
        out.push_str("\n");
        assert(out@ =~= before + skill_line(all[i as int]));
        assert(out@ =~= head@ + (skill_lines(all.take(i as int)) + skill_line(all[i as int])));
        i += 1;
    }
    assert(all.take(i as int) =~= all);
    out.push_str("\nThe user request is below. Choose the ONE skill that best matches it.\n");
    out.push_str("Reply with ONLY the skill name, or \"none\" if no skill applies.");
    out
}

/// What a message says; nothing for the result of a tool.
pub fn message_text(m: &Message) -> (r: Option<String>)
    ensures
        opt_view(r) == said(m@),
{
    match m {
        Message::User { content, images: _ } => Some(content.clone()),
        Message::Assistant { content, tool_calls: _, reasoning_content: _ } => Some(
            content.clone(),
        ),
        Message::Tool { call_id: _, content: _, is_error: _, images: _ } => None,
    }
}

/// What the model is shown: the input, and under it what was said last.
pub fn build_user_message(user_input: &str, recent_context: &Vec<Message>) -> (r: String)
    ensures
        r@ == route_message(user_input@, views(recent_context@)),
{
    let n: usize = recent_context.len();
    let from: usize = if n <= ROUTE_CONTEXT {
        0
    } else {
        n - ROUTE_CONTEXT
    };
    let ghost recent = last_n(views(recent_context@), ROUTE_CONTEXT as nat);
    assert(recent =~= views(recent_context@).skip(from as int));
    let mut lines: Vec<String> = Vec::new();
    let mut i: usize = from;
    assert(recent.take(0) =~= Seq::empty());
    assert(texts(lines@) =~= Seq::empty());
    while i < n
        invariant
            from <= i <= n,
            n == recent_context@.len(),
            recent == views(recent_context@).skip(from as int),
            texts(lines@) == all_said(recent.take(i - from)),
        decreases n - i,
    {
        assert(recent.take(i + 1 - from).drop_last() =~= recent.take(i - from));
        assert(recent[i - from] == recent_context@[i as int]@);
        let ghost before = texts(lines@);
        match message_text(&recent_context[i]) {
            Some(text) => {
                let ghost t = text@;
                lines.push(text);
                assert(texts(lines@) =~= before.push(t));
            },
            None => {},
        }
        i += 1;
    }
    assert(recent.take(n - from) =~= recent);
    let mut msg = user_input.to_owned();
    if lines.len() > 0 {
        msg.push_str("\n[context]\n");
        msg.push_str(join_texts(&lines, "\n").as_str());
    }
    msg
}

/// The first step of routing an input. Where the input names a skill, or there is no skill, that
/// settles it; otherwise the model is to be asked.
pub fn route_skill(
    model: &ModelConfig,
    user_input: &str,
    skills: &Vec<Skill>,
    recent_context: &Vec<Message>,
) -> (r: RouteStep)
    ensures
        r@ == route_start(model.model@, user_input@, views(skills@), views(recent_context@)),
{
    match rule_match(user_input, skills) {
        Some(name) => RouteStep::Settled(RouteDecision::UseSkill(name)),
        None => {
            if skills.len() == 0 {
                return RouteStep::Settled(RouteDecision::Direct);
            }
            let message = Message::User {
                content: build_user_message(user_input, recent_context),
                images: Vec::new(),
            };
            let mut messages: Vec<Message> = Vec::new();
            messages.push(message);
            let tools: Vec<ToolDefinition> = Vec::new();
            let request = LlmRequest {
                model: model.model.clone(),
                system: build_system_prompt(skills),
                messages,
                tools,
                max_tokens: ROUTE_MAX_TOKENS,
                temperature: Float32 { bits: 0 },
                think: ThinkLevel::Off,
            };
            proof {
                let want = route_request(
                    model.model@,
                    user_input@,
                    views(skills@),
                    views(recent_context@),
                );
                assert(request@.messages[0]->User_images =~= Seq::empty());
                assert(request@.messages =~= want.messages);
                assert(request@.tools =~= want.tools);
            }
            RouteStep::Ask(request)
        },
    }
}

/// What an event says of the model's answer.
#[derive(Debug)]
pub enum RouteReply {
    /// The answer has not come yet.
    Wait,
    /// This is the answer.
    Answer(String),
    /// No answer will come.
    Failed,
}

/// What an event says of the model's answer: only the end of the stream and a failure say
/// something.
pub fn route_event(event: &StreamEvent) -> (r: RouteReply)
    ensures
        match event@ {
            StreamEventV::Done { content, .. } => r is Answer && r->Answer_0@ == content,
            StreamEventV::Error(_) => r is Failed,
            _ => r is Wait,
        },
{
    match event {
        StreamEvent::Done { content, tool_calls: _, usage: _, finish_reason: _ } => {
            RouteReply::Answer(content.clone())
        },
        StreamEvent::Error(_) => RouteReply::Failed,
        _ => RouteReply::Wait,
    }
}

/// The answer of the model without quotation marks round it and full stops behind it.
pub fn clean_response(content: &str) -> (r: String)
    ensures
        r@ == cleaned(content@),
{
    let inner = trim_text(content);
    let open = strip_start_text(inner.as_str(), CharClass::Quote);
    let shut = strip_end_text(open.as_str(), CharClass::QuoteOrDot);
    trim_text(shut.as_str())
}

/// Which skill an answer in small letters means, where `lowered` are the names in small letters.
pub fn meant_skill(lower: &str, lowered: &Vec<String>) -> (r: Option<usize>)
    ensures
        match r {
            Some(i) => i < lowered@.len() && meant(lower@, texts(lowered@)) == Some(i as int),
            None => meant(lower@, texts(lowered@)) is None,
        },
{
    if chars_of(lower).len() == 0 || same(lower, "none") {
        return None;
    }
    let mut i: usize = 0;
    while i < lowered.len()
        invariant
            i <= lowered@.len(),
            first_equal(texts(lowered@), lower@, i as int) == first_equal(
                texts(lowered@),
                lower@,
                0,
            ),
            meant(lower@, texts(lowered@)) == first_equal(texts(lowered@), lower@, 0),
        decreases lowered@.len() - i,
    {
        if same(lowered[i].as_str(), lower) {
            return Some(i);
        }
        i += 1;
    }
    None
}

/// The skill that the model's answer names.
pub fn parse_response(content: &str, skills: &Vec<Skill>) -> (r: Option<String>)
    ensures
        opt_view(r) == answered_skill(content@, skill_names(views(skills@))),
{
    let lower = lower_text(clean_response(content).as_str());
    let ghost names = skill_names(views(skills@));
    let ghost all = lowered_all(names);
    let mut lowered: Vec<String> = Vec::new();
    let mut i: usize = 0;
    assert(texts(lowered@) =~= all.take(0));
    while i < skills.len()
        invariant
            i <= skills@.len(),
            names == skill_names(views(skills@)),
            all == lowered_all(names),
            texts(lowered@) == all.take(i as int),
        decreases skills@.len() - i,
    {
        assert(names[i as int] == skills@[i as int].name@);
        let ghost before = texts(lowered@);
        lowered.push(lower_text(skills[i].name.as_str()));
        assert(texts(lowered@) =~= before.push(all[i as int]));
        assert(all.take(i + 1) =~= all.take(i as int).push(all[i as int]));
        i += 1;
    }
    assert(all.take(i as int) =~= all);
    match meant_skill(lower.as_str(), &lowered) {
        Some(k) => {
            assert(names[k as int] == skills@[k as int].name@);
            Some(skills[k].name.clone())
        },
        None => None,
    }
}

/// Where an input goes by the model's answer; `None` stands for a request that failed or took too
/// long.
pub fn finish_route(outcome: Option<&str>, skills: &Vec<Skill>) -> (r: RouteDecision)
    ensures
        r@ == route_end(
            match outcome {
                Some(content) => Some(content@),
                None => None,
            },
            skill_names(views(skills@)),
        ),
{
    match outcome {
        Some(content) => match parse_response(content, skills) {
            Some(name) => RouteDecision::UseSkill(name),
            None => RouteDecision::Direct,
        },
        None => RouteDecision::Direct,
    }
}

/// What `longest` gives is a name that is hit, and no name that is hit is longer, nor as long and
/// before it; none is given only where none is hit.
pub proof fn lemma_longest(names: Seq<Seq<char>>, hits: Seq<bool>)
    requires
        hits.len() >= names.len(),
    ensures
        match longest(names, hits) {
            Some(k) => {
                &&& 0 <= k < names.len()
                &&& hits[k]
                &&& forall|i: int|
                    0 <= i < names.len() && hits[i] ==> byte_len(#[trigger] names[i]) <= byte_len(
                        names[k],
                    )
                &&& forall|i: int|
                    0 <= i < k && hits[i] ==> byte_len(#[trigger] names[i]) < byte_len(names[k])
            },
            None => forall|i: int| 0 <= i < names.len() ==> !#[trigger] hits[i],
        },
    decreases names.len(),
{
    if names.len() > 0 {
        lemma_longest(names.drop_last(), hits);
        match longest(names, hits) {
            Some(k) => {
                assert forall|i: int| 0 <= i < names.len() && hits[i] implies byte_len(
                    #[trigger] names[i],
                ) <= byte_len(names[k]) by {
                    if i < names.len() - 1 {
                        assert(names.drop_last()[i] == names[i]);
                    }
                }
                assert forall|i: int| 0 <= i < k && hits[i] implies byte_len(#[trigger] names[i])
                    < byte_len(names[k]) by {
                    assert(names.drop_last()[i] == names[i]);
                }
            },
            None => {},
        }
    }
}

/// Where an input names skills, the routing is settled without the model, on a skill that the
/// input names, and on no shorter a name than any other. Of names of one length the first counts.
pub proof fn law_longest_name_wins(
    model: Seq<char>,
    input: Seq<char>,
    skills: Seq<SkillV>,
    context: Seq<MessageV>,
    i: int,
)
    requires
        0 <= i < skills.len(),
        contains(lowercase(input), lowercase(skills[i].name)),
    ensures
        ({
            let step = route_start(model, input, skills, context);
            &&& step is Settled
            &&& step->Settled_0 is UseSkill
            &&& exists|k: int|
                {
                    &&& 0 <= k < skills.len()
                    &&& step->Settled_0->UseSkill_0 == (#[trigger] skills[k]).name
                    &&& contains(lowercase(input), lowercase(skills[k].name))
                    &&& byte_len(skills[i].name) <= byte_len(skills[k].name)
                    &&& i < k ==> byte_len(skills[i].name) < byte_len(skills[k].name)
                }
        }),
{
    let names = skill_names(skills);
    let hits = named_in(input, names);
    lemma_longest(names, hits);
    assert(names[i] == skills[i].name);
    assert(hits[i]);
    let k = longest(names, hits)->0;
    assert(names[k] == skills[k].name);
}

/// What `first_equal` gives is a position of `lower`.
proof fn lemma_first_equal(lowered: Seq<Seq<char>>, lower: Seq<char>, i: int)
    ensures
        match first_equal(lowered, lower, i) {
            Some(k) => i <= k < lowered.len() && 0 <= k && lowered[k] == lower,
            None => true,
        },
    decreases lowered.len() - i,
{
    if 0 <= i < lowered.len() && lowered[i] != lower {
        lemma_first_equal(lowered, lower, i + 1);
    }
}

/// What `first_equal` does not find is not there.
proof fn lemma_first_equal_finds(lowered: Seq<Seq<char>>, lower: Seq<char>, i: int, k: int)
    requires
        0 <= i <= k < lowered.len(),
        lowered[k] == lower,
    ensures
        first_equal(lowered, lower, i) is Some,
    decreases k - i,
{
    if lowered[i] != lower {
        lemma_first_equal_finds(lowered, lower, i + 1, k);
    }
}

/// An answer that is the name of a skill, whatever the case of the letters and the marks round it,
/// sends the input to a skill of that name. Only "none" stands for no skill.
pub proof fn law_a_named_skill_is_used(content: Seq<char>, names: Seq<Seq<char>>, i: int)
    requires
        0 <= i < names.len(),
        lowercase(cleaned(content)) == lowercase(names[i]),
        lowercase(names[i]).len() > 0,
        lowercase(names[i]) != "none"@,
    ensures
        match route_end(Some(content), names) {
            RouteV::UseSkill(name) => lowercase(name) == lowercase(names[i]),
            RouteV::Direct => false,
        },
{
    let lowered = lowered_all(names);
    let lower = lowercase(cleaned(content));
    assert(lowered[i] == lower);
    lemma_first_equal_finds(lowered, lower, 0, i);
    lemma_first_equal(lowered, lower, 0);
    assert(lowered[first_equal(lowered, lower, 0)->0] == lower);
}

/// Whatever the model answers, and where it does not answer at all, an input goes to a skill that
/// there is or to none.
pub proof fn law_routing_never_fails(outcome: Option<Seq<char>>, names: Seq<Seq<char>>)
    ensures
        match route_end(outcome, names) {
            RouteV::UseSkill(name) => names.contains(name) && outcome is Some,
            RouteV::Direct => true,
        },
        outcome is None ==> route_end(outcome, names) is Direct,
{
    if outcome is Some {
        let lower = lowercase(cleaned(outcome->0));
        lemma_first_equal(lowered_all(names), lower, 0);
    }
}

/// The router is told of every skill, in order, with its name, what it is for and when to use it.
pub proof fn law_the_router_is_told_of_every_skill(skills: Seq<SkillV>, s: SkillV)
    ensures
        skill_lines(Seq::empty()).len() == 0,
        s.when_to_use is Some ==> skill_lines(skills.push(s)) == skill_lines(skills) + ("- name: "@
            + s.name + " — "@ + s.description + " | when: "@ + s.when_to_use->0 + "\n"@),
        s.when_to_use is None ==> skill_lines(skills.push(s)) == skill_lines(skills) + ("- name: "@
            + s.name + " — "@ + s.description + " | when: "@ + "always"@ + "\n"@),
        route_prompt(skills) == "You are a skill router. Available skills:\n"@ + skill_lines(skills)
            + "\nThe user request is below. Choose the ONE skill that best matches it.\n"@
            + "Reply with ONLY the skill name, or \"none\" if no skill applies."@,
{
    assert(skills.push(s).drop_last() =~= skills);
}

/// What was said before is shown to the router, in order, the user's words and the model's, and no
/// tool's; of the newest four messages alone, after the request.
pub proof fn law_the_router_sees_what_was_said(
    input: Seq<char>,
    messages: Seq<MessageV>,
    m: MessageV,
)
    ensures
        all_said(Seq::empty()).len() == 0,
        m is User ==> all_said(messages.push(m)) == all_said(messages).push(m->User_content),
        m is Assistant ==> all_said(messages.push(m)) == all_said(messages).push(
            m->Assistant_content,
        ),
        m is Tool ==> all_said(messages.push(m)) == all_said(messages),
        input.is_prefix_of(route_message(input, messages)),
        ({
            let shown = all_said(last_n(messages, 4));
            &&& shown.len() == 0 ==> route_message(input, messages) == input
            &&& shown.len() > 0 ==> route_message(input, messages) == input + "\n[context]\n"@
                + join(shown, "\n"@)
        }),
{
    assert(messages.push(m).drop_last() =~= messages);
    let r = route_message(input, messages);
    assert(r.take(input.len() as int) =~= input);
}

/// The model is asked only where no skill is named and there are skills; without skills the request
/// is taken as it is. It is asked under the router's prompt, for the request, without tools.
pub proof fn law_the_router_asks_only_where_it_must(
    model: Seq<char>,
    input: Seq<char>,
    skills: Seq<SkillV>,
    context: Seq<MessageV>,
)
    ensures
        skills.len() == 0 ==> route_start(model, input, skills, context) == RouteStepV::Settled(
            RouteV::Direct,
        ),
        route_start(model, input, skills, context) is Ask ==> {
            let asked = route_start(model, input, skills, context)->Ask_0;
            &&& skills.len() > 0
            &&& asked.model == model
            &&& asked.system == route_prompt(skills)
            &&& asked.messages.len() == 1
            &&& asked.messages[0] is User
            &&& asked.messages[0]->User_content == route_message(input, context)
            &&& asked.tools.len() == 0
            &&& asked.max_tokens == 16
            &&& asked.think == ThinkLevel::Off
        },
        (forall|i: int|
            0 <= i < skills.len() ==> !contains(
                lowercase(input),
                lowercase((#[trigger] skills[i]).name),
            )) && skills.len() > 0 ==> route_start(model, input, skills, context) is Ask,
{
    let names = skill_names(skills);
    let hits = named_in(input, names);
    if forall|i: int|
        0 <= i < skills.len() ==> !contains(
            lowercase(input),
            lowercase((#[trigger] skills[i]).name),
        ) {
        assert forall|i: int| 0 <= i < names.len() implies !#[trigger] hits[i] by {
            assert(names[i] == skills[i].name);
        }
        lemma_none_named(names, hits);
    }
}

proof fn lemma_none_named(names: Seq<Seq<char>>, hits: Seq<bool>)
    requires
        forall|i: int| 0 <= i < names.len() ==> !#[trigger] hits[i],
    ensures
        longest(names, hits) is None,
    decreases names.len(),
{
    if names.len() > 0 {
        lemma_none_named(names.drop_last(), hits);
    }
}

/// An answer of no skill, or of one that is not there, leaves the request as it is.
pub proof fn law_no_skill_leaves_the_request(content: Seq<char>, names: Seq<Seq<char>>)
    ensures
        lowercase(cleaned(content)) == "none"@ ==> route_end(Some(content), names) is Direct,
        lowercase(cleaned(content)).len() == 0 ==> route_end(Some(content), names) is Direct,
        (forall|i: int|
            0 <= i < names.len() ==> lowercase(#[trigger] names[i]) != lowercase(cleaned(content)))
            ==> route_end(Some(content), names) is Direct,
{
    if forall|i: int|
        0 <= i < names.len() ==> lowercase(#[trigger] names[i]) != lowercase(cleaned(content)) {
        let low = lowered_all(names);
        assert forall|i: int| 0 <= i < low.len() implies #[trigger] low[i] != lowercase(
            cleaned(content),
        ) by {
            assert(low[i] == lowercase(names[i]));
        }
        lemma_none_equal(low, lowercase(cleaned(content)), 0);
    }
}

proof fn lemma_none_equal(lowered: Seq<Seq<char>>, lower: Seq<char>, i: int)
    requires
        0 <= i <= lowered.len(),
        forall|k: int| 0 <= k < lowered.len() ==> #[trigger] lowered[k] != lower,
    ensures
        first_equal(lowered, lower, i) is None,
    decreases lowered.len() - i,
{
    if i < lowered.len() {
        lemma_none_equal(lowered, lower, i + 1);
    }
}

/// An answer is read without the white space, the quotation marks and the full stop around it.
pub proof fn law_answers_are_read_without_marks(name: Seq<char>, open: char, close: char)
    requires
        name.len() > 0,
        !is_space(name[0]) && !is_space(name.last()),
        !CharClass::Quote.has(name[0]),
        !CharClass::QuoteOrDot.has(name.last()),
        CharClass::Quote.has(open),
        CharClass::QuoteOrDot.has(close),
    ensures
        cleaned(seq![' '] + seq![open] + name + seq![close] + seq!['\n']) == name,
        cleaned(name) == name,
{
    let none = Seq::<char>::empty();
    law_white_space_is_blank(open);
    law_white_space_is_blank(close);
    let inner = seq![open] + name + seq![close];
    assert(seq![' '] + seq![open] + name + seq![close] + seq!['\n'] =~= seq![' '] + inner
        + seq!['\n']);
    law_trim(seq![' '], inner, seq!['\n']);
    assert(inner =~= seq![open] + (name + seq![close]));
    law_strip_start(seq![open], name + seq![close], CharClass::Quote);
    law_strip_end(name, seq![close], CharClass::QuoteOrDot);
    law_trim(none, name, none);
    assert(none + name + none =~= name);
    law_strip_start(none, name, CharClass::Quote);
    assert(none + name =~= name);
    law_strip_end(name, none, CharClass::QuoteOrDot);
    assert(name + none =~= name);
}

} // verus!
