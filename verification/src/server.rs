//! The web server: which request is for what, what its body asks, and what is sent back.
use crate::agent::{LoopEvent, LoopEventV};
use crate::commands::{CommandPlugin, CommandResult, CommandResultV};
use crate::json::{
    json_str, json_text, json_to_text, law_fields_are_found_by_name, models, parse_bytes,
    tree_of_bytes, with_field, with_item, Json, JsonV,
};
use crate::skill::{find_by_name, law_skills_are_chosen_by_name, skill_index};
use crate::text::{
    chars_of, decimal, decimal_text, escape_json, escaped, join, join_texts, same, texts,
};
use crate::textmap::TextMap;
use crate::types::{
    reason_name, ExecMode, Skill, SkillStep, SkillV, ThinkLevel, ToolCall, ToolCallV,
    TurnEndReason,
};
use crate::views::{opt_view, views};
use vstd::prelude::*;

verus! {

/// What a request is for.
#[derive(Debug, Clone, Copy, PartialEq, Eq, Structural)]
pub enum Route {
    /// The page.
    Page,
    /// Whether the server is well.
    Health,
    /// The list of sessions.
    ListSessions,
    CreateSession,
    SwitchSession,
    /// The list of skills.
    ListSkills,
    /// The list of commands.
    ListCommands,
    /// A message of the user.
    Chat,
    /// Nothing that there is.
    NotFound,
}

/// What a request is for.
pub open spec fn route_of(method: Seq<char>, path: Seq<char>) -> Route {
    if method == "GET"@ {
        if path == "/"@ || path == "/index.html"@ {
            Route::Page
        } else if path == "/api/health"@ {
            Route::Health
        } else if path == "/api/sessions"@ {
            Route::ListSessions
        } else if path == "/api/skills"@ {
            Route::ListSkills
        } else if path == "/api/commands"@ {
            Route::ListCommands
        } else {
            Route::NotFound
        }
    } else if method == "POST"@ {
        if path == "/api/sessions/create"@ {
            Route::CreateSession
        } else if path == "/api/sessions/switch"@ {
            Route::SwitchSession
        } else if path == "/api/chat"@ {
            Route::Chat
        } else {
            Route::NotFound
        }
    } else {
        Route::NotFound
    }
}

/// What a request is for.
pub fn route(method: &str, path: &str) -> (r: Route)
    ensures
        r == route_of(method@, path@),
{
    if same(method, "GET") {
        if same(path, "/") || same(path, "/index.html") {
            Route::Page
        } else if same(path, "/api/health") {
            Route::Health
        } else if same(path, "/api/sessions") {
            Route::ListSessions
        } else if same(path, "/api/skills") {
            Route::ListSkills
        } else if same(path, "/api/commands") {
            Route::ListCommands
        } else {
            Route::NotFound
        }
    } else if same(method, "POST") {
        if same(path, "/api/sessions/create") {
            Route::CreateSession
        } else if same(path, "/api/sessions/switch") {
            Route::SwitchSession
        } else if same(path, "/api/chat") {
            Route::Chat
        } else {
            Route::NotFound
        }
    } else {
        Route::NotFound
    }
}

/// The text of a field of a body, or `default` where the body has no such text.
pub open spec fn field_or(tree: Option<JsonV>, field: Seq<char>, default: Seq<char>) -> Seq<char> {
    match tree {
        Some(j) => match j.text_field(field) {
            Some(t) => t,
            None => default,
        },
        None => default,
    }
}

/// The text of a field of a body that was read, or `default`.
pub fn body_field(tree: &Option<Json>, field: &str, default: &str) -> (r: String)
    ensures
        r@ == field_or(opt_view(*tree), field@, default@),
{
    match tree {
        Some(j) => match j.get_text(field) {
            Some(t) => t.clone(),
            None => default.to_owned(),
        },
        None => default.to_owned(),
    }
}

/// The title that a body asks for.
pub fn title_of_body(body: &Vec<u8>) -> (r: String)
    ensures
        r@ == field_or(tree_of_bytes(body@), "title"@, "New session"@),
{
    let tree = parse_bytes(body);
    body_field(&tree, "title", "New session")
}

/// The name of the session that a body asks for.
pub fn id_of_body(body: &Vec<u8>) -> (r: String)
    ensures
        r@ == field_or(tree_of_bytes(body@), "id"@, ""@),
{
    let tree = parse_bytes(body);
    body_field(&tree, "id", "")
}

/// The message in a body; none where there is no text in it.
pub fn message_of_body(body: &Vec<u8>) -> (r: Option<String>)
    ensures
        match r {
            Some(m) => m@ == field_or(tree_of_bytes(body@), "message"@, ""@) && m@.len() > 0,
            None => field_or(tree_of_bytes(body@), "message"@, ""@).len() == 0,
        },
{
    let tree = parse_bytes(body);
    let message = body_field(&tree, "message", "");
    if chars_of(message.as_str()).len() == 0 {
        None
    } else {
        Some(message)
    }
}

/// What is sent back for a message without text.
pub fn message_missing() -> (r: &'static str)
    ensures
        r@ == "{\"error\":\"message is required\"}"@,
{
    "{\"error\":\"message is required\"}"
}

/// What is sent back where the server is well.
pub fn health_text() -> (r: &'static str)
    ensures
        r@ == "{\"status\":\"ok\"}"@,
{
    "{\"status\":\"ok\"}"
}

/// What is sent back for a session that was made.
pub fn created_text(id: &str, title: &str) -> (r: String)
    ensures
        r@ == "{\"id\":\""@ + id@ + "\",\"title\":\""@ + title@ + "\"}"@,
{
    let mut r = "{\"id\":\"".to_owned();
    r.push_str(id);
    r.push_str("\",\"title\":\"");
    r.push_str(title);
    r.push_str("\"}");
    r
}

/// What is sent back for a session that is now in use, or for one that there is not.
pub fn switched_text(id: Option<&str>) -> (r: String)
    ensures
        r@ == match id {
            Some(id) => "{\"id\":\""@ + id@ + "\",\"ok\":true}"@,
            None => "{\"ok\":false,\"error\":\"session not found\"}"@,
        },
{
    match id {
        Some(id) => {
            let mut r = "{\"id\":\"".to_owned();
            r.push_str(id);
            r.push_str("\",\"ok\":true}");
            r
        },
        None => "{\"ok\":false,\"error\":\"session not found\"}".to_owned(),
    }
}

/// The name of a mode, as it is sent.
pub open spec fn mode_text(mode: ExecMode) -> Seq<char> {
    match mode {
        ExecMode::Workflow => "workflow"@,
        ExecMode::Todo => "todo"@,
        ExecMode::Plan => "plan"@,
    }
}

/// A skill, as it is sent.
pub open spec fn skill_json(s: SkillV) -> JsonV {
    JsonV::Object(
        seq![
            ("name"@, JsonV::Text(s.name)),
            ("description"@, JsonV::Text(s.description)),
            ("mode"@, JsonV::Text(mode_text(s.mode))),
            ("think"@, JsonV::Bool(s.think != ThinkLevel::Off)),
        ],
    )
}

/// Some skills, as they are sent.
pub open spec fn skills_json(skills: Seq<SkillV>) -> JsonV {
    JsonV::Array(skills.map_values(|s: SkillV| skill_json(s)))
}

/// A skill, as it is sent.
fn make_skill_json(s: &Skill) -> (r: Json)
    ensures
        r@ == skill_json(s@),
{
    let mode = match s.mode {
        ExecMode::Workflow => "workflow",
        ExecMode::Todo => "todo",
        ExecMode::Plan => "plan",
    };
    let fields: Vec<(String, Json)> = Vec::new();
    let fields = with_field(fields, "name", json_str(s.name.as_str()));
    let fields = with_field(fields, "description", json_str(s.description.as_str()));
    let fields = with_field(fields, "mode", json_str(mode));
    let fields = with_field(fields, "think", Json::Bool(s.think.is_enabled()));
    let r = Json::Object(fields);
    assert(r@->Object_0 =~= skill_json(s@)->Object_0);
    r
}

/// The list of skills, as a tree.
pub fn list_skills(skills: &Vec<Skill>) -> (r: Json)
    ensures
        r@ == skills_json(views(skills@)),
{
    let ghost all = views(skills@).map_values(|s: SkillV| skill_json(s));
    let mut items: Vec<Json> = Vec::new();
    let mut i: usize = 0;
    assert(models(items@) =~= all.take(0));
    while i < skills.len()
        invariant
            i <= skills@.len(),
            all == views(skills@).map_values(|s: SkillV| skill_json(s)),
            models(items@) == all.take(i as int),
        decreases skills@.len() - i,
    {
        items = with_item(items, make_skill_json(&skills[i]));
        assert(all.take(i + 1) =~= all.take(i as int).push(all[i as int]));
        i += 1;
    }
    assert(all.take(i as int) =~= all);
    Json::Array(items)
}

/// The list of skills, as it is sent.
pub fn skills_text(skills: &Vec<Skill>) -> (r: String)
    ensures
        r@ == json_text(skills_json(views(skills@))),
{
    let tree = list_skills(skills);
    json_to_text(&tree)
}

/// A command, as it is sent.
pub open spec fn command_json(name: Seq<char>, about: Seq<char>) -> JsonV {
    JsonV::Object(seq![("name"@, JsonV::Text(name)), ("description"@, JsonV::Text(about))])
}

/// Some commands, as they are sent.
pub open spec fn commands_json<P: CommandPlugin>(commands: Seq<P>) -> JsonV {
    JsonV::Array(commands.map_values(|c: P| command_json(c.named(), c.about())))
}

/// The list of commands, as it is sent.
pub fn commands_text<P: CommandPlugin>(commands: &Vec<P>) -> (r: String)
    ensures
        r@ == json_text(commands_json(commands@)),
{
    let ghost all = commands@.map_values(|c: P| command_json(c.named(), c.about()));
    let mut items: Vec<Json> = Vec::new();
    let mut i: usize = 0;
    assert(models(items@) =~= all.take(0));
    while i < commands.len()
        invariant
            i <= commands@.len(),
            all == commands@.map_values(|c: P| command_json(c.named(), c.about())),
            models(items@) == all.take(i as int),
        decreases commands@.len() - i,
    {
        let fields: Vec<(String, Json)> = Vec::new();
        let fields = with_field(fields, "name", json_str(commands[i].name()));
        let fields = with_field(fields, "description", json_str(commands[i].description()));
        let item = Json::Object(fields);
        assert(item@->Object_0 =~= all[i as int]->Object_0);
        items = with_item(items, item);
        assert(all.take(i + 1) =~= all.take(i as int).push(all[i as int]));
        i += 1;
    }
    assert(all.take(i as int) =~= all);
    let tree = Json::Array(items);
    json_to_text(&tree)
}

/// What came of a command, as it is sent.
pub open spec fn result_json(r: CommandResultV) -> JsonV {
    JsonV::Object(
        seq![
            ("text"@, JsonV::Text(r.text)),
            ("action"@, JsonV::Text(r.action)),
            (
                "session_id"@,
                match r.session_id {
                    Some(id) => JsonV::Text(id),
                    None => JsonV::Null,
                },
            ),
            ("ok"@, JsonV::Bool(r.ok)),
        ],
    )
}

/// What came of a command, as it is sent.
pub fn result_text(result: &CommandResult) -> (r: String)
    ensures
        r@ == json_text(result_json(result@)),
{
    let id = match &result.session_id {
        Some(id) => json_str(id.as_str()),
        None => Json::Null,
    };
    let fields: Vec<(String, Json)> = Vec::new();
    let fields = with_field(fields, "text", json_str(result.text.as_str()));
    let fields = with_field(fields, "action", json_str(result.action.as_str()));
    let fields = with_field(fields, "session_id", id);
    let fields = with_field(fields, "ok", Json::Bool(result.ok));
    let tree = Json::Object(fields);
    assert(tree@->Object_0 =~= result_json(result@)->Object_0);
    json_to_text(&tree)
}

/// The skill for a message where there is none at all.
pub open spec fn bare_skill() -> SkillV {
    SkillV {
        name: "default"@,
        description: "default"@,
        when_to_use: None,
        mode: ExecMode::Plan,
        think: ThinkLevel::Off,
        tools_allow: Seq::empty(),
        variables: Seq::empty(),
        body: "You are a helpful assistant."@,
        steps: Seq::empty(),
    }
}

/// The skill for a message: the one that is chosen, or else the first, or else a bare one.
pub open spec fn chat_skill(skills: Seq<SkillV>, name: Seq<char>) -> SkillV {
    let k = skill_index(skills, name, 0);
    if k < skills.len() {
        skills[k]
    } else if skills.len() > 0 {
        skills[0]
    } else {
        bare_skill()
    }
}

/// The skill for a message.
pub fn pick_chat_skill(skills: &Vec<Skill>, name: &str) -> (r: Skill)
    ensures
        r@ == chat_skill(views(skills@), name@),
{
    match find_by_name(skills, name) {
        Some(s) => {
            s.clone()
        },
        None => {
            if skills.len() > 0 {
                assert(views(skills@)[0] == skills@[0]@);
                return skills[0].clone();
            }
            let tools_allow: Vec<String> = Vec::new();
            let steps: Vec<SkillStep> = Vec::new();
            let r = Skill {
                name: "default".to_owned(),
                description: "default".to_owned(),
                when_to_use: None,
                mode: ExecMode::Plan,
                think: ThinkLevel::Off,
                tools_allow,
                variables: TextMap::new(),
                body: "You are a helpful assistant.".to_owned(),
                steps,
            };
            assert(r@.tools_allow =~= Seq::empty());
            assert(r@.variables =~= Seq::empty());
            assert(r@.steps =~= Seq::empty());
            r
        },
    }
}

/// A tool call inside an answer, as it is sent.
pub open spec fn call_text(c: ToolCallV) -> Seq<char> {
    "{\"name\":\""@ + escaped(c.name) + "\",\"arguments\":"@ + json_text(c.arguments) + "}"@
}

/// Some tool calls, as they are sent.
pub open spec fn call_texts(calls: Seq<ToolCallV>) -> Seq<Seq<char>> {
    calls.map_values(|c: ToolCallV| call_text(c))
}

/// An event, as it is sent.
pub open spec fn event_text(e: LoopEventV) -> Seq<char> {
    match e {
        LoopEventV::TurnStart { turn } => "{\"type\":\"turn_start\",\"turn\":"@ + decimal(
            turn as nat,
        ) + "}"@,
        LoopEventV::StepStart { turn, step } => "{\"type\":\"step_start\",\"turn\":"@ + decimal(
            turn as nat,
        ) + ",\"step\":"@ + decimal(step as nat) + "}"@,
        LoopEventV::Delta { text } => "{\"type\":\"delta\",\"text\":\""@ + escaped(text) + "\"}"@,
        LoopEventV::AssistantMessage { content, tool_calls } => {
            "{\"type\":\"assistant_message\",\"content\":\""@ + escaped(content)
                + "\",\"tool_calls\":["@ + join(call_texts(tool_calls), ","@) + "]}"@
        },
        LoopEventV::ToolCall { call } => "{\"type\":\"tool_call\",\"name\":\""@ + escaped(call.name)
            + "\",\"arguments\":"@ + json_text(call.arguments) + "}"@,
        LoopEventV::ToolResult { call_id, content, is_error } => {
            "{\"type\":\"tool_result\",\"call_id\":\""@ + escaped(call_id) + "\",\"content\":\""@
                + escaped(content) + if is_error {
                "\",\"is_error\":true}"@
            } else {
                "\",\"is_error\":false}"@
            }
        },
        LoopEventV::StepEnd { turn, step } => "{\"type\":\"step_end\",\"turn\":"@ + decimal(
            turn as nat,
        ) + ",\"step\":"@ + decimal(step as nat) + "}"@,
        LoopEventV::TurnEnd { turn, reason } => "{\"type\":\"turn_end\",\"turn\":"@ + decimal(
            turn as nat,
        ) + ",\"reason\":\""@ + reason_name(reason) + "\"}"@,
        LoopEventV::Usage {
            prompt_tokens,
            completion_tokens,
            cache_hit_tokens,
            cache_miss_tokens,
            ttft_ms,
            decode_ms,
        } => "{\"type\":\"usage\",\"prompt_tokens\":"@ + decimal(prompt_tokens as nat)
            + ",\"completion_tokens\":"@ + decimal(completion_tokens as nat)
            + ",\"cache_hit_tokens\":"@ + decimal(cache_hit_tokens as nat)
            + ",\"cache_miss_tokens\":"@ + decimal(cache_miss_tokens as nat) + ",\"ttft_ms\":"@
            + decimal(ttft_ms as nat) + ",\"decode_ms\":"@ + decimal(decode_ms as nat) + "}"@,
        LoopEventV::Error { message } => "{\"type\":\"error\",\"message\":\""@ + escaped(message)
            + "\"}"@,
    }
}

/// Some tool calls, as they are sent, with commas between them.
fn join_calls(calls: &Vec<ToolCall>) -> (r: String)
    ensures
        r@ == join(call_texts(views(calls@)), ","@),
{
    let ghost all = call_texts(views(calls@));
    let mut parts: Vec<String> = Vec::new();
    let mut i: usize = 0;
    assert(texts(parts@) =~= all.take(0));
    while i < calls.len()
        invariant
            i <= calls@.len(),
            all == call_texts(views(calls@)),
            texts(parts@) == all.take(i as int),
        decreases calls@.len() - i,
    {
        let ghost before = texts(parts@);
        let mut t = "{\"name\":\"".to_owned();
        t.push_str(escape_json(calls[i].name.as_str()).as_str());
        t.push_str("\",\"arguments\":");
        t.push_str(json_to_text(&calls[i].arguments).as_str());
        t.push_str("}");
        assert(t@ == all[i as int]);
        parts.push(t);
        assert(texts(parts@) =~= before.push(all[i as int]));
        assert(all.take(i + 1) =~= all.take(i as int).push(all[i as int]));
        i += 1;
    }
    assert(all.take(i as int) =~= all);
    join_texts(&parts, ",")
}

/// An event, as it is sent.
pub fn format_loop_event(event: &LoopEvent) -> (r: String)
    ensures
        r@ == event_text(event@),
{
    match event {
        LoopEvent::TurnStart { turn } => {
            let mut r = "{\"type\":\"turn_start\",\"turn\":".to_owned();
            r.push_str(decimal_text(*turn).as_str());
            r.push_str("}");
            r
        },
        LoopEvent::StepStart { turn, step } => {
            let mut r = "{\"type\":\"step_start\",\"turn\":".to_owned();
            r.push_str(decimal_text(*turn).as_str());
            r.push_str(",\"step\":");
            r.push_str(decimal_text(*step).as_str());
            r.push_str("}");
            r
        },
        LoopEvent::Delta { text } => {
            let mut r = "{\"type\":\"delta\",\"text\":\"".to_owned();
            r.push_str(escape_json(text.as_str()).as_str());
            r.push_str("\"}");
            r
        },
        LoopEvent::AssistantMessage { content, tool_calls } => {
            let mut r = "{\"type\":\"assistant_message\",\"content\":\"".to_owned();
            r.push_str(escape_json(content.as_str()).as_str());
            r.push_str("\",\"tool_calls\":[");
            r.push_str(join_calls(tool_calls).as_str());
            r.push_str("]}");
            r
        },
        LoopEvent::ToolCall { call } => {
            let mut r = "{\"type\":\"tool_call\",\"name\":\"".to_owned();
            r.push_str(escape_json(call.name.as_str()).as_str());
            r.push_str("\",\"arguments\":");
            r.push_str(json_to_text(&call.arguments).as_str());
            r.push_str("}");
            r
        },
        LoopEvent::ToolResult { call_id, content, is_error } => {
            let mut r = "{\"type\":\"tool_result\",\"call_id\":\"".to_owned();
            r.push_str(escape_json(call_id.as_str()).as_str());
            r.push_str("\",\"content\":\"");
            r.push_str(escape_json(content.as_str()).as_str());
            if *is_error {
                r.push_str("\",\"is_error\":true}");
            } else {
                r.push_str("\",\"is_error\":false}");
            }
            r
        },
        LoopEvent::StepEnd { turn, step } => {
            let mut r = "{\"type\":\"step_end\",\"turn\":".to_owned();
            r.push_str(decimal_text(*turn).as_str());
            r.push_str(",\"step\":");
            r.push_str(decimal_text(*step).as_str());
            r.push_str("}");
            r
        },
        LoopEvent::TurnEnd { turn, reason } => {
            let mut r = "{\"type\":\"turn_end\",\"turn\":".to_owned();
            r.push_str(decimal_text(*turn).as_str());
            r.push_str(",\"reason\":\"");
            r.push_str(reason.name());
            r.push_str("\"}");
            r
        },
        LoopEvent::Usage {
            prompt_tokens,
            completion_tokens,
            cache_hit_tokens,
            cache_miss_tokens,
            ttft_ms,
            decode_ms,
        } => {
            let mut r = "{\"type\":\"usage\",\"prompt_tokens\":".to_owned();
            r.push_str(decimal_text(*prompt_tokens).as_str());
            r.push_str(",\"completion_tokens\":");
            r.push_str(decimal_text(*completion_tokens).as_str());
            r.push_str(",\"cache_hit_tokens\":");
            r.push_str(decimal_text(*cache_hit_tokens).as_str());
            r.push_str(",\"cache_miss_tokens\":");
            r.push_str(decimal_text(*cache_miss_tokens).as_str());
            r.push_str(",\"ttft_ms\":");
            r.push_str(decimal_text(*ttft_ms).as_str());
            r.push_str(",\"decode_ms\":");
            r.push_str(decimal_text(*decode_ms).as_str());
            r.push_str("}");
            r
        },
        LoopEvent::Error { message } => {
            let mut r = "{\"type\":\"error\",\"message\":\"".to_owned();
            r.push_str(escape_json(message.as_str()).as_str());
            r.push_str("\"}");
            r
        },
    }
}

/// An event as a frame of the stream.
pub fn event_frame(event: &LoopEvent) -> (r: String)
    ensures
        r@ == "data: "@ + event_text(event@) + "\n\n"@,
{
    let mut r = "data: ".to_owned();
    r.push_str(format_loop_event(event).as_str());
    r.push_str("\n\n");
    r
}

/// The last frame of the stream.
pub fn done_frame() -> (r: &'static str)
    ensures
        r@ == "data: [DONE]\n\n"@,
{
    "data: [DONE]\n\n"
}

/// Every address has its one route, and any other is not there: what is read is asked for by GET,
/// and what changes something is sent by POST.
pub proof fn law_every_address_has_its_route(method: Seq<char>, path: Seq<char>)
    ensures
        route_of(method, path) is Page <==> method == "GET"@ && (path == "/"@ || path
            == "/index.html"@),
        route_of("GET"@, "/api/health"@) is Health,
        route_of("GET"@, "/api/sessions"@) is ListSessions,
        route_of("GET"@, "/api/skills"@) is ListSkills,
        route_of("GET"@, "/api/commands"@) is ListCommands,
        route_of("POST"@, "/api/sessions/create"@) is CreateSession,
        route_of("POST"@, "/api/sessions/switch"@) is SwitchSession,
        route_of("POST"@, "/api/chat"@) is Chat,
        route_of(method, path) is Health ==> method == "GET"@ && path == "/api/health"@,
        route_of(method, path) is ListSessions ==> method == "GET"@ && path == "/api/sessions"@,
        route_of(method, path) is ListSkills ==> method == "GET"@ && path == "/api/skills"@,
        route_of(method, path) is ListCommands ==> method == "GET"@ && path == "/api/commands"@,
        route_of(method, path) is CreateSession ==> method == "POST"@ && path
            == "/api/sessions/create"@,
        route_of(method, path) is SwitchSession ==> method == "POST"@ && path
            == "/api/sessions/switch"@,
        route_of(method, path) is Chat ==> method == "POST"@ && path == "/api/chat"@,
{
    reveal_strlit("GET");
    reveal_strlit("POST");
    reveal_strlit("/");
    reveal_strlit("/index.html");
    reveal_strlit("/api/health");
    reveal_strlit("/api/sessions");
    reveal_strlit("/api/skills");
    reveal_strlit("/api/commands");
    reveal_strlit("/api/sessions/create");
    reveal_strlit("/api/sessions/switch");
    reveal_strlit("/api/chat");
    assert("GET"@.len() == 3 && "POST"@.len() == 4);
    assert("/"@.len() == 1 && "/index.html"@.len() == 11 && "/api/health"@.len() == 11);
    assert("/api/sessions"@.len() == 13 && "/api/skills"@.len() == 11);
    assert("/api/commands"@.len() == 13 && "/api/chat"@.len() == 9);
    assert("/api/sessions/create"@.len() == 20 && "/api/sessions/switch"@.len() == 20);
    assert("/index.html"@[1] != "/api/health"@[1]);
    assert("/index.html"@[1] != "/api/skills"@[1]);
    assert("/api/health"@[5] != "/api/skills"@[5]);
    assert("/api/sessions"@[5] != "/api/commands"@[5]);
    assert("/api/sessions/create"@[14] != "/api/sessions/switch"@[14]);
}

/// A field of a request is taken as it is sent, and what stands for a missing one only where it is
/// missing or no text.
pub proof fn law_fields_are_taken_as_sent(j: JsonV, field: Seq<char>, default: Seq<char>)
    ensures
        j.text_field(field) is Some ==> j.text_field(field) == Some(
            field_or(Some(j), field, default),
        ),
        j.text_field(field) is None ==> field_or(Some(j), field, default) == default,
        field_or(None, field, default) == default,
{
}

/// Skills, commands and the results of commands are told whole and in order.
pub proof fn law_lists_are_told_whole<P: CommandPlugin>(
    skills: Seq<SkillV>,
    commands: Seq<P>,
    r: CommandResultV,
)
    ensures
        skills_json(skills) is Array,
        skills_json(skills)->Array_0.len() == skills.len(),
        forall|i: int|
            0 <= i < skills.len() ==> tells_skill(
                #[trigger] skills_json(skills)->Array_0[i],
                skills[i],
            ),
        commands_json(commands) is Array,
        commands_json(commands)->Array_0.len() == commands.len(),
        forall|i: int|
            0 <= i < commands.len() ==> {
                let j = #[trigger] commands_json(commands)->Array_0[i];
                &&& j.field("name"@) == Some(JsonV::Text(commands[i].named()))
                &&& j.field("description"@) == Some(JsonV::Text(commands[i].about()))
            },
        result_json(r).field("text"@) == Some(JsonV::Text(r.text)),
        result_json(r).field("action"@) == Some(JsonV::Text(r.action)),
        result_json(r).field("ok"@) == Some(JsonV::Bool(r.ok)),
        r.session_id is Some ==> result_json(r).field("session_id"@) == Some(
            JsonV::Text(r.session_id->0),
        ),
        r.session_id is None ==> result_json(r).field("session_id"@) == Some(JsonV::Null),
{
    reveal_strlit("name");
    reveal_strlit("description");
    reveal_strlit("mode");
    reveal_strlit("think");
    reveal_strlit("text");
    reveal_strlit("action");
    reveal_strlit("session_id");
    reveal_strlit("ok");
    assert("name"@.len() == 4 && "description"@.len() == 11 && "mode"@.len() == 4);
    assert("think"@.len() == 5 && "text"@.len() == 4 && "action"@.len() == 6);
    assert("session_id"@.len() == 10 && "ok"@.len() == 2);
    assert("name"@[0] != "mode"@[0]);
    assert forall|i: int| 0 <= i < skills.len() implies tells_skill(
        #[trigger] skills_json(skills)->Array_0[i],
        skills[i],
    ) by {
        let o = skill_json(skills[i])->Object_0;
        law_fields_are_found_by_name(o, "name"@, 0);
        law_fields_are_found_by_name(o, "description"@, 1);
        law_fields_are_found_by_name(o, "mode"@, 2);
        law_fields_are_found_by_name(o, "think"@, 3);
    }
    assert forall|i: int| 0 <= i < commands.len() implies {
        let j = #[trigger] commands_json(commands)->Array_0[i];
        &&& j.field("name"@) == Some(JsonV::Text(commands[i].named()))
        &&& j.field("description"@) == Some(JsonV::Text(commands[i].about()))
    } by {
        let o = command_json(commands[i].named(), commands[i].about())->Object_0;
        law_fields_are_found_by_name(o, "name"@, 0);
        law_fields_are_found_by_name(o, "description"@, 1);
    }
    let o = result_json(r)->Object_0;
    law_fields_are_found_by_name(o, "text"@, 0);
    law_fields_are_found_by_name(o, "action"@, 1);
    law_fields_are_found_by_name(o, "session_id"@, 2);
    law_fields_are_found_by_name(o, "ok"@, 3);
}

/// Whether a value tells a skill: its name, what it is for, how it runs and whether it reasons.
pub open spec fn tells_skill(j: JsonV, s: SkillV) -> bool {
    &&& j.field("name"@) == Some(JsonV::Text(s.name))
    &&& j.field("description"@) == Some(JsonV::Text(s.description))
    &&& s.mode == ExecMode::Workflow ==> j.field("mode"@) == Some(JsonV::Text("workflow"@))
    &&& s.mode == ExecMode::Todo ==> j.field("mode"@) == Some(JsonV::Text("todo"@))
    &&& s.mode == ExecMode::Plan ==> j.field("mode"@) == Some(JsonV::Text("plan"@))
    &&& j.field("think"@) == Some(JsonV::Bool(s.think != ThinkLevel::Off))
}

/// A chat runs the skill of the given name, else the first, else the bare one.
pub proof fn law_chats_run_the_skill_named(skills: Seq<SkillV>, name: Seq<char>, i: int)
    requires
        0 <= i <= skills.len(),
        forall|k: int| 0 <= k < i ==> (#[trigger] skills[k]).name != name,
    ensures
        i < skills.len() && skills[i].name == name ==> chat_skill(skills, name) == skills[i],
        i == skills.len() && skills.len() > 0 ==> chat_skill(skills, name) == skills[0],
        skills.len() == 0 ==> chat_skill(skills, name) == bare_skill(),
        bare_skill().mode == ExecMode::Plan && bare_skill().tools_allow.len() == 0,
{
    law_skills_are_chosen_by_name(skills, name, i);
}

/// Events are told to the page as they are: pieces of text, messages with their calls, results and
/// failures whole, with what is written inside a string escaped.
pub proof fn law_events_are_told_whole(
    text: Seq<char>,
    calls: Seq<ToolCallV>,
    call: ToolCallV,
    id: Seq<char>,
    turn: u64,
    step: u64,
    reason: TurnEndReason,
)
    ensures
        event_text(LoopEventV::Delta { text }) == "{\"type\":\"delta\",\"text\":\""@ + escaped(text)
            + "\"}"@,
        event_text(LoopEventV::Error { message: text }) == "{\"type\":\"error\",\"message\":\""@
            + escaped(text) + "\"}"@,
        event_text(LoopEventV::AssistantMessage { content: text, tool_calls: calls })
            == "{\"type\":\"assistant_message\",\"content\":\""@ + escaped(text)
            + "\",\"tool_calls\":["@ + join(call_texts(calls), ","@) + "]}"@,
        call_texts(calls.push(call)) == call_texts(calls).push(
            "{\"name\":\""@ + escaped(call.name) + "\",\"arguments\":"@ + json_text(call.arguments)
                + "}"@,
        ),
        event_text(LoopEventV::ToolCall { call }) == "{\"type\":\"tool_call\",\"name\":\""@
            + escaped(call.name) + "\",\"arguments\":"@ + json_text(call.arguments) + "}"@,
        event_text(LoopEventV::ToolResult { call_id: id, content: text, is_error: true })
            == "{\"type\":\"tool_result\",\"call_id\":\""@ + escaped(id) + "\",\"content\":\""@
            + escaped(text) + "\",\"is_error\":true}"@,
        event_text(LoopEventV::ToolResult { call_id: id, content: text, is_error: false })
            == "{\"type\":\"tool_result\",\"call_id\":\""@ + escaped(id) + "\",\"content\":\""@
            + escaped(text) + "\",\"is_error\":false}"@,
        event_text(LoopEventV::TurnStart { turn }) == "{\"type\":\"turn_start\",\"turn\":"@
            + decimal(turn as nat) + "}"@,
        event_text(LoopEventV::StepStart { turn, step }) == "{\"type\":\"step_start\",\"turn\":"@
            + decimal(turn as nat) + ",\"step\":"@ + decimal(step as nat) + "}"@,
        event_text(LoopEventV::StepEnd { turn, step }) == "{\"type\":\"step_end\",\"turn\":"@
            + decimal(turn as nat) + ",\"step\":"@ + decimal(step as nat) + "}"@,
        event_text(LoopEventV::TurnEnd { turn, reason }) == "{\"type\":\"turn_end\",\"turn\":"@
            + decimal(turn as nat) + ",\"reason\":\""@ + reason_name(reason) + "\"}"@,
{
    assert(call_texts(calls.push(call)) =~= call_texts(calls).push(call_text(call)));
}

} // verus!
