//! The body of a chat-completion request.
use crate::json::{
    field_models, json_str, json_text, json_to_text, law_fields_are_found_by_name, models,
    with_field, with_item, Json, JsonV,
};
use crate::llm::{LlmClient, LlmRequest, LlmRequestV};
use crate::types::{
    clone_opt, Float32, ImageBlock, ImageBlockV, Message, MessageV, ToolCall, ToolCallV,
    ToolDefinition, ToolDefinitionV,
};
use crate::views::{opt_view, views};
use vstd::prelude::*;

verus! {

/// What a stream is to hold besides the answer.
#[derive(Debug)]
pub struct StreamOptions {
    pub include_usage: bool,
}

/// The body of a request.
#[derive(Debug)]
pub struct ChatCompletionRequest {
    pub model: String,
    pub messages: Vec<ApiMessage>,
    /// Left out where there are none.
    pub tools: Vec<ApiTool>,
    pub stream: bool,
    pub stream_options: Option<StreamOptions>,
    pub max_tokens: usize,
    pub temperature: Float32,
    /// Left out where the model is not to reason.
    pub reasoning_effort: Option<String>,
}

/// One message of a request.
#[derive(Debug)]
pub struct ApiMessage {
    pub role: &'static str,
    /// A text, or an array of text and image parts.
    pub content: Json,
    pub tool_calls: Option<Vec<ApiToolCall>>,
    pub tool_call_id: Option<String>,
    pub reasoning_content: Option<String>,
}

/// A tool call of a message.
#[derive(Debug)]
pub struct ApiToolCall {
    pub id: String,
    pub kind: &'static str,
    pub function: ApiFunction,
}

/// The function that a tool call names, with its arguments as JSON text.
#[derive(Debug)]
pub struct ApiFunction {
    pub name: String,
    pub arguments: String,
}

/// A tool that the model may ask for.
#[derive(Debug)]
pub struct ApiTool {
    pub kind: &'static str,
    pub function: ApiToolDef,
}

/// The function that a tool is.
#[derive(Debug)]
pub struct ApiToolDef {
    pub name: String,
    pub description: String,
    pub parameters: Json,
}

/// What a [`ChatCompletionRequest`] stands for.
pub struct RequestBodyV {
    pub model: Seq<char>,
    pub messages: Seq<ApiMessageV>,
    pub tools: Seq<ApiToolV>,
    pub stream: bool,
    pub include_usage: Option<bool>,
    pub max_tokens: usize,
    pub temperature: Float32,
    pub reasoning_effort: Option<Seq<char>>,
}

/// What an [`ApiMessage`] stands for.
pub struct ApiMessageV {
    pub role: Seq<char>,
    pub content: JsonV,
    pub tool_calls: Option<Seq<ApiToolCallV>>,
    pub tool_call_id: Option<Seq<char>>,
    pub reasoning_content: Option<Seq<char>>,
}

/// What an [`ApiToolCall`] stands for.
pub struct ApiToolCallV {
    pub id: Seq<char>,
    pub kind: Seq<char>,
    pub name: Seq<char>,
    pub arguments: Seq<char>,
}

/// What an [`ApiTool`] stands for.
pub struct ApiToolV {
    pub kind: Seq<char>,
    pub name: Seq<char>,
    pub description: Seq<char>,
    pub parameters: JsonV,
}

impl View for ChatCompletionRequest {
    type V = RequestBodyV;

    open spec fn view(&self) -> RequestBodyV {
        RequestBodyV {
            model: self.model@,
            messages: views(self.messages@),
            tools: views(self.tools@),
            stream: self.stream,
            include_usage: match self.stream_options {
                Some(o) => Some(o.include_usage),
                None => None,
            },
            max_tokens: self.max_tokens,
            temperature: self.temperature,
            reasoning_effort: opt_view(self.reasoning_effort),
        }
    }
}

impl View for ApiMessage {
    type V = ApiMessageV;

    open spec fn view(&self) -> ApiMessageV {
        ApiMessageV {
            role: self.role@,
            content: self.content@,
            tool_calls: match self.tool_calls {
                Some(calls) => Some(views(calls@)),
                None => None,
            },
            tool_call_id: opt_view(self.tool_call_id),
            reasoning_content: opt_view(self.reasoning_content),
        }
    }
}

impl View for ApiToolCall {
    type V = ApiToolCallV;

    open spec fn view(&self) -> ApiToolCallV {
        ApiToolCallV {
            id: self.id@,
            kind: self.kind@,
            name: self.function.name@,
            arguments: self.function.arguments@,
        }
    }
}

impl View for ApiTool {
    type V = ApiToolV;

    open spec fn view(&self) -> ApiToolV {
        ApiToolV {
            kind: self.kind@,
            name: self.function.name@,
            description: self.function.description@,
            parameters: self.function.parameters@,
        }
    }
}

/// A part of a message that is text.
pub open spec fn text_part(content: Seq<char>) -> JsonV {
    JsonV::Object(seq![("text"@, JsonV::Text(content)), ("type"@, JsonV::Text("text"@))])
}

/// The address under which an image is sent: its data itself.
pub open spec fn data_url(image: ImageBlockV) -> Seq<char> {
    "data:"@ + image.media_type + ";base64,"@ + image.data
}

/// A part of a message that is an image.
pub open spec fn image_part(image: ImageBlockV) -> JsonV {
    JsonV::Object(
        seq![
            ("image_url"@, JsonV::Object(seq![("url"@, JsonV::Text(data_url(image)))])),
            ("type"@, JsonV::Text("image_url"@)),
        ],
    )
}

/// The parts for some images.
pub open spec fn image_parts(images: Seq<ImageBlockV>) -> Seq<JsonV> {
    images.map_values(|i: ImageBlockV| image_part(i))
}

/// The content of a user's message: its text, or text and images as parts; empty text is no part.
pub open spec fn user_content(content: Seq<char>, images: Seq<ImageBlockV>) -> JsonV {
    if images.len() == 0 {
        JsonV::Text(content)
    } else if content.len() == 0 {
        JsonV::Array(image_parts(images))
    } else {
        JsonV::Array(seq![text_part(content)] + image_parts(images))
    }
}

/// The content of a tool's message: its text, or text and images as parts.
pub open spec fn tool_content(content: Seq<char>, images: Seq<ImageBlockV>) -> JsonV {
    if images.len() == 0 {
        JsonV::Text(content)
    } else {
        JsonV::Array(seq![text_part(content)] + image_parts(images))
    }
}

/// A tool call as it is sent.
pub open spec fn api_call(c: ToolCallV) -> ApiToolCallV {
    ApiToolCallV {
        id: c.id,
        kind: "function"@,
        name: c.name,
        arguments: json_text(c.arguments),
    }
}

/// A tool as it is sent.
pub open spec fn api_tool(t: ToolDefinitionV) -> ApiToolV {
    ApiToolV {
        kind: "function"@,
        name: t.name,
        description: t.description,
        parameters: t.parameters,
    }
}

/// A message as it is sent.
pub open spec fn api_message(m: MessageV) -> ApiMessageV {
    match m {
        MessageV::User { content, images } => ApiMessageV {
            role: "user"@,
            content: user_content(content, images),
            tool_calls: None,
            tool_call_id: None,
            reasoning_content: None,
        },
        MessageV::Assistant { content, tool_calls, reasoning_content } => ApiMessageV {
            role: "assistant"@,
            content: JsonV::Text(content),
            tool_calls: if tool_calls.len() == 0 {
                None
            } else {
                Some(tool_calls.map_values(|c: ToolCallV| api_call(c)))
            },
            tool_call_id: None,
            reasoning_content,
        },
        MessageV::Tool { call_id, content, images, .. } => ApiMessageV {
            role: "tool"@,
            content: tool_content(content, images),
            tool_calls: None,
            tool_call_id: Some(call_id),
            reasoning_content: None,
        },
    }
}

/// The message that a system prompt is.
pub open spec fn system_message(system: Seq<char>) -> ApiMessageV {
    ApiMessageV {
        role: "system"@,
        content: JsonV::Text(system),
        tool_calls: None,
        tool_call_id: None,
        reasoning_content: None,
    }
}

/// The messages of a request: the system prompt, where there is one, and then the conversation.
pub open spec fn api_messages(system: Seq<char>, messages: Seq<MessageV>) -> Seq<ApiMessageV> {
    let rest = messages.map_values(|m: MessageV| api_message(m));
    if system.len() == 0 {
        rest
    } else {
        seq![system_message(system)] + rest
    }
}

/// The body of a request.
pub open spec fn request_body(r: LlmRequestV) -> RequestBodyV {
    RequestBodyV {
        model: r.model,
        messages: api_messages(r.system, r.messages),
        tools: r.tools.map_values(|t: ToolDefinitionV| api_tool(t)),
        stream: true,
        include_usage: Some(true),
        max_tokens: r.max_tokens,
        temperature: r.temperature,
        reasoning_effort: r.think.effort(),
    }
}

/// A part of a message that is text.
fn make_text_part(content: &str) -> (r: Json)
    ensures
        r@ == text_part(content@),
{
    let fields: Vec<(String, Json)> = Vec::new();
    let fields = with_field(fields, "text", json_str(content));
    let fields = with_field(fields, "type", json_str("text"));
    assert(field_models(fields@) =~= seq![
        ("text"@, JsonV::Text(content@)),
        ("type"@, JsonV::Text("text"@)),
    ]);
    Json::Object(fields)
}

/// A part of a message that is an image.
fn make_image_part(image: &ImageBlock) -> (r: Json)
    ensures
        r@ == image_part(image@),
{
    let mut url = "data:".to_owned();
    url.push_str(image.media_type.as_str());
    url.push_str(";base64,");
    url.push_str(image.data.as_str());
    let inner: Vec<(String, Json)> = Vec::new();
    let inner = with_field(inner, "url", Json::Text(url));
    assert(field_models(inner@) =~= seq![("url"@, JsonV::Text(data_url(image@)))]);
    let fields: Vec<(String, Json)> = Vec::new();
    let fields = with_field(fields, "image_url", Json::Object(inner));
    let fields = with_field(fields, "type", json_str("image_url"));
    assert(field_models(fields@) =~= seq![
        ("image_url"@, JsonV::Object(seq![("url"@, JsonV::Text(data_url(image@)))])),
        ("type"@, JsonV::Text("image_url"@)),
    ]);
    Json::Object(fields)
}

/// `parts` and the parts for some images after them.
fn with_images(parts: Vec<Json>, images: &Vec<ImageBlock>) -> (r: Vec<Json>)
    ensures
        models(r@) == models(parts@) + image_parts(views(images@)),
{
    let ghost first = models(parts@);
    let ghost all = image_parts(views(images@));
    let mut r = parts;
    let mut i: usize = 0;
    assert(first + all.take(0) =~= first);
    while i < images.len()
        invariant
            i <= images@.len(),
            all == image_parts(views(images@)),
            models(r@) == first + all.take(i as int),
        decreases images@.len() - i,
    {
        r = with_item(r, make_image_part(&images[i]));
        assert(all[i as int] == image_part(images@[i as int]@));
        assert(models(r@) =~= first + all.take(i + 1));
        i += 1;
    }
    assert(all.take(i as int) =~= all);
    r
}

/// The content of a user's message.
fn make_user_content(content: &str, images: &Vec<ImageBlock>) -> (r: Json)
    ensures
        r@ == user_content(content@, views(images@)),
{
    if images.len() == 0 {
        return json_str(content);
    }
    let mut parts: Vec<Json> = Vec::new();
    if !content.is_empty() {
        parts = with_item(parts, make_text_part(content));
        assert(models(parts@) =~= seq![text_part(content@)]);
    } else {
        assert(models(parts@) + image_parts(views(images@)) =~= image_parts(views(images@)));
    }
    Json::Array(with_images(parts, images))
}

/// The content of a tool's message.
fn make_tool_content(content: &str, images: &Vec<ImageBlock>) -> (r: Json)
    ensures
        r@ == tool_content(content@, views(images@)),
{
    if images.len() == 0 {
        return json_str(content);
    }
    let parts: Vec<Json> = Vec::new();
    let parts = with_item(parts, make_text_part(content));
    assert(models(parts@) =~= seq![text_part(content@)]);
    Json::Array(with_images(parts, images))
}

/// Tool calls as they are sent.
fn make_calls(calls: &Vec<ToolCall>) -> (r: Vec<ApiToolCall>)
    ensures
        views(r@) == views(calls@).map_values(|c: ToolCallV| api_call(c)),
{
    let ghost all = views(calls@).map_values(|c: ToolCallV| api_call(c));
    let mut r: Vec<ApiToolCall> = Vec::new();
    let mut i: usize = 0;
    assert(views(r@) =~= all.take(0));
    while i < calls.len()
        invariant
            i <= calls@.len(),
            all == views(calls@).map_values(|c: ToolCallV| api_call(c)),
            views(r@) == all.take(i as int),
        decreases calls@.len() - i,
    {
        let c = &calls[i];
        let ghost before = views(r@);
        r.push(
            ApiToolCall {
                id: c.id.clone(),
                kind: "function",
                function: ApiFunction {
                    name: c.name.clone(),
                    arguments: json_to_text(&c.arguments),
                },
            },
        );
        assert(views(r@) =~= before.push(all[i as int]));
        assert(all.take(i + 1) =~= all.take(i as int).push(all[i as int]));
        i += 1;
    }
    assert(all.take(i as int) =~= all);
    r
}

/// A message as it is sent.
fn make_message(m: &Message) -> (r: ApiMessage)
    ensures
        r@ == api_message(m@),
{
    match m {
        Message::User { content, images } => ApiMessage {
            role: "user",
            content: make_user_content(content.as_str(), images),
            tool_calls: None,
            tool_call_id: None,
            reasoning_content: None,
        },
        Message::Assistant { content, tool_calls, reasoning_content } => ApiMessage {
            role: "assistant",
            content: json_str(content.as_str()),
            tool_calls: if tool_calls.len() == 0 {
                None
            } else {
                Some(make_calls(tool_calls))
            },
            tool_call_id: None,
            reasoning_content: clone_opt(reasoning_content),
        },
        Message::Tool { call_id, content, images, .. } => ApiMessage {
            role: "tool",
            content: make_tool_content(content.as_str(), images),
            tool_calls: None,
            tool_call_id: Some(call_id.clone()),
            reasoning_content: None,
        },
    }
}

/// Tools as they are sent.
fn make_tools(tools: &Vec<ToolDefinition>) -> (r: Vec<ApiTool>)
    ensures
        views(r@) == views(tools@).map_values(|t: ToolDefinitionV| api_tool(t)),
{
    let ghost all = views(tools@).map_values(|t: ToolDefinitionV| api_tool(t));
    let mut r: Vec<ApiTool> = Vec::new();
    let mut i: usize = 0;
    assert(views(r@) =~= all.take(0));
    while i < tools.len()
        invariant
            i <= tools@.len(),
            all == views(tools@).map_values(|t: ToolDefinitionV| api_tool(t)),
            views(r@) == all.take(i as int),
        decreases tools@.len() - i,
    {
        let t = &tools[i];
        let ghost before = views(r@);
        r.push(
            ApiTool {
                kind: "function",
                function: ApiToolDef {
                    name: t.name.clone(),
                    description: t.description.clone(),
                    parameters: t.parameters.clone(),
                },
            },
        );
        assert(views(r@) =~= before.push(all[i as int]));
        assert(all.take(i + 1) =~= all.take(i as int).push(all[i as int]));
        i += 1;
    }
    assert(all.take(i as int) =~= all);
    r
}

impl LlmClient {
    /// The body of a request.
    pub fn build_request_body(&self, request: &LlmRequest) -> (r: ChatCompletionRequest)
        ensures
            r@ == request_body(request@),
    {
        let mut messages: Vec<ApiMessage> = Vec::new();
        if !request.system.as_str().is_empty() {
            messages.push(
                ApiMessage {
                    role: "system",
                    content: json_str(request.system.as_str()),
                    tool_calls: None,
                    tool_call_id: None,
                    reasoning_content: None,
                },
            );
        }
        let ghost first = views(messages@);
        let ghost rest = views(request.messages@).map_values(|m: MessageV| api_message(m));
        let mut i: usize = 0;
        assert(first + rest.take(0) =~= first);
        while i < request.messages.len()
            invariant
                i <= request.messages@.len(),
                rest == views(request.messages@).map_values(|m: MessageV| api_message(m)),
                views(messages@) == first + rest.take(i as int),
            decreases request.messages@.len() - i,
        {
            let ghost before = views(messages@);
            messages.push(make_message(&request.messages[i]));
            assert(views(messages@) =~= before.push(rest[i as int]));
            assert(first + rest.take(i + 1) =~= (first + rest.take(i as int)).push(
                rest[i as int],
            ));
            i += 1;
        }
        proof {
            assert(rest.take(i as int) =~= rest);
            if request.system@.len() == 0 {
                assert(first + rest =~= rest);
            } else {
                assert(first =~= seq![system_message(request.system@)]);
            }
        }
        ChatCompletionRequest {
            model: request.model.clone(),
            messages,
            tools: make_tools(&request.tools),
            stream: true,
            stream_options: Some(StreamOptions { include_usage: true }),
            max_tokens: request.max_tokens,
            temperature: request.temperature,
            reasoning_effort: match request.think.as_effort_str() {
                Some(s) => Some(s.to_owned()),
                None => None,
            },
        }
    }
}

/// Reasoning goes back to the model with every answer that came with reasoning, and with no other
/// message.
pub proof fn law_reasoning_is_passed_back(m: MessageV)
    ensures
        api_message(m).reasoning_content == match m {
            MessageV::Assistant { reasoning_content, .. } => reasoning_content,
            _ => None,
        },
{
}

/// Requests for conversations of which one is the beginning of the other begin with the same
/// messages: what was sent stays in front of what is sent later.
pub proof fn law_requests_share_their_beginning(
    system: Seq<char>,
    earlier: Seq<MessageV>,
    more: Seq<MessageV>,
)
    ensures
        api_messages(system, earlier).is_prefix_of(api_messages(system, earlier + more)),
{
    let a = api_messages(system, earlier);
    let b = api_messages(system, earlier + more);
    assert(a =~= b.take(a.len() as int));
}

/// Whether a part of a message is the given text.
pub open spec fn says(part: JsonV, text: Seq<char>) -> bool {
    part.field("type"@) == Some(JsonV::Text("text"@)) && part.field("text"@) == Some(
        JsonV::Text(text),
    )
}

/// Whether a part of a message is the given image.
pub open spec fn displays(part: JsonV, image: ImageBlockV) -> bool {
    &&& part.field("type"@) == Some(JsonV::Text("image_url"@))
    &&& part.field("image_url"@) is Some
    &&& part.field("image_url"@)->0.field("url"@) == Some(
        JsonV::Text("data:"@ + image.media_type + ";base64,"@ + image.data),
    )
}

proof fn lemma_parts(text: Seq<char>, image: ImageBlockV)
    ensures
        says(text_part(text), text),
        displays(image_part(image), image),
{
    reveal_strlit("text");
    reveal_strlit("type");
    reveal_strlit("image_url");
    reveal_strlit("url");
    assert("text"@[1] != "type"@[1]);
    assert("image_url"@.len() != "type"@.len());
    let t = seq![("text"@, JsonV::Text(text)), ("type"@, JsonV::Text("text"@))];
    law_fields_are_found_by_name(t, "text"@, 0);
    law_fields_are_found_by_name(t, "type"@, 1);
    let u = seq![("url"@, JsonV::Text(data_url(image)))];
    let i = seq![("image_url"@, JsonV::Object(u)), ("type"@, JsonV::Text("image_url"@))];
    law_fields_are_found_by_name(u, "url"@, 0);
    law_fields_are_found_by_name(i, "image_url"@, 0);
    law_fields_are_found_by_name(i, "type"@, 1);
}

/// What the user said and showed can be read back from the content that is sent. Without images it
/// is the text. With images it is one image part for each, in order, with the text before them as a
/// part of its own where there is any.
pub proof fn law_users_content_is_sent_whole(content: Seq<char>, images: Seq<ImageBlockV>)
    ensures
        images.len() == 0 ==> user_content(content, images) == JsonV::Text(content),
        images.len() > 0 ==> {
            let sent = user_content(content, images);
            let first: int = if content.len() > 0 {
                1
            } else {
                0
            };
            &&& sent is Array
            &&& sent->Array_0.len() == first + images.len()
            &&& content.len() > 0 ==> says(sent->Array_0[0], content)
            &&& forall|i: int|
                0 <= i < images.len() ==> displays(
                    #[trigger] sent->Array_0[first + i],
                    images[i],
                )
        },
{
    if images.len() > 0 {
        let sent = user_content(content, images);
        let first: int = if content.len() > 0 {
            1
        } else {
            0
        };
        assert forall|i: int| 0 <= i < images.len() implies displays(
            #[trigger] sent->Array_0[first + i],
            images[i],
        ) by {
            lemma_parts(content, images[i]);
            assert(image_parts(images)[i] == image_part(images[i]));
        }
        lemma_parts(content, images[0]);
    }
}

/// What a tool gave can be read back from the content that is sent. Without images it is the text.
/// With images it is the text as a part, and then one image part for each image, in order.
pub proof fn law_tools_content_is_sent_whole(content: Seq<char>, images: Seq<ImageBlockV>)
    ensures
        images.len() == 0 ==> tool_content(content, images) == JsonV::Text(content),
        images.len() > 0 ==> {
            let sent = tool_content(content, images);
            &&& sent is Array
            &&& sent->Array_0.len() == 1 + images.len()
            &&& says(sent->Array_0[0], content)
            &&& forall|i: int|
                0 <= i < images.len() ==> displays(#[trigger] sent->Array_0[1 + i], images[i])
        },
{
    if images.len() > 0 {
        let sent = tool_content(content, images);
        assert forall|i: int| 0 <= i < images.len() implies displays(
            #[trigger] sent->Array_0[1 + i],
            images[i],
        ) by {
            lemma_parts(content, images[i]);
            assert(image_parts(images)[i] == image_part(images[i]));
        }
        lemma_parts(content, images[0]);
    }
}

/// Every message is sent under the role of who said it, with what it says: the model's with its
/// tool calls, one for each and in order, each with its id, its tool and its arguments as JSON
/// text; a tool's with the id of the call that it answers.
pub proof fn law_messages_are_sent_whole(m: MessageV)
    ensures
        m is User ==> {
            &&& api_message(m).role == "user"@
            &&& api_message(m).content == user_content(m->User_content, m->User_images)
            &&& api_message(m).tool_calls is None
            &&& api_message(m).tool_call_id is None
        },
        m is Assistant ==> {
            &&& api_message(m).role == "assistant"@
            &&& api_message(m).content == JsonV::Text(m->Assistant_content)
            &&& api_message(m).tool_call_id is None
            &&& api_message(m).reasoning_content == m->reasoning_content
            &&& api_message(m).tool_calls is Some <==> m->tool_calls.len() > 0
            &&& m->tool_calls.len() > 0 ==> api_message(m).tool_calls->0.len()
                == m->tool_calls.len()
            &&& forall|i: int|
                0 <= i < m->tool_calls.len() ==> {
                    let sent = #[trigger] api_message(m).tool_calls->0[i];
                    &&& sent.id == m->tool_calls[i].id
                    &&& sent.kind == "function"@
                    &&& sent.name == m->tool_calls[i].name
                    &&& sent.arguments == json_text(m->tool_calls[i].arguments)
                }
        },
        m is Tool ==> {
            &&& api_message(m).role == "tool"@
            &&& api_message(m).tool_call_id == Some(m->call_id)
            &&& api_message(m).content == tool_content(m->Tool_content, m->Tool_images)
            &&& api_message(m).tool_calls is None
        },
{
}

/// A request holds the whole conversation: the system prompt first, where there is one, and then
/// one message for each, in order. It offers every tool, under its name, with its description and
/// its parameters, and asks for a stream that tells the usage. What it asks of the model is what
/// was asked for.
pub proof fn law_requests_are_sent_whole(r: LlmRequestV)
    ensures
        ({
            let sent = request_body(r);
            let first: int = if r.system.len() > 0 {
                1
            } else {
                0
            };
            &&& sent.messages.len() == first + r.messages.len()
            &&& r.system.len() > 0 ==> sent.messages[0].role == "system"@
                && sent.messages[0].content == JsonV::Text(r.system)
            &&& forall|i: int|
                0 <= i < r.messages.len() ==> #[trigger] sent.messages[first + i] == api_message(
                    r.messages[i],
                )
            &&& sent.tools.len() == r.tools.len()
            &&& forall|i: int|
                0 <= i < r.tools.len() ==> {
                    let tool = #[trigger] sent.tools[i];
                    &&& tool.kind == "function"@
                    &&& tool.name == r.tools[i].name
                    &&& tool.description == r.tools[i].description
                    &&& tool.parameters == r.tools[i].parameters
                }
            &&& sent.model == r.model
            &&& sent.max_tokens == r.max_tokens
            &&& sent.temperature == r.temperature
            &&& sent.reasoning_effort == r.think.effort()
            &&& sent.stream
            &&& sent.include_usage == Some(true)
        }),
{
}

} // verus!
