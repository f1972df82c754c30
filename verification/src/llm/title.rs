//! Titles for sessions, made by the model from the first message.
use crate::json::{
    field_models, json_str, json_text, json_to_text, law_fields_are_found_by_name, models,
    parse_json, parsed_tree, with_field,
    with_item, Json, JsonV,
};
use crate::llm::endpoint::{
    endpoint_for, plan_for, plan_to, plan_view, text_view, uri_parts, HttpPlan, HttpPlanV,
    completions_url,
};
use crate::llm::{LlmClient, LlmError, LlmErrorV};
use crate::text::{char_is_space, chars_of, is_space, join, join_texts, string_of, texts};
use vstd::prelude::*;

verus! {

/// What the model is told about titles.
pub open spec fn title_instructions() -> Seq<char> {
    "Create a concise title for an AI assistant session from the supplied human message. Return only the title on one line, in plain text of natural language, with no quotes, prefix, explanation, Markdown, XML, or terminal control codes. No code is allowed. Use the language of the message. Aim for about 6 words in non-CJK languages or 12 CJK characters."@
}

/// One message of the request for a title.
pub open spec fn title_message(role: Seq<char>, content: Seq<char>) -> JsonV {
    JsonV::Object(seq![("role"@, JsonV::Text(role)), ("content"@, JsonV::Text(content))])
}

/// The request for a title.
pub open spec fn title_request(model: Seq<char>, first_message: Seq<char>) -> JsonV {
    JsonV::Object(
        seq![
            ("model"@, JsonV::Text(model)),
            (
                "messages"@,
                JsonV::Array(
                    seq![
                        title_message("system"@, title_instructions()),
                        title_message(
                            "user"@,
                            "Generate the session title from this human message:\n"@
                                + first_message,
                        ),
                    ],
                ),
            ),
            ("stream"@, JsonV::Bool(false)),
            ("max_tokens"@, JsonV::UInt(64)),
            ("temperature"@, JsonV::Real("0.0"@)),
        ],
    )
}

/// One message of the request for a title.
fn make_title_message(role: &str, content: &str) -> (r: Json)
    ensures
        r@ == title_message(role@, content@),
{
    let fields: Vec<(String, Json)> = Vec::new();
    let fields = with_field(fields, "role", json_str(role));
    let fields = with_field(fields, "content", json_str(content));
    assert(field_models(fields@) =~= seq![
        ("role"@, JsonV::Text(role@)),
        ("content"@, JsonV::Text(content@)),
    ]);
    Json::Object(fields)
}

/// The body of the request for a title.
pub fn title_body(model: &str, first_message: &str) -> (r: String)
    ensures
        r@ == json_text(title_request(model@, first_message@)),
{
    let mut user = "Generate the session title from this human message:\n".to_owned();
    user.push_str(first_message);
    let system =
        "Create a concise title for an AI assistant session from the supplied human message. Return only the title on one line, in plain text of natural language, with no quotes, prefix, explanation, Markdown, XML, or terminal control codes. No code is allowed. Use the language of the message. Aim for about 6 words in non-CJK languages or 12 CJK characters.";
    let messages: Vec<Json> = Vec::new();
    let messages = with_item(messages, make_title_message("system", system));
    let messages = with_item(messages, make_title_message("user", user.as_str()));
    assert(models(messages@) =~= seq![
        title_message("system"@, title_instructions()),
        title_message("user"@, user@),
    ]);
    let fields: Vec<(String, Json)> = Vec::new();
    let fields = with_field(fields, "model", json_str(model));
    let fields = with_field(fields, "messages", Json::Array(messages));
    let fields = with_field(fields, "stream", Json::Bool(false));
    let fields = with_field(fields, "max_tokens", Json::UInt(64));
    let fields = with_field(fields, "temperature", Json::Real("0.0".to_owned()));
    let body = Json::Object(fields);
    assert(body@->Object_0 =~= title_request(model@, first_message@)->Object_0);
    json_to_text(&body)
}

/// How many characters `s` begins with that are no white space.
pub open spec fn word_len(s: Seq<char>) -> nat
    decreases s.len(),
{
    if s.len() == 0 || is_space(s[0]) {
        0
    } else {
        1 + word_len(s.drop_first())
    }
}

/// The words of a text: what white space parts.
pub open spec fn words(s: Seq<char>) -> Seq<Seq<char>>
    decreases s.len(),
{
    if s.len() == 0 {
        Seq::empty()
    } else if is_space(s[0]) {
        words(s.drop_first())
    } else {
        proof {
            lemma_word_len(s);
        }
        seq![s.take(word_len(s) as int)] + words(s.skip(word_len(s) as int))
    }
}

/// A text that does not begin with white space begins with a word.
pub proof fn lemma_word_len(s: Seq<char>)
    ensures
        word_len(s) <= s.len(),
        s.len() > 0 && !is_space(s[0]) ==> word_len(s) > 0,
        word_len(s) < s.len() ==> is_space(s[word_len(s) as int]),
        forall|i: int| 0 <= i < word_len(s) ==> !is_space(#[trigger] s[i]),
    decreases s.len(),
{
    if s.len() > 0 && !is_space(s[0]) {
        lemma_word_len(s.drop_first());
        assert forall|i: int| 0 <= i < word_len(s) implies !is_space(#[trigger] s[i]) by {
            if i > 0 {
                assert(s[i] == s.drop_first()[i - 1]);
            }
        }
    }
}

/// The words of a text.
pub fn words_of(s: &str) -> (r: Vec<String>)
    ensures
        texts(r@) == words(s@),
{
    let v = chars_of(s);
    let mut r: Vec<String> = Vec::new();
    let mut i: usize = 0;
    assert(v@.skip(0) =~= v@);
    assert(texts(r@) + words(v@.skip(0)) =~= words(v@));
    while i < v.len()
        invariant
            i <= v@.len(),
            texts(r@) + words(v@.skip(i as int)) == words(v@),
        decreases v@.len() - i,
    {
        let ghost rest = v@.skip(i as int);
        if char_is_space(v[i]) {
            assert(rest.drop_first() =~= v@.skip(i + 1));
            i += 1;
        } else {
            let mut j: usize = i;
            assert(v@.skip(j as int) =~= rest);
            while j < v.len() && !char_is_space(v[j])
                invariant
                    i <= j <= v@.len(),
                    rest == v@.skip(i as int),
                    word_len(rest) == (j - i) + word_len(v@.skip(j as int)),
                decreases v@.len() - j,
            {
                assert(v@.skip(j as int).drop_first() =~= v@.skip(j + 1));
                j += 1;
            }
            let w = string_of(&v, i, j);
            let ghost before = texts(r@);
            assert(w@ =~= rest.take(j - i));
            assert(rest.skip(j - i) =~= v@.skip(j as int));
            r.push(w);
            assert(texts(r@) =~= before.push(w@));
            assert(texts(r@) + words(v@.skip(j as int)) =~= before + words(rest));
            i = j;
        }
    }
    assert(v@.skip(i as int) =~= Seq::empty());
    assert(texts(r@) =~= words(v@));
    r
}

/// The text that an answer holds: that of its first choice, and none where there is no such.
pub open spec fn answer_text(answer: JsonV) -> Seq<char> {
    match answer.items_field("choices"@) {
        Some(choices) => if choices.len() == 0 {
            Seq::empty()
        } else {
            match choices[0].field("message"@) {
                Some(message) => match message.text_field("content"@) {
                    Some(t) => t,
                    None => Seq::empty(),
                },
                None => Seq::empty(),
            }
        },
        None => Seq::empty(),
    }
}

/// The title in an answer: its words, one blank between each two. An answer without words is an
/// error.
pub open spec fn title_for(answer: JsonV) -> Result<Seq<char>, LlmErrorV> {
    let title = join(words(answer_text(answer)), " "@);
    if title.len() == 0 {
        Err(LlmErrorV::Read("title model produced empty output"@))
    } else {
        Ok(title)
    }
}

/// The title in an answer.
pub fn title_of(answer: &Json) -> (r: Result<String, LlmError>)
    ensures
        text_view(r) == title_for(answer@),
{
    let mut text = String::new();
    match answer.get_items("choices") {
        Some(choices) => {
            if choices.len() > 0 {
                match choices[0].get("message") {
                    Some(message) => {
                        match message.get_text("content") {
                            Some(t) => {
                                text = t.clone();
                            },
                            None => {},
                        }
                    },
                    None => {},
                }
            }
        },
        None => {},
    }
    assert(text@ =~= answer_text(answer@));
    let parts = words_of(text.as_str());
    let title = join_texts(&parts, " ");
    if title.as_str().is_empty() {
        Err(LlmError::Read("title model produced empty output".to_owned()))
    } else {
        Ok(title)
    }
}

/// What the text of an answer comes to.
pub open spec fn title_from(text: Seq<char>) -> Result<Seq<char>, LlmErrorV> {
    match parsed_tree(text) {
        Ok(answer) => title_for(answer),
        Err(e) => Err(LlmErrorV::Read("title response parse: "@ + e)),
    }
}

/// The title in the text of an answer.
pub fn title_from_response(text: &str) -> (r: Result<String, LlmError>)
    ensures
        text_view(r) == title_from(text@),
{
    match parse_json(text) {
        Ok(answer) => title_of(&answer),
        Err(e) => {
            let mut m = "title response parse: ".to_owned();
            m.push_str(e.as_str());
            Err(LlmError::Read(m))
        },
    }
}

/// How the request for a title gets to the service: always directly, and not over TLS.
pub open spec fn title_plan(base_url: Seq<char>, api_key: Seq<char>) -> Result<
    HttpPlanV,
    LlmErrorV,
> {
    let url = completions_url(base_url);
    match endpoint_for(uri_parts(url)) {
        Err(e) => Err(e),
        Ok(endpoint) => if endpoint.is_https {
            Err(LlmErrorV::Connect("HTTPS not yet supported for title generation"@))
        } else {
            Ok(plan_for(endpoint, None, url, api_key))
        },
    }
}

impl LlmClient {
    /// How the request for a title gets to the service, or why it cannot.
    pub fn plan_title(&self) -> (r: Result<HttpPlan, LlmError>)
        ensures
            plan_view(r) == title_plan(self.base_url@, self.api_key@),
    {
        let url = self.url();
        match self.endpoint() {
            Err(e) => Err(e),
            Ok(endpoint) => {
                if endpoint.is_https {
                    return Err(
                        LlmError::Connect(
                            "HTTPS not yet supported for title generation".to_owned(),
                        ),
                    );
                }
                Ok(plan_to(endpoint, None, url.as_str(), self.api_key.as_str()))
            },
        }
    }
}

/// A title holds no white space but single blanks between its words.
pub proof fn law_words_hold_no_space(s: Seq<char>, k: int, i: int)
    requires
        0 <= k < words(s).len(),
        0 <= i < words(s)[k].len(),
    ensures
        !is_space(words(s)[k][i]),
    decreases s.len(),
{
    if s.len() > 0 {
        if is_space(s[0]) {
            law_words_hold_no_space(s.drop_first(), k, i);
        } else {
            lemma_word_len(s);
            let n = word_len(s) as int;
            let first = s.take(n);
            if k == 0 {
                assert(first[i] == s[i]);
            } else {
                assert(words(s)[k] == words(s.skip(n))[k - 1]);
                law_words_hold_no_space(s.skip(n), k - 1, i);
            }
        }
    }
}

/// The words of a text are what white space parts: a word and then white space give that word and
/// then the words of the rest, and white space in front gives none.
pub proof fn law_words_are_what_white_space_parts(word: Seq<char>, c: char, rest: Seq<char>)
    requires
        word.len() > 0,
        forall|i: int| 0 <= i < word.len() ==> !is_space(#[trigger] word[i]),
        is_space(c),
    ensures
        words(word + seq![c] + rest) == seq![word] + words(rest),
        words(word) == seq![word],
        words(seq![c] + rest) == words(rest),
        words(Seq::empty()).len() == 0,
{
    let s = word + seq![c] + rest;
    assert(s =~= word + (seq![c] + rest));
    lemma_word_then(word, seq![c] + rest);
    assert(s.take(word.len() as int) =~= word);
    assert(s.skip(word.len() as int) =~= seq![c] + rest);
    assert((seq![c] + rest).drop_first() =~= rest);
    assert(words(seq![c] + rest) == words(rest));
    assert(!is_space(word[0]));
    assert(s[0] == word[0]);
    assert(words(s) == seq![s.take(word_len(s) as int)] + words(s.skip(word_len(s) as int)));
    lemma_word_then(word, Seq::empty());
    assert(word + Seq::<char>::empty() =~= word);
    assert(word.take(word.len() as int) =~= word);
    assert(word.skip(word.len() as int) =~= Seq::empty());
    assert(words(Seq::empty()) =~= Seq::empty());
    assert(words(word) =~= seq![word]);
}

proof fn lemma_word_then(word: Seq<char>, rest: Seq<char>)
    requires
        forall|i: int| 0 <= i < word.len() ==> !is_space(#[trigger] word[i]),
        rest.len() > 0 ==> is_space(rest[0]),
    ensures
        word_len(word + rest) == word.len(),
    decreases word.len(),
{
    if word.len() > 0 {
        assert((word + rest).drop_first() =~= word.drop_first() + rest);
        assert forall|i: int| 0 <= i < word.drop_first().len() implies !is_space(
            #[trigger] word.drop_first()[i],
        ) by {
            assert(word.drop_first()[i] == word[i + 1]);
        }
        lemma_word_then(word.drop_first(), rest);
    } else {
        assert(word + rest =~= rest);
    }
}

/// The title is what the first choice of the answer says, its words with one blank between each
/// two; an answer that says nothing gives none.
pub proof fn law_the_title_is_what_was_answered(answer: JsonV)
    ensures
        title_for(answer) is Ok ==> title_for(answer)->Ok_0 == join(
            words(answer_text(answer)),
            " "@,
        ) && title_for(answer)->Ok_0.len() > 0,
        title_for(answer) is Err <==> join(words(answer_text(answer)), " "@).len() == 0,
        answer.items_field("choices"@) is None || answer.items_field("choices"@)->0.len() == 0
            ==> answer_text(answer).len() == 0,
        answer.items_field("choices"@) is Some && answer.items_field("choices"@)->0.len() > 0
            && answer.items_field("choices"@)->0[0].field("message"@) is Some
            && answer.items_field("choices"@)->0[0].field("message"@)->0.text_field("content"@)
            is Some ==> Some(answer_text(answer)) == answer.items_field(
            "choices"@,
        )->0[0].field("message"@)->0.text_field("content"@),
{
}

/// The request for a title names the model and holds the instructions and then the message that the
/// title is for, whole.
pub proof fn law_titles_are_asked_of_the_message(model: Seq<char>, message: Seq<char>)
    ensures
        title_request(model, message).field("model"@) == Some(JsonV::Text(model)),
        title_request(model, message).items_field("messages"@) is Some,
        ({
            let sent = title_request(model, message).items_field("messages"@)->0;
            &&& sent.len() == 2
            &&& sent[0].field("role"@) == Some(JsonV::Text("system"@))
            &&& sent[1].field("role"@) == Some(JsonV::Text("user"@))
            &&& sent[1].field("content"@) == Some(
                JsonV::Text("Generate the session title from this human message:\n"@ + message),
            )
        }),
{
    reveal_strlit("model");
    reveal_strlit("messages");
    reveal_strlit("role");
    reveal_strlit("content");
    assert("model"@.len() == 5 && "messages"@.len() == 8);
    assert("role"@.len() == 4 && "content"@.len() == 7);
    let o = title_request(model, message)->Object_0;
    law_fields_are_found_by_name(o, "model"@, 0);
    law_fields_are_found_by_name(o, "messages"@, 1);
    let sent = o[1].1->Array_0;
    law_fields_are_found_by_name(sent[0]->Object_0, "role"@, 0);
    law_fields_are_found_by_name(sent[1]->Object_0, "role"@, 0);
    law_fields_are_found_by_name(sent[1]->Object_0, "content"@, 1);
}

/// A title is read from the answer where that is JSON; it is asked for directly, and not over TLS.
pub proof fn law_titles_are_read_from_the_answer(
    text: Seq<char>,
    base_url: Seq<char>,
    api_key: Seq<char>,
)
    ensures
        parsed_tree(text) is Ok ==> title_from(text) == title_for(parsed_tree(text)->Ok_0),
        parsed_tree(text) is Err ==> title_from(text) is Err,
        ({
            let url = base_url + "/chat/completions"@;
            let end = endpoint_for(uri_parts(url));
            &&& title_plan(base_url, api_key) is Ok <==> end is Ok && !end->Ok_0.is_https
            &&& title_plan(base_url, api_key) is Ok ==> title_plan(base_url, api_key)->Ok_0
                == plan_for(end->Ok_0, None, url, api_key)
        }),
{
}

} // verus!
