//! Reading a streamed answer: lines, pieces of text, pieces of tool calls.
use crate::json::{parse_or_null, tree_or_null};
use crate::llm::{StreamEvent, StreamEventV};
use crate::text::{
    chars_of, find_chars, find_from, is_space, law_strip_end, law_trim, law_white_space_is_blank,
    lemma_find_from, lossy_text, lossy_utf8, occurs_at, same,
    string_of, strip_end, strip_end_text, trim, trim_text, after_prefix, find, CharClass,
};
use crate::types::{TokenUsage, ToolCall, ToolCallV};
use crate::views::{opt_view, views};
use vstd::prelude::*;

verus! {

/// One piece of a streamed answer.
#[derive(Debug)]
pub struct StreamChunkDto {
    pub choices: Vec<StreamChoice>,
    pub usage: Option<ApiUsage>,
}

#[derive(Debug)]
pub struct StreamChoice {
    pub delta: StreamDelta,
    pub finish_reason: Option<String>,
}

/// What a choice adds to the answer.
#[derive(Debug)]
pub struct StreamDelta {
    pub content: Option<String>,
    pub reasoning_content: Option<String>,
    pub tool_calls: Option<Vec<StreamToolCallDelta>>,
}

/// A piece of a tool call.
#[derive(Debug)]
pub struct StreamToolCallDelta {
    pub index: usize,
    pub id: Option<String>,
    pub function: Option<StreamFunctionDelta>,
}

#[derive(Debug)]
pub struct StreamFunctionDelta {
    pub name: Option<String>,
    pub arguments: Option<String>,
}

/// The token counts as the service reports them.
#[derive(Debug, Clone, Copy, PartialEq, Eq, Structural)]
pub struct ApiUsage {
    pub prompt_tokens: u64,
    pub completion_tokens: u64,
    pub prompt_cache_hit_tokens: u64,
    pub prompt_cache_miss_tokens: u64,
    /// Some services report the cached tokens here only.
    pub prompt_tokens_details: Option<PromptTokensDetails>,
    pub completion_tokens_details: Option<CompletionTokensDetails>,
}

#[derive(Debug, Clone, Copy, PartialEq, Eq, Structural)]
pub struct PromptTokensDetails {
    pub cached_tokens: u64,
}

#[derive(Debug, Clone, Copy, PartialEq, Eq, Structural)]
pub struct CompletionTokensDetails {
    pub reasoning_tokens: u64,
}

/// What a [`StreamToolCallDelta`] stands for.
pub struct CallDeltaV {
    pub index: usize,
    pub id: Option<Seq<char>>,
    pub name: Option<Seq<char>>,
    pub arguments: Option<Seq<char>>,
}

impl View for StreamToolCallDelta {
    type V = CallDeltaV;

    open spec fn view(&self) -> CallDeltaV {
        CallDeltaV {
            index: self.index,
            id: opt_view(self.id),
            name: match self.function {
                Some(f) => opt_view(f.name),
                None => None,
            },
            arguments: match self.function {
                Some(f) => opt_view(f.arguments),
                None => None,
            },
        }
    }
}

/// What a [`StreamChoice`] stands for.
pub struct ChoiceV {
    pub content: Option<Seq<char>>,
    pub reasoning: Option<Seq<char>>,
    pub finish_reason: Option<Seq<char>>,
    pub calls: Seq<CallDeltaV>,
}

impl View for StreamChoice {
    type V = ChoiceV;

    open spec fn view(&self) -> ChoiceV {
        ChoiceV {
            content: opt_view(self.delta.content),
            reasoning: opt_view(self.delta.reasoning_content),
            finish_reason: opt_view(self.finish_reason),
            calls: match self.delta.tool_calls {
                Some(calls) => views(calls@),
                None => Seq::empty(),
            },
        }
    }
}

/// A tool call that is being put together.
#[derive(Debug)]
pub struct CallSlot {
    pub index: usize,
    pub id: String,
    pub name: String,
    pub arguments: String,
}

/// What a [`CallSlot`] stands for.
pub struct CallSlotV {
    pub index: usize,
    pub id: Seq<char>,
    pub name: Seq<char>,
    pub arguments: Seq<char>,
}

impl View for CallSlot {
    type V = CallSlotV;

    open spec fn view(&self) -> CallSlotV {
        CallSlotV {
            index: self.index,
            id: self.id@,
            name: self.name@,
            arguments: self.arguments@,
        }
    }
}

/// The token counts, with the cached tokens taken from the details where they are not given
/// otherwise.
pub open spec fn usage_of(u: ApiUsage) -> TokenUsage {
    TokenUsage {
        prompt_tokens: u.prompt_tokens,
        completion_tokens: u.completion_tokens,
        cache_hit_tokens: if u.prompt_cache_hit_tokens > 0 {
            u.prompt_cache_hit_tokens
        } else {
            match u.prompt_tokens_details {
                Some(d) => d.cached_tokens,
                None => 0,
            }
        },
        cache_miss_tokens: u.prompt_cache_miss_tokens,
        reasoning_tokens: match u.completion_tokens_details {
            Some(d) => d.reasoning_tokens,
            None => 0,
        },
    }
}

/// The token counts, with the cached tokens taken from the details where they are not given
/// otherwise.
pub fn to_token_usage(u: ApiUsage) -> (r: TokenUsage)
    ensures
        r == usage_of(u),
{
    TokenUsage {
        prompt_tokens: u.prompt_tokens,
        completion_tokens: u.completion_tokens,
        cache_hit_tokens: if u.prompt_cache_hit_tokens > 0 {
            u.prompt_cache_hit_tokens
        } else {
            match u.prompt_tokens_details {
                Some(d) => d.cached_tokens,
                None => 0,
            }
        },
        cache_miss_tokens: u.prompt_cache_miss_tokens,
        reasoning_tokens: match u.completion_tokens_details {
            Some(d) => d.reasoning_tokens,
            None => 0,
        },
    }
}

/// `new` where it is there and not empty, else `old`: an empty text never takes the place of what is
/// known.
pub open spec fn known_or(new: Option<Seq<char>>, known: Seq<char>) -> Seq<char> {
    match new {
        Some(t) => if t.len() > 0 {
            t
        } else {
            known
        },
        None => known,
    }
}

/// A tool call with one more piece.
pub open spec fn with_piece(slot: CallSlotV, d: CallDeltaV) -> CallSlotV {
    CallSlotV {
        index: slot.index,
        id: known_or(d.id, slot.id),
        name: known_or(d.name, slot.name),
        arguments: match d.arguments {
            Some(a) => slot.arguments + a,
            None => slot.arguments,
        },
    }
}

/// A tool call of which nothing is known yet.
pub open spec fn fresh_slot(index: usize) -> CallSlotV {
    CallSlotV { index, id: Seq::empty(), name: Seq::empty(), arguments: Seq::empty() }
}

/// The first slot, from `k` on, whose index is not below `index`.
pub open spec fn slot_position(slots: Seq<CallSlotV>, index: usize, k: int) -> int
    decreases slots.len() - k,
{
    if k < 0 || k >= slots.len() {
        slots.len() as int
    } else if slots[k].index >= index {
        k
    } else {
        slot_position(slots, index, k + 1)
    }
}

/// The slots with one more piece, in the slot of its index or in a new one.
pub open spec fn merged(slots: Seq<CallSlotV>, d: CallDeltaV) -> Seq<CallSlotV> {
    let k = slot_position(slots, d.index, 0);
    if k < slots.len() && slots[k].index == d.index {
        slots.update(k, with_piece(slots[k], d))
    } else {
        slots.insert(k, with_piece(fresh_slot(d.index), d))
    }
}

/// The slots with several more pieces.
pub open spec fn merged_all(slots: Seq<CallSlotV>, ds: Seq<CallDeltaV>) -> Seq<CallSlotV>
    decreases ds.len(),
{
    if ds.len() == 0 {
        slots
    } else {
        merged(merged_all(slots, ds.drop_last()), ds.last())
    }
}

/// Whether the slots are in the order of their indices, none twice.
pub open spec fn slots_sorted(slots: Seq<CallSlotV>) -> bool {
    forall|i: int, j: int|
        0 <= i < j < slots.len() ==> (#[trigger] slots[i]).index < (#[trigger] slots[j]).index
}

/// The finished tool calls: the arguments are read as JSON, and are null where they are none.
pub open spec fn finished_calls(slots: Seq<CallSlotV>) -> Seq<ToolCallV> {
    slots.map_values(
        |s: CallSlotV|
            ToolCallV { id: s.id, name: s.name, arguments: tree_or_null(s.arguments) },
    )
}

/// The pieces of an answer, put together as far as they have come.
pub struct AnswerV {
    pub content: Seq<char>,
    pub slots: Seq<CallSlotV>,
    pub usage: Option<TokenUsage>,
    pub finish_reason: Option<Seq<char>>,
}

/// What one choice adds to an answer.
pub open spec fn with_choice(a: AnswerV, c: ChoiceV) -> AnswerV {
    AnswerV {
        content: match c.content {
            Some(t) => a.content + t,
            None => a.content,
        },
        slots: merged_all(a.slots, c.calls),
        usage: a.usage,
        finish_reason: match c.finish_reason {
            Some(f) => Some(f),
            None => a.finish_reason,
        },
    }
}

/// What is passed on at once of a choice: its text, and its reasoning where that is not empty.
pub open spec fn choice_events(c: ChoiceV) -> Seq<StreamEventV> {
    let text = match c.content {
        Some(t) => seq![StreamEventV::Delta(t)],
        None => Seq::empty(),
    };
    match c.reasoning {
        Some(t) => if t.len() > 0 {
            text.push(StreamEventV::ThinkDelta(t))
        } else {
            text
        },
        None => text,
    }
}

/// What several choices add to an answer.
pub open spec fn with_choices(a: AnswerV, cs: Seq<ChoiceV>) -> AnswerV
    decreases cs.len(),
{
    if cs.len() == 0 {
        a
    } else {
        with_choice(with_choices(a, cs.drop_last()), cs.last())
    }
}

/// What is passed on at once of several choices.
pub open spec fn choices_events(cs: Seq<ChoiceV>) -> Seq<StreamEventV>
    decreases cs.len(),
{
    if cs.len() == 0 {
        Seq::empty()
    } else {
        choices_events(cs.drop_last()) + choice_events(cs.last())
    }
}

/// What one piece of the stream adds to an answer.
pub open spec fn with_chunk(
    a: AnswerV,
    usage: Option<ApiUsage>,
    choices: Seq<ChoiceV>,
) -> AnswerV {
    let a = AnswerV {
        usage: match usage {
            Some(u) => Some(usage_of(u)),
            None => a.usage,
        },
        ..a
    };
    with_choices(a, choices)
}

/// What the end of the stream says of an answer.
pub open spec fn done_event(a: AnswerV) -> StreamEventV {
    StreamEventV::Done {
        content: a.content,
        tool_calls: finished_calls(a.slots),
        usage: a.usage,
        finish_reason: a.finish_reason,
    }
}

/// The next thing that a stream holds.
#[derive(Debug)]
pub enum SseStep {
    /// Nothing that is complete.
    NeedMore,
    /// A piece of data.
    Data(String),
    /// The end of the answer.
    End,
}

/// What an [`SseStep`] stands for.
pub enum SseStepV {
    NeedMore,
    Data(Seq<char>),
    End,
}

impl View for SseStep {
    type V = SseStepV;

    open spec fn view(&self) -> SseStepV {
        match *self {
            SseStep::NeedMore => SseStepV::NeedMore,
            SseStep::Data(d) => SseStepV::Data(d@),
            SseStep::End => SseStepV::End,
        }
    }
}

/// What a complete line says: data, the end, or nothing. Lines that do not begin with `data: `, and
/// so empty lines and comments, say nothing.
pub open spec fn line_meaning(line: Seq<char>) -> Option<SseStepV> {
    if "data: "@.is_prefix_of(line) {
        let data = line.skip("data: "@.len() as int);
        if trim(data) == "[DONE]"@ {
            Some(SseStepV::End)
        } else {
            Some(SseStepV::Data(data))
        }
    } else {
        None
    }
}

/// The first line of a text that has a line break at `at`, without carriage returns at its end.
pub open spec fn line_before(text: Seq<char>, at: int) -> Seq<char> {
    strip_end(text.take(at), CharClass::Only('\r'))
}

/// The next thing that a text holds, and the text after it. Lines that say nothing are passed over.
pub open spec fn next_of(text: Seq<char>) -> (SseStepV, Seq<char>)
    decreases text.len(),
{
    proof {
        lemma_find_from(text, seq!['\n'], 0);
    }
    match find(text, seq!['\n']) {
        None => (SseStepV::NeedMore, text),
        Some(at) => match line_meaning(line_before(text, at)) {
            Some(step) => (step, text.skip(at + 1)),
            None => next_of(text.skip(at + 1)),
        },
    }
}

/// A streamed answer that is being read.
#[derive(Debug)]
pub struct SseReader {
    buffer: String,
    slots: Vec<CallSlot>,
    content: String,
    usage: Option<TokenUsage>,
    finish_reason: Option<String>,
}

impl SseReader {
    /// What has come in and is not a complete line yet.
    pub closed spec fn pending(self) -> Seq<char> {
        self.buffer@
    }

    /// The answer as far as it has come.
    pub closed spec fn answer(self) -> AnswerV {
        AnswerV {
            content: self.content@,
            slots: views(self.slots@),
            usage: self.usage,
            finish_reason: opt_view(self.finish_reason),
        }
    }

    /// A reader to which nothing has come in.
    pub fn new() -> (r: SseReader)
        ensures
            r.pending() == Seq::<char>::empty(),
            r.answer() == (AnswerV {
                content: Seq::empty(),
                slots: Seq::empty(),
                usage: None,
                finish_reason: None,
            }),
    {
        let r = SseReader {
            buffer: String::new(),
            slots: Vec::new(),
            content: String::new(),
            usage: None,
            finish_reason: None,
        };
        assert(views(r.slots@) =~= Seq::empty());
        r
    }

    /// Takes in some bytes; what is not UTF-8 in them is replaced.
    pub fn feed(&mut self, bytes: &Vec<u8>)
        ensures
            final(self).pending() == old(self).pending() + lossy_utf8(bytes@),
            final(self).answer() == old(self).answer(),
    {
        let text = lossy_text(bytes);
        self.feed_text(text.as_str());
    }

    /// Takes in some text.
    pub fn feed_text(&mut self, text: &str)
        ensures
            final(self).pending() == old(self).pending() + text@,
            final(self).answer() == old(self).answer(),
    {
        self.buffer.push_str(text);
    }

    /// The next thing that has come in.
    pub fn next(&mut self) -> (r: SseStep)
        ensures
            r@ == next_of(old(self).pending()).0,
            final(self).pending() == next_of(old(self).pending()).1,
            final(self).answer() == old(self).answer(),
    {
        let v = chars_of(self.buffer.as_str());
        let mut newline: Vec<char> = Vec::new();
        newline.push('\n');
        assert(newline@ =~= seq!['\n']);
        let mut from: usize = 0;
        assert(v@.skip(0) =~= v@);
        loop
            invariant
                from <= v@.len(),
                v@ == old(self).pending(),
                newline@ == seq!['\n'],
                next_of(v@.skip(from as int)) == next_of(v@),
                self.answer() == old(self).answer(),
            decreases v@.len() - from,
        {
            let ghost rest = v@.skip(from as int);
            proof {
                lemma_find_shift(v@, seq!['\n'], from as int, 0);
                lemma_find_from(v@, seq!['\n'], from as int);
            }
            match find_chars(&v, &newline, from) {
                None => {
                    self.buffer = string_of(&v, from, v.len());
                    assert(self.buffer@ =~= rest);
                    return SseStep::NeedMore;
                },
                Some(at) => {
                    let raw = string_of(&v, from, at);
                    assert(raw@ =~= rest.take(at - from));
                    let line = strip_end_text(raw.as_str(), CharClass::Only('\r'));
                    assert(rest.skip(at - from + 1) =~= v@.skip(at + 1));
                    match after_prefix(line.as_str(), "data: ") {
                        Some(data) => {
                            self.buffer = string_of(&v, at + 1, v.len());
                            assert(self.buffer@ =~= v@.skip(at + 1));
                            let t = trim_text(data.as_str());
                            if same(t.as_str(), "[DONE]") {
                                return SseStep::End;
                            }
                            return SseStep::Data(data);
                        },
                        None => {
                            from = at + 1;
                        },
                    }
                },
            }
        }
    }

    /// Adds a piece of the stream to the answer and returns what is to be passed on at once.
    pub fn accept(&mut self, chunk: StreamChunkDto) -> (events: Vec<StreamEvent>)
        ensures
            final(self).answer() == with_chunk(
                old(self).answer(),
                chunk.usage,
                views(chunk.choices@),
            ),
            views(events@) == choices_events(views(chunk.choices@)),
            final(self).pending() == old(self).pending(),
    {
        match chunk.usage {
            Some(u) => {
                self.usage = Some(to_token_usage(u));
            },
            None => {},
        }
        let ghost start = self.answer();
        let ghost all = views(chunk.choices@);
        let mut events: Vec<StreamEvent> = Vec::new();
        let mut i: usize = 0;
        assert(all.take(0) =~= Seq::empty());
        assert(views(events@) =~= Seq::empty());
        while i < chunk.choices.len()
            invariant
                i <= chunk.choices@.len(),
                all == views(chunk.choices@),
                self.answer() == with_choices(start, all.take(i as int)),
                views(events@) == choices_events(all.take(i as int)),
                self.pending() == old(self).pending(),
            decreases chunk.choices@.len() - i,
        {
            let choice = &chunk.choices[i];
            let ghost before = views(events@);
            let ghost c = choice@;
            assert(all.take(i + 1).drop_last() =~= all.take(i as int));
            assert(all.take(i + 1).last() == c);
            match &choice.delta.content {
                Some(t) => {
                    self.content.push_str(t.as_str());
                    events.push(StreamEvent::Delta(t.clone()));
                },
                None => {},
            }
            match &choice.delta.reasoning_content {
                Some(t) => {
                    if !t.as_str().is_empty() {
                        events.push(StreamEvent::ThinkDelta(t.clone()));
                    }
                },
                None => {},
            }
            assert(views(events@) =~= before + choice_events(c));
            match &choice.finish_reason {
                Some(f) => {
                    self.finish_reason = Some(f.clone());
                },
                None => {},
            }
            match &choice.delta.tool_calls {
                Some(calls) => {
                    merge_pieces(&mut self.slots, calls);
                },
                None => {
                    assert(merged_all(views(self.slots@), Seq::empty()) == views(self.slots@));
                },
            }
            i += 1;
        }
        assert(all.take(i as int) =~= all);
        events
    }

    /// The whole answer.
    pub fn finish(self) -> (r: StreamEvent)
        ensures
            r@ == done_event(self.answer()),
    {
        let mut calls: Vec<ToolCall> = Vec::new();
        let ghost all = finished_calls(views(self.slots@));
        let mut i: usize = 0;
        assert(views(calls@) =~= all.take(0));
        while i < self.slots.len()
            invariant
                i <= self.slots@.len(),
                all == finished_calls(views(self.slots@)),
                views(calls@) == all.take(i as int),
            decreases self.slots@.len() - i,
        {
            let s = &self.slots[i];
            let ghost before = views(calls@);
            calls.push(
                ToolCall {
                    id: s.id.clone(),
                    name: s.name.clone(),
                    arguments: parse_or_null(s.arguments.as_str()),
                },
            );
            assert(views(calls@) =~= before.push(all[i as int]));
            assert(all.take(i + 1) =~= all.take(i as int).push(all[i as int]));
            i += 1;
        }
        assert(all.take(i as int) =~= all);
        StreamEvent::Done {
            content: self.content,
            tool_calls: calls,
            usage: self.usage,
            finish_reason: self.finish_reason,
        }
    }
}

/// Adds pieces of tool calls to the slots.
fn merge_pieces(slots: &mut Vec<CallSlot>, pieces: &Vec<StreamToolCallDelta>)
    ensures
        views(final(slots)@) == merged_all(views(old(slots)@), views(pieces@)),
{
    let ghost start = views(slots@);
    let ghost all = views(pieces@);
    let mut i: usize = 0;
    assert(all.take(0) =~= Seq::empty());
    while i < pieces.len()
        invariant
            i <= pieces@.len(),
            all == views(pieces@),
            views(slots@) == merged_all(start, all.take(i as int)),
        decreases pieces@.len() - i,
    {
        assert(all.take(i + 1).drop_last() =~= all.take(i as int));
        merge_piece(slots, &pieces[i]);
        i += 1;
    }
    assert(all.take(i as int) =~= all);
}

/// A tool call with one more piece.
fn add_piece(slot: CallSlot, d: &StreamToolCallDelta) -> (r: CallSlot)
    ensures
        r@ == with_piece(slot@, d@),
{
    let mut r = slot;
    match &d.id {
        Some(id) => {
            if !id.as_str().is_empty() {
                r.id = id.clone();
            }
        },
        None => {},
    }
    match &d.function {
        Some(f) => {
            match &f.name {
                Some(name) => {
                    if !name.as_str().is_empty() {
                        r.name = name.clone();
                    }
                },
                None => {},
            }
            match &f.arguments {
                Some(a) => {
                    r.arguments.push_str(a.as_str());
                },
                None => {},
            }
        },
        None => {},
    }
    r
}

/// Adds a piece of a tool call to its slot.
fn merge_piece(slots: &mut Vec<CallSlot>, d: &StreamToolCallDelta)
    ensures
        views(final(slots)@) == merged(views(old(slots)@), d@),
{
    let ghost start = views(slots@);
    let mut k: usize = 0;
    while k < slots.len() && slots[k].index < d.index
        invariant
            k <= slots@.len(),
            start == views(slots@),
            slots@ == old(slots)@,
            slot_position(start, d.index, k as int) == slot_position(start, d.index, 0),
        decreases slots@.len() - k,
    {
        assert(start[k as int] == slots@[k as int]@);
        k += 1;
    }
    if k < slots.len() && slots[k].index == d.index {
        assert(start[k as int] == slots@[k as int]@);
        let slot = slots.remove(k);
        let slot = add_piece(slot, d);
        slots.insert(k, slot);
    } else {
        if k < slots.len() {
            assert(start[k as int] == slots@[k as int]@);
        }
        let slot = CallSlot {
            index: d.index,
            id: String::new(),
            name: String::new(),
            arguments: String::new(),
        };
        let slot = add_piece(slot, d);
        slots.insert(k, slot);
    }
    assert(views(slots@) =~= merged(start, d@));
}

/// What stands in `s` from `from` on is found in the rest of `s` where it stands there.
pub proof fn lemma_find_shift(s: Seq<char>, p: Seq<char>, from: int, i: int)
    requires
        0 <= from <= s.len(),
        0 <= i,
    ensures
        find_from(s.skip(from), p, i) == match find_from(s, p, from + i) {
            Some(k) => Some(k - from),
            None => None,
        },
    decreases s.len() - from + 1 - i,
{
    let t = s.skip(from);
    if i + p.len() <= t.len() {
        assert(t.subrange(i, i + p.len()) =~= s.subrange(from + i, from + i + p.len()));
        if !occurs_at(t, p, i) {
            lemma_find_shift(s, p, from, i + 1);
        }
    }
}

/// What `slot_position` gives: the least position from `k` on with no lower index, or the length.
proof fn lemma_slot_position(slots: Seq<CallSlotV>, index: usize, k: int)
    requires
        0 <= k <= slots.len(),
    ensures
        k <= slot_position(slots, index, k) <= slots.len(),
        forall|i: int|
            k <= i < slot_position(slots, index, k) ==> (#[trigger] slots[i]).index < index,
        slot_position(slots, index, k) < slots.len() ==> slots[slot_position(
            slots,
            index,
            k,
        )].index >= index,
    decreases slots.len() - k,
{
    if k < slots.len() && slots[k].index < index {
        lemma_slot_position(slots, index, k + 1);
    }
}

/// The tool calls of an answer are in the order of their indices, none twice, whatever pieces come
/// in and in whatever order.
pub proof fn law_calls_stay_in_order(slots: Seq<CallSlotV>, d: CallDeltaV)
    requires
        slots_sorted(slots),
    ensures
        slots_sorted(merged(slots, d)),
{
    lemma_slot_position(slots, d.index, 0);
    let k = slot_position(slots, d.index, 0);
    let m = merged(slots, d);
    if k < slots.len() && slots[k].index == d.index {
        assert forall|i: int, j: int| 0 <= i < j < m.len() implies (#[trigger] m[i]).index < (
        #[trigger] m[j]).index by {
            assert(m[i].index == slots[i].index);
            assert(m[j].index == slots[j].index);
        }
    } else {
        assert forall|i: int, j: int| 0 <= i < j < m.len() implies (#[trigger] m[i]).index < (
        #[trigger] m[j]).index by {
            if i < k {
                assert(m[i] == slots[i]);
            } else if i > k {
                assert(m[i] == slots[i - 1]);
            }
            if j < k {
                assert(m[j] == slots[j]);
            } else if j > k {
                assert(m[j] == slots[j - 1]);
                assert(slots[k].index <= slots[j - 1].index);
            }
        }
    }
}

/// A piece changes only the tool call of its index: it never takes away the id or the name that is
/// known of it, and only adds to its arguments.
pub proof fn law_identity_is_kept(slots: Seq<CallSlotV>, d: CallDeltaV, i: int)
    requires
        slots_sorted(slots),
        0 <= i < slots.len(),
    ensures
        exists|j: int|
            {
                &&& 0 <= j < merged(slots, d).len()
                &&& (#[trigger] merged(slots, d)[j]).index == slots[i].index
                &&& slots[i].index != d.index ==> merged(slots, d)[j] == slots[i]
                &&& slots[i].index == d.index ==> merged(slots, d)[j] == with_piece(slots[i], d)
            },
        slots[i].id.len() > 0 ==> with_piece(slots[i], d).id.len() > 0,
        slots[i].name.len() > 0 ==> with_piece(slots[i], d).name.len() > 0,
        d.id == Some(Seq::<char>::empty()) || d.id is None ==> with_piece(slots[i], d).id
            == slots[i].id,
        d.name == Some(Seq::<char>::empty()) || d.name is None ==> with_piece(slots[i], d).name
            == slots[i].name,
        slots[i].arguments.is_prefix_of(with_piece(slots[i], d).arguments),
{
    lemma_slot_position(slots, d.index, 0);
    let k = slot_position(slots, d.index, 0);
    let m = merged(slots, d);
    let s = slots[i];
    assert(s.arguments =~= with_piece(s, d).arguments.take(s.arguments.len() as int));
    if k < slots.len() && slots[k].index == d.index {
        assert(m[i].index == s.index);
    } else if i < k {
        assert(m[i] == s);
    } else {
        assert(m[i + 1] == s);
    }
}

/// It does not matter how a stream is cut into pieces: what is found before a piece comes in is
/// found all the same, and what is left is continued by the piece.
pub proof fn law_cuts_do_not_matter(a: Seq<char>, b: Seq<char>)
    ensures
        next_of(a).0 is NeedMore ==> next_of(a + b) == next_of(next_of(a).1 + b),
        !(next_of(a).0 is NeedMore) ==> next_of(a + b) == (next_of(a).0, next_of(a).1 + b),
    decreases a.len(),
{
    let nl = seq!['\n'];
    lemma_find_from(a, nl, 0);
    lemma_find_from(a + b, nl, 0);
    match find(a, nl) {
        None => {},
        Some(at) => {
            assert((a + b).subrange(at, at + 1) =~= a.subrange(at, at + 1));
            assert(occurs_at(a + b, nl, at));
            let other = find(a + b, nl)->0;
            assert(other == at) by {
                if other < at {
                    assert(a.subrange(other, other + 1) =~= (a + b).subrange(other, other + 1));
                    assert(occurs_at(a, nl, other));
                }
            }
            assert((a + b).take(at) =~= a.take(at));
            assert((a + b).skip(at + 1) =~= a.skip(at + 1) + b);
            if line_meaning(line_before(a, at)) is None {
                law_cuts_do_not_matter(a.skip(at + 1), b);
            }
        },
    }
}

/// The pieces of the answer among some events, one after the other.
pub open spec fn told(events: Seq<StreamEventV>) -> Seq<char>
    decreases events.len(),
{
    if events.len() == 0 {
        Seq::empty()
    } else {
        match events.last() {
            StreamEventV::Delta(text) => told(events.drop_last()) + text,
            _ => told(events.drop_last()),
        }
    }
}

proof fn lemma_told(a: Seq<StreamEventV>, b: Seq<StreamEventV>)
    ensures
        told(a + b) == told(a) + told(b),
    decreases b.len(),
{
    if b.len() == 0 {
        assert(a + b =~= a);
    } else {
        assert((a + b).drop_last() =~= a + b.drop_last());
        lemma_told(a, b.drop_last());
        assert(told(a + b) =~= told(a) + told(b));
    }
}

/// The whole answer is what its pieces say, one after the other: a chunk adds to the content just
/// what it reports.
pub proof fn law_answer_is_its_pieces(a: AnswerV, usage: Option<ApiUsage>, choices: Seq<ChoiceV>)
    ensures
        with_chunk(a, usage, choices).content == a.content + told(choices_events(choices)),
    decreases choices.len(),
{
    if choices.len() > 0 {
        let c = choices.last();
        let before = choices_events(choices.drop_last());
        law_answer_is_its_pieces(a, usage, choices.drop_last());
        lemma_told(before, choice_events(c));
        let none = Seq::<StreamEventV>::empty();
        assert(told(none) =~= Seq::empty());
        match c.content {
            Some(text) => {
                let one = seq![StreamEventV::Delta(text)];
                assert(one.drop_last() =~= none);
                assert(told(one) =~= text);
                match c.reasoning {
                    Some(t) => {
                        assert(one.push(StreamEventV::ThinkDelta(t)).drop_last() =~= one);
                    },
                    None => {},
                }
            },
            None => {
                match c.reasoning {
                    Some(t) => {
                        assert(none.push(StreamEventV::ThinkDelta(t)).drop_last() =~= none);
                    },
                    None => {},
                }
            },
        }
        assert(with_chunk(a, usage, choices).content =~= a.content + told(
            choices_events(choices),
        ));
    } else {
        assert(told(choices_events(choices)) =~= Seq::empty());
    }
}

/// The usage that is told is taken over: tokens asked and answered, tokens that missed the cache,
/// tokens of reasoning, and those that hit the cache from whichever of the two places tells them.
pub proof fn law_usage_is_taken_over(u: ApiUsage)
    ensures
        usage_of(u).prompt_tokens == u.prompt_tokens,
        usage_of(u).completion_tokens == u.completion_tokens,
        usage_of(u).cache_miss_tokens == u.prompt_cache_miss_tokens,
        u.prompt_cache_hit_tokens > 0 ==> usage_of(u).cache_hit_tokens
            == u.prompt_cache_hit_tokens,
        u.prompt_cache_hit_tokens == 0 && u.prompt_tokens_details is Some ==> usage_of(
            u,
        ).cache_hit_tokens == u.prompt_tokens_details->0.cached_tokens,
        u.prompt_cache_hit_tokens == 0 && u.prompt_tokens_details is None ==> usage_of(
            u,
        ).cache_hit_tokens == 0,
        u.completion_tokens_details is Some ==> usage_of(u).reasoning_tokens
            == u.completion_tokens_details->0.reasoning_tokens,
        u.completion_tokens_details is None ==> usage_of(u).reasoning_tokens == 0,
{
}

/// A piece of a call adds its arguments to those before it and gives the call its id and its name;
/// a first piece begins a call with just that.
pub proof fn law_pieces_make_up_a_call(slot: CallSlotV, d: CallDeltaV)
    ensures
        with_piece(slot, d).index == slot.index,
        d.arguments is Some ==> with_piece(slot, d).arguments == slot.arguments + d.arguments->0,
        d.arguments is None ==> with_piece(slot, d).arguments == slot.arguments,
        d.id is Some && d.id->0.len() > 0 ==> with_piece(slot, d).id == d.id->0,
        d.name is Some && d.name->0.len() > 0 ==> with_piece(slot, d).name == d.name->0,
        fresh_slot(d.index).index == d.index,
        fresh_slot(d.index).id.len() == 0 && fresh_slot(d.index).name.len() == 0,
        fresh_slot(d.index).arguments.len() == 0,
{
}

/// A piece goes to the call of its number: it is added there where the call has begun, and begins it
/// where it has not.
pub proof fn law_pieces_go_to_their_call(slots: Seq<CallSlotV>, d: CallDeltaV)
    requires
        slots_sorted(slots),
    ensures
        (exists|i: int| 0 <= i < slots.len() && (#[trigger] slots[i]).index == d.index)
            ==> merged(slots, d).len() == slots.len(),
        (forall|i: int| 0 <= i < slots.len() ==> (#[trigger] slots[i]).index != d.index) ==> {
            &&& merged(slots, d).len() == slots.len() + 1
            &&& merged(slots, d).contains(with_piece(fresh_slot(d.index), d))
        },
{
    lemma_place(slots, d.index, 0);
    let k = slot_position(slots, d.index, 0);
    if exists|i: int| 0 <= i < slots.len() && (#[trigger] slots[i]).index == d.index {
        let i = choose|i: int| 0 <= i < slots.len() && (#[trigger] slots[i]).index == d.index;
        assert(slots[i].index >= d.index);
        if k < i {
            assert(slots[k].index < slots[i].index);
        }
    } else {
        assert(merged(slots, d)[k] == with_piece(fresh_slot(d.index), d));
    }
}

proof fn lemma_place(slots: Seq<CallSlotV>, index: usize, k: int)
    requires
        0 <= k <= slots.len(),
    ensures
        k <= slot_position(slots, index, k) <= slots.len(),
        slot_position(slots, index, k) < slots.len() ==> slots[slot_position(
            slots,
            index,
            k,
        )].index >= index,
        forall|j: int|
            k <= j < slot_position(slots, index, k) ==> (#[trigger] slots[j]).index < index,
    decreases slots.len() - k,
{
    if k < slots.len() && slots[k].index < index {
        lemma_place(slots, index, k + 1);
    }
}

/// Pieces are taken one after the other, and so are the parts of an answer.
pub proof fn law_pieces_are_taken_in_order(
    slots: Seq<CallSlotV>,
    ds: Seq<CallDeltaV>,
    d: CallDeltaV,
    a: AnswerV,
    cs: Seq<ChoiceV>,
    c: ChoiceV,
)
    ensures
        merged_all(slots, ds.push(d)) == merged(merged_all(slots, ds), d),
        merged_all(slots, Seq::empty()) == slots,
        with_choices(a, cs.push(c)) == with_choice(with_choices(a, cs), c),
        with_choices(a, Seq::empty()) == a,
        choices_events(cs.push(c)) == choices_events(cs) + choice_events(c),
        choices_events(Seq::empty()).len() == 0,
{
    assert(ds.push(d).drop_last() =~= ds);
    assert(cs.push(c).drop_last() =~= cs);
}

/// A part of an answer adds its text, its pieces of calls and its reason to end, and keeps the
/// rest; it is told as its text and, where there are any, its thoughts.
pub proof fn law_parts_add_to_the_answer(a: AnswerV, c: ChoiceV)
    ensures
        c.content is Some ==> with_choice(a, c).content == a.content + c.content->0,
        c.content is None ==> with_choice(a, c).content == a.content,
        with_choice(a, c).slots == merged_all(a.slots, c.calls),
        with_choice(a, c).usage == a.usage,
        c.finish_reason is Some ==> with_choice(a, c).finish_reason == c.finish_reason,
        c.finish_reason is None ==> with_choice(a, c).finish_reason == a.finish_reason,
        c.content is Some && (c.reasoning is None || c.reasoning->0.len() == 0) ==> choice_events(c)
            == seq![StreamEventV::Delta(c.content->0)],
        c.content is None && c.reasoning is Some && c.reasoning->0.len() > 0 ==> choice_events(c)
            == seq![StreamEventV::ThinkDelta(c.reasoning->0)],
        c.content is Some && c.reasoning is Some && c.reasoning->0.len() > 0 ==> choice_events(c)
            == seq![StreamEventV::Delta(c.content->0), StreamEventV::ThinkDelta(c.reasoning->0)],
        c.content is None && (c.reasoning is None || c.reasoning->0.len() == 0) ==> choice_events(
            c,
        ).len() == 0,
{
    if c.content is None && c.reasoning is Some && c.reasoning->0.len() > 0 {
        assert(choice_events(c) =~= seq![StreamEventV::ThinkDelta(c.reasoning->0)]);
    }
    if c.content is Some && c.reasoning is Some && c.reasoning->0.len() > 0 {
        assert(choice_events(c) =~= seq![
            StreamEventV::Delta(c.content->0),
            StreamEventV::ThinkDelta(c.reasoning->0),
        ]);
    }
}

/// A chunk that tells the usage sets it, and one that does not leaves it.
pub proof fn law_chunks_tell_the_usage(a: AnswerV, u: ApiUsage)
    ensures
        with_chunk(a, Some(u), Seq::empty()) == (AnswerV { usage: Some(usage_of(u)), ..a }),
        with_chunk(a, None, Seq::empty()) == a,
{
}

/// The end of a stream tells the whole answer: its text, its usage, its reason to end, and a call
/// for each that was pieced together, in order, with its id, its name and its arguments read.
pub proof fn law_the_end_tells_the_whole_answer(a: AnswerV)
    ensures
        done_event(a) is Done,
        done_event(a)->content == a.content,
        done_event(a)->usage == a.usage,
        done_event(a)->finish_reason == a.finish_reason,
        done_event(a)->tool_calls.len() == a.slots.len(),
        forall|i: int|
            0 <= i < a.slots.len() ==> {
                let call = #[trigger] done_event(a)->tool_calls[i];
                &&& call.id == a.slots[i].id
                &&& call.name == a.slots[i].name
                &&& call.arguments == tree_or_null(a.slots[i].arguments)
            },
{
}

/// A line of data gives what stands behind its mark, the line that says so ends the stream, and any
/// other line is passed over.
pub proof fn law_lines_of_data_are_given(data: Seq<char>, rest: Seq<char>, other: Seq<char>)
    requires
        !data.contains('\n'),
        data.len() > 0 ==> data.last() != '\r',
        trim(data) != "[DONE]"@,
        !other.contains('\n'),
        other.len() > 0 ==> other[0] != 'd' && other.last() != '\r',
    ensures
        next_of("data: "@ + data + seq!['\n'] + rest) == (SseStepV::Data(data), rest),
        next_of("data: [DONE]"@ + seq!['\n'] + rest) == (SseStepV::End, rest),
        next_of(other + seq!['\n'] + rest) == next_of(rest),
        next_of(other) == (SseStepV::NeedMore, other),
{
    reveal_strlit("data: ");
    reveal_strlit("data: [DONE]");
    reveal_strlit("[DONE]");
    let mark = "data: "@;
    let end = "data: [DONE]"@;
    let line = mark + data;
    lemma_first_line(line, rest);
    lemma_first_line(end, rest);
    lemma_first_line(other, rest);
    assert(line.skip(6) =~= data);
    assert(line.take(6) =~= mark);
    assert(end.skip(6) =~= "[DONE]"@);
    assert(end.take(6) =~= mark);
    assert(mark.is_prefix_of(line));
    assert(mark.is_prefix_of(end));
    law_white_space_is_blank('[');
    law_white_space_is_blank(']');
    law_trim(Seq::empty(), "[DONE]"@, Seq::empty());
    assert(Seq::<char>::empty() + "[DONE]"@ + Seq::<char>::empty() =~= "[DONE]"@);
    if mark.is_prefix_of(other) {
        assert(other[0] == mark[0]);
    }
    lemma_find_from(other, seq!['\n'], 0);
    if find(other, seq!['\n']) is Some {
        let k = find(other, seq!['\n'])->0;
        assert(other.subrange(k, k + 1)[0] == other[k]);
        assert(other.contains('\n'));
    }
}

proof fn lemma_first_line(line: Seq<char>, rest: Seq<char>)
    requires
        !line.contains('\n'),
        line.len() > 0 ==> line.last() != '\r',
    ensures
        find(line + seq!['\n'] + rest, seq!['\n']) == Some(line.len() as int),
        line_before(line + seq!['\n'] + rest, line.len() as int) == line,
        (line + seq!['\n'] + rest).skip(line.len() as int + 1) == rest,
{
    let text = line + seq!['\n'] + rest;
    lemma_find_from(text, seq!['\n'], 0);
    assert(text.subrange(line.len() as int, line.len() as int + 1) =~= seq!['\n']);
    assert(occurs_at(text, seq!['\n'], line.len() as int));
    let k = find(text, seq!['\n'])->0;
    if k < line.len() {
        assert(text.subrange(k, k + 1)[0] == line[k]);
        assert(line.contains('\n'));
    }
    assert(text.take(line.len() as int) =~= line);
    law_strip_end(line, Seq::empty(), CharClass::Only('\r'));
    assert(line + Seq::<char>::empty() =~= line);
    assert(text.skip(line.len() as int + 1) =~= rest);
}

/// The end of the stream is known by its word alone, whatever white space stands around it.
pub proof fn law_the_end_may_have_white_space(blank: Seq<char>, more: Seq<char>)
    requires
        forall|i: int| 0 <= i < blank.len() ==> is_space(#[trigger] blank[i]),
        forall|i: int| 0 <= i < more.len() ==> is_space(#[trigger] more[i]),
    ensures
        line_meaning("data: "@ + blank + "[DONE]"@ + more) == Some(SseStepV::End),
{
    reveal_strlit("data: ");
    reveal_strlit("[DONE]");
    let line = "data: "@ + blank + "[DONE]"@ + more;
    let data = blank + "[DONE]"@ + more;
    assert(line.take(6) =~= "data: "@);
    assert("data: "@.is_prefix_of(line));
    assert(line.skip(6) =~= data);
    law_white_space_is_blank('[');
    law_white_space_is_blank(']');
    law_trim(blank, "[DONE]"@, more);
}

} // verus!
