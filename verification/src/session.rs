//! The session log: append-only events in a bounded buffer, and the messages derived from them.
//!
//! The log is the only source of what the model sees: a message reaches the model exactly where an
//! event of the log projects to it.
use crate::json::{json_text, json_to_text};
use crate::text::{byte_len, byte_len_of};
use crate::types::{
    clone_calls, clone_images, clone_opt, ImageBlockV, Message, MessageV, SessionEvent,
    SessionEventV, ToolCall, ToolCallV, TurnEndReason,
};
use crate::views::{opt_view, views};
use std::collections::VecDeque;
use vstd::prelude::*;

verus! {

/// The session log with the events that are still in memory.
pub struct SessionLog {
    next_seq: u64,
    events: VecDeque<SessionEvent>,
    max_in_memory: usize,
    current_turn: u64,
    current_step: u64,
}

/// What a [`SessionLog`] stands for.
pub struct SessionLogV {
    /// The number that the next event gets.
    pub next_seq: u64,
    /// The events in memory, oldest first.
    pub events: Seq<SessionEventV>,
    /// How many events are kept in memory.
    pub max_in_memory: usize,
    pub current_turn: u64,
    pub current_step: u64,
}

impl View for SessionLog {
    type V = SessionLogV;

    closed spec fn view(&self) -> SessionLogV {
        SessionLogV {
            next_seq: self.next_seq,
            events: views(self.events@),
            max_in_memory: self.max_in_memory,
            current_turn: self.current_turn,
            current_step: self.current_step,
        }
    }
}

/// The last `n` items of `s`; all of them where there are fewer.
pub open spec fn last_n<A>(s: Seq<A>, n: nat) -> Seq<A> {
    if s.len() <= n {
        s
    } else {
        s.skip(s.len() - n)
    }
}

/// The message that an event shows to the model; none for the events that are only kept.
pub open spec fn message_of(e: SessionEventV) -> Option<MessageV> {
    match e {
        SessionEventV::UserMessage { content, images } => Some(MessageV::User { content, images }),
        SessionEventV::AssistantMessage { content, tool_calls, thinking, .. } => Some(
            MessageV::Assistant { content, tool_calls, reasoning_content: thinking },
        ),
        SessionEventV::ToolResult { call_id, content, is_error, images } => Some(
            MessageV::Tool { call_id, content, is_error, images },
        ),
        SessionEventV::CompactionSummary { summary } => Some(
            MessageV::User {
                content: "[Previous conversation summary]\n"@ + summary,
                images: Seq::empty(),
            },
        ),
        _ => None,
    }
}

/// The messages that a sequence of events shows to the model, in the order of the events.
pub open spec fn derived(events: Seq<SessionEventV>) -> Seq<MessageV>
    decreases events.len(),
{
    if events.len() == 0 {
        Seq::empty()
    } else {
        let before = derived(events.drop_last());
        match message_of(events.last()) {
            Some(m) => before.push(m),
            None => before,
        }
    }
}

/// How many bytes the tool calls of a message take: their names and the JSON of their arguments.
pub open spec fn calls_size(calls: Seq<ToolCallV>) -> nat
    decreases calls.len(),
{
    if calls.len() == 0 {
        0
    } else {
        calls_size(calls.drop_last()) + (byte_len(json_text(calls.last().arguments)) + byte_len(
            calls.last().name,
        ))
    }
}

/// How many bytes a message takes.
pub open spec fn message_size(m: MessageV) -> nat {
    match m {
        MessageV::User { content, .. } => byte_len(content),
        MessageV::Assistant { content, tool_calls, .. } => byte_len(content) + calls_size(
            tool_calls,
        ),
        MessageV::Tool { content, .. } => byte_len(content),
    }
}

/// How many bytes some messages take.
pub open spec fn messages_size(messages: Seq<MessageV>) -> nat
    decreases messages.len(),
{
    if messages.len() == 0 {
        0
    } else {
        messages_size(messages.drop_last()) + message_size(messages.last())
    }
}

/// `n`, or the largest `usize` where `n` is beyond it.
pub open spec fn capped(n: nat) -> usize {
    if n > usize::MAX {
        usize::MAX
    } else {
        n as usize
    }
}

impl SessionLogV {
    /// Whether no more events are in memory than are to be kept.
    pub open spec fn wf(self) -> bool {
        self.events.len() <= self.max_in_memory
    }

    /// Whether `n` more events can be numbered.
    pub open spec fn has_room(self, n: nat) -> bool {
        self.next_seq + n <= u64::MAX
    }

    /// The log after one more event.
    pub open spec fn appended(self, e: SessionEventV) -> SessionLogV {
        SessionLogV {
            next_seq: (self.next_seq + 1) as u64,
            events: last_n(self.events.push(e), self.max_in_memory as nat),
            max_in_memory: self.max_in_memory,
            current_turn: match e {
                SessionEventV::TurnStart { turn } => turn,
                _ => self.current_turn,
            },
            current_step: match e {
                SessionEventV::StepStart { step, .. } => step,
                _ => self.current_step,
            },
        }
    }

    /// The log after a turn has begun.
    pub open spec fn turn_begun(self) -> SessionLogV {
        let turn = (self.current_turn + 1) as u64;
        SessionLogV { current_turn: turn, current_step: 0, ..self }.appended(
            SessionEventV::TurnStart { turn },
        )
    }

    /// The log after a step has begun.
    pub open spec fn step_begun(self) -> SessionLogV {
        self.appended(
            SessionEventV::StepStart {
                turn: self.current_turn,
                step: (self.current_step + 1) as u64,
            },
        )
    }

    /// The log after the step has ended.
    pub open spec fn step_ended(self) -> SessionLogV {
        self.appended(
            SessionEventV::StepEnd { turn: self.current_turn, step: self.current_step },
        )
    }

    /// The log after the turn has ended.
    pub open spec fn turn_ended(self, reason: TurnEndReason) -> SessionLogV {
        self.appended(SessionEventV::TurnEnd { turn: self.current_turn, reason })
    }

    /// The events that give way to a summary: all but the newest `keep`.
    pub open spec fn older(self, keep: nat) -> Seq<SessionEventV> {
        if self.events.len() <= keep {
            Seq::empty()
        } else {
            self.events.take(self.events.len() - keep)
        }
    }

    /// The log after all but the `keep` newest events have been replaced by a summary; the log
    /// itself where there are no more than these.
    pub open spec fn compacted(self, summary: Seq<char>, keep: nat) -> SessionLogV {
        if self.events.len() <= keep {
            self
        } else {
            SessionLogV {
                events: seq![SessionEventV::CompactionSummary { summary }] + last_n(
                    self.events,
                    keep,
                ),
                ..self
            }
        }
    }
}

/// A copy of the log that can be written down.
pub struct SessionSnapshot {
    pub next_seq: u64,
    pub events: Vec<SessionEvent>,
    pub current_turn: u64,
    pub current_step: u64,
}

/// What a [`SessionSnapshot`] stands for.
pub struct SnapshotV {
    pub next_seq: u64,
    pub events: Seq<SessionEventV>,
    pub current_turn: u64,
    pub current_step: u64,
}

impl View for SessionSnapshot {
    type V = SnapshotV;

    open spec fn view(&self) -> SnapshotV {
        SnapshotV {
            next_seq: self.next_seq,
            events: views(self.events@),
            current_turn: self.current_turn,
            current_step: self.current_step,
        }
    }
}

/// What is written down of a log.
pub open spec fn snapshot_of(log: SessionLogV) -> SnapshotV {
    SnapshotV {
        next_seq: log.next_seq,
        events: log.events,
        current_turn: log.current_turn,
        current_step: log.current_step,
    }
}

impl SessionLog {
    /// An empty log that keeps `max_in_memory` events in memory.
    pub fn new(max_in_memory: usize) -> (r: SessionLog)
        ensures
            r@ == (SessionLogV {
                next_seq: 0,
                events: Seq::empty(),
                max_in_memory,
                current_turn: 0,
                current_step: 0,
            }),
            r@.wf(),
    {
        let capacity: usize = if max_in_memory < 512 { max_in_memory } else { 512 };
        let r = SessionLog {
            next_seq: 0,
            events: VecDeque::with_capacity(capacity),
            max_in_memory,
            current_turn: 0,
            current_step: 0,
        };
        assert(views(r.events@) =~= Seq::empty());
        r
    }

    /// Whether `n` more events can be numbered.
    pub fn has_room(&self, n: u64) -> (r: bool)
        ensures
            r == self@.has_room(n as nat),
    {
        n <= u64::MAX - self.next_seq
    }

    /// Appends an event and returns its number. The oldest events go where there are too many.
    pub fn append(&mut self, event: SessionEvent) -> (seq: u64)
        requires
            old(self)@.has_room(1),
        ensures
            seq == old(self)@.next_seq,
            final(self)@ == old(self)@.appended(event@),
            final(self)@.wf(),
    {
        let seq: u64 = self.next_seq;
        self.next_seq = self.next_seq + 1;
        match &event {
            SessionEvent::TurnStart { turn } => {
                self.current_turn = *turn;
            },
            SessionEvent::StepStart { step, .. } => {
                self.current_step = *step;
            },
            _ => {},
        }
        let ghost all = self.events@.push(event);
        self.events.push_back(event);
        assert(all.skip(0) =~= all);
        let ghost mut dropped: int = 0;
        while self.events.len() > self.max_in_memory
            invariant
                0 <= dropped <= all.len(),
                self.events@ == all.skip(dropped),
                dropped > 0 ==> all.len() - dropped >= self.max_in_memory,
                self.next_seq == old(self).next_seq + 1,
                self.max_in_memory == old(self).max_in_memory,
                self.current_turn == old(self)@.appended(event@).current_turn,
                self.current_step == old(self)@.appended(event@).current_step,
            decreases self.events@.len(),
        {
            let _ = self.events.pop_front();
            proof {
                assert(all.skip(dropped).subrange(1, all.len() - dropped) =~= all.skip(
                    dropped + 1,
                ));
                dropped = dropped + 1;
            }
        }
        assert(views(all) =~= views(old(self).events@).push(event@));
        assert(views(self.events@) =~= last_n(views(all), self.max_in_memory as nat));
        seq
    }

    /// Begins a turn and returns its number.
    pub fn begin_turn(&mut self) -> (turn: u64)
        requires
            old(self)@.has_room(1),
            old(self)@.current_turn < u64::MAX,
        ensures
            turn == old(self)@.current_turn + 1,
            final(self)@ == old(self)@.turn_begun(),
            final(self)@.wf(),
    {
        self.current_turn = self.current_turn + 1;
        self.current_step = 0;
        let turn: u64 = self.current_turn;
        let _ = self.append(SessionEvent::TurnStart { turn });
        turn
    }

    /// Forgets all events and counts from the start again; the capacity stays.
    pub fn clear(&mut self)
        ensures
            final(self)@ == (SessionLogV {
                next_seq: 0,
                events: Seq::empty(),
                max_in_memory: old(self)@.max_in_memory,
                current_turn: 0,
                current_step: 0,
            }),
            final(self)@.wf(),
    {
        self.events.clear();
        self.next_seq = 0;
        self.current_turn = 0;
        self.current_step = 0;
        assert(views(self.events@) =~= Seq::empty());
    }

    /// A rough count of the tokens of the derived messages: a quarter of their bytes.
    pub fn estimated_tokens(&self) -> (r: usize)
        ensures
            r == capped(messages_size(derived(self@.events))) / 4,
    {
        let messages = self.derive_messages();
        let ghost all = views(messages@);
        let mut total: usize = 0;
        let mut i: usize = 0;
        assert(all.take(0) =~= Seq::empty());
        while i < messages.len()
            invariant
                i <= messages@.len(),
                all == views(messages@),
                total == capped(messages_size(all.take(i as int))),
            decreases messages@.len() - i,
        {
            assert(all.take(i + 1).drop_last() =~= all.take(i as int));
            let own: usize = match &messages[i] {
                Message::User { content, .. } => byte_len_of(content.as_str()),
                Message::Assistant { content, tool_calls, .. } => byte_len_of(
                    content.as_str(),
                ).saturating_add(size_of_calls(tool_calls)),
                Message::Tool { content, .. } => byte_len_of(content.as_str()),
            };
            assert(own == capped(message_size(all[i as int])));
            total = total.saturating_add(own);
            i += 1;
        }
        assert(all.take(i as int) =~= all);
        total / 4
    }

    /// Ends the turn.
    pub fn end_turn(&mut self, reason: TurnEndReason)
        requires
            old(self)@.has_room(1),
        ensures
            final(self)@ == old(self)@.turn_ended(reason),
            final(self)@.wf(),
    {
        let turn: u64 = self.current_turn;
        let _ = self.append(SessionEvent::TurnEnd { turn, reason });
    }

    /// Begins a step of the turn and returns its number.
    pub fn begin_step(&mut self) -> (step: u64)
        requires
            old(self)@.has_room(1),
            old(self)@.current_step < u64::MAX,
        ensures
            step == old(self)@.current_step + 1,
            final(self)@ == old(self)@.step_begun(),
            final(self)@.wf(),
    {
        let turn: u64 = self.current_turn;
        let step: u64 = self.current_step + 1;
        let _ = self.append(SessionEvent::StepStart { turn, step });
        step
    }

    /// Ends the step.
    pub fn end_step(&mut self)
        requires
            old(self)@.has_room(1),
        ensures
            final(self)@ == old(self)@.step_ended(),
            final(self)@.wf(),
    {
        let turn: u64 = self.current_turn;
        let step: u64 = self.current_step;
        let _ = self.append(SessionEvent::StepEnd { turn, step });
    }

    /// The messages that the model is to see.
    pub fn derive_messages(&self) -> (r: Vec<Message>)
        ensures
            views(r@) == derived(self@.events),
    {
        assert(self@.events.take(self@.events.len() as int) =~= self@.events);
        self.messages_of_first(self.events.len())
    }

    /// The messages of the events that [`SessionLog::apply_compaction`] replaces by a summary.
    pub fn older_messages(&self, keep_recent: usize) -> (r: Vec<Message>)
        ensures
            views(r@) == derived(self@.older(keep_recent as nat)),
    {
        if self.events.len() <= keep_recent {
            assert(self@.events.take(0) =~= Seq::empty());
            return self.messages_of_first(0);
        }
        self.messages_of_first(self.events.len() - keep_recent)
    }

    /// The messages of the first `count` events.
    fn messages_of_first(&self, count: usize) -> (r: Vec<Message>)
        requires
            count <= self@.events.len(),
        ensures
            views(r@) == derived(self@.events.take(count as int)),
    {
        let mut r: Vec<Message> = Vec::new();
        let mut i: usize = 0;
        let ghost all = self@.events;
        assert(all.take(0) =~= Seq::empty());
        assert(views(r@) =~= Seq::empty());
        while i < count
            invariant
                i <= count <= self.events@.len(),
                all == views(self.events@),
                views(r@) == derived(all.take(i as int)),
            decreases count - i,
        {
            let ghost before = r@;
            assert(all.take(i + 1).drop_last() =~= all.take(i as int));
            assert(all.take(i + 1).last() == self.events@[i as int]@);
            match message_from(&self.events[i]) {
                Some(m) => {
                    r.push(m);
                    assert(views(r@) =~= views(before).push(m@));
                },
                None => {},
            }
            i += 1;
        }
        r
    }

    /// The events in memory, oldest first.
    pub fn events(&self) -> (r: &VecDeque<SessionEvent>)
        ensures
            views(r@) == self@.events,
    {
        &self.events
    }

    /// Replaces all but the `keep_recent` newest events by a summary; does nothing where there are
    /// no more than these.
    pub fn apply_compaction(&mut self, summary: String, keep_recent: usize)
        ensures
            final(self)@ == old(self)@.compacted(summary@, keep_recent as nat),
            old(self)@.wf() ==> final(self)@.wf(),
    {
        if self.events.len() <= keep_recent {
            return;
        }
        let ghost all = self.events@;
        let from: usize = self.events.len() - keep_recent;
        let mut kept: VecDeque<SessionEvent> = VecDeque::new();
        kept.push_back(SessionEvent::CompactionSummary { summary });
        let mut i: usize = from;
        let ghost head = seq![SessionEventV::CompactionSummary { summary: summary@ }];
        assert(views(kept@) =~= head + views(all).subrange(from as int, i as int));
        while i < self.events.len()
            invariant
                from <= i <= self.events@.len(),
                self.events@ == all,
                self.next_seq == old(self).next_seq,
                self.max_in_memory == old(self).max_in_memory,
                self.current_turn == old(self).current_turn,
                self.current_step == old(self).current_step,
                views(kept@) == head + views(all).subrange(from as int, i as int),
            decreases self.events@.len() - i,
        {
            let ghost before = kept@;
            let e = self.events[i].clone();
            kept.push_back(e);
            assert(views(kept@) =~= views(before).push(all[i as int]@));
            assert(views(all).subrange(from as int, i + 1) =~= views(all).subrange(
                from as int,
                i as int,
            ).push(all[i as int]@));
            i += 1;
        }
        assert(views(all).subrange(from as int, i as int) =~= last_n(
            views(all),
            keep_recent as nat,
        ));
        self.events = kept;
    }

    /// The number of the turn.
    pub fn current_turn(&self) -> (r: u64)
        ensures
            r == self@.current_turn,
    {
        self.current_turn
    }

    /// The number of the step.
    pub fn current_step(&self) -> (r: u64)
        ensures
            r == self@.current_step,
    {
        self.current_step
    }

    /// How many events are in memory.
    pub fn len(&self) -> (r: usize)
        ensures
            r == self@.events.len(),
    {
        self.events.len()
    }

    /// Whether no event is in memory.
    pub fn is_empty(&self) -> (r: bool)
        ensures
            r == (self@.events.len() == 0),
    {
        self.events.len() == 0
    }

    /// A copy of the log that can be written down.
    pub fn serialize(&self) -> (r: SessionSnapshot)
        ensures
            r@ == snapshot_of(self@),
    {
        let mut events: Vec<SessionEvent> = Vec::new();
        let mut i: usize = 0;
        let ghost all = self@.events;
        assert(views(events@) =~= all.take(0));
        while i < self.events.len()
            invariant
                i <= self.events@.len(),
                all == views(self.events@),
                views(events@) == all.take(i as int),
            decreases self.events@.len() - i,
        {
            let ghost before = events@;
            events.push(self.events[i].clone());
            assert(views(events@) =~= views(before).push(all[i as int]));
            assert(all.take(i + 1) =~= all.take(i as int).push(all[i as int]));
            i += 1;
        }
        assert(all.take(i as int) =~= all);
        SessionSnapshot {
            next_seq: self.next_seq,
            events,
            current_turn: self.current_turn,
            current_step: self.current_step,
        }
    }

    /// The log that was written down: what was read in the current format counts, what was read in
    /// the older format only where there is nothing else.
    pub fn deserialize(
        current: Option<SessionSnapshot>,
        older: Option<SessionSnapshot>,
        max_in_memory: usize,
    ) -> (r: Option<SessionLog>)
        ensures
            match r {
                Some(log) => {
                    &&& current is Some ==> log@ == restored(current->0@, max_in_memory)
                    &&& current is None ==> older is Some && log@ == restored(
                        older->0@,
                        max_in_memory,
                    )
                    &&& log@.wf()
                },
                None => current is None && older is None,
            },
    {
        match current {
            Some(snapshot) => Some(SessionLog::from_snapshot(snapshot, max_in_memory)),
            None => match older {
                Some(snapshot) => Some(SessionLog::from_snapshot(snapshot, max_in_memory)),
                None => None,
            },
        }
    }

    /// The log of a snapshot, with the newest events that fit.
    pub fn from_snapshot(snapshot: SessionSnapshot, max_in_memory: usize) -> (r: SessionLog)
        ensures
            r@ == restored(snapshot@, max_in_memory),
            r@.wf(),
    {
        let mut events: VecDeque<SessionEvent> = VecDeque::new();
        let n: usize = snapshot.events.len();
        let from: usize = if n <= max_in_memory { 0 } else { n - max_in_memory };
        let ghost all = views(snapshot.events@);
        let mut i: usize = from;
        assert(views(events@) =~= all.subrange(from as int, i as int));
        while i < n
            invariant
                from <= i <= n,
                n == snapshot.events@.len(),
                all == views(snapshot.events@),
                views(events@) == all.subrange(from as int, i as int),
            decreases n - i,
        {
            let ghost before = events@;
            let e = snapshot.events[i].clone();
            events.push_back(e);
            assert(views(events@) =~= views(before).push(all[i as int]));
            assert(all.subrange(from as int, i + 1) =~= all.subrange(from as int, i as int).push(
                all[i as int],
            ));
            i += 1;
        }
        assert(all.subrange(from as int, i as int) =~= last_n(all, max_in_memory as nat));
        SessionLog {
            next_seq: snapshot.next_seq,
            events,
            max_in_memory,
            current_turn: snapshot.current_turn,
            current_step: snapshot.current_step,
        }
    }
}

/// The log of a snapshot, with the newest events that fit.
pub open spec fn restored(snapshot: SnapshotV, max_in_memory: usize) -> SessionLogV {
    SessionLogV {
        next_seq: snapshot.next_seq,
        events: last_n(snapshot.events, max_in_memory as nat),
        max_in_memory,
        current_turn: snapshot.current_turn,
        current_step: snapshot.current_step,
    }
}

/// How many bytes the tool calls of a message take, as far as a `usize` can say.
fn size_of_calls(calls: &Vec<ToolCall>) -> (r: usize)
    ensures
        r == capped(calls_size(views(calls@))),
{
    let ghost all = views(calls@);
    let mut total: usize = 0;
    let mut i: usize = 0;
    assert(all.take(0) =~= Seq::empty());
    while i < calls.len()
        invariant
            i <= calls@.len(),
            all == views(calls@),
            total == capped(calls_size(all.take(i as int))),
        decreases calls@.len() - i,
    {
        assert(all.take(i + 1).drop_last() =~= all.take(i as int));
        let arguments = json_to_text(&calls[i].arguments);
        let own: usize = byte_len_of(arguments.as_str()).saturating_add(
            byte_len_of(calls[i].name.as_str()),
        );
        total = total.saturating_add(own);
        i += 1;
    }
    assert(all.take(i as int) =~= all);
    total
}

/// The message that an event shows to the model.
fn message_from(e: &SessionEvent) -> (r: Option<Message>)
    ensures
        opt_view(r) == message_of(e@),
{
    match e {
        SessionEvent::UserMessage { content, images } => Some(
            Message::User { content: content.clone(), images: clone_images(images) },
        ),
        SessionEvent::AssistantMessage { content, tool_calls, thinking, .. } => Some(
            Message::Assistant {
                content: content.clone(),
                tool_calls: clone_calls(tool_calls),
                reasoning_content: clone_opt(thinking),
            },
        ),
        SessionEvent::ToolResult { call_id, content, is_error, images } => Some(
            Message::Tool {
                call_id: call_id.clone(),
                content: content.clone(),
                is_error: *is_error,
                images: clone_images(images),
            },
        ),
        SessionEvent::CompactionSummary { summary } => {
            let mut content = "[Previous conversation summary]\n".to_owned();
            content.push_str(summary.as_str());
            let m = Message::User { content, images: Vec::new() };
            assert(m@->User_images =~= Seq::<ImageBlockV>::empty());
            Some(m)
        },
        _ => None,
    }
}

/// The messages of two stretches of a log are those of the one and then those of the other: what
/// was derived once stays in front of what is derived later.
pub proof fn law_derived_is_append_only(a: Seq<SessionEventV>, b: Seq<SessionEventV>)
    ensures
        derived(a + b) == derived(a) + derived(b),
    decreases b.len(),
{
    if b.len() == 0 {
        assert(a + b =~= a);
        assert(derived(a) + derived(b) =~= derived(a));
    } else {
        assert((a + b).drop_last() =~= a + b.drop_last());
        law_derived_is_append_only(a, b.drop_last());
        assert(derived(a + b) =~= derived(a) + derived(b));
    }
}

/// An event that shows a message shows just that one.
proof fn lemma_derived_one(e: SessionEventV)
    requires
        message_of(e) is Some,
    ensures
        derived(seq![e]) == seq![message_of(e)->0],
{
    let one = seq![e];
    assert(one.drop_last() =~= Seq::empty());
    assert(derived(one.drop_last()) =~= Seq::empty());
    assert(one.last() == e);
    assert(derived(one) =~= seq![message_of(e)->0]);
}

/// The model sees a message exactly where an event of the log shows it.
pub proof fn law_model_visible_iff_logged(events: Seq<SessionEventV>, m: MessageV)
    ensures
        derived(events).contains(m) <==> exists|i: int|
            0 <= i < events.len() && message_of(#[trigger] events[i]) == Some(m),
    decreases events.len(),
{
    if events.len() > 0 {
        let front = events.drop_last();
        law_model_visible_iff_logged(front, m);
        let before = derived(front);
        if derived(events).contains(m) {
            let k = choose|k: int| 0 <= k < derived(events).len() && derived(events)[k] == m;
            if k < before.len() {
                assert(before[k] == m);
                assert(before.contains(m));
                let i = choose|i: int|
                    0 <= i < front.len() && message_of(#[trigger] front[i]) == Some(m);
                assert(message_of(events[i]) == Some(m));
            } else {
                assert(message_of(events[events.len() - 1]) == Some(m));
            }
        }
        if exists|i: int| 0 <= i < events.len() && message_of(#[trigger] events[i]) == Some(m) {
            let i = choose|i: int|
                0 <= i < events.len() && message_of(#[trigger] events[i]) == Some(m);
            if i < front.len() {
                assert(front[i] == events[i]);
                let k = choose|k: int| 0 <= k < before.len() && before[k] == m;
                assert(derived(events)[k] == m);
            } else {
                assert(derived(events).last() == m);
            }
        }
    }
}

/// A tool result stands behind the message of the answer that asked for it and before whatever
/// the log holds after it.
pub proof fn law_tool_result_in_place(
    before: Seq<SessionEventV>,
    answer: SessionEventV,
    result: SessionEventV,
    after: Seq<SessionEventV>,
)
    requires
        answer is AssistantMessage,
        result is ToolResult,
    ensures
        derived(before + seq![answer] + seq![result] + after) == derived(before) + seq![
            message_of(answer)->0,
        ] + seq![message_of(result)->0] + derived(after),
{
    law_derived_is_append_only(before + seq![answer] + seq![result], after);
    law_derived_is_append_only(before + seq![answer], seq![result]);
    law_derived_is_append_only(before, seq![answer]);
    lemma_derived_one(answer);
    lemma_derived_one(result);
}

/// Keeping the last events after each one appended is the same as keeping the last of all.
pub proof fn law_ring_keeps_the_newest(all: Seq<SessionEventV>, e: SessionEventV, n: nat)
    ensures
        last_n(last_n(all, n).push(e), n) == last_n(all.push(e), n),
{
    assert(last_n(last_n(all, n).push(e), n) =~= last_n(all.push(e), n));
}

/// The log after several events, one after the other.
pub open spec fn appended_all(log: SessionLogV, es: Seq<SessionEventV>) -> SessionLogV
    decreases es.len(),
{
    if es.len() == 0 {
        log
    } else {
        appended_all(log, es.drop_last()).appended(es.last())
    }
}

/// Whatever events are appended, the log holds the newest of all of them, as many as fit, and never
/// more.
pub proof fn law_log_is_bounded(log: SessionLogV, es: Seq<SessionEventV>)
    requires
        log.wf(),
    ensures
        appended_all(log, es).max_in_memory == log.max_in_memory,
        appended_all(log, es).wf(),
        appended_all(log, es).events == last_n(log.events + es, log.max_in_memory as nat),
    decreases es.len(),
{
    if es.len() == 0 {
        assert(log.events + es =~= log.events);
    } else {
        law_log_is_bounded(log, es.drop_last());
        law_ring_keeps_the_newest(
            log.events + es.drop_last(),
            es.last(),
            log.max_in_memory as nat,
        );
        assert((log.events + es.drop_last()).push(es.last()) =~= log.events + es);
    }
}

/// Each event gets the number after that of the event before it, whatever the two are.
pub proof fn law_numbers_rise(log: SessionLogV, first: SessionEventV, second: SessionEventV)
    requires
        log.has_room(2),
    ensures
        log.appended(first).next_seq == log.next_seq + 1,
        log.appended(first).appended(second).next_seq == log.next_seq + 2,
{
}

/// A compaction leaves the summary in front and exactly the newest events behind it, and the
/// model then sees the summary first and the messages of those events after it.
pub proof fn law_compaction_keeps_the_newest(log: SessionLogV, summary: Seq<char>, keep: nat)
    requires
        log.events.len() > keep,
    ensures
        log.compacted(summary, keep).events.len() == keep + 1,
        derived(log.compacted(summary, keep).events) == seq![
            MessageV::User {
                content: "[Previous conversation summary]\n"@ + summary,
                images: Seq::empty(),
            },
        ] + derived(last_n(log.events, keep)),
{
    let head = SessionEventV::CompactionSummary { summary };
    law_derived_is_append_only(seq![head], last_n(log.events, keep));
    lemma_derived_one(head);
}

/// A log that is written down and read again with the same capacity is the same log.
pub proof fn law_snapshot_round_trip(log: SessionLogV)
    requires
        log.wf(),
    ensures
        restored(snapshot_of(log), log.max_in_memory) == log,
{
}

/// Whether some messages are what one event is to show: the words of the user with their images, the
/// words of the assistant with the calls that it asked for and its reasoning, the outcome of a call
/// under the name of that call, a summary in the place of what it stands for, and nothing for the
/// events that are only kept.
pub open spec fn shows(e: SessionEventV, shown: Seq<MessageV>) -> bool {
    match e {
        SessionEventV::UserMessage { content, images } => {
            &&& shown.len() == 1
            &&& shown[0] is User
            &&& shown[0]->User_content == content
            &&& shown[0]->User_images == images
        },
        SessionEventV::AssistantMessage { content, tool_calls, thinking, .. } => {
            &&& shown.len() == 1
            &&& shown[0] is Assistant
            &&& shown[0]->Assistant_content == content
            &&& shown[0]->tool_calls == tool_calls
            &&& shown[0]->reasoning_content == thinking
        },
        SessionEventV::ToolResult { call_id, content, is_error, images } => {
            &&& shown.len() == 1
            &&& shown[0] is Tool
            &&& shown[0]->call_id == call_id
            &&& shown[0]->Tool_content == content
            &&& shown[0]->is_error == is_error
            &&& shown[0]->Tool_images == images
        },
        SessionEventV::CompactionSummary { summary } => {
            &&& shown.len() == 1
            &&& shown[0] is User
            &&& summary.is_suffix_of(shown[0]->User_content)
            &&& shown[0]->User_images.len() == 0
        },
        _ => shown.len() == 0,
    }
}

/// Wherever an event stands in a log, what it says reaches the model whole, in its place: behind the
/// messages of all events before it and before those of all events after it.
pub proof fn law_events_reach_the_model_whole(
    before: Seq<SessionEventV>,
    e: SessionEventV,
    after: Seq<SessionEventV>,
)
    ensures
        exists|shown: Seq<MessageV>| #[trigger]
            shows(e, shown) && derived(before + seq![e] + after) == derived(before) + shown
                + derived(after),
{
    law_derived_is_append_only(before + seq![e], after);
    law_derived_is_append_only(before, seq![e]);
    let shown = derived(seq![e]);
    if message_of(e) is Some {
        lemma_derived_one(e);
    } else {
        assert(seq![e].drop_last() =~= Seq::empty());
        assert(seq![e].last() == e);
        assert(derived(seq![e].drop_last()) =~= Seq::empty());
    }
    assert(shows(e, shown)) by {
        match e {
            SessionEventV::CompactionSummary { summary } => {
                let head = "[Previous conversation summary]\n"@;
                assert((head + summary).skip(head.len() as int) =~= summary);
            },
            _ => {},
        }
    }
}

/// Whether an answer asks for the call of a name.
pub open spec fn asks_for(calls: Seq<ToolCallV>, call_id: Seq<char>) -> bool {
    exists|k: int| 0 <= k < calls.len() && (#[trigger] calls[k]).id == call_id
}

/// Every result that the model sees answers a call that it sees: where an answer in the log asks for
/// a call and its result follows before any other answer, the last answer that the model sees before
/// the result asks for that call.
pub proof fn law_results_answer_calls_that_are_seen(
    before: Seq<SessionEventV>,
    answer: SessionEventV,
    between: Seq<SessionEventV>,
    result: SessionEventV,
    after: Seq<SessionEventV>,
)
    requires
        answer is AssistantMessage,
        result is ToolResult,
        asks_for(answer->tool_calls, result->call_id),
        forall|i: int| 0 <= i < between.len() ==> !((#[trigger] between[i]) is AssistantMessage),
    ensures
        ({
            let seen = derived(before + seq![answer] + between + seq![result] + after);
            let p = derived(before).len() as int;
            let q = p + 1 + derived(between).len();
            &&& p < q < seen.len()
            &&& seen[p] is Assistant
            &&& asks_for(seen[p]->tool_calls, seen[q]->call_id)
            &&& seen[q] is Tool
            &&& seen[q]->call_id == result->call_id
            &&& forall|k: int| p < k < q ==> !((#[trigger] seen[k]) is Assistant)
        }),
{
    law_derived_is_append_only(before + seq![answer] + between + seq![result], after);
    law_derived_is_append_only(before + seq![answer] + between, seq![result]);
    law_derived_is_append_only(before + seq![answer], between);
    law_derived_is_append_only(before, seq![answer]);
    lemma_derived_one(answer);
    lemma_derived_one(result);
    let seen = derived(before + seq![answer] + between + seq![result] + after);
    let p = derived(before).len() as int;
    let mid = derived(between);
    assert(seen[p] == message_of(answer)->0);
    assert(seen[p + 1 + mid.len()] == message_of(result)->0);
    assert forall|k: int| p < k < p + 1 + mid.len() implies !((#[trigger] seen[k]) is Assistant) by {
        let m = mid[k - p - 1];
        assert(seen[k] == m);
        assert(mid.contains(m));
        law_model_visible_iff_logged(between, m);
        let i = choose|i: int|
            0 <= i < between.len() && message_of(#[trigger] between[i]) == Some(m);
        assert(!(between[i] is AssistantMessage));
    }
}

/// What is kept of a sequence is its end: as much as may be kept, and no more.
pub proof fn law_the_newest_are_kept<A>(s: Seq<A>, n: nat)
    ensures
        last_n(s, n).is_suffix_of(s),
        last_n(s, n).len() == if s.len() < n {
            s.len()
        } else {
            n
        },
{
    let k = s.len() - last_n(s, n).len();
    assert(s.skip(k) =~= last_n(s, n));
    assert(s.subrange(k, s.len() as int) =~= last_n(s, n));
}

/// An event that is appended is the last of the log, and all that the log held stays before it as
/// long as there is room.
pub proof fn law_appending_keeps_what_was(log: SessionLogV, e: SessionEventV)
    requires
        log.wf(),
        log.max_in_memory > 0,
    ensures
        log.appended(e).events.len() > 0,
        log.appended(e).events.last() == e,
        log.appended(e).events.drop_last().is_suffix_of(log.events),
        log.events.len() < log.max_in_memory ==> log.appended(e).events.drop_last() == log.events,
        log.appended(e).max_in_memory == log.max_in_memory,
{
    let all = log.events.push(e);
    let kept = log.appended(e).events;
    let k = all.len() - kept.len();
    assert(kept =~= all.skip(k));
    assert(kept.drop_last() =~= log.events.skip(k));
    assert(log.events.subrange(k, log.events.len() as int) =~= kept.drop_last());
}

/// Turns are counted one by one, and the steps of a turn from one on; each beginning and each end is
/// the newest event of the log and bears the numbers of its turn and step.
pub proof fn law_turns_and_steps_are_counted(log: SessionLogV, reason: TurnEndReason)
    requires
        log.wf(),
        log.max_in_memory > 0,
        log.current_turn < u64::MAX,
        log.current_step < u64::MAX,
    ensures
        ({
            let begun = log.turn_begun();
            let step = log.step_begun();
            let over = log.step_ended();
            let end = log.turn_ended(reason);
            &&& begun.current_turn == log.current_turn + 1
            &&& begun.current_step == 0
            &&& begun.events.last() is TurnStart
            &&& begun.events.last()->TurnStart_turn == begun.current_turn
            &&& step.current_turn == log.current_turn
            &&& step.current_step == log.current_step + 1
            &&& step.events.last() is StepStart
            &&& step.events.last()->StepStart_turn == step.current_turn
            &&& step.events.last()->StepStart_step == step.current_step
            &&& over.current_turn == log.current_turn && over.current_step == log.current_step
            &&& over.events.last() is StepEnd
            &&& over.events.last()->StepEnd_turn == log.current_turn
            &&& over.events.last()->StepEnd_step == log.current_step
            &&& end.current_turn == log.current_turn && end.current_step == log.current_step
            &&& end.events.last() is TurnEnd
            &&& end.events.last()->TurnEnd_turn == log.current_turn
            &&& end.events.last()->reason == reason
        }),
{
}

/// What a compaction replaces and what it keeps are the whole log: the older events are its
/// beginning, the newest stay as they are behind one summary, and nothing else of the log changes.
pub proof fn law_compaction_splits_the_log(log: SessionLogV, summary: Seq<char>, keep: nat)
    ensures
        ({
            let after = log.compacted(summary, keep);
            &&& after.next_seq == log.next_seq
            &&& after.max_in_memory == log.max_in_memory
            &&& after.current_turn == log.current_turn
            &&& after.current_step == log.current_step
            &&& log.events.len() <= keep ==> after == log && log.older(keep).len() == 0
            &&& log.events.len() > keep ==> {
                &&& after.events.len() > 0
                &&& after.events[0] is CompactionSummary
                &&& after.events[0]->summary == summary
                &&& after.events.len() == keep + 1
                &&& log.older(keep) + after.events.skip(1) == log.events
            }
        }),
{
    let after = log.compacted(summary, keep);
    if log.events.len() > keep {
        assert(after.events.skip(1) =~= last_n(log.events, keep));
        assert(log.older(keep) + last_n(log.events, keep) =~= log.events);
    }
}

/// A log that is read again has what was written down, but for the oldest events where there is less
/// room.
pub proof fn law_reading_again_keeps_the_newest(log: SessionLogV, max: usize)
    ensures
        ({
            let read = restored(snapshot_of(log), max);
            &&& read.max_in_memory == max
            &&& read.wf()
            &&& read.events.is_suffix_of(log.events)
            &&& log.events.len() <= max ==> read.events == log.events
            &&& read.next_seq == log.next_seq
            &&& read.current_turn == log.current_turn
            &&& read.current_step == log.current_step
        }),
{
    law_the_newest_are_kept(log.events, max as nat);
}

/// How large a conversation is counts everything in it: the sizes of its parts add up, and each
/// message counts all bytes of its text and, of the calls that it asks for, all bytes of their names
/// and of their arguments as JSON.
pub proof fn law_sizes_add_up(a: Seq<MessageV>, b: Seq<MessageV>, m: MessageV)
    ensures
        messages_size(a + b) == messages_size(a) + messages_size(b),
        messages_size(seq![m]) == match m {
            MessageV::User { content, .. } => byte_len(content),
            MessageV::Tool { content, .. } => byte_len(content),
            MessageV::Assistant { content, tool_calls, .. } => byte_len(content) + calls_size(
                tool_calls,
            ),
        },
    decreases b.len(),
{
    assert(seq![m].drop_last() =~= Seq::empty());
    assert(messages_size(Seq::<MessageV>::empty()) == 0);
    if b.len() == 0 {
        assert(a + b =~= a);
    } else {
        assert((a + b).drop_last() =~= a + b.drop_last());
        law_sizes_add_up(a, b.drop_last(), m);
    }
}

/// How large tool calls are counts each of them, by its name and its arguments.
pub proof fn law_calls_add_up(a: Seq<ToolCallV>, b: Seq<ToolCallV>, c: ToolCallV)
    ensures
        calls_size(a + b) == calls_size(a) + calls_size(b),
        calls_size(seq![c]) == byte_len(c.name) + byte_len(json_text(c.arguments)),
    decreases b.len(),
{
    assert(seq![c].drop_last() =~= Seq::empty());
    assert(calls_size(Seq::<ToolCallV>::empty()) == 0);
    if b.len() == 0 {
        assert(a + b =~= a);
    } else {
        assert((a + b).drop_last() =~= a + b.drop_last());
        law_calls_add_up(a, b.drop_last(), c);
    }
}

/// A snapshot holds the whole log.
pub proof fn law_snapshots_hold_the_log(log: SessionLogV)
    ensures
        snapshot_of(log).events == log.events,
        snapshot_of(log).next_seq == log.next_seq,
        snapshot_of(log).current_turn == log.current_turn,
        snapshot_of(log).current_step == log.current_step,
{
}

} // verus!
