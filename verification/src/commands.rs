//! Commands that a user gives with a slash, which run without the model.
use crate::compaction::{summary_asked, summary_request};
use crate::llm::{LlmRequest, LlmRequestV};
use crate::session::{
    appended_all, capped, derived, last_n, law_log_is_bounded, messages_size, SessionLog,
    SessionLogV,
};
use crate::session_manager::{
    law_creating_keeps_order, law_only_the_active_log_changes, ManagerV, SessionManager,
    StoreAction, StoreActionV,
};
use crate::text::{
    after_prefix, chars_of, decimal, decimal_text, find, find_chars, is_space, law_find, law_trim,
    law_what_stands_there_is_found, law_white_space_is_blank, lemma_find_from, occurs_at, same,
    string_of, trim, trim_text,
};
use crate::types::{Config, ModelConfig, SessionEvent, SessionEventV};
use crate::views::{opt_str, opt_view, views};
use vstd::prelude::*;

verus! {

/// What a command is told besides its arguments.
pub struct CommandContext<'a> {
    pub config: &'a Config,
    /// The time, in milliseconds.
    pub now: u64,
    /// The name for a session that the command makes.
    pub new_id: &'a str,
    /// What the model made of the events that give way to a summary; missing where it could not be
    /// asked.
    pub summary: Option<&'a str>,
}

/// What a [`CommandContext`] stands for.
pub struct ContextV {
    pub context_window: usize,
    pub now: u64,
    pub new_id: Seq<char>,
    pub summary: Option<Seq<char>>,
}

impl<'a> View for CommandContext<'a> {
    type V = ContextV;

    open spec fn view(&self) -> ContextV {
        ContextV {
            context_window: self.config.model.context_window,
            now: self.now,
            new_id: self.new_id@,
            summary: opt_str(self.summary),
        }
    }
}

/// What came of a command.
pub struct CommandResult {
    /// What the user is shown.
    pub text: String,
    /// What the display is to do: `clear`, `new` or `none`.
    pub action: String,
    /// The session that was made.
    pub session_id: Option<String>,
    pub ok: bool,
    /// What is to be done where sessions are kept.
    pub store: Vec<StoreAction>,
}

/// What a [`CommandResult`] stands for.
pub struct CommandResultV {
    pub text: Seq<char>,
    pub action: Seq<char>,
    pub session_id: Option<Seq<char>>,
    pub ok: bool,
    pub store: Seq<StoreActionV>,
}

impl View for CommandResult {
    type V = CommandResultV;

    open spec fn view(&self) -> CommandResultV {
        CommandResultV {
            text: self.text@,
            action: self.action@,
            session_id: opt_view(self.session_id),
            ok: self.ok,
            store: views(self.store@),
        }
    }
}

/// A command that went well and changes nothing on the display.
pub open spec fn said(text: Seq<char>) -> CommandResultV {
    CommandResultV { text, action: "none"@, session_id: None, ok: true, store: Seq::empty() }
}

/// A command that cannot run.
pub open spec fn refused(text: Seq<char>) -> CommandResultV {
    CommandResultV { text, action: "none"@, session_id: None, ok: false, store: Seq::empty() }
}

impl CommandResult {
    /// A command that went well and changes nothing on the display.
    pub fn ok_text(text: String) -> (r: CommandResult)
        ensures
            r@ == said(text@),
    {
        let r = CommandResult {
            text,
            action: "none".to_owned(),
            session_id: None,
            ok: true,
            store: Vec::new(),
        };
        assert(r@.store =~= Seq::empty());
        r
    }

    /// A command that went well, with something for the display to do.
    pub fn ok_action(text: String, action: &str, store: Vec<StoreAction>) -> (r: CommandResult)
        ensures
            r@ == (CommandResultV {
                text: text@,
                action: action@,
                session_id: None,
                ok: true,
                store: views(store@),
            }),
    {
        CommandResult { text, action: action.to_owned(), session_id: None, ok: true, store }
    }

    /// A command that made a session.
    pub fn ok_new_session(text: String, session_id: String, store: Vec<StoreAction>) -> (r:
        CommandResult)
        ensures
            r@ == (CommandResultV {
                text: text@,
                action: "new"@,
                session_id: Some(session_id@),
                ok: true,
                store: views(store@),
            }),
    {
        CommandResult {
            text,
            action: "new".to_owned(),
            session_id: Some(session_id),
            ok: true,
            store,
        }
    }

    /// A command that cannot run.
    pub fn error(text: &str) -> (r: CommandResult)
        ensures
            r@ == refused(text@),
    {
        let r = CommandResult {
            text: text.to_owned(),
            action: "none".to_owned(),
            session_id: None,
            ok: false,
            store: Vec::new(),
        };
        assert(r@.store =~= Seq::empty());
        r
    }
}

/// A command.
pub trait CommandPlugin {
    /// Its name, without the slash.
    spec fn named(&self) -> Seq<char>;

    /// What it does, in a line.
    spec fn about(&self) -> Seq<char>;

    /// Whether the command, told `args` and `ctx`, may turn the sessions `before` into `after` and
    /// give `result`.
    spec fn runs(
        &self,
        args: Seq<char>,
        ctx: ContextV,
        before: ManagerV,
        after: ManagerV,
        result: CommandResultV,
    ) -> bool;

    /// Its name, without the slash.
    fn name(&self) -> (r: &str)
        ensures
            r@ == self.named(),
    ;

    /// What it does, in a line.
    fn description(&self) -> (r: &str)
        ensures
            r@ == self.about(),
    ;

    /// Runs the command.
    fn execute(
        &self,
        args: &str,
        ctx: &CommandContext,
        sessions: &mut SessionManager,
    ) -> (r: CommandResult)
        ensures
            self.runs(args@, ctx@, old(sessions)@, final(sessions)@, r@),
    ;
}

/// What is to be written down of the session in use.
pub open spec fn active_checkpoint(m: ManagerV) -> Seq<StoreActionV> {
    match m.active_id {
        Some(id) => m.checkpoint_of(id),
        None => Seq::empty(),
    }
}

/// The command that empties the session in use.
pub struct ClearCommand {}

/// A log that is emptied.
pub open spec fn emptied(log: SessionLogV) -> SessionLogV {
    SessionLogV {
        next_seq: 0,
        events: Seq::empty(),
        max_in_memory: log.max_in_memory,
        current_turn: 0,
        current_step: 0,
    }
}

impl CommandPlugin for ClearCommand {
    open spec fn named(&self) -> Seq<char> {
        "clear"@
    }

    open spec fn about(&self) -> Seq<char> {
        "清空当前会话"@
    }

    open spec fn runs(
        &self,
        args: Seq<char>,
        ctx: ContextV,
        before: ManagerV,
        after: ManagerV,
        result: CommandResultV,
    ) -> bool {
        match before.active_log() {
            Some(log) => {
                &&& after == before.with_active_log(emptied(log))
                &&& result == CommandResultV {
                    text: "会话已清空。"@,
                    action: "clear"@,
                    session_id: None,
                    ok: true,
                    store: active_checkpoint(after),
                }
            },
            None => after == before && result == refused("没有活跃会话。"@),
        }
    }

    fn name(&self) -> (r: &str) {
        "clear"
    }

    fn description(&self) -> (r: &str) {
        "清空当前会话"
    }

    fn execute(
        &self,
        args: &str,
        ctx: &CommandContext,
        sessions: &mut SessionManager,
    ) -> (r: CommandResult) {
        match sessions.active_mut() {
            Some(log) => {
                log.clear();
            },
            None => {
                return CommandResult::error("没有活跃会话。");
            },
        }
        let store = sessions.checkpoint_active();
        CommandResult::ok_action("会话已清空。".to_owned(), "clear", store)
    }
}

/// The command that makes a session.
pub struct NewCommand {}

/// The title of a new session: what the user wrote, or a default.
pub open spec fn new_title(args: Seq<char>) -> Seq<char> {
    if trim(args).len() == 0 {
        "New session"@
    } else {
        trim(args)
    }
}

impl CommandPlugin for NewCommand {
    open spec fn named(&self) -> Seq<char> {
        "new"@
    }

    open spec fn about(&self) -> Seq<char> {
        "新建会话"@
    }

    open spec fn runs(
        &self,
        args: Seq<char>,
        ctx: ContextV,
        before: ManagerV,
        after: ManagerV,
        result: CommandResultV,
    ) -> bool {
        let made = before.created(ctx.new_id, new_title(args), ctx.now);
        &&& after == made.0
        &&& result == CommandResultV {
            text: "已创建新会话。"@,
            action: "new"@,
            session_id: Some(ctx.new_id),
            ok: true,
            store: made.1,
        }
    }

    fn name(&self) -> (r: &str) {
        "new"
    }

    fn description(&self) -> (r: &str) {
        "新建会话"
    }

    fn execute(
        &self,
        args: &str,
        ctx: &CommandContext,
        sessions: &mut SessionManager,
    ) -> (r: CommandResult) {
        let given = trim_text(args);
        let title = if chars_of(given.as_str()).len() == 0 {
            "New session".to_owned()
        } else {
            given
        };
        let store = sessions.create(title.as_str(), ctx.new_id, ctx.now);
        CommandResult::ok_new_session("已创建新会话。".to_owned(), ctx.new_id.to_owned(), store)
    }
}

/// The command that shows how much of the context window is used.
pub struct ContextCommand {}

/// How much of a window `tokens` are, in percent; 0 where there is no window.
pub open spec fn percent(tokens: usize, window: usize) -> u64 {
    if window == 0 {
        0
    } else {
        let p = tokens * 100 / (window as int);
        if p > u64::MAX {
            u64::MAX
        } else {
            p as u64
        }
    }
}

/// How much of a window `tokens` are, in percent.
pub fn percent_of(tokens: usize, window: usize) -> (r: u64)
    ensures
        r == percent(tokens, window),
{
    if window == 0 {
        return 0;
    }
    let p: u128 = (tokens as u128) * 100 / (window as u128);
    if p > u64::MAX as u128 {
        u64::MAX
    } else {
        p as u64
    }
}

/// What the command says.
pub open spec fn context_text(log: SessionLogV, window: usize) -> Seq<char> {
    let tokens = capped(messages_size(derived(log.events))) / 4;
    "当前已用 "@ + decimal(tokens as nat) + " tokens（"@ + decimal(log.events.len())
        + " 条事件），模型最大上下文 "@ + decimal(window as nat) + " tokens，使用率 "@ + decimal(
        percent(tokens, window) as nat,
    ) + "%。"@
}

impl CommandPlugin for ContextCommand {
    open spec fn named(&self) -> Seq<char> {
        "context"@
    }

    open spec fn about(&self) -> Seq<char> {
        "查看当前 token 用量"@
    }

    open spec fn runs(
        &self,
        args: Seq<char>,
        ctx: ContextV,
        before: ManagerV,
        after: ManagerV,
        result: CommandResultV,
    ) -> bool {
        &&& after == before
        &&& result == match before.active_log() {
            Some(log) => said(context_text(log, ctx.context_window)),
            None => refused("没有活跃会话。"@),
        }
    }

    fn name(&self) -> (r: &str) {
        "context"
    }

    fn description(&self) -> (r: &str) {
        "查看当前 token 用量"
    }

    fn execute(
        &self,
        args: &str,
        ctx: &CommandContext,
        sessions: &mut SessionManager,
    ) -> (r: CommandResult) {
        match sessions.active() {
            Some(log) => {
                let tokens: usize = log.estimated_tokens();
                let window: usize = ctx.config.model.context_window;
                let mut text = "当前已用 ".to_owned();
                text.push_str(decimal_text(tokens as u64).as_str());
                text.push_str(" tokens（");
                text.push_str(decimal_text(log.len() as u64).as_str());
                text.push_str(" 条事件），模型最大上下文 ");
                text.push_str(decimal_text(window as u64).as_str());
                text.push_str(" tokens，使用率 ");
                text.push_str(decimal_text(percent_of(tokens, window)).as_str());
                text.push_str("%。");
                CommandResult::ok_text(text)
            },
            None => CommandResult::error("没有活跃会话。"),
        }
    }
}

/// The command that makes the session in use shorter: a summary takes the place of all but the latest
/// events. Where there is no summary, they are forgotten.
pub struct CompactCommand {}

/// How many events stay.
pub const COMPACT_KEEP: usize = 6;

/// A log with nothing but its latest events, counted from the start again.
pub open spec fn cut_short(log: SessionLogV) -> SessionLogV {
    appended_all(emptied(log), last_n(log.events, COMPACT_KEEP as nat))
}

/// A log that is made shorter.
pub open spec fn shortened(log: SessionLogV, summary: Option<Seq<char>>) -> SessionLogV {
    match summary {
        Some(text) => log.compacted(text, COMPACT_KEEP as nat),
        None => cut_short(log),
    }
}

/// What is asked of the model before a session is made shorter.
pub open spec fn compact_question(model: ModelConfig, m: ManagerV) -> Option<LlmRequestV> {
    match m.active_log() {
        Some(log) => summary_asked(
            model.model@,
            model.temperature,
            derived(log.older(COMPACT_KEEP as nat)),
        ),
        None => None,
    }
}

impl CompactCommand {
    /// What is to be asked of the model first, for a summary; nothing where nothing gives way.
    pub fn summary_request(&self, model: &ModelConfig, sessions: &SessionManager) -> (r: Option<
        LlmRequest,
    >)
        ensures
            opt_view(r) == compact_question(*model, sessions@),
    {
        match sessions.active() {
            Some(log) => summary_request(
                model.model.as_str(),
                model.temperature,
                &log.older_messages(COMPACT_KEEP),
            ),
            None => None,
        }
    }
}

/// Forgets all but the latest events of a log.
fn cut_log(log: &mut SessionLog)
    ensures
        final(log)@ == cut_short(old(log)@),
{
    let n: usize = log.len();
    let from: usize = if n <= COMPACT_KEEP {
        0
    } else {
        n - COMPACT_KEEP
    };
    let ghost all = log@.events;
    let ghost start = emptied(log@);
    let ghost last = last_n(all, COMPACT_KEEP as nat);
    assert(last =~= all.skip(from as int));
    let mut kept: Vec<SessionEvent> = Vec::new();
    let mut i: usize = from;
    assert(views(kept@) =~= last.take(0));
    while i < n
        invariant
            from <= i <= n,
            n == log@.events.len(),
            all == log@.events,
            last == all.skip(from as int),
            views(kept@) == last.take(i - from),
        decreases n - i,
    {
        let events = log.events();
        let ghost before = views(kept@);
        assert(all[i as int] == events@[i as int]@);
        kept.push(events[i].clone());
        assert(views(kept@) =~= before.push(last[i - from]));
        assert(last.take(i + 1 - from) =~= last.take(i - from).push(last[i - from]));
        i += 1;
    }
    assert(last.take(n - from) =~= last);
    log.clear();
    let mut k: usize = 0;
    assert(last.take(0) =~= Seq::empty());
    while k < kept.len()
        invariant
            k <= kept@.len(),
            kept@.len() <= COMPACT_KEEP,
            views(kept@) == last,
            log@ == appended_all(start, last.take(k as int)),
            log@.next_seq == k,
        decreases kept@.len() - k,
    {
        assert(last.take(k + 1).drop_last() =~= last.take(k as int));
        assert(last[k as int] == kept@[k as int]@);
        let _ = log.append(kept[k].clone());
        k += 1;
    }
    assert(last.take(k as int) =~= last);
}

impl CommandPlugin for CompactCommand {
    open spec fn named(&self) -> Seq<char> {
        "compact"@
    }

    open spec fn about(&self) -> Seq<char> {
        "压缩会话上下文"@
    }

    open spec fn runs(
        &self,
        args: Seq<char>,
        ctx: ContextV,
        before: ManagerV,
        after: ManagerV,
        result: CommandResultV,
    ) -> bool {
        match before.active_log() {
            Some(log) => if log.events.len() > COMPACT_KEEP {
                &&& after == before.with_active_log(shortened(log, ctx.summary))
                &&& result == CommandResultV {
                    text: "已压缩会话：保留最近 6 条事件，移除 "@ + decimal(
                        (log.events.len() - COMPACT_KEEP) as nat,
                    ) + " 条旧事件。"@,
                    action: "clear"@,
                    session_id: None,
                    ok: true,
                    store: active_checkpoint(after),
                }
            } else {
                &&& after == before
                &&& result == said("会话较短，无需压缩。"@)
            },
            None => after == before && result == refused("没有活跃会话。"@),
        }
    }

    fn name(&self) -> (r: &str) {
        "compact"
    }

    fn description(&self) -> (r: &str) {
        "压缩会话上下文"
    }

    fn execute(
        &self,
        args: &str,
        ctx: &CommandContext,
        sessions: &mut SessionManager,
    ) -> (r: CommandResult) {
        let removed: usize = match sessions.active() {
            Some(log) => {
                if log.len() <= COMPACT_KEEP {
                    return CommandResult::ok_text("会话较短，无需压缩。".to_owned());
                }
                log.len() - COMPACT_KEEP
            },
            None => {
                return CommandResult::error("没有活跃会话。");
            },
        };
        match sessions.active_mut() {
            Some(log) => match ctx.summary {
                Some(text) => log.apply_compaction(text.to_owned(), COMPACT_KEEP),
                None => cut_log(log),
            },
            None => {},
        }
        let store = sessions.checkpoint_active();
        let mut text = "已压缩会话：保留最近 6 条事件，移除 ".to_owned();
        text.push_str(decimal_text(removed as u64).as_str());
        text.push_str(" 条旧事件。");
        CommandResult::ok_action(text, "clear", store)
    }
}

/// The command that lists the commands.
pub struct HelpCommand {
    /// The names of the other commands, and what they do.
    pub commands: Vec<(String, String)>,
}

/// What some pairs of texts stand for.
pub open spec fn pairs_view(s: Seq<(String, String)>) -> Seq<(Seq<char>, Seq<char>)> {
    s.map_values(|e: (String, String)| (e.0@, e.1@))
}

/// A name with blanks behind it, so that it takes up `width` characters.
pub open spec fn padded(name: Seq<char>, width: nat) -> Seq<char> {
    if name.len() >= width {
        name
    } else {
        name + Seq::new((width - name.len()) as nat, |i: int| ' ')
    }
}

/// The line for one command.
pub open spec fn help_line(name: Seq<char>, about: Seq<char>) -> Seq<char> {
    "  /"@ + padded(name, 14) + " — "@ + about + "\n"@
}

/// The lines for some commands.
pub open spec fn help_lines(commands: Seq<(Seq<char>, Seq<char>)>) -> Seq<char>
    decreases commands.len(),
{
    if commands.len() == 0 {
        Seq::empty()
    } else {
        help_lines(commands.drop_last()) + help_line(commands.last().0, commands.last().1)
    }
}

/// What the command says.
pub open spec fn help_text(commands: Seq<(Seq<char>, Seq<char>)>) -> Seq<char> {
    "可用命令：\n"@ + help_lines(commands)
        + "\n在输入框中输入 / 开头的命令即可执行，无需发送给模型。"@
}

/// A name with blanks behind it.
fn pad(name: &str, width: usize) -> (r: String)
    ensures
        r@ == padded(name@, width as nat),
{
    let n: usize = chars_of(name).len();
    let mut r = name.to_owned();
    let mut i: usize = n;
    assert(r@ =~= name@ + Seq::new(0nat, |k: int| ' '));
    while i < width
        invariant
            n == name@.len(),
            n <= i,
            n < width ==> i <= width,
            n >= width ==> i == n,
            r@ == name@ + Seq::new((i - n) as nat, |k: int| ' '),
        decreases width - i,
    {
        r.push(' ');
        i += 1;
        assert(r@ =~= name@ + Seq::new((i - n) as nat, |k: int| ' '));
    }
    assert(r@ =~= padded(name@, width as nat));
    r
}

impl CommandPlugin for HelpCommand {
    open spec fn named(&self) -> Seq<char> {
        "help"@
    }

    open spec fn about(&self) -> Seq<char> {
        "显示此帮助"@
    }

    open spec fn runs(
        &self,
        args: Seq<char>,
        ctx: ContextV,
        before: ManagerV,
        after: ManagerV,
        result: CommandResultV,
    ) -> bool {
        &&& after == before
        &&& result == said(help_text(pairs_view(self.commands@)))
    }

    fn name(&self) -> (r: &str) {
        "help"
    }

    fn description(&self) -> (r: &str) {
        "显示此帮助"
    }

    fn execute(
        &self,
        args: &str,
        ctx: &CommandContext,
        sessions: &mut SessionManager,
    ) -> (r: CommandResult) {
        let ghost all = pairs_view(self.commands@);
        let head = "可用命令：\n";
        let mut lines = head.to_owned();
        let mut i: usize = 0;
        assert(all.take(0) =~= Seq::empty());
        assert(lines@ =~= head@ + help_lines(all.take(0)));
        while i < self.commands.len()
            invariant
                i <= self.commands@.len(),
                all == pairs_view(self.commands@),
                lines@ == head@ + help_lines(all.take(i as int)),
            decreases self.commands@.len() - i,
        {
            let ghost before = lines@;
            let ghost line = help_line(all[i as int].0, all[i as int].1);
            assert(all.take(i + 1).drop_last() =~= all.take(i as int));
            lines.push_str("  /");
            lines.push_str(pad(self.commands[i].0.as_str(), 14).as_str());
            lines.push_str(" — ");
            lines.push_str(self.commands[i].1.as_str());
            lines.push_str("\n");
            assert(lines@ =~= before + line);
            assert(lines@ =~= head@ + (help_lines(all.take(i as int)) + line));
            i += 1;
        }
        assert(all.take(i as int) =~= all);
        lines.push_str("\n在输入框中输入 / 开头的命令即可执行，无需发送给模型。");
        CommandResult::ok_text(lines)
    }
}

/// One of the built-in commands.
pub enum Command {
    New(NewCommand),
    Clear(ClearCommand),
    Compact(CompactCommand),
    Context(ContextCommand),
    Help(HelpCommand),
}

impl CommandPlugin for Command {
    open spec fn named(&self) -> Seq<char> {
        match *self {
            Command::New(c) => c.named(),
            Command::Clear(c) => c.named(),
            Command::Compact(c) => c.named(),
            Command::Context(c) => c.named(),
            Command::Help(c) => c.named(),
        }
    }

    open spec fn about(&self) -> Seq<char> {
        match *self {
            Command::New(c) => c.about(),
            Command::Clear(c) => c.about(),
            Command::Compact(c) => c.about(),
            Command::Context(c) => c.about(),
            Command::Help(c) => c.about(),
        }
    }

    open spec fn runs(
        &self,
        args: Seq<char>,
        ctx: ContextV,
        before: ManagerV,
        after: ManagerV,
        result: CommandResultV,
    ) -> bool {
        match *self {
            Command::New(c) => c.runs(args, ctx, before, after, result),
            Command::Clear(c) => c.runs(args, ctx, before, after, result),
            Command::Compact(c) => c.runs(args, ctx, before, after, result),
            Command::Context(c) => c.runs(args, ctx, before, after, result),
            Command::Help(c) => c.runs(args, ctx, before, after, result),
        }
    }

    fn name(&self) -> (r: &str) {
        match self {
            Command::New(c) => c.name(),
            Command::Clear(c) => c.name(),
            Command::Compact(c) => c.name(),
            Command::Context(c) => c.name(),
            Command::Help(c) => c.name(),
        }
    }

    fn description(&self) -> (r: &str) {
        match self {
            Command::New(c) => c.description(),
            Command::Clear(c) => c.description(),
            Command::Compact(c) => c.description(),
            Command::Context(c) => c.description(),
            Command::Help(c) => c.description(),
        }
    }

    fn execute(
        &self,
        args: &str,
        ctx: &CommandContext,
        sessions: &mut SessionManager,
    ) -> (r: CommandResult) {
        match self {
            Command::New(c) => c.execute(args, ctx, sessions),
            Command::Clear(c) => c.execute(args, ctx, sessions),
            Command::Compact(c) => c.execute(args, ctx, sessions),
            Command::Context(c) => c.execute(args, ctx, sessions),
            Command::Help(c) => c.execute(args, ctx, sessions),
        }
    }
}

/// The built-in commands. The last of them lists the others.
pub fn register_builtins() -> (r: Vec<Command>)
    ensures
        r@.len() == 5,
        r@[0] is New,
        r@[1] is Clear,
        r@[2] is Compact,
        r@[3] is Context,
        r@[4] is Help,
        pairs_view(r@[4]->Help_0.commands@) == r@.take(4).map_values(
            |c: Command| (c.named(), c.about()),
        ),
{
    let mut all: Vec<Command> = Vec::new();
    all.push(Command::New(NewCommand {  }));
    all.push(Command::Clear(ClearCommand {  }));
    all.push(Command::Compact(CompactCommand {  }));
    all.push(Command::Context(ContextCommand {  }));
    let ghost want = all@.map_values(|c: Command| (c.named(), c.about()));
    let mut commands: Vec<(String, String)> = Vec::new();
    let mut i: usize = 0;
    while i < all.len()
        invariant
            i <= all@.len(),
            want == all@.map_values(|c: Command| (c.named(), c.about())),
            pairs_view(commands@) == want.take(i as int),
        decreases all@.len() - i,
    {
        let ghost before = pairs_view(commands@);
        commands.push((all[i].name().to_owned(), all[i].description().to_owned()));
        assert(pairs_view(commands@) =~= before.push(want[i as int]));
        assert(want.take(i + 1) =~= want.take(i as int).push(want[i as int]));
        i += 1;
    }
    let ghost first = all@;
    all.push(Command::Help(HelpCommand { commands }));
    assert(all@.take(4) =~= first);
    assert(want.take(4) =~= want);
    all
}

/// The name of the command and its arguments in what a user wrote; none where it is no command.
pub open spec fn command_parts(line: Seq<char>) -> Option<(Seq<char>, Seq<char>)> {
    let t = trim(line);
    if "/"@.is_prefix_of(t) {
        let rest = t.skip("/"@.len() as int);
        match find(rest, " "@) {
            Some(at) => Some((rest.take(at), rest.skip(at + " "@.len()))),
            None => Some((rest, Seq::empty())),
        }
    } else {
        None
    }
}

/// The name of the command and its arguments in what a user wrote.
pub fn parse_command(line: &str) -> (r: Option<(String, String)>)
    ensures
        match r {
            Some(p) => command_parts(line@) == Some((p.0@, p.1@)),
            None => command_parts(line@) is None,
        },
{
    let t = trim_text(line);
    let rest = match after_prefix(t.as_str(), "/") {
        Some(rest) => rest,
        None => {
            return None;
        },
    };
    let v = chars_of(rest.as_str());
    let blank = chars_of(" ");
    proof {
        reveal_strlit(" ");
        lemma_find_from(v@, " "@, 0);
    }
    match find_chars(&v, &blank, 0) {
        Some(at) => Some((string_of(&v, 0, at), string_of(&v, at + 1, v.len()))),
        None => Some((rest, String::new())),
    }
}

/// What is to be asked of the model before a command runs: only a session that is to be made shorter
/// asks for a summary.
pub fn command_question(line: &str, model: &ModelConfig, sessions: &SessionManager) -> (r: Option<
    LlmRequest,
>)
    ensures
        opt_view(r) == match command_parts(line@) {
            Some(p) => if p.0 == "compact"@ {
                compact_question(*model, sessions@)
            } else {
                None
            },
            None => None,
        },
{
    match parse_command(line) {
        Some((name, _)) => {
            if same(name.as_str(), "compact") {
                CompactCommand {  }.summary_request(model, sessions)
            } else {
                None
            }
        },
        None => None,
    }
}

/// The first command of that name, from `i` on.
pub open spec fn command_index<P: CommandPlugin>(commands: Seq<P>, name: Seq<char>, i: int) -> int
    decreases commands.len() - i,
{
    if i < 0 || i >= commands.len() {
        commands.len() as int
    } else if commands[i].named() == name {
        i
    } else {
        command_index(commands, name, i + 1)
    }
}

/// Runs the command that a user wrote, without the model; none where it is no command or an unknown
/// one, and nothing is changed.
pub fn handle_command<P: CommandPlugin>(
    commands: &Vec<P>,
    line: &str,
    ctx: &CommandContext,
    sessions: &mut SessionManager,
) -> (r: Option<CommandResult>)
    ensures
        match command_parts(line@) {
            Some(p) => {
                let k = command_index(commands@, p.0, 0);
                if k < commands@.len() {
                    r is Some && commands@[k].runs(
                        p.1,
                        ctx@,
                        old(sessions)@,
                        final(sessions)@,
                        r->0@,
                    )
                } else {
                    r is None && final(sessions)@ == old(sessions)@
                }
            },
            None => r is None && final(sessions)@ == old(sessions)@,
        },
{
    let (name, args) = match parse_command(line) {
        Some(p) => p,
        None => {
            return None;
        },
    };
    let mut i: usize = 0;
    while i < commands.len()
        invariant
            i <= commands@.len(),
            command_index(commands@, name@, i as int) == command_index(commands@, name@, 0),
            command_parts(line@) == Some((name@, args@)),
            sessions@ == old(sessions)@,
        decreases commands@.len() - i,
    {
        if same(commands[i].name(), name.as_str()) {
            return Some(commands[i].execute(args.as_str(), ctx, sessions));
        }
        i += 1;
    }
    None
}

/// Making a session shorter keeps its latest events as they are, after the summary where there is
/// one.
pub proof fn law_latest_events_stay(log: SessionLogV, summary: Option<Seq<char>>)
    requires
        log.events.len() > COMPACT_KEEP,
        log.max_in_memory >= COMPACT_KEEP,
    ensures
        last_n(shortened(log, summary).events, COMPACT_KEEP as nat) == last_n(
            log.events,
            COMPACT_KEEP as nat,
        ),
        shortened(log, summary).events.len() == COMPACT_KEEP + if summary is Some {
            1int
        } else {
            0int
        },
        summary matches Some(text) ==> shortened(log, summary).events[0] == (
        SessionEventV::CompactionSummary { summary: text }),
{
    let kept = last_n(log.events, COMPACT_KEEP as nat);
    match summary {
        Some(text) => {
            assert(last_n(log.compacted(text, COMPACT_KEEP as nat).events, COMPACT_KEEP as nat)
                =~= kept);
        },
        None => {
            law_log_is_bounded(emptied(log), kept);
            assert(emptied(log).events + kept =~= kept);
        },
    }
}

/// A command is a line that begins with a slash: the word behind it is its name, and what follows
/// the first blank are its arguments, whole. Any other line is no command.
pub proof fn law_commands_begin_with_a_slash(
    blank: Seq<char>,
    name: Seq<char>,
    args: Seq<char>,
    line: Seq<char>,
)
    requires
        forall|i: int| 0 <= i < blank.len() ==> is_space(#[trigger] blank[i]),
        name.len() > 0,
        !name.contains(' '),
        !is_space(name.last()),
        args.len() > 0,
        !is_space(args.last()),
        line.len() > 0 ==> line[0] != '/' && !is_space(line[0]) && !is_space(line.last()),
    ensures
        command_parts(blank + seq!['/'] + name + seq![' '] + args) == Some((name, args)),
        command_parts(blank + seq!['/'] + name) == Some((name, Seq::<char>::empty())),
        command_parts(blank + line) is None,
{
    reveal_strlit("/");
    reveal_strlit(" ");
    let none = Seq::<char>::empty();
    assert("/"@ =~= seq!['/']);
    assert(" "@ =~= seq![' ']);
    law_white_space_is_blank('/');
    let whole = seq!['/'] + name + seq![' '] + args;
    assert(blank + seq!['/'] + name + seq![' '] + args =~= blank + whole + none);
    law_trim(blank, whole, none);
    let rest = whole.skip(1);
    assert(rest =~= name + seq![' '] + args);
    assert(whole.take(1) =~= "/"@);
    assert("/"@.is_prefix_of(whole));
    assert forall|j: int| 0 <= j < name.len() implies !#[trigger] occurs_at(
        name + seq![' '],
        seq![' '],
        j,
    ) by {
        if occurs_at(name + seq![' '], seq![' '], j) {
            assert((name + seq![' ']).subrange(j, j + 1)[0] == name[j]);
            assert(name.contains(' '));
        }
    }
    law_what_stands_there_is_found(name, seq![' '], args);
    assert(rest.take(name.len() as int) =~= name);
    assert(rest.skip(name.len() as int + 1) =~= args);
    let bare = seq!['/'] + name;
    assert(blank + seq!['/'] + name =~= blank + bare + none);
    law_trim(blank, bare, none);
    assert(bare.skip(1) =~= name);
    assert(bare.take(1) =~= "/"@);
    assert("/"@.is_prefix_of(bare));
    law_find(name, seq![' ']);
    if find(name, seq![' ']) is Some {
        let k = find(name, seq![' '])->0;
        assert((name.take(k) + seq![' '] + name.skip(k + 1))[k] == ' ');
        assert(name[k] == ' ');
    }
    assert(blank + line =~= blank + line + none);
    law_trim(blank, line, none);
    if "/"@.is_prefix_of(line) {
        assert(line[0] == "/"@[0]);
    }
}

/// Clearing empties the active log, keeps its size, and changes no other log and no session.
pub proof fn law_clearing_empties_the_active_log(
    c: ClearCommand,
    args: Seq<char>,
    ctx: ContextV,
    before: ManagerV,
    after: ManagerV,
    result: CommandResultV,
    other: Seq<char>,
)
    requires
        c.runs(args, ctx, before, after, result),
    ensures
        before.active_log() is None ==> after == before && !result.ok,
        before.active_log() is Some ==> {
            &&& result.ok
            &&& result.action == "clear"@
            &&& after.active_log() is Some
            &&& after.active_log()->0.events.len() == 0
            &&& after.active_log()->0.max_in_memory == before.active_log()->0.max_in_memory
            &&& after.active_log()->0.current_turn == 0
            &&& after.sessions == before.sessions
            &&& after.active_id == before.active_id
            &&& other != before.active_id->0 ==> after.log_of(other) == before.log_of(other)
        },
{
    if before.active_log() is Some {
        law_only_the_active_log_changes(before, emptied(before.active_log()->0), other);
    }
}

/// A new session has the title that was asked for, or a general one, and is told by its id.
pub proof fn law_new_sessions_have_the_title_asked_for(
    c: NewCommand,
    args: Seq<char>,
    ctx: ContextV,
    before: ManagerV,
    after: ManagerV,
    result: CommandResultV,
)
    requires
        c.runs(args, ctx, before, after, result),
        before.wf(),
    ensures
        after.knows(ctx.new_id),
        after.active_id == Some(ctx.new_id),
        trim(args).len() > 0 ==> after.meta(ctx.new_id).title == trim(args),
        trim(args).len() == 0 ==> after.meta(ctx.new_id).title == "New session"@,
        result.session_id == Some(ctx.new_id),
        result.ok,
        result.action == "new"@,
{
    law_creating_keeps_order(before, ctx.new_id, new_title(args), ctx.now);
}

/// Asking how full the context is, and asking for help, changes nothing.
pub proof fn law_asking_changes_nothing(
    c: ContextCommand,
    h: HelpCommand,
    args: Seq<char>,
    ctx: ContextV,
    before: ManagerV,
    after: ManagerV,
    result: CommandResultV,
)
    ensures
        c.runs(args, ctx, before, after, result) ==> {
            &&& after == before
            &&& result.ok <==> before.active_log() is Some
            &&& result.store.len() == 0
            &&& before.active_log() is Some ==> result.text == context_text(
                before.active_log()->0,
                ctx.context_window,
            )
        },
        h.runs(args, ctx, before, after, result) ==> {
            &&& after == before
            &&& result.ok
            &&& result.store.len() == 0
            &&& result.text == help_text(pairs_view(h.commands@))
        },
{
}

/// Compacting keeps the six newest events of a longer log, tells how many went, and leaves a short
/// log and all other logs as they are.
pub proof fn law_compacting_keeps_the_newest(
    c: CompactCommand,
    args: Seq<char>,
    ctx: ContextV,
    before: ManagerV,
    after: ManagerV,
    result: CommandResultV,
    other: Seq<char>,
)
    requires
        c.runs(args, ctx, before, after, result),
        before.active_log() is Some ==> before.active_log()->0.max_in_memory >= 6,
    ensures
        before.active_log() is None ==> after == before && !result.ok,
        before.active_log() is Some && before.active_log()->0.events.len() <= 6 ==> after == before
            && result.ok && result.action == "none"@,
        before.active_log() is Some && before.active_log()->0.events.len() > 6 ==> {
            let old_log = before.active_log()->0;
            &&& result.ok
            &&& after.active_log() is Some
            &&& last_n(after.active_log()->0.events, 6) == last_n(old_log.events, 6)
            &&& after.active_log()->0.events.len() == if ctx.summary is Some {
                7int
            } else {
                6int
            }
            &&& result.text == "已压缩会话：保留最近 6 条事件，移除 "@ + decimal(
                (old_log.events.len() - 6) as nat,
            ) + " 条旧事件。"@
            &&& other != before.active_id->0 ==> after.log_of(other) == before.log_of(other)
        },
{
    if before.active_log() is Some && before.active_log()->0.events.len() > 6 {
        let log = before.active_log()->0;
        law_only_the_active_log_changes(before, shortened(log, ctx.summary), other);
        law_latest_events_stay(log, ctx.summary);
    }
}

/// The share of the context is a whole percentage of the window, and nothing where there is none.
pub proof fn law_the_share_of_the_window(tokens: usize, window: usize)
    requires
        window > 0,
        tokens * 100 <= u64::MAX,
    ensures
        percent(tokens, window) * window <= tokens * 100,
        tokens * 100 < (percent(tokens, window) + 1) * window,
        percent(tokens, 0) == 0,
{
    let part = tokens * 100;
    let total = window as int;
    let q = part / total;
    assert(q * total <= part < (q + 1) * total && 0 <= q <= part) by (nonlinear_arith)
        requires
            total > 0,
            part >= 0,
            q == part / total,
    ;
}

/// The help has a line for every command, in order, with its name and what it does.
pub proof fn law_the_help_tells_of_every_command(
    commands: Seq<(Seq<char>, Seq<char>)>,
    name: Seq<char>,
    about: Seq<char>,
)
    ensures
        help_lines(commands.push((name, about))) == help_lines(commands) + ("  /"@ + padded(
            name,
            14,
        ) + " — "@ + about + "\n"@),
        help_lines(Seq::empty()).len() == 0,
        name.is_prefix_of(padded(name, 14)),
        padded(name, 14).len() >= 14,
        name.len() >= 14 ==> padded(name, 14) == name,
        forall|i: int|
            name.len() <= i < padded(name, 14).len() ==> #[trigger] padded(name, 14)[i] == ' ',
{
    assert(commands.push((name, about)).drop_last() =~= commands);
    assert(padded(name, 14).take(name.len() as int) =~= name);
}

/// A command is found by its name, the first where two have it; a name that none has is not found.
pub proof fn law_commands_are_found_by_name<P: CommandPlugin>(
    commands: Seq<P>,
    name: Seq<char>,
    from: int,
    i: int,
)
    requires
        0 <= from <= i <= commands.len(),
        forall|k: int| from <= k < i ==> (#[trigger] commands[k]).named() != name,
    ensures
        i < commands.len() && commands[i].named() == name ==> command_index(commands, name, from)
            == i,
        i == commands.len() ==> command_index(commands, name, from) == commands.len(),
    decreases i - from,
{
    if from < i {
        law_commands_are_found_by_name(commands, name, from + 1, i);
    }
}

/// The commands that are there, by their names, and what they run.
pub proof fn law_commands_have_their_names(
    n: NewCommand,
    c: ClearCommand,
    p: CompactCommand,
    x: ContextCommand,
    h: HelpCommand,
)
    ensures
        Command::New(n).named() == "new"@,
        Command::Clear(c).named() == "clear"@,
        Command::Compact(p).named() == "compact"@,
        Command::Context(x).named() == "context"@,
        Command::Help(h).named() == "help"@,
{
}

/// A summary for compacting is asked of what is older than the six newest events; where nothing is,
/// or no session is active, none is asked for.
pub proof fn law_summaries_are_of_the_older_events(model: ModelConfig, m: ManagerV)
    ensures
        m.active_log() is None ==> compact_question(model, m) is None,
        m.active_log() is Some ==> compact_question(model, m) == summary_asked(
            model.model@,
            model.temperature,
            derived(m.active_log()->0.older(6)),
        ),
        m.active_log() is Some ==> active_checkpoint(m) == m.checkpoint_of(m.active_id->0),
        m.active_id is None ==> active_checkpoint(m).len() == 0,
{
}

} // verus!
