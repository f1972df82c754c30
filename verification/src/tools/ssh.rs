//! The tool that runs commands on other devices over SSH.
use crate::json::{field_models, json_str, with_field, Json, JsonV};
use crate::text::{
    decimal, decimal_text, decimal_value, lemma_decimal, lossy_text, lossy_utf8, same, texts,
};
use crate::tools::file::text_or;
use crate::tools::schema::{make_object_schema, make_text_arg, object_schema, text_arg};
use crate::tools::shell::{assemble_output, command_missing, command_of, command_output};
use crate::tools::ToolPlugin;
use crate::types::{
    plain_result, SshTarget, SshTargetV, ToolDefinition, ToolDefinitionV, ToolResult,
};
use crate::views::{opt_str, views};
use vstd::prelude::*;

verus! {

/// The devices that are known by name.
pub struct SshSessionManager {
    pub targets: Vec<SshTarget>,
}

/// The tool that runs commands on other devices.
pub struct SshExecTool {
    pub manager: SshSessionManager,
}

/// How long a command may take, in seconds: a little less than the tool may.
pub const COMMAND_TIMEOUT_SECS: u64 = 55;

/// The first device of that name, from `i` on.
pub open spec fn target_named(targets: Seq<SshTargetV>, name: Seq<char>, i: int) -> Option<
    SshTargetV,
>
    decreases targets.len() - i,
{
    if i < 0 || i >= targets.len() {
        None
    } else if targets[i].name == name {
        Some(targets[i])
    } else {
        target_named(targets, name, i + 1)
    }
}

/// The device that is meant: the known one of that name, or, without a name, the one that the other
/// parts describe.
pub open spec fn resolved_target(
    targets: Seq<SshTargetV>,
    name: Option<Seq<char>>,
    host: Option<Seq<char>>,
    user: Option<Seq<char>>,
    password: Option<Seq<char>>,
    port: Option<u16>,
) -> Result<SshTargetV, Seq<char>> {
    match name {
        Some(name) => match target_named(targets, name, 0) {
            Some(t) => Ok(t),
            None => Err("SSH target '"@ + name + "' not found in config"@),
        },
        None => match (host, user) {
            (None, _) => Err("Missing 'host' parameter (or specify 'target')"@),
            (Some(_), None) => Err("Missing 'user' parameter (or specify 'target')"@),
            (Some(host), Some(user)) => Ok(
                SshTargetV {
                    name: user + "@"@ + host,
                    host,
                    port: match port {
                        Some(p) => p,
                        None => 22,
                    },
                    user,
                    password: match password {
                        Some(p) => p,
                        None => Seq::empty(),
                    },
                },
            ),
        },
    }
}

impl SshSessionManager {
    /// A manager that knows these devices.
    pub fn new(targets: Vec<SshTarget>) -> (r: SshSessionManager)
        ensures
            r.targets == targets,
    {
        SshSessionManager { targets }
    }

    /// The device that is meant, or why there is none.
    pub fn resolve_target(
        &self,
        target_name: Option<&str>,
        host: Option<&str>,
        user: Option<&str>,
        password: Option<&str>,
        port: Option<u16>,
    ) -> (r: Result<SshTarget, String>)
        ensures
            match r {
                Ok(t) => resolved_target(
                    views(self.targets@),
                    opt_str(target_name),
                    opt_str(host),
                    opt_str(user),
                    opt_str(password),
                    port,
                ) == Ok::<SshTargetV, Seq<char>>(t@),
                Err(e) => resolved_target(
                    views(self.targets@),
                    opt_str(target_name),
                    opt_str(host),
                    opt_str(user),
                    opt_str(password),
                    port,
                ) == Err::<SshTargetV, Seq<char>>(e@),
            },
    {
        match target_name {
            Some(name) => {
                let ghost all = views(self.targets@);
                let mut i: usize = 0;
                while i < self.targets.len()
                    invariant
                        i <= self.targets@.len(),
                        all == views(self.targets@),
                        target_named(all, name@, i as int) == target_named(all, name@, 0),
                        target_name == Some(name),
                    decreases self.targets@.len() - i,
                {
                    assert(all[i as int] == self.targets@[i as int]@);
                    if same(self.targets[i].name.as_str(), name) {
                        return Ok(self.targets[i].clone());
                    }
                    i += 1;
                }
                let mut m = "SSH target '".to_owned();
                m.push_str(name);
                m.push_str("' not found in config");
                Err(m)
            },
            None => match host {
                None => Err("Missing 'host' parameter (or specify 'target')".to_owned()),
                Some(host) => match user {
                    None => Err("Missing 'user' parameter (or specify 'target')".to_owned()),
                    Some(user) => {
                        let mut name = user.to_owned();
                        name.push_str("@");
                        name.push_str(host);
                        Ok(
                            SshTarget {
                                name,
                                host: host.to_owned(),
                                port: match port {
                                    Some(p) => p,
                                    None => 22,
                                },
                                user: user.to_owned(),
                                password: match password {
                                    Some(p) => p.to_owned(),
                                    None => String::new(),
                                },
                            },
                        )
                    },
                },
            },
        }
    }
}

/// What tells connections apart: host, port and user.
pub open spec fn connection_key(t: SshTargetV) -> Seq<char> {
    t.host + ":"@ + decimal(t.port as nat) + ":"@ + t.user
}

/// What tells connections apart.
pub fn make_connection_key(t: &SshTarget) -> (r: String)
    ensures
        r@ == connection_key(t@),
{
    let mut key = t.host.clone();
    key.push_str(":");
    key.push_str(decimal_text(t.port as u64).as_str());
    key.push_str(":");
    key.push_str(t.user.as_str());
    key
}

/// Whether a connection that may be there, and may be closed, is used again.
pub fn reuses(closed: Option<bool>) -> (r: bool)
    ensures
        r == (closed == Some(false)),
{
    match closed {
        Some(c) => !c,
        None => false,
    }
}

/// What comes from a device while a command runs.
#[derive(Debug)]
pub enum ChannelEvent {
    Data(Vec<u8>),
    /// Data of another kind; kind 1 is what the command prints as errors.
    Extended { data: Vec<u8>, kind: u32 },
    ExitStatus(u32),
    /// Nothing more comes.
    End,
    /// Something that does not matter here.
    Other,
}

/// What a command has printed so far.
#[derive(Debug)]
pub struct CommandCapture {
    pub output: String,
    pub errors: String,
    pub exit_code: i32,
}

/// What a [`CommandCapture`] stands for.
pub struct CaptureV {
    pub output: Seq<char>,
    pub errors: Seq<char>,
    pub exit_code: i32,
}

impl View for CommandCapture {
    type V = CaptureV;

    open spec fn view(&self) -> CaptureV {
        CaptureV { output: self.output@, errors: self.errors@, exit_code: self.exit_code }
    }
}

/// What a command has printed after one more event.
pub open spec fn captured(c: CaptureV, e: ChannelEvent) -> CaptureV {
    match e {
        ChannelEvent::Data(data) => CaptureV { output: c.output + lossy_utf8(data@), ..c },
        ChannelEvent::Extended { data, kind } => if kind == 1 {
            CaptureV { errors: c.errors + lossy_utf8(data@), ..c }
        } else {
            CaptureV { output: c.output + lossy_utf8(data@), ..c }
        },
        ChannelEvent::ExitStatus(status) => CaptureV { exit_code: status as i32, ..c },
        ChannelEvent::End | ChannelEvent::Other => c,
    }
}

impl CommandCapture {
    /// Nothing has been printed.
    pub fn new() -> (r: CommandCapture)
        ensures
            r@ == (CaptureV { output: Seq::empty(), errors: Seq::empty(), exit_code: 0 }),
    {
        CommandCapture { output: String::new(), errors: String::new(), exit_code: 0 }
    }

    /// Takes in an event and says whether more is to be waited for.
    pub fn accept(&mut self, e: &ChannelEvent) -> (more: bool)
        ensures
            final(self)@ == captured(old(self)@, *e),
            more == !(*e is End),
    {
        match e {
            ChannelEvent::Data(data) => {
                let t = lossy_text(data);
                self.output.push_str(t.as_str());
                true
            },
            ChannelEvent::Extended { data, kind } => {
                let t = lossy_text(data);
                if *kind == 1 {
                    self.errors.push_str(t.as_str());
                } else {
                    self.output.push_str(t.as_str());
                }
                true
            },
            ChannelEvent::ExitStatus(status) => {
                self.exit_code = *status as i32;
                true
            },
            ChannelEvent::End => false,
            ChannelEvent::Other => true,
        }
    }

    /// What the command printed, all in all.
    pub fn finish(&self) -> (r: String)
        ensures
            r@ == command_output(self@.output, self@.errors, self@.exit_code),
    {
        assemble_output(self.output.as_str(), self.errors.as_str(), self.exit_code)
    }
}

/// What can go wrong with a command on another device.
#[derive(Debug)]
pub enum SshFailure {
    Runtime(String),
    Connect(String),
    Auth(String),
    Rejected { user: String },
    ChannelOpen(String),
    Exec(String),
    TimedOut { secs: u64 },
}

/// What is said of a failure.
pub open spec fn failure_text(f: SshFailure) -> Seq<char> {
    match f {
        SshFailure::Runtime(e) => "Failed to create SSH runtime: "@ + e@,
        SshFailure::Connect(e) => "SSH connect failed: "@ + e@,
        SshFailure::Auth(e) => "SSH auth failed: "@ + e@,
        SshFailure::Rejected { user } => "SSH authentication rejected for user '"@ + user@ + "'"@,
        SshFailure::ChannelOpen(e) => "SSH channel open failed: "@ + e@,
        SshFailure::Exec(e) => "SSH exec failed: "@ + e@,
        SshFailure::TimedOut { secs } => "SSH command timed out after "@ + decimal(secs as nat)
            + "s"@,
    }
}

impl SshFailure {
    /// What is said of the failure.
    pub fn message(&self) -> (r: String)
        ensures
            r@ == failure_text(*self),
    {
        match self {
            SshFailure::Runtime(e) => join_two("Failed to create SSH runtime: ", e),
            SshFailure::Connect(e) => join_two("SSH connect failed: ", e),
            SshFailure::Auth(e) => join_two("SSH auth failed: ", e),
            SshFailure::Rejected { user } => {
                let mut m = join_two("SSH authentication rejected for user '", user);
                m.push_str("'");
                m
            },
            SshFailure::ChannelOpen(e) => join_two("SSH channel open failed: ", e),
            SshFailure::Exec(e) => join_two("SSH exec failed: ", e),
            SshFailure::TimedOut { secs } => {
                let mut m = "SSH command timed out after ".to_owned();
                m.push_str(decimal_text(*secs).as_str());
                m.push_str("s");
                m
            },
        }
    }
}

fn join_two(a: &str, b: &String) -> (r: String)
    ensures
        r@ == a@ + b@,
{
    let mut r = a.to_owned();
    r.push_str(b.as_str());
    r
}

/// The schema of the port.
pub open spec fn port_arg() -> JsonV {
    JsonV::Object(
        seq![
            ("default"@, JsonV::UInt(22)),
            ("description"@, JsonV::Text("SSH port (default 22)."@)),
            ("type"@, JsonV::Text("integer"@)),
        ],
    )
}

/// The arguments of the tool.
pub open spec fn ssh_args() -> Seq<(Seq<char>, JsonV)> {
    seq![
        ("command"@, text_arg("The command to execute on the remote device"@)),
        (
            "target"@,
            text_arg(
                "Name of a pre-configured SSH target from config [ssh.targets]. If specified, host/user/password are taken from config."@,
            ),
        ),
        (
            "host"@,
            text_arg(
                "SSH host address (IP or hostname). Required if 'target' is not specified."@,
            ),
        ),
        ("user"@, text_arg("SSH username. Required if 'target' is not specified."@)),
        (
            "password"@,
            text_arg("SSH password. Optional if 'target' is specified (uses config)."@),
        ),
        ("port"@, port_arg()),
    ]
}

/// What the model is told of the tool, whatever devices it knows.
pub open spec fn ssh_described() -> ToolDefinitionV {
    ToolDefinitionV {
        name: "ssh_exec"@,
        description:
            "Execute a command on a remote network element via persistent SSH session. The connection stays open between calls — subsequent commands reuse the same session. Use for interactive device queries (show commands, config retrieval, diagnostics)."@,
        parameters: object_schema(ssh_args(), seq!["command"@]),
        timeout_ms: 60000,
        guidance: Seq::empty(),
    }
}

impl ToolPlugin for SshExecTool {
    open spec fn described(&self) -> ToolDefinitionV {
        ssh_described()
    }

    fn definition(&self) -> (r: ToolDefinition) {
        let port: Vec<(String, Json)> = Vec::new();
        let port = with_field(port, "default", Json::UInt(22));
        let port = with_field(port, "description", json_str("SSH port (default 22)."));
        let port = with_field(port, "type", json_str("integer"));
        let port = Json::Object(port);
        assert(port@->Object_0 =~= port_arg()->Object_0);
        let props: Vec<(String, Json)> = Vec::new();
        let props = with_field(
            props,
            "command",
            make_text_arg("The command to execute on the remote device"),
        );
        let props = with_field(
            props,
            "target",
            make_text_arg(
                "Name of a pre-configured SSH target from config [ssh.targets]. If specified, host/user/password are taken from config.",
            ),
        );
        let props = with_field(
            props,
            "host",
            make_text_arg(
                "SSH host address (IP or hostname). Required if 'target' is not specified.",
            ),
        );
        let props = with_field(
            props,
            "user",
            make_text_arg("SSH username. Required if 'target' is not specified."),
        );
        let props = with_field(
            props,
            "password",
            make_text_arg("SSH password. Optional if 'target' is specified (uses config)."),
        );
        let props = with_field(props, "port", port);
        assert(field_models(props@) =~= ssh_args());
        let mut required: Vec<String> = Vec::new();
        required.push("command".to_owned());
        assert(texts(required@) =~= seq!["command"@]);
        ToolDefinition {
            name: "ssh_exec".to_owned(),
            description:
                "Execute a command on a remote network element via persistent SSH session. The connection stays open between calls — subsequent commands reuse the same session. Use for interactive device queries (show commands, config retrieval, diagnostics).".to_owned(),
            parameters: make_object_schema(props, &required),
            timeout_ms: 60000,
            guidance: String::new(),
        }
    }
}

/// The port that a call names; a number beyond the ports is cut to its low bits.
pub open spec fn port_of(args: JsonV) -> Option<u16> {
    match args.uint_field("port"@) {
        Some(n) => Some(n as u16),
        None => None,
    }
}

/// The device that a call means.
pub open spec fn call_target(targets: Seq<SshTargetV>, args: JsonV) -> Result<
    SshTargetV,
    Seq<char>,
> {
    resolved_target(
        targets,
        args.text_field("target"@),
        args.text_field("host"@),
        args.text_field("user"@),
        args.text_field("password"@),
        port_of(args),
    )
}

/// A borrowed view of a string that may not be there.
fn as_opt_str(o: Option<&String>) -> (r: Option<&str>)
    ensures
        opt_str(r) == match o {
            Some(s) => Some(s@),
            None => None,
        },
{
    match o {
        Some(s) => Some(s.as_str()),
        None => None,
    }
}

impl SshExecTool {
    /// The tool for these devices.
    pub fn new(targets: Vec<SshTarget>) -> (r: SshExecTool)
        ensures
            r.manager.targets == targets,
    {
        SshExecTool { manager: SshSessionManager::new(targets) }
    }

    /// The device and the command of a call, or the result where it cannot run.
    pub fn prepare(&self, args: &Json) -> (r: Result<(SshTarget, String), ToolResult>)
        ensures
            match r {
                Ok((target, command)) => {
                    &&& command@.len() > 0
                    &&& command@ == text_or(args@, "command"@, Seq::empty())
                    &&& call_target(views(self.manager.targets@), args@) == Ok::<
                        SshTargetV,
                        Seq<char>,
                    >(target@)
                },
                Err(e) => if text_or(args@, "command"@, Seq::empty()).len() == 0 {
                    e@ == command_missing()
                } else {
                    call_target(views(self.manager.targets@), args@) matches Err(m) && e@
                        == plain_result("Error: "@ + m, true)
                },
            },
    {
        let command = match command_of(args) {
            Ok(c) => c,
            Err(e) => {
                return Err(e);
            },
        };
        let port: Option<u16> = match args.get_uint("port") {
            Some(n) => Some(#[verifier::truncate] (n as u16)),
            None => None,
        };
        match self.manager.resolve_target(
            as_opt_str(args.get_text("target")),
            as_opt_str(args.get_text("host")),
            as_opt_str(args.get_text("user")),
            as_opt_str(args.get_text("password")),
            port,
        ) {
            Ok(target) => Ok((target, command)),
            Err(e) => {
                let m = join_two("Error: ", &e);
                Err(ToolResult::plain(m, true))
            },
        }
    }

    /// The result of a call that ran.
    pub fn report(&self, outcome: Result<String, SshFailure>) -> (r: ToolResult)
        ensures
            r@ == match outcome {
                Ok(output) => plain_result(output@, false),
                Err(f) => plain_result("SSH error: "@ + failure_text(f), true),
            },
    {
        match outcome {
            Ok(output) => ToolResult::plain(output, false),
            Err(f) => {
                let message = f.message();
                ToolResult::plain(join_two("SSH error: ", &message), true)
            },
        }
    }
}

/// Where two texts without a colon stand before a colon each, and the whole is the same, so are the
/// texts and what follows them.
proof fn lemma_before_colon(a: Seq<char>, x: Seq<char>, b: Seq<char>, y: Seq<char>)
    requires
        !a.contains(':'),
        !b.contains(':'),
        a + ":"@ + x == b + ":"@ + y,
    ensures
        a == b,
        x == y,
{
    reveal_strlit(":");
    let s = a + ":"@ + x;
    let t = b + ":"@ + y;
    assert(s[a.len() as int] == ':');
    assert(t[b.len() as int] == ':');
    if a.len() < b.len() {
        assert(t[a.len() as int] == b[a.len() as int]);
    }
    if b.len() < a.len() {
        assert(s[b.len() as int] == a[b.len() as int]);
    }
    assert(a =~= s.take(a.len() as int));
    assert(b =~= t.take(b.len() as int));
    assert(x =~= s.skip((a.len() + 1) as int));
    assert(y =~= t.skip((b.len() + 1) as int));
}

/// A port in decimal holds no colon.
proof fn lemma_port_text(port: u16)
    ensures
        !decimal(port as nat).contains(':'),
        decimal_value(decimal(port as nat)) == port,
{
    lemma_decimal(port as nat);
}

/// Users of one host have connections of their own, and so have users that reach it by different
/// ports: where the host is the same, the key tells port and user.
pub proof fn law_users_have_their_own_connections(a: SshTargetV, b: SshTargetV)
    requires
        a.host == b.host,
    ensures
        connection_key(a) == connection_key(b) <==> a.port == b.port && a.user == b.user,
{
    if connection_key(a) == connection_key(b) {
        let x = decimal(a.port as nat) + ":"@ + a.user;
        let y = decimal(b.port as nat) + ":"@ + b.user;
        assert(connection_key(a) =~= a.host + ":"@ + x);
        assert(connection_key(b) =~= b.host + ":"@ + y);
        assert(x =~= connection_key(a).skip((a.host.len() + ":"@.len()) as int));
        assert(y =~= connection_key(b).skip((b.host.len() + ":"@.len()) as int));
        lemma_port_text(a.port);
        lemma_port_text(b.port);
        lemma_before_colon(decimal(a.port as nat), a.user, decimal(b.port as nat), b.user);
    }
}

/// Devices have connections of their own where their hosts hold no colon: two targets share a
/// connection only if they agree on host, port and user.
pub proof fn law_devices_have_their_own_connections(a: SshTargetV, b: SshTargetV)
    requires
        !a.host.contains(':'),
        !b.host.contains(':'),
    ensures
        connection_key(a) == connection_key(b) <==> a.host == b.host && a.port == b.port && a.user
            == b.user,
{
    if connection_key(a) == connection_key(b) {
        let x = decimal(a.port as nat) + ":"@ + a.user;
        let y = decimal(b.port as nat) + ":"@ + b.user;
        assert(connection_key(a) =~= a.host + ":"@ + x);
        assert(connection_key(b) =~= b.host + ":"@ + y);
        lemma_before_colon(a.host, x, b.host, y);
        law_users_have_their_own_connections(a, b);
    }
}

/// A device is named or described: one that is named is the first of that name as it is set down,
/// whatever else the call says; one that is described has the host, the user, the password and the
/// port of the call. What is missing is said.
pub proof fn law_devices_are_named_or_described(
    targets: Seq<SshTargetV>,
    name: Seq<char>,
    host: Option<Seq<char>>,
    user: Option<Seq<char>>,
    password: Option<Seq<char>>,
    port: Option<u16>,
    i: int,
)
    requires
        0 <= i <= targets.len(),
        forall|k: int| 0 <= k < i ==> (#[trigger] targets[k]).name != name,
    ensures
        i < targets.len() && targets[i].name == name ==> resolved_target(
            targets,
            Some(name),
            host,
            user,
            password,
            port,
        ) == Ok::<SshTargetV, Seq<char>>(targets[i]),
        i == targets.len() ==> resolved_target(targets, Some(name), host, user, password, port)
            == Err::<SshTargetV, Seq<char>>("SSH target '"@ + name + "' not found in config"@),
        resolved_target(targets, None, host, user, password, port) is Ok <==> host is Some && user
            is Some,
        host is Some && user is Some ==> {
            let t = resolved_target(targets, None, host, user, password, port)->Ok_0;
            &&& t.host == host->0
            &&& t.user == user->0
            &&& password is Some ==> t.password == password->0
            &&& password is None ==> t.password.len() == 0
            &&& port is Some ==> t.port == port->0
            &&& port is None ==> t.port == 22
            &&& t.name == user->0 + "@"@ + host->0
        },
        host is None ==> resolved_target(targets, None, host, user, password, port) == Err::<
            SshTargetV,
            Seq<char>,
        >("Missing 'host' parameter (or specify 'target')"@),
        host is Some && user is None ==> resolved_target(
            targets,
            None,
            host,
            user,
            password,
            port,
        ) == Err::<SshTargetV, Seq<char>>("Missing 'user' parameter (or specify 'target')"@),
{
    lemma_target_named(targets, name, 0, i);
}

proof fn lemma_target_named(targets: Seq<SshTargetV>, name: Seq<char>, from: int, i: int)
    requires
        0 <= from <= i <= targets.len(),
        forall|k: int| from <= k < i ==> (#[trigger] targets[k]).name != name,
    ensures
        target_named(targets, name, from) == target_named(targets, name, i),
    decreases i - from,
{
    if from < i {
        lemma_target_named(targets, name, from + 1, i);
    }
}

/// What a device sends is kept in order: its output and its errors apart, and the number that the
/// command ended with; nothing that is kept changes anything else.
pub proof fn law_what_the_device_sends_is_kept(c: CaptureV, e: ChannelEvent)
    ensures
        e is Data ==> captured(c, e) == (CaptureV {
            output: c.output + lossy_utf8(e->Data_0@),
            ..c
        }),
        e is Extended && e->kind == 1 ==> captured(c, e) == (CaptureV {
            errors: c.errors + lossy_utf8(e->data@),
            ..c
        }),
        e is Extended && e->kind != 1 ==> captured(c, e) == (CaptureV {
            output: c.output + lossy_utf8(e->data@),
            ..c
        }),
        e is ExitStatus ==> captured(c, e) == (CaptureV {
            exit_code: e->ExitStatus_0 as i32,
            ..c
        }),
        e is End || e is Other ==> captured(c, e) == c,
{
}

/// A call names its device by the fields that stand for it.
pub proof fn law_calls_describe_the_device(targets: Seq<SshTargetV>, args: JsonV)
    requires
        args.text_field("target"@) is None,
    ensures
        call_target(targets, args) is Ok ==> {
            let t = call_target(targets, args)->Ok_0;
            &&& args.text_field("host"@) == Some(t.host)
            &&& args.text_field("user"@) == Some(t.user)
            &&& args.text_field("password"@) is Some ==> args.text_field("password"@) == Some(
                t.password,
            )
            &&& args.uint_field("port"@) is Some && args.uint_field("port"@)->0 <= 65535
                ==> args.uint_field("port"@) == Some(t.port as u64)
            &&& args.uint_field("port"@) is None ==> t.port == 22
        },
        call_target(targets, args) is Ok <==> args.text_field("host"@) is Some && args.text_field(
            "user"@,
        ) is Some,
        ssh_described().name == "ssh_exec"@,
{
}

/// A failure is told by what failed and why.
pub proof fn law_failures_tell_why(f: SshFailure)
    ensures
        f is Runtime ==> failure_text(f) == "Failed to create SSH runtime: "@ + f->Runtime_0@,
        f is Connect ==> failure_text(f) == "SSH connect failed: "@ + f->Connect_0@,
        f is Auth ==> failure_text(f) == "SSH auth failed: "@ + f->Auth_0@,
        f is Rejected ==> failure_text(f) == "SSH authentication rejected for user '"@ + f->user@
            + "'"@,
        f is ChannelOpen ==> failure_text(f) == "SSH channel open failed: "@ + f->ChannelOpen_0@,
        f is Exec ==> failure_text(f) == "SSH exec failed: "@ + f->Exec_0@,
        f is TimedOut ==> failure_text(f) == "SSH command timed out after "@ + decimal(
            f->secs as nat,
        ) + "s"@,
{
}

} // verus!
