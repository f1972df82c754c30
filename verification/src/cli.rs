//! The command line, and what is chosen when the program starts.
use crate::skill::{select_by_name, selected};
use crate::text::{after_prefix, chars_of, same, starts_with, string_of, texts, trim, trim_text};
use crate::textmap::TextMap;
use crate::types::{ExecMode, Skill, SkillStep, SkillV, ThinkLevel};
use crate::views::{opt_view, views};
use vstd::prelude::*;

verus! {

/// What the program is asked to do.
#[derive(Debug, Clone, Copy, PartialEq, Eq, Structural)]
pub enum CliAction {
    /// Say which version it is.
    Version,
    /// Say how it is used.
    Help,
    /// Run.
    Run,
}

/// What the program is asked to do: the first argument after its name counts.
pub open spec fn action_asked(args: Seq<Seq<char>>) -> CliAction {
    if args.len() > 1 && (args[1] == "--version"@ || args[1] == "-V"@) {
        CliAction::Version
    } else if args.len() > 1 && (args[1] == "--help"@ || args[1] == "-h"@) {
        CliAction::Help
    } else {
        CliAction::Run
    }
}

/// What the program is asked to do.
pub fn cli_action(args: &Vec<String>) -> (r: CliAction)
    ensures
        r == action_asked(texts(args@)),
{
    if args.len() > 1 {
        assert(texts(args@)[1] == args@[1]@);
        if same(args[1].as_str(), "--version") || same(args[1].as_str(), "-V") {
            return CliAction::Version;
        }
        if same(args[1].as_str(), "--help") || same(args[1].as_str(), "-h") {
            return CliAction::Help;
        }
    }
    CliAction::Run
}

/// The prompt among the arguments from `i` on: the first that is neither an option nor the name of a
/// skill behind `--skill`.
pub open spec fn prompt_named(args: Seq<Seq<char>>, i: int) -> Option<Seq<char>>
    decreases args.len() - i,
{
    if i < 0 || i >= args.len() {
        None
    } else if args[i] == "--skill"@ {
        if i + 1 < args.len() {
            prompt_named(args, i + 2)
        } else {
            None
        }
    } else if "-"@.is_prefix_of(args[i]) {
        prompt_named(args, i + 1)
    } else {
        Some(args[i])
    }
}

/// The prompt on the command line, after the name of the program.
pub fn cli_prompt(args: &Vec<String>) -> (r: Option<String>)
    ensures
        opt_view(r) == prompt_named(texts(args@), 1),
{
    let ghost all = texts(args@);
    let mut i: usize = 1;
    while i < args.len()
        invariant
            1 <= i,
            all == texts(args@),
            prompt_named(all, i as int) == prompt_named(all, 1),
        decreases args@.len() - i,
    {
        assert(all[i as int] == args@[i as int]@);
        if same(args[i].as_str(), "--skill") {
            if i + 1 >= args.len() {
                return None;
            }
            i += 2;
        } else if starts_with(args[i].as_str(), "-") {
            i += 1;
        } else {
            return Some(args[i].clone());
        }
    }
    None
}

/// The skill that the arguments from `i` on name: behind `--skill`, or in the same argument behind
/// an equals sign. The first that names one counts.
pub open spec fn skill_named(args: Seq<Seq<char>>, i: int) -> Option<Seq<char>>
    decreases args.len() - i,
{
    if i < 0 || i >= args.len() {
        None
    } else if args[i] == "--skill"@ && i + 1 < args.len() {
        Some(args[i + 1])
    } else if "--skill="@.is_prefix_of(args[i]) {
        Some(args[i].skip("--skill="@.len() as int))
    } else {
        skill_named(args, i + 1)
    }
}

/// The skill that the command line names.
pub fn parse_cli_skill(args: &Vec<String>) -> (r: Option<String>)
    ensures
        opt_view(r) == skill_named(texts(args@), 0),
{
    let ghost all = texts(args@);
    let mut i: usize = 0;
    while i < args.len()
        invariant
            i <= args@.len(),
            all == texts(args@),
            skill_named(all, i as int) == skill_named(all, 0),
        decreases args@.len() - i,
    {
        assert(all[i as int] == args@[i as int]@);
        if same(args[i].as_str(), "--skill") && i < args.len() - 1 {
            assert(all[i + 1] == args@[i + 1]@);
            return Some(args[i + 1].clone());
        }
        match after_prefix(args[i].as_str(), "--skill=") {
            Some(rest) => {
                return Some(rest);
            },
            None => {},
        }
        i += 1;
    }
    None
}

/// The skill that is used where none is chosen: an assistant without instructions of its own.
pub open spec fn plain_skill() -> SkillV {
    SkillV {
        name: "default"@,
        description: "General-purpose assistant"@,
        when_to_use: None,
        mode: ExecMode::Plan,
        think: ThinkLevel::Off,
        tools_allow: Seq::empty(),
        variables: Seq::empty(),
        body: "You are a helpful assistant. Answer concisely and accurately."@,
        steps: Seq::empty(),
    }
}

/// The skill that is used where none is chosen.
pub fn default_skill() -> (r: Skill)
    ensures
        r@ == plain_skill(),
{
    let tools_allow: Vec<String> = Vec::new();
    let steps: Vec<SkillStep> = Vec::new();
    let r = Skill {
        name: "default".to_owned(),
        description: "General-purpose assistant".to_owned(),
        when_to_use: None,
        mode: ExecMode::Plan,
        think: ThinkLevel::Off,
        tools_allow,
        variables: TextMap::new(),
        body: "You are a helpful assistant. Answer concisely and accurately.".to_owned(),
        steps,
    };
    assert(r@.tools_allow =~= Seq::empty());
    assert(r@.variables =~= Seq::empty());
    assert(r@.steps =~= Seq::empty());
    r
}

/// The skill to start with: the one that the command line names, or else the one that the
/// configuration names, or the first where there is none of that name; the default where neither
/// names one or there are no skills.
pub open spec fn skill_chosen(
    cli: Option<Seq<char>>,
    configured: Option<Seq<char>>,
    skills: Seq<SkillV>,
) -> SkillV {
    let name = match cli {
        Some(n) => Some(n),
        None => configured,
    };
    match selected(skills, name) {
        Some(s) => s,
        None => plain_skill(),
    }
}

/// The skill to start with.
pub fn choose_skill(
    cli: &Option<String>,
    configured: &Option<String>,
    skills: &Vec<Skill>,
) -> (r: Skill)
    ensures
        r@ == skill_chosen(opt_view(*cli), opt_view(*configured), views(skills@)),
{
    let name: Option<&str> = match cli {
        Some(n) => Some(n.as_str()),
        None => match configured {
            Some(n) => Some(n.as_str()),
            None => None,
        },
    };
    match select_by_name(skills, name) {
        Some(s) => s.clone(),
        None => default_skill(),
    }
}

/// The path that a marker file holds; none where it holds nothing but white space.
pub fn marked_path(content: &str) -> (r: Option<String>)
    ensures
        opt_view(r) == if trim(content@).len() == 0 {
            None
        } else {
            Some(trim(content@))
        },
{
    let path = trim_text(content);
    if chars_of(path.as_str()).len() == 0 {
        None
    } else {
        Some(path)
    }
}

/// Where the configuration is: at the path in the environment, or else at the path that a marker
/// file holds, where there is something at it, or else beside the program, or else at a fixed place.
pub open spec fn config_path(
    environment: Option<Seq<char>>,
    marked: Option<Seq<char>>,
    beside: Option<Seq<char>>,
) -> Seq<char> {
    match environment {
        Some(p) => p,
        None => match (beside, marked) {
            (Some(_), Some(p)) => p,
            (Some(p), None) => p,
            (None, _) => "config/default.yaml"@,
        },
    }
}

/// Where the configuration is. `marked` is the path that the marker file beside the program holds,
/// if there is something at it, and `beside` the path beside the program, if that is known.
pub fn resolve_config_path(
    environment: Option<String>,
    marked: Option<String>,
    beside: Option<String>,
) -> (r: String)
    ensures
        r@ == config_path(opt_view(environment), opt_view(marked), opt_view(beside)),
{
    match environment {
        Some(p) => p,
        None => match (beside, marked) {
            (Some(_), Some(p)) => p,
            (Some(p), None) => p,
            (None, _) => "config/default.yaml".to_owned(),
        },
    }
}

/// How much of a prompt came from the cache, in percent; 0 where nothing is known of it.
pub open spec fn hit_percent(hit: u64, miss: u64) -> u64 {
    if hit + miss == 0 {
        0
    } else {
        ((hit * 100) / (hit + miss)) as u64
    }
}

/// How much of a prompt came from the cache, in percent.
pub fn cache_percent(hit: u64, miss: u64) -> (r: u64)
    ensures
        r == hit_percent(hit, miss),
        r <= 100,
{
    let all: u128 = hit as u128 + miss as u128;
    if all == 0 {
        return 0;
    }
    let top: u128 = hit as u128 * 100;
    let p: u128 = top / all;
    assert(p <= 100) by (nonlinear_arith)
        requires
            p == top / all,
            top <= 100 * all,
            all > 0,
    ;
    p as u64
}

/// How many characters of a result are shown in the log.
pub const PREVIEW_CHARS: usize = 500;

/// The beginning of a result, as it is shown in the log.
pub fn preview(content: &str) -> (r: String)
    ensures
        r@ == if content@.len() > PREVIEW_CHARS {
            content@.take(PREVIEW_CHARS as int)
        } else {
            content@
        },
{
    let v = chars_of(content);
    if v.len() > PREVIEW_CHARS {
        let r = string_of(&v, 0, PREVIEW_CHARS);
        assert(r@ =~= content@.take(PREVIEW_CHARS as int));
        r
    } else {
        content.to_owned()
    }
}

/// How the program is used.
pub fn help_text(version: &str) -> (r: String)
    ensures
        r@ == "dsh-lite "@ + version@
            + " — lightweight embedded agent for network element devices\n\nUSAGE:\n    dsh-lite [PROMPT] [OPTIONS]\n\nARGS:\n    <PROMPT>    Run one turn with this prompt\n\nOPTIONS:\n    -V, --version       Print version\n    -h, --help          Print this help\n    --skill <NAME>      Select skill by name\n\nENV:\n    DSH_LITE_CONFIG    Path to config file (override; default: exe-dir/config.yaml)\n    RUST_LOG           Log level (default: info)"@,
{
    let mut r = "dsh-lite ".to_owned();
    r.push_str(version);
    r.push_str(
        " — lightweight embedded agent for network element devices\n\nUSAGE:\n    dsh-lite [PROMPT] [OPTIONS]\n\nARGS:\n    <PROMPT>    Run one turn with this prompt\n\nOPTIONS:\n    -V, --version       Print version\n    -h, --help          Print this help\n    --skill <NAME>      Select skill by name\n\nENV:\n    DSH_LITE_CONFIG    Path to config file (override; default: exe-dir/config.yaml)\n    RUST_LOG           Log level (default: info)",
    );
    r
}

/// The program tells its version or its help only where that is the first thing asked for.
pub proof fn law_the_first_argument_decides(program: Seq<char>, first: Seq<char>, rest: Seq<Seq<char>>)
    ensures
        ({
            let asked = action_asked(seq![program, first] + rest);
            &&& asked is Version <==> first == "--version"@ || first == "-V"@
            &&& asked is Help <==> first == "--help"@ || first == "-h"@
        }),
        action_asked(seq![program]) is Run,
{
    reveal_strlit("--version");
    reveal_strlit("-V");
    reveal_strlit("--help");
    reveal_strlit("-h");
    assert("--version"@.len() == 9 && "-V"@.len() == 2);
    assert("--help"@.len() == 6 && "-h"@.len() == 2);
    assert("-V"@[1] != "-h"@[1]);
}

/// What is to be done is the first argument that is no option and does not belong to one.
pub proof fn law_the_prompt_is_the_first_plain_argument(
    args: Seq<Seq<char>>,
    i: int,
)
    requires
        0 <= i < args.len(),
    ensures
        !"-"@.is_prefix_of(args[i]) ==> prompt_named(args, i) == Some(args[i]),
        "-"@.is_prefix_of(args[i]) && args[i] != "--skill"@ ==> prompt_named(args, i)
            == prompt_named(args, i + 1),
        args[i] == "--skill"@ && i + 1 < args.len() ==> prompt_named(args, i) == prompt_named(
            args,
            i + 2,
        ),
        prompt_named(args, args.len() as int) is None,
{
    reveal_strlit("-");
    reveal_strlit("--skill");
    assert("--skill"@.take(1) =~= "-"@);
    assert("-"@.is_prefix_of("--skill"@));
}

/// The skill that is asked for stands behind its option, as the next argument or after the sign of
/// equality; the first one counts.
pub proof fn law_the_skill_stands_behind_its_option(
    args: Seq<Seq<char>>,
    i: int,
    name: Seq<char>,
)
    requires
        0 <= i < args.len(),
    ensures
        args[i] == "--skill"@ && i + 1 < args.len() && args[i + 1] == name ==> skill_named(args, i)
            == Some(name),
        args[i] == "--skill="@ + name ==> skill_named(args, i) == Some(name),
        args[i] != "--skill"@ && !"--skill="@.is_prefix_of(args[i]) ==> skill_named(args, i)
            == skill_named(args, i + 1),
        skill_named(args, args.len() as int) is None,
{
    reveal_strlit("--skill");
    reveal_strlit("--skill=");
    let whole = "--skill="@ + name;
    assert(whole.skip(8) =~= name);
    assert(whole.take(8) =~= "--skill="@);
    assert("--skill="@.is_prefix_of(whole));
    assert(whole.len() >= 8);
}

/// What is asked for on the command line goes before what is set down; without skills, or where
/// neither names one, the plain skill is used.
pub proof fn law_the_command_line_goes_first(
    cli: Seq<char>,
    configured: Option<Seq<char>>,
    skills: Seq<SkillV>,
)
    ensures
        skill_chosen(Some(cli), configured, skills) == skill_chosen(Some(cli), None, skills),
        skill_chosen(None, Some(cli), skills) == skill_chosen(Some(cli), None, skills),
        skill_chosen(None, None, skills) == plain_skill(),
        skill_chosen(Some(cli), configured, Seq::empty()) == plain_skill(),
        selected(skills, Some(cli)) is Some ==> skill_chosen(Some(cli), configured, skills)
            == selected(skills, Some(cli))->0,
        plain_skill().mode == ExecMode::Plan,
        plain_skill().tools_allow.len() == 0,
        plain_skill().steps.len() == 0,
{
}

/// The environment says first where the settings are, then the mark beside the program, then the
/// place beside the program.
pub proof fn law_the_environment_goes_first(
    p: Seq<char>,
    q: Seq<char>,
    marked: Option<Seq<char>>,
    beside: Option<Seq<char>>,
)
    ensures
        config_path(Some(p), marked, beside) == p,
        config_path(None, Some(p), Some(q)) == p,
        config_path(None, None, Some(q)) == q,
        config_path(None, marked, None) == "config/default.yaml"@,
{
}

/// The share of the cache is a whole percentage: all is a hundred, nothing is zero, and of each
/// hundred it is what was hit.
pub proof fn law_percentages(hit: u64, miss: u64)
    requires
        hit + miss > 0,
    ensures
        hit_percent(hit, miss) * (hit + miss) <= hit * 100,
        hit * 100 < (hit_percent(hit, miss) + 1) * (hit + miss),
        hit_percent(0, 0) == 0,
{
    let total = hit + miss;
    let part = hit * 100;
    let q = part / total;
    assert(q * total <= part < (q + 1) * total) by (nonlinear_arith)
        requires
            total > 0,
            part >= 0,
            q == part / total,
    ;
    assert(0 <= q <= 100) by (nonlinear_arith)
        requires
            total > 0,
            0 <= part <= 100 * total,
            q == part / total,
    ;
}

} // verus!
