//! Argument parsing: a plain `&[String] -> Command` function, no clap.
//! Errors are the usage message to print.

use vstd::prelude::*;

use crate::store::{WifProfile, WifProfileView};
use crate::text::{begins_with_char, debug_quoted, quoted, same_text, starts_with_char};

verus! {

#[derive(Debug, Clone, PartialEq, Eq)]
pub enum Command {
    /// Store a key read from stdin under `name`.
    SetKey { name: String },
    /// List keys, WIF profiles, and the default.
    Ls,
    /// Delete a key or WIF profile.
    Rm { name: String },
    /// Mark a key (or `wif:<name>`) as the default.
    Use { name: String },
    /// Print the default (or named) key — the `apiKeyHelper` contract.
    Helper { name: Option<String> },
    /// Spawn a command with credentials injected into its environment only.
    Run { target: String, cmd: Vec<String> },
    /// Diagnose the credential precedence of the current environment.
    Status,
    /// Create/replace a WIF profile.
    WifSet { name: String, profile: WifProfile },
    Help,
}

/// The mathematical content of a [`Command`].
pub enum CommandView {
    SetKey { name: Seq<char> },
    Ls,
    Rm { name: Seq<char> },
    Use { name: Seq<char> },
    Helper { name: Option<Seq<char>> },
    Run { target: Seq<char>, cmd: Seq<Seq<char>> },
    Status,
    WifSet { name: Seq<char>, profile: WifProfileView },
    Help,
}

impl View for Command {
    type V = CommandView;

    open spec fn view(&self) -> CommandView {
        match self {
            Command::SetKey { name } => CommandView::SetKey { name: name@ },
            Command::Ls => CommandView::Ls,
            Command::Rm { name } => CommandView::Rm { name: name@ },
            Command::Use { name } => CommandView::Use { name: name@ },
            Command::Helper { name } => CommandView::Helper { name: crate::store::opt_view(*name) },
            Command::Run { target, cmd } => CommandView::Run { target: target@, cmd: cmd.deep_view() },
            Command::Status => CommandView::Status,
            Command::WifSet { name, profile } => CommandView::WifSet { name: name@, profile: profile@ },
            Command::Help => CommandView::Help,
        }
    }
}

pub const USAGE: &'static str = "\
akey — API keys & WIF profiles for agent tooling (vault-stored)

  akey set <name>                 store a key (read from stdin) in the OS vault
  akey ls                         list keys, WIF profiles, default
  akey rm <name>                  delete a key or WIF profile
  akey use <name>                 make <name> (or wif:<name>) the default
  akey helper [<name>]            print the default/named key (apiKeyHelper)
  akey run <target> -- <cmd...>   run <cmd> with credentials injected:
                                    <name>      -> ANTHROPIC_API_KEY
                                    wif:<name>  -> the five ANTHROPIC_* federation vars
  akey status                     which credential source wins in this shell, and why
  akey wif set <name> --rule fdrl_... --org <uuid> --svc svac_...
              [--workspace wrkspc_...] --token-file <path>
";

pub const SET_USAGE: &'static str = "usage: akey set <name>";

pub const WIF_USAGE: &'static str = "usage: akey wif set <name> --rule ... --org ... --svc ... [--workspace ...] --token-file ...";

/// The view of a parse outcome.
pub open spec fn outcome_view(r: Result<Command, String>) -> Result<CommandView, Seq<char>> {
    match r {
        Ok(c) => Ok(c@),
        Err(e) => Err(e@),
    }
}

/// The message for a flag that `set` does not take.
pub open spec fn set_flag_error(flag: Seq<char>) -> Seq<char> {
    "akey set: unexpected flag "@ + debug_quoted(flag) + "\n"@ + SET_USAGE@
}

/// `set <name>`: exactly one name, and no flags.
pub open spec fn spec_parse_set(rest: Seq<Seq<char>>) -> Result<CommandView, Seq<char>> {
    if rest.len() == 0 {
        Err(SET_USAGE@)
    } else if begins_with_char(rest[0], '-') {
        Err(set_flag_error(rest[0]))
    } else if rest.len() == 1 {
        Ok(CommandView::SetKey { name: rest[0] })
    } else if begins_with_char(rest[1], '-') {
        Err(set_flag_error(rest[1]))
    } else {
        Err(SET_USAGE@)
    }
}

/// A command that takes exactly one name, which is not a flag.
pub open spec fn spec_one_name(rest: Seq<Seq<char>>, what: Seq<char>) -> Result<Seq<char>, Seq<char>> {
    if rest.len() == 1 && !begins_with_char(rest[0], '-') {
        Ok(rest[0])
    } else {
        Err("usage: akey "@ + what + " <name>"@)
    }
}

/// The flags of `wif set`, as collected so far.
pub struct WifFields {
    pub rule: Option<Seq<char>>,
    pub org: Option<Seq<char>>,
    pub svc: Option<Seq<char>>,
    pub workspace: Option<Seq<char>>,
    pub token_file: Option<Seq<char>>,
}

pub open spec fn no_fields() -> WifFields {
    WifFields { rule: None, org: None, svc: None, workspace: None, token_file: None }
}

/// Reads the `--flag value` pairs of `wif set` from position `i` on; a
/// flag given twice keeps its last value; the first flag without a value,
/// or the first unknown flag, is the error.
pub open spec fn spec_wif_flags(rest: Seq<Seq<char>>, i: int, f: WifFields) -> Result<WifFields, Seq<char>>
    decreases rest.len() - i,
{
    if i < 0 || i >= rest.len() {
        Ok(f)
    } else if i + 1 >= rest.len() {
        Err("wif set: "@ + rest[i] + " needs a value"@)
    } else {
        let flag = rest[i];
        let v = rest[i + 1];
        if flag == "--rule"@ {
            spec_wif_flags(rest, i + 2, WifFields { rule: Some(v), ..f })
        } else if flag == "--org"@ {
            spec_wif_flags(rest, i + 2, WifFields { org: Some(v), ..f })
        } else if flag == "--svc"@ {
            spec_wif_flags(rest, i + 2, WifFields { svc: Some(v), ..f })
        } else if flag == "--workspace"@ {
            spec_wif_flags(rest, i + 2, WifFields { workspace: Some(v), ..f })
        } else if flag == "--token-file"@ {
            spec_wif_flags(rest, i + 2, WifFields { token_file: Some(v), ..f })
        } else {
            Err("wif set: unknown flag "@ + debug_quoted(flag))
        }
    }
}

pub open spec fn required_error(flag: Seq<char>) -> Seq<char> {
    "wif set: "@ + flag + " is required"@
}

/// The profile of the collected flags, or the first required flag missing
/// (in the order --rule, --org, --svc, --token-file).
pub open spec fn spec_wif_profile(f: WifFields) -> Result<WifProfileView, Seq<char>> {
    if f.rule is None {
        Err(required_error("--rule"@))
    } else if f.org is None {
        Err(required_error("--org"@))
    } else if f.svc is None {
        Err(required_error("--svc"@))
    } else if f.token_file is None {
        Err(required_error("--token-file"@))
    } else {
        Ok(WifProfileView {
            rule: f.rule->0,
            org: f.org->0,
            svc: f.svc->0,
            workspace: f.workspace,
            token_file: f.token_file->0,
        })
    }
}

/// `wif set <name> --flag value ...`.
pub open spec fn spec_parse_wif(rest: Seq<Seq<char>>) -> Result<CommandView, Seq<char>> {
    if !(rest.len() > 0 && rest[0] == "set"@) {
        Err(WIF_USAGE@)
    } else if !(rest.len() > 1 && !begins_with_char(rest[1], '-')) {
        Err("wif set: profile name required"@)
    } else {
        match spec_wif_flags(rest, 2, no_fields()) {
            Err(e) => Err(e),
            Ok(f) => match spec_wif_profile(f) {
                Err(e) => Err(e),
                Ok(p) => Ok(CommandView::WifSet { name: rest[1], profile: p }),
            },
        }
    }
}

/// `run <target> -- <cmd...>`: the first `--` stands right after the
/// target, and a command follows it.
pub open spec fn spec_parse_run(rest: Seq<Seq<char>>) -> Result<CommandView, Seq<char>> {
    if rest.len() > 2 && rest[1] == "--"@ && rest[0] != "--"@ {
        Ok(CommandView::Run { target: rest[0], cmd: rest.skip(2) })
    } else {
        Err("usage: akey run <target> -- <cmd...>"@)
    }
}

/// What `akey <args>` means.
pub open spec fn spec_parse(a: Seq<Seq<char>>) -> Result<CommandView, Seq<char>> {
    if a.len() == 0 || a[0] == "help"@ || a[0] == "--help"@ || a[0] == "-h"@ {
        Ok(CommandView::Help)
    } else {
        let c = a[0];
        let rest = a.skip(1);
        if c == "set"@ {
            spec_parse_set(rest)
        } else if c == "ls"@ {
            Ok(CommandView::Ls)
        } else if c == "rm"@ {
            match spec_one_name(rest, "rm"@) {
                Ok(n) => Ok(CommandView::Rm { name: n }),
                Err(e) => Err(e),
            }
        } else if c == "use"@ {
            match spec_one_name(rest, "use"@) {
                Ok(n) => Ok(CommandView::Use { name: n }),
                Err(e) => Err(e),
            }
        } else if c == "status"@ {
            Ok(CommandView::Status)
        } else if c == "helper"@ {
            if rest.len() == 0 {
                Ok(CommandView::Helper { name: None })
            } else if rest.len() == 1 {
                Ok(CommandView::Helper { name: Some(rest[0]) })
            } else {
                Err("usage: akey helper [<name>]"@)
            }
        } else if c == "run"@ {
            spec_parse_run(rest)
        } else if c == "wif"@ {
            spec_parse_wif(rest)
        } else {
            Err("unknown command "@ + debug_quoted(c) + "\n\n"@ + USAGE@)
        }
    }
}

/// The arguments from position `from` on.
fn tail_of(args: &[String], from: usize) -> (r: Vec<String>)
    requires
        from <= args@.len(),
    ensures
        r.deep_view() == args.deep_view().skip(from as int),
{
    let mut out: Vec<String> = Vec::new();
    let mut i = from;
    while i < args.len()
        invariant
            from <= i <= args@.len(),
            out@.len() == i - from,
            forall|j: int| 0 <= j < out@.len() ==> #[trigger] out@[j]@ == args@[from + j]@,
        decreases args@.len() - i,
    {
        out.push(args[i].clone());
        i = i + 1;
    }
    assert(out.deep_view() =~= args.deep_view().skip(from as int));
    out
}

fn flag_error(flag: &str) -> (r: String)
    ensures
        r@ == set_flag_error(flag@),
{
    let q = quoted(flag);
    let mut s = String::from_str("akey set: unexpected flag ");
    s.append(q.as_str());
    s.append("\n");
    s.append(SET_USAGE);
    s
}

/// Parse `set <name>`.
fn parse_set(rest: &[String]) -> (r: Result<Command, String>)
    ensures
        outcome_view(r) == spec_parse_set(rest.deep_view()),
{
    if rest.len() == 0 {
        return Err(String::from_str(SET_USAGE));
    }
    if starts_with_char(rest[0].as_str(), '-') {
        return Err(flag_error(rest[0].as_str()));
    }
    if rest.len() == 1 {
        return Ok(Command::SetKey { name: rest[0].clone() });
    }
    if starts_with_char(rest[1].as_str(), '-') {
        return Err(flag_error(rest[1].as_str()));
    }
    Err(String::from_str(SET_USAGE))
}

fn one_name(rest: &[String], what: &str) -> (r: Result<String, String>)
    ensures
        match (r, spec_one_name(rest.deep_view(), what@)) {
            (Ok(n), Ok(m)) => n@ == m,
            (Err(e), Err(m)) => e@ == m,
            _ => false,
        },
{
    if rest.len() == 1 && !starts_with_char(rest[0].as_str(), '-') {
        Ok(rest[0].clone())
    } else {
        let mut s = String::from_str("usage: akey ");
        s.append(what);
        s.append(" <name>");
        Err(s)
    }
}

pub fn parse(args: &[String]) -> (r: Result<Command, String>)
    ensures
        outcome_view(r) == spec_parse(args.deep_view()),
{
    if args.len() == 0 {
        return Ok(Command::Help);
    }
    let c = args[0].as_str();
    if same_text(c, "help") || same_text(c, "--help") || same_text(c, "-h") {
        return Ok(Command::Help);
    }
    let rest = tail_of(args, 1);
    let ghost a = args.deep_view();
    assert(rest.deep_view() == a.skip(1));
    if same_text(c, "set") {
        parse_set(rest.as_slice())
    } else if same_text(c, "ls") {
        Ok(Command::Ls)
    } else if same_text(c, "rm") {
        match one_name(rest.as_slice(), "rm") {
            Ok(n) => Ok(Command::Rm { name: n }),
            Err(e) => Err(e),
        }
    } else if same_text(c, "use") {
        match one_name(rest.as_slice(), "use") {
            Ok(n) => Ok(Command::Use { name: n }),
            Err(e) => Err(e),
        }
    } else if same_text(c, "status") {
        Ok(Command::Status)
    } else if same_text(c, "helper") {
        if rest.len() == 0 {
            Ok(Command::Helper { name: None })
        } else if rest.len() == 1 {
            Ok(Command::Helper { name: Some(rest[0].clone()) })
        } else {
            Err(String::from_str("usage: akey helper [<name>]"))
        }
    } else if same_text(c, "run") {
        parse_run(rest.as_slice())
    } else if same_text(c, "wif") {
        parse_wif(rest.as_slice())
    } else {
        let q = quoted(c);
        let mut s = String::from_str("unknown command ");
        s.append(q.as_str());
        s.append("\n\n");
        s.append(USAGE);
        Err(s)
    }
}

fn parse_run(rest: &[String]) -> (r: Result<Command, String>)
    ensures
        outcome_view(r) == spec_parse_run(rest.deep_view()),
{
    if rest.len() > 2 && same_text(rest[1].as_str(), "--") && !same_text(rest[0].as_str(), "--") {
        let cmd = tail_of(rest, 2);
        Ok(Command::Run { target: rest[0].clone(), cmd })
    } else {
        Err(String::from_str("usage: akey run <target> -- <cmd...>"))
    }
}

fn required_missing(flag: &str) -> (r: String)
    ensures
        r@ == required_error(flag@),
{
    let mut s = String::from_str("wif set: ");
    s.append(flag);
    s.append(" is required");
    s
}

fn parse_wif(rest: &[String]) -> (r: Result<Command, String>)
    ensures
        outcome_view(r) == spec_parse_wif(rest.deep_view()),
{
    let ghost a = rest.deep_view();
    if !(rest.len() > 0 && same_text(rest[0].as_str(), "set")) {
        return Err(String::from_str(WIF_USAGE));
    }
    if !(rest.len() > 1 && !starts_with_char(rest[1].as_str(), '-')) {
        return Err(String::from_str("wif set: profile name required"));
    }
    let name = rest[1].clone();
    let mut rule: Option<String> = None;
    let mut org: Option<String> = None;
    let mut svc: Option<String> = None;
    let mut workspace: Option<String> = None;
    let mut token_file: Option<String> = None;
    let mut i: usize = 2;
    while i < rest.len()
        invariant
            a == rest.deep_view(),
            a.len() > 1 && a[0] == "set"@ && !begins_with_char(a[1], '-'),
            2 <= i,
            spec_wif_flags(a, 2, no_fields()) == spec_wif_flags(
                a,
                i as int,
                WifFields {
                    rule: crate::store::opt_view(rule),
                    org: crate::store::opt_view(org),
                    svc: crate::store::opt_view(svc),
                    workspace: crate::store::opt_view(workspace),
                    token_file: crate::store::opt_view(token_file),
                },
            ),
        decreases rest@.len() - i,
    {
        let flag = rest[i].as_str();
        assert(a[i as int] == flag@);
        if i + 1 >= rest.len() {
            let mut s = String::from_str("wif set: ");
            s.append(flag);
            s.append(" needs a value");
            return Err(s);
        }
        let value = rest[i + 1].clone();
        assert(a[i + 1] == value@);
        if same_text(flag, "--rule") {
            rule = Some(value);
        } else if same_text(flag, "--org") {
            org = Some(value);
        } else if same_text(flag, "--svc") {
            svc = Some(value);
        } else if same_text(flag, "--workspace") {
            workspace = Some(value);
        } else if same_text(flag, "--token-file") {
            token_file = Some(value);
        } else {
            let q = quoted(flag);
            let mut s = String::from_str("wif set: unknown flag ");
            s.append(q.as_str());
            return Err(s);
        }
        i = i + 2;
    }
    let rule = match rule {
        Some(v) => v,
        None => return Err(required_missing("--rule")),
    };
    let org = match org {
        Some(v) => v,
        None => return Err(required_missing("--org")),
    };
    let svc = match svc {
        Some(v) => v,
        None => return Err(required_missing("--svc")),
    };
    let token_file = match token_file {
        Some(v) => v,
        None => return Err(required_missing("--token-file")),
    };
    Ok(Command::WifSet { name, profile: WifProfile { rule, org, svc, workspace, token_file } })
}


// ---------------------------------------------------------------------------
// Laws.

/// `run` only ever parses with a target that is not `--` and a command of
/// at least one word.
pub proof fn law_run_has_command(a: Seq<Seq<char>>)
    ensures
        spec_parse(a) matches Ok(CommandView::Run { target, cmd }) ==> cmd.len() > 0 && target != "--"@,
{
}

/// A command word that akey does not know is answered with the usage text.
pub proof fn law_unknown_command_shows_usage(a: Seq<Seq<char>>)
    requires
        a.len() > 0,
        a[0] != "help"@ && a[0] != "--help"@ && a[0] != "-h"@,
        a[0] != "set"@ && a[0] != "ls"@ && a[0] != "rm"@ && a[0] != "use"@,
        a[0] != "status"@ && a[0] != "helper"@ && a[0] != "run"@ && a[0] != "wif"@,
    ensures
        spec_parse(a) matches Err(m) && m.len() >= USAGE@.len() && m.skip(m.len() - USAGE@.len()) == USAGE@,
{
    let m = "unknown command "@ + debug_quoted(a[0]) + "\n\n"@;
    assert((m + USAGE@).skip(m.len() as int) =~= USAGE@);
}

/// The flags of `wif set`, in the documented order, make the profile they
/// name.
pub proof fn law_wif_set_flags(name: Seq<char>, r: Seq<char>, o: Seq<char>, s: Seq<char>, w: Seq<char>, t: Seq<char>)
    requires
        !begins_with_char(name, '-'),
    ensures
        spec_parse(
            seq![
                "wif"@, "set"@, name,
                "--rule"@, r, "--org"@, o, "--svc"@, s, "--workspace"@, w, "--token-file"@, t,
            ],
        ) == Ok::<CommandView, Seq<char>>(
            CommandView::WifSet {
                name,
                profile: WifProfileView { rule: r, org: o, svc: s, workspace: Some(w), token_file: t },
            },
        ),
{
    reveal_strlit("wif");
    reveal_strlit("help");
    reveal_strlit("--help");
    reveal_strlit("-h");
    reveal_strlit("set");
    reveal_strlit("ls");
    reveal_strlit("rm");
    reveal_strlit("use");
    reveal_strlit("status");
    reveal_strlit("helper");
    reveal_strlit("run");
    reveal_strlit("--rule");
    reveal_strlit("--org");
    reveal_strlit("--svc");
    reveal_strlit("--workspace");
    reveal_strlit("--token-file");
    let a = seq![
        "wif"@, "set"@, name,
        "--rule"@, r, "--org"@, o, "--svc"@, s, "--workspace"@, w, "--token-file"@, t,
    ];
    let rest = a.skip(1);
    assert(a[0][0] == 'w');
    assert(a[0] != "help"@ && a[0] != "--help"@ && a[0] != "-h"@) by {
        assert("help"@[0] != 'w' && "--help"@[0] != 'w' && "-h"@[0] != 'w');
    }
    assert(a[0] != "set"@ && a[0] != "ls"@ && a[0] != "rm"@ && a[0] != "use"@) by {
        assert("set"@[0] != 'w' && "ls"@[0] != 'w' && "rm"@[0] != 'w' && "use"@[0] != 'w');
    }
    assert(a[0] != "status"@ && a[0] != "helper"@ && a[0] != "run"@) by {
        assert("status"@[0] != 'w' && "helper"@[0] != 'w' && "run"@[0] != 'w');
    }
    assert(rest[0] == "set"@);
    assert(rest[1] == name);
    let f0 = no_fields();
    let f1 = WifFields { rule: Some(r), ..f0 };
    let f2 = WifFields { org: Some(o), ..f1 };
    let f3 = WifFields { svc: Some(s), ..f2 };
    let f4 = WifFields { workspace: Some(w), ..f3 };
    let f5 = WifFields { token_file: Some(t), ..f4 };
    assert(rest[2] == "--rule"@ && rest[3] == r);
    assert(rest[4] == "--org"@ && rest[5] == o);
    assert(rest[6] == "--svc"@ && rest[7] == s);
    assert(rest[8] == "--workspace"@ && rest[9] == w);
    assert(rest[10] == "--token-file"@ && rest[11] == t);
    assert("--org"@ != "--rule"@) by {
        assert("--org"@[2] != "--rule"@[2]);
    }
    assert("--svc"@ != "--rule"@ && "--svc"@ != "--org"@) by {
        assert("--svc"@[2] != "--rule"@[2] && "--svc"@[2] != "--org"@[2]);
    }
    assert("--workspace"@ != "--rule"@ && "--workspace"@ != "--org"@ && "--workspace"@ != "--svc"@) by {
        assert("--workspace"@[2] != "--rule"@[2] && "--workspace"@[2] != "--org"@[2]
            && "--workspace"@[2] != "--svc"@[2]);
    }
    assert("--token-file"@ != "--rule"@ && "--token-file"@ != "--org"@ && "--token-file"@ != "--svc"@
        && "--token-file"@ != "--workspace"@) by {
        assert("--token-file"@[2] != "--rule"@[2] && "--token-file"@[2] != "--org"@[2]
            && "--token-file"@[2] != "--svc"@[2] && "--token-file"@[2] != "--workspace"@[2]);
    }
    assert(spec_wif_flags(rest, 12, f5) == Ok::<WifFields, Seq<char>>(f5));
    assert(spec_wif_flags(rest, 10, f4) == spec_wif_flags(rest, 12, f5));
    assert(spec_wif_flags(rest, 8, f3) == spec_wif_flags(rest, 10, f4));
    assert(spec_wif_flags(rest, 6, f2) == spec_wif_flags(rest, 8, f3));
    assert(spec_wif_flags(rest, 4, f1) == spec_wif_flags(rest, 6, f2));
    assert(spec_wif_flags(rest, 2, f0) == spec_wif_flags(rest, 4, f1));
}


proof fn lemma_command_words()
    ensures
        "run"@ != "help"@ && "run"@ != "--help"@ && "run"@ != "-h"@ && "run"@ != "set"@ && "run"@ != "ls"@
            && "run"@ != "rm"@ && "run"@ != "use"@ && "run"@ != "status"@ && "run"@ != "helper"@,
        "set"@ != "help"@ && "set"@ != "--help"@ && "set"@ != "-h"@,
        "ls"@ != "help"@ && "ls"@ != "--help"@ && "ls"@ != "-h"@ && "ls"@ != "set"@,
        "rm"@ != "help"@ && "rm"@ != "--help"@ && "rm"@ != "-h"@ && "rm"@ != "set"@ && "rm"@ != "ls"@,
        "use"@ != "help"@ && "use"@ != "--help"@ && "use"@ != "-h"@ && "use"@ != "set"@ && "use"@ != "ls"@
            && "use"@ != "rm"@,
        "status"@ != "help"@ && "status"@ != "--help"@ && "status"@ != "-h"@ && "status"@ != "set"@
            && "status"@ != "ls"@ && "status"@ != "rm"@ && "status"@ != "use"@,
        "helper"@ != "help"@ && "helper"@ != "--help"@ && "helper"@ != "-h"@ && "helper"@ != "set"@
            && "helper"@ != "ls"@ && "helper"@ != "rm"@ && "helper"@ != "use"@ && "helper"@ != "status"@,
        "--"@ != "--help"@,
{
    reveal_strlit("run");
    reveal_strlit("help");
    reveal_strlit("--help");
    reveal_strlit("-h");
    reveal_strlit("set");
    reveal_strlit("ls");
    reveal_strlit("rm");
    reveal_strlit("use");
    reveal_strlit("status");
    reveal_strlit("helper");
    reveal_strlit("--");
    assert("run"@[0] != "help"@[0] && "run"@[0] != "--help"@[0] && "run"@[0] != "-h"@[0]);
    assert("run"@[0] != "set"@[0] && "run"@[0] != "ls"@[0] && "run"@[1] != "rm"@[1]);
    assert("run"@[0] != "use"@[0] && "run"@[0] != "status"@[0] && "run"@[0] != "helper"@[0]);
    assert("set"@[0] != "help"@[0] && "set"@[0] != "--help"@[0] && "set"@[0] != "-h"@[0]);
    assert("ls"@[0] != "help"@[0] && "ls"@[0] != "--help"@[0] && "ls"@[0] != "-h"@[0] && "ls"@[0] != "set"@[0]);
    assert("rm"@[0] != "help"@[0] && "rm"@[0] != "--help"@[0] && "rm"@[0] != "-h"@[0] && "rm"@[0] != "set"@[0]
        && "rm"@[0] != "ls"@[0]);
    assert("use"@[0] != "help"@[0] && "use"@[0] != "--help"@[0] && "use"@[0] != "-h"@[0] && "use"@[0] != "set"@[0]
        && "use"@[0] != "ls"@[0] && "use"@[0] != "rm"@[0]);
    assert("status"@[0] != "help"@[0] && "status"@[0] != "--help"@[0] && "status"@[0] != "-h"@[0]
        && "status"@[1] != "set"@[1] && "status"@[0] != "ls"@[0] && "status"@[0] != "rm"@[0]
        && "status"@[0] != "use"@[0]);
    assert("helper"@.len() != "help"@.len() && "helper"@[0] != "--help"@[0] && "helper"@[0] != "-h"@[0]
        && "helper"@[0] != "set"@[0] && "helper"@[0] != "ls"@[0] && "helper"@[0] != "rm"@[0]
        && "helper"@[0] != "use"@[0] && "helper"@[0] != "status"@[0]);
    assert("--"@.len() != "--help"@.len());
}

/// `run <target> -- <cmd...>` with a target that is not `--` and a
/// command of at least one word runs exactly that command for exactly
/// that target.
pub proof fn law_parse_run(t: Seq<char>, c: Seq<Seq<char>>)
    requires
        t != "--"@,
        c.len() > 0,
    ensures
        spec_parse(seq!["run"@, t, "--"@] + c) == Ok::<CommandView, Seq<char>>(CommandView::Run { target: t, cmd: c }),
{
    lemma_command_words();
    let a = seq!["run"@, t, "--"@] + c;
    let rest = a.skip(1);
    assert(a[0] == "run"@);
    assert(rest.len() == c.len() + 2);
    assert(rest[0] == t && rest[1] == "--"@);
    assert(rest.skip(2) =~= c);
}

/// `run` succeeds exactly when a target other than `--` is followed by
/// `--` and at least one word of command.
pub proof fn law_run_needs_separator(rest: Seq<Seq<char>>)
    ensures
        (spec_parse(seq!["run"@] + rest) is Ok) <==> (rest.len() > 2 && rest[1] == "--"@ && rest[0] != "--"@),
{
    lemma_command_words();
    let a = seq!["run"@] + rest;
    assert(a[0] == "run"@);
    assert(a.skip(1) =~= rest);
}

/// The simple commands: `ls` and `status` whatever follows, `help` and no
/// arguments at all, `set`, `rm` and `use` with one name that is not a
/// flag, `helper` with no name or one.
pub proof fn law_parse_simple_commands(n: Seq<char>, rest: Seq<Seq<char>>)
    requires
        !begins_with_char(n, '-'),
    ensures
        spec_parse(Seq::empty()) == Ok::<CommandView, Seq<char>>(CommandView::Help),
        spec_parse(seq!["help"@] + rest) == Ok::<CommandView, Seq<char>>(CommandView::Help),
        spec_parse(seq!["ls"@] + rest) == Ok::<CommandView, Seq<char>>(CommandView::Ls),
        spec_parse(seq!["status"@] + rest) == Ok::<CommandView, Seq<char>>(CommandView::Status),
        spec_parse(seq!["set"@, n]) == Ok::<CommandView, Seq<char>>(CommandView::SetKey { name: n }),
        spec_parse(seq!["rm"@, n]) == Ok::<CommandView, Seq<char>>(CommandView::Rm { name: n }),
        spec_parse(seq!["use"@, n]) == Ok::<CommandView, Seq<char>>(CommandView::Use { name: n }),
        spec_parse(seq!["helper"@]) == Ok::<CommandView, Seq<char>>(CommandView::Helper { name: None }),
        spec_parse(seq!["helper"@, n]) == Ok::<CommandView, Seq<char>>(CommandView::Helper { name: Some(n) }),
{
    lemma_command_words();
    assert((seq!["help"@] + rest)[0] == "help"@);
    let l = seq!["ls"@] + rest;
    assert(l[0] == "ls"@);
    let st = seq!["status"@] + rest;
    assert(st[0] == "status"@);
    assert(seq!["set"@, n].skip(1) =~= seq![n]);
    assert(seq!["rm"@, n].skip(1) =~= seq![n]);
    assert(seq!["use"@, n].skip(1) =~= seq![n]);
    assert(seq!["helper"@].skip(1) =~= Seq::<Seq<char>>::empty());
    assert(seq!["helper"@, n].skip(1) =~= seq![n]);
}

} // verus!
