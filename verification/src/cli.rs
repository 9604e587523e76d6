//! The command line tools: argument parsing, where the configuration file
//! is looked for, the server address, and the interactive client's reading
//! of what the user types.
use vstd::prelude::*;

use crate::text::{
    decimal, push_decimal, push_str, starts_with_spec, str_eq, string_of, to_chars, trim_spec,
    trim_str, views,
};

verus! {

/// The arguments of the server: the notes' path and two switches.
#[derive(Clone, Debug, PartialEq)]
pub struct CliArgs {
    pub path: String,
    pub dump: bool,
    pub fs_watcher: bool,
}

/// An argument that starts with `--` and is no known switch.
#[derive(Clone, Debug, PartialEq)]
pub struct UnsupportedArgument(pub String);

impl UnsupportedArgument {
    /// The message of the error.
    pub fn message(&self) -> (r: String)
        ensures
            r@ == "Unsupported argument: "@ + self.0@,
    {
        let mut m = string_of(to_chars("Unsupported argument: ").as_slice());
        push_str(&mut m, self.0.as_str());
        m
    }
}

/// The arguments read so far: (path, dump, fs_watcher), or the first
/// argument that is refused.
pub open spec fn parse_args(args: Seq<Seq<char>>) -> Result<(Seq<char>, bool, bool), Seq<char>>
    decreases args.len(),
{
    if args.len() == 0 {
        Ok((Seq::empty(), false, false))
    } else {
        match parse_args(args.drop_last()) {
            Err(e) => Err(e),
            Ok((p, d, w)) => {
                let a = args.last();
                if starts_with_spec(a, "--"@) {
                    if a == "--dump"@ {
                        Ok((p, true, w))
                    } else if a == "--fs-watcher"@ {
                        Ok((p, d, true))
                    } else {
                        Err(a)
                    }
                } else {
                    Ok((a, d, w))
                }
            },
        }
    }
}

impl CliArgs {
    /// Reads the arguments: `--dump` and `--fs-watcher` set their switch,
    /// any other `--` argument is refused, and the last other argument is the
    /// path.
    pub fn parse(args: &Vec<String>) -> (r: Result<CliArgs, UnsupportedArgument>)
        ensures
            match r {
                Ok(a) => parse_args(views(args@)) == Ok::<(Seq<char>, bool, bool), Seq<char>>(
                    (a.path@, a.dump, a.fs_watcher),
                ),
                Err(e) => parse_args(views(args@)) == Err::<(Seq<char>, bool, bool), Seq<char>>(
                    e.0@,
                ),
            },
    {
        proof {
            reveal_strlit("--");
        }
        let mut cli = CliArgs { path: String::new(), dump: false, fs_watcher: false };
        let mut i: usize = 0;
        while i < args.len()
            invariant
                0 <= i <= args@.len(),
                parse_args(views(args@).take(i as int)) == Ok::<(Seq<char>, bool, bool), Seq<char>>(
                    (cli.path@, cli.dump, cli.fs_watcher),
                ),
            decreases args@.len() - i,
        {
            let ghost t = views(args@).take(i + 1);
            assert(t.drop_last() =~= views(args@).take(i as int));
            assert(t.last() == args@[i as int]@);
            let a = args[i].as_str();
            let c = to_chars(a);
            let dd = to_chars("--");
            if crate::text::starts_with(c.as_slice(), dd.as_slice()) {
                if str_eq(a, "--dump") {
                    cli.dump = true;
                } else if str_eq(a, "--fs-watcher") {
                    cli.fs_watcher = true;
                } else {
                    let bad = string_of(c.as_slice());
                    proof {
                        lemma_parse_args_err(views(args@), i as int + 1, bad@);
                    }
                    return Err(UnsupportedArgument(bad));
                }
            } else {
                cli.path = string_of(c.as_slice());
            }
            i = i + 1;
        }
        assert(views(args@).take(i as int) =~= views(args@));
        Ok(cli)
    }
}

/// Once an argument is refused, the later ones do not matter.
proof fn lemma_parse_args_err(args: Seq<Seq<char>>, i: int, e: Seq<char>)
    requires
        0 <= i <= args.len(),
        parse_args(args.take(i)) == Err::<(Seq<char>, bool, bool), Seq<char>>(e),
    ensures
        parse_args(args) == Err::<(Seq<char>, bool, bool), Seq<char>>(e),
    decreases args.len() - i,
{
    if i < args.len() {
        assert(args.take(i + 1).drop_last() =~= args.take(i));
        lemma_parse_args_err(args, i + 1, e);
    } else {
        assert(args.take(i) =~= args);
    }
}

/// Where the server listens, and where the notes are.
#[derive(Clone, Debug, PartialEq)]
pub struct Configuration {
    pub roam_path: String,
    pub ip_addr: String,
    pub port: u16,
}

impl Configuration {
    /// The address of the server, `host:port`, with `http://` before it
    /// when asked.
    pub fn get_url(&self, protocol: bool) -> (r: String)
        ensures
            r@ == (if protocol {
                "http://"@
            } else {
                Seq::empty()
            }) + self.ip_addr@ + ":"@ + decimal(self.port as nat),
    {
        let mut u = String::new();
        if protocol {
            push_str(&mut u, "http://");
        }
        push_str(&mut u, self.ip_addr.as_str());
        push_str(&mut u, ":");
        push_decimal(&mut u, self.port as u64);
        u
    }
}

/// The places the command line client looks for its configuration, in
/// order: the file named by the environment variable when it is set, then
/// the user's and the system's `config.json`.
pub fn paths(env_value: Option<String>) -> (r: Vec<Option<String>>)
    ensures
        r@.len() == 3,
        r@[0] == env_value,
        r@[1] matches Some(p) && p@ == "~/.config/org-roamers/config.json"@,
        r@[2] matches Some(p) && p@ == "/etc/org-roamers/config.json"@,
{
    let mut r: Vec<Option<String>> = Vec::new();
    r.push(env_value);
    r.push(Some(string_of(to_chars("~/.config/org-roamers/config.json").as_slice())));
    r.push(Some(string_of(to_chars("/etc/org-roamers/config.json").as_slice())));
    r
}

/// The places the server looks for its configuration, in order: the file
/// named by the environment variable when it is set, then `conf.json` in the
/// working directory, the user's and the system's `conf.json`.
pub fn server_paths(env_value: Option<String>) -> (r: Vec<Option<String>>)
    ensures
        r@.len() == 4,
        r@[0] == env_value,
        r@[1] matches Some(p) && p@ == "./conf.json"@,
        r@[2] matches Some(p) && p@ == "~/.config/org-roamers/conf.json"@,
        r@[3] matches Some(p) && p@ == "/etc/org-roamers/conf.json"@,
{
    let mut r: Vec<Option<String>> = Vec::new();
    r.push(env_value);
    r.push(Some(string_of(to_chars("./conf.json").as_slice())));
    r.push(Some(string_of(to_chars("~/.config/org-roamers/conf.json").as_slice())));
    r.push(Some(string_of(to_chars("/etc/org-roamers/conf.json").as_slice())));
    r
}

/// The first of the candidates that is given and exists; `exists` tells,
/// for each candidate, whether a file is there.
pub fn config_path(candidates: &Vec<Option<String>>, exists: &Vec<bool>) -> (r: Option<String>)
    requires
        exists@.len() == candidates@.len(),
    ensures
        match r {
            Some(p) => exists|i: int|
                0 <= i < candidates@.len() && candidates@[i] == Some(p) && exists@[i] && forall|j: int|
                    0 <= j < i ==> !(candidates@[j] is Some && exists@[j]),
            None => forall|j: int|
                0 <= j < candidates@.len() ==> !(candidates@[j] is Some && exists@[j]),
        },
{
    let mut i: usize = 0;
    while i < candidates.len()
        invariant
            0 <= i <= candidates@.len(),
            exists@.len() == candidates@.len(),
            forall|j: int| 0 <= j < i ==> !(candidates@[j] is Some && exists@[j]),
        decreases candidates@.len() - i,
    {
        match &candidates[i] {
            Some(c) => {
                if exists[i] {
                    return Some(c.clone());
                }
            },
            None => {},
        }
        i = i + 1;
    }
    None
}

/// A command of the interactive client itself.
#[derive(Clone, Debug, PartialEq)]
pub enum InternalCommand {
    Help,
    Exit,
    /// Anything else, trimmed.
    Unknown(String),
}

/// What to do with a line the user typed: a line that starts with `.` is a
/// command of the client; any other line goes to the server.
#[derive(Clone, Debug, PartialEq)]
pub enum CliLine {
    Internal(InternalCommand),
    Forward,
}

/// The command a `.` line names, trimmed.
pub open spec fn internal_spec(line: Seq<char>) -> (nat, Seq<char>) {
    let t = trim_spec(line);
    if t == ".help"@ {
        (0, Seq::empty())
    } else if t == ".exit"@ {
        (1, Seq::empty())
    } else {
        (2, t)
    }
}

/// Reads a `.` command.
pub fn handle_internal(line: &str) -> (r: InternalCommand)
    ensures
        internal_spec(line@) == match r {
            InternalCommand::Help => (0nat, Seq::<char>::empty()),
            InternalCommand::Exit => (1nat, Seq::<char>::empty()),
            InternalCommand::Unknown(t) => (2nat, t@),
        },
{
    let t = trim_str(line);
    if str_eq(t.as_str(), ".help") {
        InternalCommand::Help
    } else if str_eq(t.as_str(), ".exit") {
        InternalCommand::Exit
    } else {
        InternalCommand::Unknown(t)
    }
}

/// What to do with a typed line.
pub fn classify_line(line: &str) -> (r: CliLine)
    ensures
        match r {
            CliLine::Internal(cmd) => starts_with_spec(line@, "."@) && internal_spec(line@) == match cmd {
                InternalCommand::Help => (0nat, Seq::<char>::empty()),
                InternalCommand::Exit => (1nat, Seq::<char>::empty()),
                InternalCommand::Unknown(t) => (2nat, t@),
            },
            CliLine::Forward => !starts_with_spec(line@, "."@),
        },
{
    let c = to_chars(line);
    let dot = to_chars(".");
    if crate::text::starts_with(c.as_slice(), dot.as_slice()) {
        CliLine::Internal(handle_internal(line))
    } else {
        CliLine::Forward
    }
}

/// The server's answer ends at a blank line.
pub fn reply_ended(line: &str) -> (r: bool)
    ensures
        r == (trim_spec(line@).len() == 0),
{
    let t = trim_str(line);
    to_chars(t.as_str()).len() == 0
}

/// What the client says of a command it does not know.
pub fn unknown_command_message(cmd: &str) -> (r: String)
    ensures
        r@ == cmd@ + " unsupported command."@,
{
    let mut m = string_of(to_chars(cmd).as_slice());
    push_str(&mut m, " unsupported command.");
    m
}

/// The help of the interactive client.
pub fn help() -> (r: String)
    ensures
        r@ == "Supported internal commands:\n    .help    Show this message\n    .exit    Disconnect and exit cli\n\nSupported server commands:\n    exit     Exit the server\n    conf     Print the server configuration\n    open     Open the website using xdg-open\n"@,
{
    string_of(
        to_chars(
            "Supported internal commands:\n    .help    Show this message\n    .exit    Disconnect and exit cli\n\nSupported server commands:\n    exit     Exit the server\n    conf     Print the server configuration\n    open     Open the website using xdg-open\n",
        ).as_slice(),
    )
}

} // verus!
