//! The command line grammar: parsing an argument list into the CLI's
//! command. Flags are exact-match words after the subcommand; a positional
//! argument, where a command takes one, comes right after the subcommand.

use vstd::prelude::*;
use vstd::string::*;
use crate::config::spec_has_prefix;

verus! {

/// Actions of the `config` subcommand.
pub enum ConfigAction {
    Get { key: Option<String> },
    SetValue { key: String, value: String },
}

pub enum ConfigActionV {
    Get { key: Option<Seq<char>> },
    SetValue { key: Seq<char>, value: Seq<char> },
}

impl View for ConfigAction {
    type V = ConfigActionV;

    open spec fn view(&self) -> ConfigActionV {
        match self {
            ConfigAction::Get { key } => ConfigActionV::Get {
                key: crate::protocol::opt_view(*key),
            },
            ConfigAction::SetValue { key, value } => ConfigActionV::SetValue { key: key@, value: value@ },
        }
    }
}

/// The CLI's commands.
pub enum Commands {
    Run { task: String, approve: bool, no_approve: bool, json: bool },
    Start,
    Stop,
    Status { json: bool },
    Logs { tail: u32 },
    Tasks { task_id: Option<String>, json: bool, all: bool },
    Config { action: ConfigAction },
    Doctor { fix: bool },
}

pub enum CommandsV {
    Run { task: Seq<char>, approve: bool, no_approve: bool, json: bool },
    Start,
    Stop,
    Status { json: bool },
    Logs { tail: u32 },
    Tasks { task_id: Option<Seq<char>>, json: bool, all: bool },
    Config { action: ConfigActionV },
    Doctor { fix: bool },
}

impl View for Commands {
    type V = CommandsV;

    open spec fn view(&self) -> CommandsV {
        match self {
            Commands::Run { task, approve, no_approve, json } => CommandsV::Run {
                task: task@,
                approve: *approve,
                no_approve: *no_approve,
                json: *json,
            },
            Commands::Start => CommandsV::Start,
            Commands::Stop => CommandsV::Stop,
            Commands::Status { json } => CommandsV::Status { json: *json },
            Commands::Logs { tail } => CommandsV::Logs { tail: *tail },
            Commands::Tasks { task_id, json, all } => CommandsV::Tasks {
                task_id: crate::protocol::opt_view(*task_id),
                json: *json,
                all: *all,
            },
            Commands::Config { action } => CommandsV::Config { action: action@ },
            Commands::Doctor { fix } => CommandsV::Doctor { fix: *fix },
        }
    }
}

/// A parsed command line.
pub struct Cli {
    pub command: Commands,
}

pub struct CliV {
    pub command: CommandsV,
}

impl View for Cli {
    type V = CliV;

    open spec fn view(&self) -> CliV {
        CliV { command: self.command@ }
    }
}

/// A rejected command line.
#[derive(Clone, Copy, PartialEq, Eq, Structural, Debug)]
pub struct ParseError;

// ───────────────────────── grammar (spec) ─────────────────────────

pub open spec fn is_flag_word(s: Seq<char>) -> bool {
    spec_has_prefix(s, "--"@)
}

/// Every argument from `lo` on is one of the allowed flag words.
pub open spec fn flags_ok(args: Seq<Seq<char>>, lo: int, allowed: Seq<Seq<char>>) -> bool {
    forall|j: int| lo <= j < args.len() ==> allowed.contains(#[trigger] args[j])
}

/// Whether the flag word appears anywhere from `lo` on.
pub open spec fn flag_set(args: Seq<Seq<char>>, lo: int, name: Seq<char>) -> bool {
    exists|j: int| lo <= j < args.len() && #[trigger] args[j] == name
}

pub open spec fn digits_val(s: Seq<char>, acc: nat) -> Option<nat>
    decreases s.len(),
{
    if s.len() == 0 {
        Some(acc)
    } else if '0' <= s[0] && s[0] <= '9' {
        digits_val(s.drop_first(), acc * 10 + (s[0] as u32 - 48) as nat)
    } else {
        None
    }
}

/// A non-empty all-digits word as a u32.
pub open spec fn spec_parse_u32(s: Seq<char>) -> Option<u32> {
    if s.len() == 0 {
        None
    } else {
        match digits_val(s, 0) {
            Some(v) => if v <= u32::MAX {
                Some(v as u32)
            } else {
                None
            },
            None => None,
        }
    }
}

pub open spec fn run_flag_words() -> Seq<Seq<char>> {
    seq!["--approve"@, "--no-approve"@, "--json"@]
}

/// What an argument list parses to, if anything: the word after the
/// program name picks the command; a required positional follows at once;
/// everything after must be that command's flag words.
pub open spec fn spec_parse(args: Seq<Seq<char>>) -> Option<CliV> {
    if args.len() < 2 {
        None
    } else {
        let cmd = args[1];
        if cmd == "run"@ {
            if args.len() >= 3 && !is_flag_word(args[2]) && flags_ok(args, 3, run_flag_words()) {
                Some(
                    CliV {
                        command: CommandsV::Run {
                            task: args[2],
                            approve: flag_set(args, 3, "--approve"@),
                            no_approve: flag_set(args, 3, "--no-approve"@),
                            json: flag_set(args, 3, "--json"@),
                        },
                    },
                )
            } else {
                None
            }
        } else if cmd == "start"@ {
            if args.len() == 2 {
                Some(CliV { command: CommandsV::Start })
            } else {
                None
            }
        } else if cmd == "stop"@ {
            if args.len() == 2 {
                Some(CliV { command: CommandsV::Stop })
            } else {
                None
            }
        } else if cmd == "status"@ {
            if flags_ok(args, 2, seq!["--json"@]) {
                Some(
                    CliV { command: CommandsV::Status { json: flag_set(args, 2, "--json"@) } },
                )
            } else {
                None
            }
        } else if cmd == "logs"@ {
            if args.len() == 2 {
                Some(CliV { command: CommandsV::Logs { tail: 50 } })
            } else if args.len() == 4 && args[2] == "--tail"@ {
                match spec_parse_u32(args[3]) {
                    Some(t) => Some(CliV { command: CommandsV::Logs { tail: t } }),
                    None => None,
                }
            } else {
                None
            }
        } else if cmd == "tasks"@ {
            if args.len() >= 3 && !is_flag_word(args[2]) {
                if flags_ok(args, 3, seq!["--json"@, "--all"@]) {
                    Some(
                        CliV {
                            command: CommandsV::Tasks {
                                task_id: Some(args[2]),
                                json: flag_set(args, 3, "--json"@),
                                all: flag_set(args, 3, "--all"@),
                            },
                        },
                    )
                } else {
                    None
                }
            } else {
                if flags_ok(args, 2, seq!["--json"@, "--all"@]) {
                    Some(
                        CliV {
                            command: CommandsV::Tasks {
                                task_id: None,
                                json: flag_set(args, 2, "--json"@),
                                all: flag_set(args, 2, "--all"@),
                            },
                        },
                    )
                } else {
                    None
                }
            }
        } else if cmd == "config"@ {
            if args.len() >= 3 && args[2] == "get"@ {
                if args.len() == 3 {
                    Some(
                        CliV { command: CommandsV::Config { action: ConfigActionV::Get { key: None } } },
                    )
                } else if args.len() == 4 {
                    Some(
                        CliV {
                            command: CommandsV::Config {
                                action: ConfigActionV::Get { key: Some(args[3]) },
                            },
                        },
                    )
                } else {
                    None
                }
            } else if args.len() == 5 && args[2] == "set"@ {
                Some(
                    CliV {
                        command: CommandsV::Config {
                            action: ConfigActionV::SetValue { key: args[3], value: args[4] },
                        },
                    },
                )
            } else {
                None
            }
        } else if cmd == "doctor"@ {
            if flags_ok(args, 2, seq!["--fix"@]) {
                Some(CliV { command: CommandsV::Doctor { fix: flag_set(args, 2, "--fix"@) } })
            } else {
                None
            }
        } else {
            None
        }
    }
}

// ───────────────────────── parsing (exec) ─────────────────────────

proof fn lemma_digits_val_ge(s: Seq<char>, acc: nat)
    ensures
        digits_val(s, acc) is Some ==> digits_val(s, acc)->Some_0 >= acc,
    decreases s.len(),
{
    if s.len() > 0 && '0' <= s[0] && s[0] <= '9' {
        lemma_digits_val_ge(s.drop_first(), acc * 10 + (s[0] as u32 - 48) as nat);
        assert(acc * 10 >= acc) by (nonlinear_arith)
            requires acc >= 0;
    }
}

fn parse_u32(s: &String) -> (r: Option<u32>)
    ensures
        r == spec_parse_u32(s@),
{
    let st = s.as_str();
    let n = st.unicode_len();
    if n == 0 {
        return None;
    }
    let mut i: usize = 0;
    let mut acc: u64 = 0;
    proof {
        assert(s@.skip(0) =~= s@);
    }
    while i < n
        invariant
            i <= n,
            n == s@.len(),
            st@ == s@,
            acc <= u32::MAX,
            digits_val(s@, 0) == digits_val(s@.skip(i as int), acc as nat),
        decreases n - i,
    {
        let c = st.get_char(i);
        let cu = c as u32;
        proof {
            let t = s@.skip(i as int);
            assert(t[0] == s@[i as int]);
            assert(t.drop_first() =~= s@.skip(i as int + 1));
        }
        if cu < 48 || cu > 57 {
            proof {
                assert(!('0' <= s@[i as int] && s@[i as int] <= '9'));
            }
            return None;
        }
        let d: u64 = (cu - 48) as u64;
        let next: u64 = acc * 10 + d;
        if next > 0xFFFF_FFFF {
            proof {
                lemma_digits_val_ge(s@.skip(i as int + 1), next as nat);
            }
            return None;
        }
        acc = next;
        i = i + 1;
    }
    proof {
        assert(s@.skip(n as int) =~= Seq::<char>::empty());
    }
    Some(acc as u32)
}

fn is_flag_word_exec(s: &String) -> (r: bool)
    ensures
        r == is_flag_word(s@),
{
    crate::config::has_prefix(s.as_str(), "--")
}

fn flags_ok_exec(args: &Vec<String>, lo: usize, allowed: &Vec<String>) -> (r: bool)
    requires
        lo <= args@.len(),
    ensures
        r == flags_ok(
            args@.map_values(|s: String| s@),
            lo as int,
            allowed@.map_values(|s: String| s@),
        ),
{
    let ghost argv = args@.map_values(|s: String| s@);
    let ghost allv = allowed@.map_values(|s: String| s@);
    let n = args.len();
    let m = allowed.len();
    let mut j: usize = lo;
    while j < n
        invariant
            lo <= j <= n,
            n == args@.len(),
            m == allowed@.len(),
            argv == args@.map_values(|s: String| s@),
            allv == allowed@.map_values(|s: String| s@),
            forall|k: int| lo <= k < j ==> allv.contains(#[trigger] argv[k]),
        decreases n - j,
    {
        let mut k: usize = 0;
        let mut found = false;
        while k < m
            invariant
                k <= m,
                m == allowed@.len(),
                n == args@.len(),
                j < n,
                argv == args@.map_values(|s: String| s@),
                allv == allowed@.map_values(|s: String| s@),
                found ==> allv.contains(argv[j as int]),
                !found ==> forall|q: int| 0 <= q < k ==> allv[q] != argv[j as int],
            decreases m - k,
        {
            if args[j] == allowed[k] {
                found = true;
                proof {
                    assert(allv[k as int] == argv[j as int]);
                }
            }
            k = k + 1;
        }
        if !found {
            proof {
                assert(!allv.contains(argv[j as int]));
            }
            return false;
        }
        j = j + 1;
    }
    true
}

fn flag_set_exec(args: &Vec<String>, lo: usize, name: &str) -> (r: bool)
    requires
        lo <= args@.len(),
    ensures
        r == flag_set(args@.map_values(|s: String| s@), lo as int, name@),
{
    let ghost argv = args@.map_values(|s: String| s@);
    let nm = String::from_str(name);
    let n = args.len();
    let mut j: usize = lo;
    while j < n
        invariant
            lo <= j <= n,
            n == args@.len(),
            nm@ == name@,
            argv == args@.map_values(|s: String| s@),
            forall|k: int| lo <= k < j ==> #[trigger] argv[k] != name@,
        decreases n - j,
    {
        if args[j] == nm {
            proof {
                assert(argv[j as int] == name@);
            }
            return true;
        }
        j = j + 1;
    }
    false
}

impl Cli {
    /// Parses an argument list (the program name first) into a command.
    pub fn try_parse_from(args: &Vec<String>) -> (r: Result<Cli, ParseError>)
        ensures
            match r {
                Ok(cli) => spec_parse(args@.map_values(|s: String| s@)) == Some(cli@),
                Err(_) => spec_parse(args@.map_values(|s: String| s@)) is None,
            },
    {
        let ghost argv = args@.map_values(|s: String| s@);
        if args.len() < 2 {
            return Err(ParseError);
        }
        let cmd = &args[1];
        if *cmd == String::from_str("run") {
            if args.len() >= 3 && !is_flag_word_exec(&args[2]) {
                let mut allowed: Vec<String> = Vec::new();
                allowed.push(String::from_str("--approve"));
                allowed.push(String::from_str("--no-approve"));
                allowed.push(String::from_str("--json"));
                proof {
                    assert(allowed@.map_values(|s: String| s@) =~= run_flag_words());
                }
                if flags_ok_exec(args, 3, &allowed) {
                    let approve = flag_set_exec(args, 3, "--approve");
                    let no_approve = flag_set_exec(args, 3, "--no-approve");
                    let json = flag_set_exec(args, 3, "--json");
                    Ok(
                        Cli {
                            command: Commands::Run {
                                task: args[2].clone(),
                                approve,
                                no_approve,
                                json,
                            },
                        },
                    )
                } else {
                    Err(ParseError)
                }
            } else {
                Err(ParseError)
            }
        } else if *cmd == String::from_str("start") {
            if args.len() == 2 {
                Ok(Cli { command: Commands::Start })
            } else {
                Err(ParseError)
            }
        } else if *cmd == String::from_str("stop") {
            if args.len() == 2 {
                Ok(Cli { command: Commands::Stop })
            } else {
                Err(ParseError)
            }
        } else if *cmd == String::from_str("status") {
            let mut allowed: Vec<String> = Vec::new();
            allowed.push(String::from_str("--json"));
            proof {
                assert(allowed@.map_values(|s: String| s@) =~= seq!["--json"@]);
            }
            if flags_ok_exec(args, 2, &allowed) {
                let json = flag_set_exec(args, 2, "--json");
                Ok(Cli { command: Commands::Status { json } })
            } else {
                Err(ParseError)
            }
        } else if *cmd == String::from_str("logs") {
            if args.len() == 2 {
                Ok(Cli { command: Commands::Logs { tail: 50 } })
            } else if args.len() == 4 && args[2] == String::from_str("--tail") {
                match parse_u32(&args[3]) {
                    Some(t) => Ok(Cli { command: Commands::Logs { tail: t } }),
                    None => Err(ParseError),
                }
            } else {
                Err(ParseError)
            }
        } else if *cmd == String::from_str("tasks") {
            let mut allowed: Vec<String> = Vec::new();
            allowed.push(String::from_str("--json"));
            allowed.push(String::from_str("--all"));
            proof {
                assert(allowed@.map_values(|s: String| s@) =~= seq!["--json"@, "--all"@]);
            }
            if args.len() >= 3 && !is_flag_word_exec(&args[2]) {
                if flags_ok_exec(args, 3, &allowed) {
                    let json = flag_set_exec(args, 3, "--json");
                    let all = flag_set_exec(args, 3, "--all");
                    Ok(
                        Cli {
                            command: Commands::Tasks {
                                task_id: Some(args[2].clone()),
                                json,
                                all,
                            },
                        },
                    )
                } else {
                    Err(ParseError)
                }
            } else {
                if flags_ok_exec(args, 2, &allowed) {
                    let json = flag_set_exec(args, 2, "--json");
                    let all = flag_set_exec(args, 2, "--all");
                    Ok(Cli { command: Commands::Tasks { task_id: None, json, all } })
                } else {
                    Err(ParseError)
                }
            }
        } else if *cmd == String::from_str("config") {
            if args.len() >= 3 && args[2] == String::from_str("get") {
                if args.len() == 3 {
                    Ok(Cli { command: Commands::Config { action: ConfigAction::Get { key: None } } })
                } else if args.len() == 4 {
                    Ok(
                        Cli {
                            command: Commands::Config {
                                action: ConfigAction::Get { key: Some(args[3].clone()) },
                            },
                        },
                    )
                } else {
                    Err(ParseError)
                }
            } else if args.len() == 5 && args[2] == String::from_str("set") {
                Ok(
                    Cli {
                        command: Commands::Config {
                            action: ConfigAction::SetValue {
                                key: args[3].clone(),
                                value: args[4].clone(),
                            },
                        },
                    },
                )
            } else {
                Err(ParseError)
            }
        } else if *cmd == String::from_str("doctor") {
            let mut allowed: Vec<String> = Vec::new();
            allowed.push(String::from_str("--fix"));
            proof {
                assert(allowed@.map_values(|s: String| s@) =~= seq!["--fix"@]);
            }
            if flags_ok_exec(args, 2, &allowed) {
                let fix = flag_set_exec(args, 2, "--fix");
                Ok(Cli { command: Commands::Doctor { fix } })
            } else {
                Err(ParseError)
            }
        } else {
            Err(ParseError)
        }
    }
}

/// Where a log tail of the given length starts in a file of `len` lines,
/// clamped at the top of the file.
pub fn tail_start(len: usize, tail: u32) -> (r: usize)
    ensures
        len > tail ==> r == len - tail,
        len <= tail ==> r == 0,
{
    if len > tail as usize {
        len - tail as usize
    } else {
        0
    }
}

} // verus!
