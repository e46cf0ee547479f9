use vstd::prelude::*;

use crate::config::StartupMode;
use crate::text::{chars_of, decimal, push_decimal, range_eq};

verus! {

/// Whether two strings are equal.
pub fn str_eq(a: &str, b: &str) -> (r: bool)
    ensures
        r == (a@ == b@),
{
    let v = chars_of(a);
    assert(v@.subrange(0, v@.len() as int) =~= v@);
    range_eq(&v, 0, v.len(), b)
}

// ---------------------------------------------------------------------------
// Command line
// ---------------------------------------------------------------------------

/// The launch mode and whether this process is the detached child, from the arguments
/// after the program name: `--background` and `--foreground` set the mode (the last
/// one wins), `--detached-child` marks the child, and `--config` takes the next argument
/// as its value.
pub open spec fn launch_mode_from(args: Seq<String>, mode: StartupMode, detached: bool) -> (
    StartupMode,
    bool,
)
    decreases args.len(),
{
    if args.len() == 0 {
        (mode, detached)
    } else {
        let a = args[0]@;
        if a == "--background"@ {
            launch_mode_from(args.drop_first(), StartupMode::Background, detached)
        } else if a == "--foreground"@ {
            launch_mode_from(args.drop_first(), StartupMode::Foreground, detached)
        } else if a == "--detached-child"@ {
            launch_mode_from(args.drop_first(), mode, true)
        } else if a == "--config"@ && args.len() >= 2 {
            launch_mode_from(args.skip(2), mode, detached)
        } else {
            launch_mode_from(args.drop_first(), mode, detached)
        }
    }
}

/// The mode to run in, from the configured one and the command line, and whether
/// this process is the detached copy of a background launch.
pub fn current_launch_mode(default_mode: StartupMode, args: &Vec<String>) -> (r: (StartupMode, bool))
    ensures
        r == launch_mode_from(args@, default_mode, false),
{
    let mut mode = default_mode;
    let mut detached = false;
    let mut i: usize = 0;
    assert(args@.skip(0) =~= args@);
    while i < args.len()
        invariant
            i <= args.len(),
            launch_mode_from(args@, default_mode, false) == launch_mode_from(
                args@.skip(i as int),
                mode,
                detached,
            ),
        decreases args.len() - i,
    {
        let ghost rest = args@.skip(i as int);
        assert(rest[0] == args@[i as int]);
        assert(rest.drop_first() =~= args@.skip(i + 1));
        let a = args[i].as_str();
        if str_eq(a, "--background") {
            mode = StartupMode::Background;
            i = i + 1;
        } else if str_eq(a, "--foreground") {
            mode = StartupMode::Foreground;
            i = i + 1;
        } else if str_eq(a, "--detached-child") {
            detached = true;
            i = i + 1;
        } else if str_eq(a, "--config") && i + 1 < args.len() {
            assert(rest.skip(2) =~= args@.skip(i + 2));
            i = i + 2;
        } else {
            i = i + 1;
        }
    }
    assert(args@.skip(i as int).len() == 0);
    (mode, detached)
}

/// The value after the first `--config`, when there is one.
pub open spec fn config_arg(args: Seq<String>) -> Option<String>
    decreases args.len(),
{
    if args.len() == 0 {
        None
    } else if args[0]@ == "--config"@ {
        if args.len() >= 2 {
            Some(args[1])
        } else {
            None
        }
    } else {
        config_arg(args.drop_first())
    }
}

/// The path given with `--config`, if any; the caller falls back to `rebar.toml` in the
/// working directory.
pub fn config_path_arg(args: &Vec<String>) -> (r: Option<String>)
    ensures
        match (r, config_arg(args@)) {
            (Some(a), Some(b)) => a@ == b@,
            (None, None) => true,
            _ => false,
        },
{
    let mut i: usize = 0;
    assert(args@.skip(0) =~= args@);
    while i < args.len()
        invariant
            i <= args.len(),
            config_arg(args@) == config_arg(args@.skip(i as int)),
        decreases args.len() - i,
    {
        let ghost rest = args@.skip(i as int);
        assert(rest[0] == args@[i as int]);
        assert(rest.drop_first() =~= args@.skip(i + 1));
        if str_eq(args[i].as_str(), "--config") {
            if i + 1 < args.len() {
                assert(rest[1] == args@[i + 1]);
                return Some(args[i + 1].clone());
            }
            return None;
        }
        i = i + 1;
    }
    None
}

/// The arguments that a foreground process passes on to its detached copy: those it
/// was given, without the mode flags and without `--config` and its value.
pub open spec fn passthrough(args: Seq<String>) -> Seq<Seq<char>>
    decreases args.len(),
{
    if args.len() == 0 {
        Seq::empty()
    } else {
        let a = args[0]@;
        if a == "--background"@ || a == "--foreground"@ || a == "--detached-child"@ {
            passthrough(args.drop_first())
        } else if a == "--config"@ {
            if args.len() >= 2 {
                passthrough(args.skip(2))
            } else {
                Seq::empty()
            }
        } else {
            seq![a] + passthrough(args.drop_first())
        }
    }
}

/// The full argument list of the detached copy: the passed-on arguments, then
/// `--config <path> --background --detached-child`.
pub open spec fn detached_args(args: Seq<String>, config_path: Seq<char>) -> Seq<Seq<char>> {
    passthrough(args) + seq!["--config"@, config_path, "--background"@, "--detached-child"@]
}

pub open spec fn views(v: Seq<String>) -> Seq<Seq<char>> {
    v.map_values(|s: String| s@)
}

/// The command line for the detached copy of a background launch.
pub fn detached_process_args(args: &Vec<String>, config_path: &str) -> (r: Vec<String>)
    ensures
        views(r@) == detached_args(args@, config_path@),
{
    let mut out: Vec<String> = Vec::new();
    let mut i: usize = 0;
    assert(args@.skip(0) =~= args@);
    while i < args.len()
        invariant
            i <= args.len(),
            passthrough(args@) == views(out@) + passthrough(args@.skip(i as int)),
        decreases args.len() - i,
    {
        let ghost rest = args@.skip(i as int);
        assert(rest[0] == args@[i as int]);
        assert(rest.drop_first() =~= args@.skip(i + 1));
        let a = args[i].as_str();
        if str_eq(a, "--background") || str_eq(a, "--foreground") || str_eq(a, "--detached-child") {
            i = i + 1;
        } else if str_eq(a, "--config") {
            if i + 1 < args.len() {
                assert(rest.skip(2) =~= args@.skip(i + 2));
                i = i + 2;
            } else {
                assert(views(out@) + Seq::<Seq<char>>::empty() =~= views(out@));
                i = args.len();
                assert(args@.skip(i as int).len() == 0);
                assert(passthrough(args@.skip(i as int)) =~= Seq::<Seq<char>>::empty());
            }
        } else {
            let ghost before = out@;
            out.push(args[i].clone());
            assert(views(out@) =~= views(before) + seq![args@[i as int]@]);
            i = i + 1;
        }
    }
    assert(passthrough(args@.skip(i as int)) =~= Seq::<Seq<char>>::empty());
    let ghost before = out@;
    out.push(String::from_str("--config"));
    out.push(String::from_str(config_path));
    out.push(String::from_str("--background"));
    out.push(String::from_str("--detached-child"));
    assert(views(out@) =~= views(before) + seq!["--config"@, config_path@, "--background"@, "--detached-child"@]);
    out
}

/// The command the system runs at sign-in: the quoted executable, `--config` with the
/// quoted config path, and `--background` for the background mode.
pub open spec fn startup_command_text(executable: Seq<char>, config_path: Seq<char>, mode: StartupMode) -> Seq<char> {
    "\""@ + executable + "\""@ + " --config \""@ + config_path + "\""@ + (match mode {
        StartupMode::Foreground => Seq::<char>::empty(),
        StartupMode::Background => " "@ + "--background"@,
    })
}

/// The command that the system runs at sign-in to start the bar.
pub fn startup_command_line(executable: &str, config_path: &str, mode: StartupMode) -> (r: String)
    ensures
        r@ == startup_command_text(executable@, config_path@, mode),
{
    let mut command = String::from_str("\"");
    command.append(executable);
    command.append("\"");
    command.append(" --config \"");
    command.append(config_path);
    command.append("\"");
    let ghost base = command@;
    if let Some(argument) = mode.as_startup_arg() {
        command.append(" ");
        command.append(argument);
    }
    assert(command@ =~= startup_command_text(executable@, config_path@, mode));
    command
}

// ---------------------------------------------------------------------------
// Status codes
// ---------------------------------------------------------------------------

/// `Ok` for the WLAN status code 0, otherwise the error `<context> failed with code <n>.`
pub fn check_wlan(result: u32, context: &str) -> (r: Result<(), String>)
    ensures
        result == 0 ==> r is Ok,
        result != 0 ==> (r matches Err(e) && e@ == context@ + " failed with code "@ + decimal(
            result as nat,
        ) + "."@),
{
    if result == 0 {
        Ok(())
    } else {
        let mut s = String::from_str(context);
        s.append(" failed with code ");
        push_decimal(&mut s, result as u64);
        s.append(".");
        Err(s)
    }
}

/// `RPC_E_CHANGED_MODE`: the runtime was already initialized in another apartment mode.
pub open spec fn changed_mode_code() -> i32 {
    -2147417850i32
}

/// Whether an HRESULT says the Windows runtime was already initialized in another mode,
/// which counts as initialized.
pub fn is_changed_mode(code: i32) -> (r: bool)
    ensures
        r == (code == changed_mode_code()),
{
    code == -2147417850i32
}

} // verus!
