//! The command line.

use crate::text;
use vstd::prelude::*;
use vstd::string::*;

verus! {

/// When predictions are made.
#[derive(Debug, Clone, Copy, PartialEq, Eq, Structural)]
pub enum PredictMode {
    /// Always, on the alternate screen as well.
    Always,
    /// When round trips are slow, and not on the alternate screen.
    Auto,
    /// Never.
    Never,
}

/// The mode with this name in lower case.
pub open spec fn mode_named(name: Seq<char>) -> Option<PredictMode> {
    if name == "always"@ {
        Some(PredictMode::Always)
    } else if name == "auto"@ {
        Some(PredictMode::Auto)
    } else if name == "never"@ || name == "none"@ || name == "off"@ {
        Some(PredictMode::Never)
    } else {
        None
    }
}

/// The message about a mode that does not exist.
pub open spec fn invalid_mode(given: Seq<char>) -> Seq<char> {
    "Invalid predict mode '"@ + given + "'. Use: always, auto, never"@
}

impl PredictMode {
    /// The mode with this name in lower case.
    pub fn named(name: &str) -> (mode: Option<PredictMode>)
        ensures
            mode == mode_named(name@),
    {
        if text::same(name, "always") {
            Some(PredictMode::Always)
        } else if text::same(name, "auto") {
            Some(PredictMode::Auto)
        } else if text::same(name, "never") || text::same(name, "none") || text::same(
            name,
            "off",
        ) {
            Some(PredictMode::Never)
        } else {
            None
        }
    }

    /// The mode with this name, in upper or lower case.
    pub fn from_str(s: &str) -> (mode: Result<PredictMode, String>)
        ensures
            match mode_named(text::lowercase(s@)) {
                Some(named) => mode == Ok::<PredictMode, String>(named),
                None => mode matches Err(message) && message@ == invalid_mode(s@),
            },
    {
        let lower: String = text::to_lowercase(s);
        match PredictMode::named(lower.as_str()) {
            Some(named) => Ok(named),
            None => {
                let mut message: String = "Invalid predict mode '".to_owned();
                message.append(s);
                message.append("'. Use: always, auto, never");
                Err(message)
            },
        }
    }
}

/// What the command line asks for.
#[verifier::ext_equal]
pub struct ConfigState {
    /// The command to run and its arguments.
    pub command: Seq<Seq<char>>,
    /// When predictions are made.
    pub predict_mode: PredictMode,
    /// The file that logs are written to.
    pub log_file: Option<Seq<char>>,
    /// How much is logged.
    pub verbose: u8,
}

impl ConfigState {
    /// What holds before any argument was read.
    pub open spec fn initial() -> ConfigState {
        ConfigState {
            command: Seq::empty(),
            predict_mode: PredictMode::Auto,
            log_file: None,
            verbose: 0,
        }
    }

    /// `more` verbosity, as far as there is any.
    pub open spec fn louder(self, more: u8) -> ConfigState {
        ConfigState {
            verbose: if self.verbose + more > u8::MAX {
                u8::MAX
            } else {
                (self.verbose + more) as u8
            },
            ..self
        }
    }
}

/// What a command line comes to.
pub enum Outcome {
    /// Help is asked for.
    Help,
    /// The version is asked for.
    Version,
    /// A command is to be run.
    Run(ConfigState),
    /// The command line is wrong, for this reason.
    Failed(Seq<char>),
}

/// The message about an option that does not exist.
pub open spec fn unknown_option(arg: Seq<char>) -> Seq<char> {
    "Unknown option: "@ + arg + ". Try 'lep --help'"@
}

/// `-` and nothing but `v`, once at least.
pub open spec fn is_verbose_flags(arg: Seq<char>) -> bool {
    &&& text::begins(arg, "-v"@)
    &&& forall|i: int| 1 <= i < arg.len() ==> arg[i] == 'v'
}

/// How often `v` stands in such an argument, as far as verbosity goes.
pub open spec fn flag_count(arg: Seq<char>) -> u8 {
    if arg.len() - 1 > u8::MAX {
        u8::MAX
    } else {
        (arg.len() - 1) as u8
    }
}

/// What the arguments `args` come to after those that gave `config`.
///
/// Options are read up to the first argument that is none; it and all that
/// follow are the command.
pub open spec fn parsed(args: Seq<Seq<char>>, config: ConfigState) -> Outcome
    decreases args.len(),
{
    if args.len() == 0 {
        Outcome::Failed("No command specified"@)
    } else {
        let arg = args[0];
        if arg == "-h"@ || arg == "--help"@ {
            Outcome::Help
        } else if arg == "-V"@ || arg == "--version"@ {
            Outcome::Version
        } else if arg == "--verbose"@ {
            parsed(args.skip(1), config.louder(1))
        } else if arg == "--log"@ {
            if args.len() < 2 {
                Outcome::Failed("--log requires a file path"@)
            } else {
                parsed(args.skip(2), ConfigState { log_file: Some(args[1]), ..config })
            }
        } else if arg == "-p"@ || arg == "--predict"@ {
            if args.len() < 2 {
                Outcome::Failed("--predict requires a mode: always, auto, never"@)
            } else {
                match mode_named(text::lowercase(args[1])) {
                    Some(mode) => parsed(
                        args.skip(2),
                        ConfigState { predict_mode: mode, ..config },
                    ),
                    None => Outcome::Failed(invalid_mode(args[1])),
                }
            }
        } else if text::begins(arg, "--predict="@) || text::begins(arg, "-p="@) {
            let given = arg.skip(
                if text::begins(arg, "--predict="@) {
                    "--predict="@.len() as int
                } else {
                    "-p="@.len() as int
                },
            );
            match mode_named(text::lowercase(given)) {
                Some(mode) => parsed(args.skip(1), ConfigState { predict_mode: mode, ..config }),
                None => Outcome::Failed(invalid_mode(given)),
            }
        } else if is_verbose_flags(arg) {
            parsed(args.skip(1), config.louder(flag_count(arg)))
        } else if text::begins(arg, "-"@) {
            Outcome::Failed(unknown_option(arg))
        } else {
            Outcome::Run(ConfigState { command: args, ..config })
        }
    }
}

/// What each string says.
pub open spec fn texts(strings: Seq<String>) -> Seq<Seq<char>> {
    strings.map_values(|s: String| s@)
}

/// A command to run, and how.
#[derive(Debug)]
pub struct Config {
    /// The command to run and its arguments.
    pub command: Vec<String>,
    /// When predictions are made.
    pub predict_mode: PredictMode,
    /// The file that logs are written to.
    pub log_file: Option<String>,
    /// How much is logged: nothing, the course of events, details, everything.
    pub verbose: u8,
}

impl View for Config {
    type V = ConfigState;

    open spec fn view(&self) -> ConfigState {
        ConfigState {
            command: texts(self.command@),
            predict_mode: self.predict_mode,
            log_file: match self.log_file {
                Some(file) => Some(file@),
                None => None,
            },
            verbose: self.verbose,
        }
    }
}

/// What a correct command line asks for.
#[derive(Debug)]
pub enum Parsed {
    /// Help.
    Help,
    /// The version.
    Version,
    /// To run a command.
    Run(Config),
}

/// `result` reports `outcome`.
pub open spec fn reports(result: Result<Parsed, String>, outcome: Outcome) -> bool {
    match outcome {
        Outcome::Help => result matches Ok(Parsed::Help),
        Outcome::Version => result matches Ok(Parsed::Version),
        Outcome::Run(config) => result matches Ok(Parsed::Run(run)) && run@ == config,
        Outcome::Failed(reason) => result matches Err(message) && message@ == reason,
    }
}

/// The arguments from the one at `start` on.
fn arguments_from(args: &Vec<String>, start: usize) -> (rest: Vec<String>)
    requires
        start <= args@.len(),
    ensures
        texts(rest@) == texts(args@).skip(start as int),
{
    let mut rest: Vec<String> = Vec::new();
    let mut i: usize = start;
    while i < args.len()
        invariant
            start <= i <= args@.len(),
            texts(rest@) =~= texts(args@).subrange(start as int, i as int),
        decreases args@.len() - i,
    {
        let ghost before = texts(rest@);
        rest.push(args[i].clone());
        i += 1;
        assert(texts(rest@) =~= before.push(args@[i - 1]@));
        assert(texts(args@)[i - 1] == args@[i - 1]@);
    }
    assert(texts(rest@) =~= texts(args@).skip(start as int));
    rest
}

/// How often `v` stands in an argument that is nothing else behind its dash, as
/// far as verbosity goes.
fn count_flags(arg: &str) -> (n: u8)
    requires
        arg@.len() >= 2,
    ensures
        n == flag_count(arg@),
{
    let count: usize = arg.unicode_len() - 1;
    if count > u8::MAX as usize {
        u8::MAX
    } else {
        count as u8
    }
}

/// `-` and nothing but `v`, once at least.
fn verbose_flags(arg: &str) -> (r: bool)
    ensures
        r == is_verbose_flags(arg@),
        r ==> arg@.len() >= 2,
{
    proof {
        reveal_strlit("-v");
        reveal_strlit("-");
    }
    match text::strip_prefix(arg, "-") {
        Some(flags) => {
            let r: bool = flags.unicode_len() > 0 && text::consists_of(flags, 'v');
            proof {
                assert(flags@ =~= arg@.skip(1));
                assert(arg@.take(1)[0] == '-');
                if r {
                    assert(flags@[0] == 'v');
                    assert(arg@.take(2) =~= "-v"@);
                    assert forall|i: int| 1 <= i < arg@.len() implies arg@[i] == 'v' by {
                        assert(flags@[i - 1] == 'v');
                    }
                }
                if is_verbose_flags(arg@) {
                    assert(arg@.take(2)[1] == 'v');
                    assert forall|i: int| 0 <= i < flags@.len() implies flags@[i] == 'v' by {
                        assert(arg@[i + 1] == 'v');
                    }
                }
            }
            r
        },
        None => {
            proof {
                if text::begins(arg@, "-v"@) {
                    assert(arg@.take(1)[0] == arg@.take(2)[0]);
                    assert(arg@.take(1) =~= "-"@);
                }
            }
            false
        },
    }
}

/// Reads the arguments of a command line, the program's own name left out.
pub fn parse_args(args: &Vec<String>) -> (result: Result<Parsed, String>)
    ensures
        reports(result, parsed(texts(args@), ConfigState::initial())),
{
    let ghost all = texts(args@);
    let mut predict_mode: PredictMode = PredictMode::Auto;
    let mut log_file: Option<String> = None;
    let mut verbose: u8 = 0;
    let mut i: usize = 0;
    assert(all.skip(0) =~= all);
    while i < args.len()
        invariant
            all == texts(args@),
            i <= args@.len(),
            parsed(all, ConfigState::initial()) == parsed(
                all.skip(i as int),
                ConfigState {
                    command: Seq::empty(),
                    predict_mode,
                    log_file: match log_file {
                        Some(file) => Some(file@),
                        None => None,
                    },
                    verbose,
                },
            ),
        decreases args@.len() - i,
    {
        let ghost rest = all.skip(i as int);
        let arg: &str = args[i].as_str();
        proof {
            assert(rest[0] == arg@);
            assert(rest.skip(1) =~= all.skip(i + 1));
            if i + 1 < args@.len() {
                assert(rest[1] == args@[i + 1]@);
                assert(rest.skip(2) =~= all.skip(i + 2));
            }
        }
        if text::same(arg, "-h") || text::same(arg, "--help") {
            return Ok(Parsed::Help);
        } else if text::same(arg, "-V") || text::same(arg, "--version") {
            return Ok(Parsed::Version);
        } else if text::same(arg, "--verbose") {
            verbose = verbose.saturating_add(1);
        } else if text::same(arg, "--log") {
            i += 1;
            if i >= args.len() {
                return Err("--log requires a file path".to_owned());
            }
            log_file = Some(args[i].clone());
        } else if text::same(arg, "-p") || text::same(arg, "--predict") {
            i += 1;
            if i >= args.len() {
                return Err("--predict requires a mode: always, auto, never".to_owned());
            }
            match PredictMode::from_str(args[i].as_str()) {
                Ok(mode) => {
                    predict_mode = mode;
                },
                Err(message) => {
                    return Err(message);
                },
            }
        } else if let Some(given) = text::strip_prefix(arg, "--predict=") {
            match PredictMode::from_str(given) {
                Ok(mode) => {
                    predict_mode = mode;
                },
                Err(message) => {
                    return Err(message);
                },
            }
        } else if let Some(given) = text::strip_prefix(arg, "-p=") {
            match PredictMode::from_str(given) {
                Ok(mode) => {
                    predict_mode = mode;
                },
                Err(message) => {
                    return Err(message);
                },
            }
        } else if verbose_flags(arg) {
            verbose = verbose.saturating_add(count_flags(arg));
        } else if text::strip_prefix(arg, "-").is_some() {
            let mut message: String = "Unknown option: ".to_owned();
            message.append(arg);
            message.append(". Try 'lep --help'");
            return Err(message);
        } else {
            let command: Vec<String> = arguments_from(args, i);
            return Ok(Parsed::Run(Config { command, predict_mode, log_file, verbose }));
        }
        i += 1;
    }
    Err("No command specified".to_owned())
}

/// `run` is the rest of the arguments from one on that does not begin with a dash.
pub open spec fn is_command_of(args: Seq<Seq<char>>, run: Seq<Seq<char>>) -> bool {
    exists|k: int|
        0 <= k < args.len() && run == #[trigger] args.skip(k) && !text::begins(args[k], "-"@)
}

/// A command line that runs something runs the arguments from the first that is
/// no option on, as they stand, and that one does not begin with a dash.
pub proof fn law_command_is_the_rest(args: Seq<Seq<char>>, config: ConfigState)
    ensures
        parsed(args, config) matches Outcome::Run(run) ==> is_command_of(args, run.command),
    decreases args.len(), 1nat,
{
    if args.len() > 0 {
        let arg = args[0];
        if arg == "-h"@ || arg == "--help"@ || arg == "-V"@ || arg == "--version"@ {
        } else if arg == "--verbose"@ {
            lemma_command_behind(args, 1, config.louder(1));
        } else if arg == "--log"@ {
            if args.len() >= 2 {
                lemma_command_behind(
                    args,
                    2,
                    ConfigState { log_file: Some(args[1]), ..config },
                );
            }
        } else if arg == "-p"@ || arg == "--predict"@ {
            if args.len() >= 2 {
                if let Some(mode) = mode_named(text::lowercase(args[1])) {
                    lemma_command_behind(args, 2, ConfigState { predict_mode: mode, ..config });
                }
            }
        } else if text::begins(arg, "--predict="@) {
            let given = arg.skip("--predict="@.len() as int);
            if let Some(mode) = mode_named(text::lowercase(given)) {
                lemma_command_behind(args, 1, ConfigState { predict_mode: mode, ..config });
            }
        } else if text::begins(arg, "-p="@) {
            let given = arg.skip("-p="@.len() as int);
            if let Some(mode) = mode_named(text::lowercase(given)) {
                lemma_command_behind(args, 1, ConfigState { predict_mode: mode, ..config });
            }
        } else if is_verbose_flags(arg) {
            lemma_command_behind(args, 1, config.louder(flag_count(arg)));
        } else if !text::begins(arg, "-"@) {
            assert(args.skip(0) =~= args);
        }
    }
}

/// The command behind some options is the command of the whole line.
proof fn lemma_command_behind(args: Seq<Seq<char>>, n: int, config: ConfigState)
    requires
        1 <= n <= args.len(),
    ensures
        parsed(args.skip(n), config) matches Outcome::Run(run) ==> is_command_of(
            args,
            run.command,
        ),
    decreases args.len(), 0nat,
{
    law_command_is_the_rest(args.skip(n), config);
    if let Outcome::Run(run) = parsed(args.skip(n), config) {
        let rest = args.skip(n);
        let k = choose|k: int|
            0 <= k < rest.len() && run.command == #[trigger] rest.skip(k) && !text::begins(
                rest[k],
                "-"@,
            );
        assert(rest.skip(k) =~= args.skip(n + k));
        assert(rest[k] == args[n + k]);
    }
}

/// The ASCII lower case of a text has no upper case left.
proof fn lemma_lowercase_twice(name: Seq<char>)
    requires
        vstd::utf8::is_ascii_chars(name),
    ensures
        text::lowercase(text::lowercase(name)) == text::lowercase(name),
{
    let lower = text::lowercase(name);
    assert forall|i: int| 0 <= i < lower.len() implies 0 <= #[trigger] lower[i] < 128
        && text::ascii_lower(lower[i]) == lower[i] by {
        assert(0 <= name[i] < 128);
        assert(lower[i] == text::ascii_lower(name[i]));
    }
    assert(vstd::utf8::is_ascii_chars(lower));
    assert(text::lowercase(lower) =~= lower);
}

/// An ASCII name and its lower case name the same mode, or both none.
pub proof fn law_mode_ignores_case(name: Seq<char>)
    requires
        vstd::utf8::is_ascii_chars(name),
    ensures
        mode_named(text::lowercase(text::lowercase(name))) == mode_named(text::lowercase(name)),
{
    lemma_lowercase_twice(name);
}

/// Each option word is itself and no other, and none is a run of `v`.
proof fn lemma_words()
    ensures
        "-h"@.len() == 2 && "-h"@[0] == '-' && "-h"@[1] == 'h',
        "--help"@.len() == 6 && "--help"@[1] == '-' && "--help"@[2] == 'h',
        "-V"@.len() == 2 && "-V"@[0] == '-' && "-V"@[1] == 'V',
        "--version"@.len() == 9 && "--version"@[1] == '-' && "--version"@[2] == 'v'
            && "--version"@[5] == 's',
        "--verbose"@.len() == 9 && "--verbose"@[0] == '-' && "--verbose"@[1] == '-'
            && "--verbose"@[2] == 'v' && "--verbose"@[5] == 'b',
        "--log"@.len() == 5 && "--log"@[0] == '-' && "--log"@[1] == '-',
        "-p"@.len() == 2 && "-p"@[0] == '-' && "-p"@[1] == 'p',
        "--predict"@.len() == 9 && "--predict"@[0] == '-' && "--predict"@[1] == '-'
            && "--predict"@[2] == 'p',
        "--predict="@.len() == 10 && "--predict="@[0] == '-' && "--predict="@[1] == '-'
            && "--predict="@[2] == 'p' && "--predict="@[9] == '=',
        "-p="@.len() == 3 && "-p="@[0] == '-' && "-p="@[1] == 'p' && "-p="@[2] == '=',
        "-v"@.len() == 2 && "-v"@[0] == '-' && "-v"@[1] == 'v',
        "-"@.len() == 1 && "-"@[0] == '-',
{
    reveal_strlit("-h");
    reveal_strlit("--help");
    reveal_strlit("-V");
    reveal_strlit("--version");
    reveal_strlit("--verbose");
    reveal_strlit("--log");
    reveal_strlit("-p");
    reveal_strlit("--predict");
    reveal_strlit("--predict=");
    reveal_strlit("-p=");
    reveal_strlit("-v");
    reveal_strlit("-");
}

/// The mode names are `always`, `auto` and `never`, with `none` and `off` for the
/// last, and there are no others.
pub proof fn law_mode_names(name: Seq<char>)
    ensures
        mode_named(seq!['a', 'l', 'w', 'a', 'y', 's']) == Some(PredictMode::Always),
        mode_named(seq!['a', 'u', 't', 'o']) == Some(PredictMode::Auto),
        mode_named(seq!['n', 'e', 'v', 'e', 'r']) == Some(PredictMode::Never),
        mode_named(seq!['n', 'o', 'n', 'e']) == Some(PredictMode::Never),
        mode_named(seq!['o', 'f', 'f']) == Some(PredictMode::Never),
        mode_named(name) is Some ==> name == seq!['a', 'l', 'w', 'a', 'y', 's'] || name == seq![
            'a',
            'u',
            't',
            'o',
        ] || name == seq!['n', 'e', 'v', 'e', 'r'] || name == seq!['n', 'o', 'n', 'e'] || name
            == seq!['o', 'f', 'f'],
{
    reveal_strlit("always");
    reveal_strlit("auto");
    reveal_strlit("never");
    reveal_strlit("none");
    reveal_strlit("off");
    assert("always"@ =~= seq!['a', 'l', 'w', 'a', 'y', 's']);
    assert("auto"@ =~= seq!['a', 'u', 't', 'o']);
    assert("never"@ =~= seq!['n', 'e', 'v', 'e', 'r']);
    assert("none"@ =~= seq!['n', 'o', 'n', 'e']);
    assert("off"@ =~= seq!['o', 'f', 'f']);
    assert("none"@[0] == 'n' && "auto"@[0] == 'a');
}

/// Before any argument was read, predictions follow the measurements, nothing is
/// logged, and there is no log file and no command.
pub proof fn law_defaults()
    ensures
        ConfigState::initial().predict_mode == PredictMode::Auto,
        ConfigState::initial().verbose == 0,
        ConfigState::initial().log_file is None,
        ConfigState::initial().command.len() == 0,
        parsed(Seq::empty(), ConfigState::initial()) == Outcome::Failed("No command specified"@),
{
}

/// Help and version are asked for by these words, and nothing behind them counts.
pub proof fn law_help_and_version(rest: Seq<Seq<char>>, config: ConfigState)
    ensures
        parsed(seq!["-h"@] + rest, config) is Help,
        parsed(seq!["--help"@] + rest, config) is Help,
        parsed(seq!["-V"@] + rest, config) is Version,
        parsed(seq!["--version"@] + rest, config) is Version,
{
    lemma_words();
    assert((seq!["-h"@] + rest)[0] == "-h"@);
    assert((seq!["--help"@] + rest)[0] == "--help"@);
    assert((seq!["-V"@] + rest)[0] == "-V"@);
    assert((seq!["--version"@] + rest)[0] == "--version"@);
}

/// `--verbose` and each `v` behind a dash make the log one louder, up to a limit;
/// what follows is read as if it stood alone.
pub proof fn law_verbose(flags: Seq<char>, rest: Seq<Seq<char>>, config: ConfigState)
    requires
        flags.len() >= 2,
        flags[0] == '-',
        forall|i: int| 1 <= i < flags.len() ==> flags[i] == 'v',
    ensures
        parsed(seq![flags] + rest, config) == parsed(
            rest,
            ConfigState {
                verbose: if config.verbose + flags.len() - 1 > 255 {
                    255
                } else {
                    (config.verbose + flags.len() - 1) as u8
                },
                ..config
            },
        ),
        parsed(seq!["--verbose"@] + rest, config) == parsed(
            rest,
            ConfigState {
                verbose: if config.verbose == 255 {
                    255
                } else {
                    (config.verbose + 1) as u8
                },
                ..config
            },
        ),
{
    lemma_words();
    let args = seq![flags] + rest;
    let word = seq!["--verbose"@] + rest;
    assert(args[0] == flags);
    assert(args.skip(1) =~= rest);
    assert(word[0] == "--verbose"@);
    assert(word.skip(1) =~= rest);
    assert(flags[1] == 'v');
    assert(flags.take(2) =~= "-v"@);
    if text::begins(flags, "--predict="@) {
        assert(flags.take(10)[1] == flags[1]);
    }
    if text::begins(flags, "-p="@) {
        assert(flags.take(3)[1] == flags[1]);
    }
    let louder = config.louder(flag_count(flags));
    assert(louder =~= (ConfigState {
        verbose: if config.verbose + flags.len() - 1 > 255 {
            255
        } else {
            (config.verbose + flags.len() - 1) as u8
        },
        ..config
    }));
    assert(config.louder(1) =~= (ConfigState {
        verbose: if config.verbose == 255 {
            255
        } else {
            (config.verbose + 1) as u8
        },
        ..config
    }));
}

/// `--log` takes the argument behind it for the log file, whatever it is, and
/// fails without one.
pub proof fn law_log_file(file: Seq<char>, rest: Seq<Seq<char>>, config: ConfigState)
    ensures
        parsed(seq!["--log"@, file] + rest, config) == parsed(
            rest,
            ConfigState { log_file: Some(file), ..config },
        ),
        parsed(seq!["--log"@], config) == Outcome::Failed("--log requires a file path"@),
{
    lemma_words();
    let args = seq!["--log"@, file] + rest;
    assert(args[0] == "--log"@);
    assert(args[1] == file);
    assert(args.skip(2) =~= rest);
    assert(seq!["--log"@][0] == "--log"@);
}

/// The mode stands behind `-p` or `--predict`, in the next argument or behind an
/// equals sign, in upper or lower case. A mode that does not exist is named in
/// the message, and a missing one is asked for.
pub proof fn law_predict_mode(name: Seq<char>, rest: Seq<Seq<char>>, config: ConfigState)
    ensures
        ({
            let outcome = match mode_named(text::lowercase(name)) {
                Some(mode) => parsed(rest, ConfigState { predict_mode: mode, ..config }),
                None => Outcome::Failed(
                    "Invalid predict mode '"@ + name + "'. Use: always, auto, never"@,
                ),
            };
            &&& parsed(seq!["-p"@, name] + rest, config) == outcome
            &&& parsed(seq!["--predict"@, name] + rest, config) == outcome
            &&& parsed(seq!["-p="@ + name] + rest, config) == outcome
            &&& parsed(seq!["--predict="@ + name] + rest, config) == outcome
        }),
        parsed(seq!["-p"@], config) == Outcome::Failed(
            "--predict requires a mode: always, auto, never"@,
        ),
        parsed(seq!["--predict"@], config) == Outcome::Failed(
            "--predict requires a mode: always, auto, never"@,
        ),
{
    lemma_words();
    let a = seq!["-p"@, name] + rest;
    let b = seq!["--predict"@, name] + rest;
    let short = "-p="@ + name;
    let long = "--predict="@ + name;
    let c = seq![short] + rest;
    let d = seq![long] + rest;
    assert(a[0] == "-p"@ && a[1] == name && a.skip(2) =~= rest);
    assert(b[0] == "--predict"@ && b[1] == name && b.skip(2) =~= rest);
    assert(c[0] == short && c.skip(1) =~= rest);
    assert(d[0] == long && d.skip(1) =~= rest);
    assert(short.take(3) =~= "-p="@);
    assert(long.take(10) =~= "--predict="@);
    assert(short.skip(3) =~= name);
    assert(long.skip(10) =~= name);
    assert(short[1] == 'p' && long[1] == '-' && long[2] == 'p');
    if text::begins(short, "--predict="@) {
        assert(short.take(10)[1] == short[1]);
    }
    assert(seq!["-p"@][0] == "-p"@);
    assert(seq!["--predict"@][0] == "--predict"@);
}

/// An argument without a dash in front is the command, and all that follow are
/// its arguments, whatever they look like.
pub proof fn law_command(name: Seq<char>, rest: Seq<Seq<char>>, config: ConfigState)
    requires
        name.len() == 0 || name[0] != '-',
    ensures
        parsed(seq![name] + rest, config) == Outcome::Run(
            ConfigState { command: seq![name] + rest, ..config },
        ),
{
    lemma_words();
    let args = seq![name] + rest;
    assert(args[0] == name);
    if name.len() > 0 {
        assert("--help"@[0] == '-' && "--version"@[0] == '-') by {
            reveal_strlit("--help");
            reveal_strlit("--version");
        }
        if text::begins(name, "-"@) {
            assert(name.take(1)[0] == name[0]);
        }
        if text::begins(name, "-v"@) {
            assert(name.take(2)[0] == name[0]);
        }
        if text::begins(name, "-p="@) {
            assert(name.take(3)[0] == name[0]);
        }
        if text::begins(name, "--predict="@) {
            assert(name.take(10)[0] == name[0]);
        }
    }
}

/// Any other argument with a dash in front is refused and named in the message.
pub proof fn law_unknown_option(arg: Seq<char>, rest: Seq<Seq<char>>, config: ConfigState)
    requires
        arg.len() > 0,
        arg[0] == '-',
        arg != "-h"@ && arg != "--help"@ && arg != "-V"@ && arg != "--version"@ && arg
            != "--verbose"@ && arg != "--log"@ && arg != "-p"@ && arg != "--predict"@,
        !("-p="@.is_prefix_of(arg)) && !("--predict="@.is_prefix_of(arg)),
        arg.len() == 1 || exists|i: int| 1 <= i < arg.len() && arg[i] != 'v',
    ensures
        parsed(seq![arg] + rest, config) == Outcome::Failed(
            "Unknown option: "@ + arg + ". Try 'lep --help'"@,
        ),
{
    lemma_words();
    let args = seq![arg] + rest;
    assert(args[0] == arg);
    assert(arg.take(1) =~= "-"@);
    if text::begins(arg, "-p="@) {
        assert("-p="@.is_prefix_of(arg));
    }
    if text::begins(arg, "--predict="@) {
        assert("--predict="@.is_prefix_of(arg));
    }
}

/// A result says what the command line comes to: the very command and settings,
/// or the reason why it is wrong.
pub proof fn law_results_are_exact(result: Result<Parsed, String>, outcome: Outcome)
    requires
        reports(result, outcome),
    ensures
        match result {
            Ok(Parsed::Help) => outcome is Help,
            Ok(Parsed::Version) => outcome is Version,
            Ok(Parsed::Run(run)) => outcome matches Outcome::Run(config) && {
                &&& run.predict_mode == config.predict_mode
                &&& run.verbose == config.verbose
                &&& run.log_file is Some <==> config.log_file is Some
                &&& run.log_file matches Some(file) ==> config.log_file == Some(file@)
                &&& run.command@.len() == config.command.len()
                &&& forall|i: int|
                    0 <= i < config.command.len() ==> (#[trigger] run.command@[i])@
                        == config.command[i]
            },
            Err(message) => outcome == Outcome::Failed(message@),
        },
{
    if let Ok(Parsed::Run(run)) = result {
        if let Outcome::Run(config) = outcome {
            assert(texts(run.command@) == config.command);
            assert forall|i: int| 0 <= i < config.command.len() implies (
            #[trigger] run.command@[i])@ == config.command[i] by {
                assert(texts(run.command@)[i] == run.command@[i]@);
            }
        }
    }
}

} // verus!
