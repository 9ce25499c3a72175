//! The subcommands of the program and what each of them starts.
//!
//! Arguments of type `A` (program words, directories) and window positions of type `P`
//! are carried through as the caller has them.

use crate::text::views;
use vstd::prelude::*;

verus! {

/// Start the GUI.
pub struct StartCommand<A, P> {
    /// Do not connect to the domains that ask for it.
    pub no_auto_connect: bool,
    /// Always start a GUI in a process of its own, so that whoever started it can wait for
    /// it; no running GUI is asked.
    pub always_new_process: bool,
    /// Hand off as a tab of an open window.
    pub new_tab: bool,
    /// The directory to start in.
    pub cwd: Option<A>,
    pub _cmd: bool,
    /// The window class.
    pub class: Option<String>,
    pub workspace: Option<String>,
    pub position: Option<P>,
    /// The domain to spawn in.
    pub domain: Option<String>,
    /// Attach to the domain rather than spawn in it.
    pub attach: bool,
    /// The program to run instead of the shell.
    pub prog: Vec<A>,
}

/// Whether a command is to be built for a start command: it names a program or a directory.
pub open spec fn needs_command<A, P>(opts: StartCommand<A, P>) -> bool {
    opts.prog@.len() > 0 || opts.cwd is Some
}

/// A destination for `ssh`, with the form in which it is shown.
pub struct SshTarget {
    pub shown: String,
    pub host_and_port: String,
    pub username: Option<String>,
}

/// An option for the ssh session.
pub struct SshOption {
    pub name: String,
    pub value: String,
}

/// Establish an ssh session.
pub struct SshCommand<A, P> {
    pub user_at_host_and_port: SshTarget,
    pub config_override: Vec<SshOption>,
    pub verbose: bool,
    pub class: Option<String>,
    pub position: Option<P>,
    pub prog: Vec<A>,
}

/// Open a serial port.
pub struct SerialCommand<P> {
    pub baud: Option<usize>,
    pub class: Option<String>,
    pub position: Option<P>,
    pub port: String,
}

/// Connect to a multiplexer.
pub struct ConnectCommand<A, P> {
    pub domain_name: String,
    pub new_tab: bool,
    pub class: Option<String>,
    pub workspace: Option<String>,
    pub position: Option<P>,
    pub prog: Vec<A>,
}

/// Display information about fonts.
pub struct LsFontsCommand {
    pub list_system: bool,
    pub text: Option<String>,
    pub codepoints: Option<String>,
    pub rasterize_ascii: bool,
}

/// Show key assignments.
pub struct ShowKeysCommand {
    pub lua: bool,
    pub key_table: Option<String>,
}

pub enum SubCommand<A, P> {
    Start(StartCommand<A, P>),
    /// Start the GUI in blocking mode.
    BlockingStart(StartCommand<A, P>),
    Ssh(SshCommand<A, P>),
    Serial(SerialCommand<P>),
    Connect(ConnectCommand<A, P>),
    LsFonts(LsFontsCommand),
    ShowKeys(ShowKeysCommand),
}

/// Which subcommand to run.
pub enum Chosen<A, P> {
    Run(SubCommand<A, P>),
    /// The one that these words name, the first being the program's name.
    ParseArgv(Vec<String>),
}

/// What a subcommand comes to.
pub enum Launch<A, P> {
    /// Run the GUI, with this default domain if one is given; `clear_storage` tells whether
    /// stored blobs are dropped when it ends.
    Gui { start: StartCommand<A, P>, default_domain: Option<String>, clear_storage: bool },
    Ssh(SshCommand<A, P>),
    Serial(SerialCommand<P>),
    LsFonts(LsFontsCommand),
    ShowKeys(ShowKeysCommand),
}

/// Chooses the subcommand: the given one, or else the one that the configuration names.
/// A blocking start is a start that asks for a new process, because tools that run `-e`
/// wait for the command to finish.
pub fn choose_command<A, P>(
    given: Option<SubCommand<A, P>>,
    default_gui_startup_args: &Vec<String>,
) -> (r: Chosen<A, P>)
    ensures
        match given {
            Some(SubCommand::BlockingStart(start)) => r == Chosen::<A, P>::Run(
                SubCommand::Start(StartCommand { always_new_process: true, ..start }),
            ),
            Some(other) => r == Chosen::<A, P>::Run(other),
            None => {
                &&& r is ParseArgv
                &&& r->ParseArgv_0@.len() == default_gui_startup_args@.len() + 1
                &&& r->ParseArgv_0@[0]@ == "wezterm-gui"@
                &&& r->ParseArgv_0@.skip(1) == default_gui_startup_args@
            },
        },
        !(r matches Chosen::Run(SubCommand::BlockingStart(_))),
{
    match given {
        Some(SubCommand::BlockingStart(start)) => {
            let mut start = start;
            start.always_new_process = true;
            Chosen::Run(SubCommand::Start(start))
        },
        Some(other) => Chosen::Run(other),
        None => {
            let mut argv: Vec<String> = Vec::new();
            argv.push("wezterm-gui".to_string());
            let mut i: usize = 0;
            while i < default_gui_startup_args.len()
                invariant
                    i <= default_gui_startup_args.len(),
                    argv@.len() == i + 1,
                    argv@[0]@ == "wezterm-gui"@,
                    forall|j: int|
                        0 <= j < i ==> argv@[j + 1] == #[trigger] default_gui_startup_args@[j],
                decreases default_gui_startup_args.len() - i,
            {
                argv.push(default_gui_startup_args[i].clone());
                i = i + 1;
            }
            assert(argv@.skip(1) =~= default_gui_startup_args@) by {
                assert forall|j: int| 0 <= j < argv@.skip(1).len() implies #[trigger] argv@.skip(
                    1,
                )[j] == default_gui_startup_args@[j] by {
                    let _ = default_gui_startup_args@[j];
                }
            }
            Chosen::ParseArgv(argv)
        },
    }
}

/// What `{:?}` makes of a list of strings.
pub uninterp spec fn debug_list_text(parts: Seq<Seq<char>>) -> Seq<char>;

/// `Vec::fmt` of `std::fmt::Debug`, through `format!("{:?}", ..)`: a text that depends on the
/// strings of the list alone. How it quotes and escapes them is left unsaid.
#[verifier::external_body]
fn debug_list(parts: &Vec<String>) -> (r: String)
    ensures
        r@ == debug_list_text(views(parts@)),
{
    format!("{:?}", parts)
}

/// What is wrong when the configured start-up words name no subcommand.
pub fn bad_startup_args(default_gui_startup_args: &Vec<String>) -> (r: String)
    ensures
        r@ == "parsing the default_gui_startup_args config: "@ + debug_list_text(
            views(default_gui_startup_args@),
        ),
{
    let mut out = "parsing the default_gui_startup_args config: ".to_string();
    let shown = debug_list(default_gui_startup_args);
    out.push_str(shown.as_str());
    out
}

/// Why the configured start-up words were rejected: what to say, and the parser's own
/// complaint.
pub struct BadStartupArgs<E> {
    pub message: String,
    pub cause: E,
}

/// The subcommand to run once the configured start-up words have been parsed. Where they did
/// not parse there is none, and the complaint names the words.
pub fn parsed_command<A, P, E>(
    default_gui_startup_args: &Vec<String>,
    parsed: Result<SubCommand<A, P>, E>,
) -> (r: Result<SubCommand<A, P>, BadStartupArgs<E>>)
    ensures
        match parsed {
            Ok(sub) => r == Ok::<SubCommand<A, P>, BadStartupArgs<E>>(sub),
            Err(cause) => {
                &&& r is Err
                &&& r->Err_0.cause == cause
                &&& r->Err_0.message@ == "parsing the default_gui_startup_args config: "@
                    + debug_list_text(views(default_gui_startup_args@))
            },
        },
{
    match parsed {
        Ok(sub) => Ok(sub),
        Err(cause) => Err(
            BadStartupArgs { message: bad_startup_args(default_gui_startup_args), cause },
        ),
    }
}

/// The start command that connecting to a domain comes to.
pub open spec fn connect_start<A, P>(connect: ConnectCommand<A, P>) -> StartCommand<A, P> {
    StartCommand {
        domain: Some(connect.domain_name),
        class: connect.class,
        workspace: connect.workspace,
        position: connect.position,
        prog: connect.prog,
        new_tab: connect.new_tab,
        always_new_process: true,
        attach: true,
        _cmd: false,
        no_auto_connect: false,
        cwd: None,
    }
}

/// What a chosen subcommand starts.
pub fn run<A, P>(sub: SubCommand<A, P>) -> (r: Launch<A, P>)
    requires
        !(sub is BlockingStart),
    ensures
        match sub {
            SubCommand::Start(start) => r == (Launch::Gui {
                start,
                default_domain: None,
                clear_storage: true,
            }),
            SubCommand::Connect(connect) => r == (Launch::Gui {
                start: connect_start(connect),
                default_domain: Some(connect.domain_name),
                clear_storage: false,
            }),
            SubCommand::Ssh(ssh) => r == Launch::<A, P>::Ssh(ssh),
            SubCommand::Serial(serial) => r == Launch::<A, P>::Serial(serial),
            SubCommand::LsFonts(cmd) => r == Launch::<A, P>::LsFonts(cmd),
            SubCommand::ShowKeys(cmd) => r == Launch::<A, P>::ShowKeys(cmd),
            SubCommand::BlockingStart(_) => true,
        },
{
    match sub {
        SubCommand::Start(start) | SubCommand::BlockingStart(start) => Launch::Gui {
            start,
            default_domain: None,
            clear_storage: true,
        },
        SubCommand::Ssh(ssh) => Launch::Ssh(ssh),
        SubCommand::Serial(serial) => Launch::Serial(serial),
        SubCommand::Connect(connect) => {
            let domain_name = connect.domain_name.clone();
            Launch::Gui {
                start: StartCommand {
                    domain: Some(connect.domain_name),
                    class: connect.class,
                    workspace: connect.workspace,
                    position: connect.position,
                    prog: connect.prog,
                    new_tab: connect.new_tab,
                    always_new_process: true,
                    attach: true,
                    _cmd: false,
                    no_auto_connect: false,
                    cwd: None,
                },
                default_domain: Some(domain_name),
                clear_storage: false,
            }
        },
        SubCommand::LsFonts(cmd) => Launch::LsFonts(cmd),
        SubCommand::ShowKeys(cmd) => Launch::ShowKeys(cmd),
    }
}

/// What `str::to_lowercase` makes of a text.
pub uninterp spec fn lowercase(s: Seq<char>) -> Seq<char>;

/// `str::to_lowercase` maps a text to its lower-case form by Unicode's rules, which depend
/// on the text alone.
pub assume_specification[ str::to_lowercase ](s: &str) -> (r: String)
    ensures
        r@ == lowercase(s@),
;

/// No option is there twice.
pub open spec fn names_distinct(options: Seq<SshOption>) -> bool {
    forall|i: int, j: int|
        0 <= i < j < options.len() ==> (#[trigger] options[i]).name@ != (
        #[trigger] options[j]).name@
}

/// Whether option `name` has value `value`.
pub open spec fn has_option(options: Seq<SshOption>, name: Seq<char>, value: Seq<char>) -> bool {
    exists|i: int|
        0 <= i < options.len() && (#[trigger] options[i]).name@ == name && options[i].value@
            == value
}

/// Whether `options` holds exactly the entries of `map`, each once.
pub open spec fn holds(options: Seq<SshOption>, map: Map<Seq<char>, Seq<char>>) -> bool {
    &&& names_distinct(options)
    &&& forall|name: Seq<char>, value: Seq<char>| #[trigger]
        has_option(options, name, value) <==> map.contains_pair(name, value)
}

/// The options that a session has before any override: the verbosity, where asked for.
pub open spec fn initial_options(verbose: bool) -> Map<Seq<char>, Seq<char>> {
    if verbose {
        Map::empty().insert("wezterm_ssh_verbose"@, "true"@)
    } else {
        Map::empty()
    }
}

/// The options of a session with the first `n` of `named` applied, on top of the verbosity
/// that was asked for. A later one wins.
pub open spec fn merged_map(verbose: bool, named: Seq<SshOption>, n: int) -> Map<
    Seq<char>,
    Seq<char>,
>
    decreases n,
{
    if n <= 0 {
        initial_options(verbose)
    } else {
        merged_map(verbose, named, n - 1).insert(named[n - 1].name@, named[n - 1].value@)
    }
}

/// The options of a session with its first `n` overrides applied, on top of the verbosity
/// that was asked for. Names count in lower case and a later one wins.
pub open spec fn option_map(verbose: bool, overrides: Seq<SshOption>, n: int) -> Map<
    Seq<char>,
    Seq<char>,
>
    decreases n,
{
    if n <= 0 {
        initial_options(verbose)
    } else {
        option_map(verbose, overrides, n - 1).insert(
            lowercase(overrides[n - 1].name@),
            overrides[n - 1].value@,
        )
    }
}

/// Whether `named` holds the first `n` overrides with their names in lower case.
pub open spec fn lowers(named: Seq<SshOption>, overrides: Seq<SshOption>, n: int) -> bool {
    &&& named.len() == n
    &&& forall|i: int|
        0 <= i < n ==> (#[trigger] named[i]).name@ == lowercase(overrides[i].name@)
            && named[i].value@ == overrides[i].value@
}

proof fn lemma_lowered_map(
    verbose: bool,
    named: Seq<SshOption>,
    overrides: Seq<SshOption>,
    n: int,
)
    requires
        lowers(named, overrides, named.len() as int),
        n <= named.len(),
    ensures
        merged_map(verbose, named, n) == option_map(verbose, overrides, n),
    decreases n,
{
    if n > 0 {
        lemma_lowered_map(verbose, named, overrides, n - 1);
        assert(named[n - 1].name@ == lowercase(overrides[n - 1].name@));
    }
}

/// Sets option `name` to `value`.
fn set_option(options: &mut Vec<SshOption>, name: String, value: String, Ghost(map): Ghost<
    Map<Seq<char>, Seq<char>>,
>)
    requires
        holds(old(options)@, map),
    ensures
        holds(final(options)@, map.insert(name@, value@)),
{
    let mut i: usize = 0;
    while i < options.len() && options[i].name != name
        invariant
            i <= options.len(),
            options@ == old(options)@,
            forall|j: int| 0 <= j < i ==> (#[trigger] options@[j]).name@ != name@,
        ensures
            i <= options.len(),
            options@ == old(options)@,
            forall|j: int| 0 <= j < i ==> (#[trigger] options@[j]).name@ != name@,
            i < options.len() ==> options@[i as int].name@ == name@,
        decreases options.len() - i,
    {
        i = i + 1;
    }
    let ghost before = options@;
    let ghost at = i as int;
    let ghost wanted = map.insert(name@, value@);
    let ghost name_view = name@;
    let ghost value_view = value@;
    let entry = SshOption { name, value };
    if i < options.len() {
        options.set(i, entry);
    } else {
        options.push(entry);
    }
    proof {
        let after = options@;
        assert(after[at].name@ == name_view && after[at].value@ == value_view);
        assert forall|j: int| 0 <= j < after.len() && j != at implies #[trigger] after[j]
            == before[j] && 0 <= j < before.len() by {}
        assert(names_distinct(after));
        assert forall|n: Seq<char>, v: Seq<char>| #[trigger] has_option(after, n, v)
            <==> wanted.contains_pair(n, v) by {
            assert(has_option(before, n, v) <==> map.contains_pair(n, v));
            if has_option(after, n, v) {
                let j = choose|j: int|
                    0 <= j < after.len() && (#[trigger] after[j]).name@ == n && after[j].value@
                        == v;
                if j != at {
                    assert(before[j].name@ == n);
                    assert(has_option(before, n, v));
                    assert(n != name_view);
                }
            }
            if wanted.contains_pair(n, v) {
                if n == name_view {
                    assert(after[at].name@ == n && after[at].value@ == v);
                } else {
                    assert(map.contains_pair(n, v));
                    let j = choose|j: int|
                        0 <= j < before.len() && (#[trigger] before[j]).name@ == n
                            && before[j].value@ == v;
                    assert(j != at);
                    assert(after[j] == before[j]);
                }
            }
        }
    }
}

/// The options of a session whose overrides are `named`, under names that count as they
/// stand: each name once, with the last value that it was given.
pub fn merge_options(verbose: bool, named: &Vec<SshOption>) -> (r: Vec<SshOption>)
    ensures
        holds(r@, merged_map(verbose, named@, named@.len() as int)),
{
    let mut options: Vec<SshOption> = Vec::new();
    proof {
        assert forall|n: Seq<char>, v: Seq<char>| #[trigger] has_option(options@, n, v)
            <==> Map::<Seq<char>, Seq<char>>::empty().contains_pair(n, v) by {}
    }
    if verbose {
        set_option(
            &mut options,
            "wezterm_ssh_verbose".to_string(),
            "true".to_string(),
            Ghost(Map::empty()),
        );
    }
    let mut i: usize = 0;
    while i < named.len()
        invariant
            i <= named.len(),
            holds(options@, merged_map(verbose, named@, i as int)),
        decreases named.len() - i,
    {
        set_option(
            &mut options,
            named[i].name.clone(),
            named[i].value.clone(),
            Ghost(merged_map(verbose, named@, i as int)),
        );
        i = i + 1;
    }
    options
}

/// The options of an ssh session.
pub fn ssh_options(verbose: bool, overrides: &Vec<SshOption>) -> (r: Vec<SshOption>)
    ensures
        holds(r@, option_map(verbose, overrides@, overrides@.len() as int)),
{
    let mut named: Vec<SshOption> = Vec::new();
    let mut i: usize = 0;
    while i < overrides.len()
        invariant
            i <= overrides.len(),
            lowers(named@, overrides@, i as int),
        decreases overrides.len() - i,
    {
        let name = overrides[i].name.as_str().to_lowercase();
        let value = overrides[i].value.clone();
        named.push(SshOption { name, value });
        i = i + 1;
    }
    proof {
        lemma_lowered_map(verbose, named@, overrides@, named@.len() as int);
    }
    merge_options(verbose, &named)
}

/// Of several overrides of one option, whatever the case of its name, the last one counts;
/// that holds for the option that asks for verbosity too.
pub proof fn law_last_override_counts(
    verbose: bool,
    overrides: Seq<SshOption>,
    n: int,
    i: int,
)
    requires
        0 <= i < n <= overrides.len(),
        forall|j: int|
            i < j < n ==> lowercase((#[trigger] overrides[j]).name@) != lowercase(
                overrides[i].name@,
            ),
    ensures
        option_map(verbose, overrides, n).contains_pair(
            lowercase(overrides[i].name@),
            overrides[i].value@,
        ),
    decreases n,
{
    if i < n - 1 {
        law_last_override_counts(verbose, overrides, n - 1, i);
        let _ = overrides[n - 1];
    }
}

/// An ssh session to open.
pub struct SshPlan<A, P> {
    /// The name of the domain.
    pub name: String,
    pub remote_address: String,
    pub username: Option<String>,
    pub options: Vec<SshOption>,
    pub start: StartCommand<A, P>,
    /// Whether the words of `start.prog` are run rather than the remote shell.
    pub runs_program: bool,
}

/// The start command of a session that has its own process and no other domains.
pub open spec fn session_start<A, P>(
    class: Option<String>,
    position: Option<P>,
    prog: Vec<A>,
    domain: Option<String>,
) -> StartCommand<A, P> {
    StartCommand {
        always_new_process: true,
        class,
        cwd: None,
        no_auto_connect: true,
        position,
        workspace: None,
        prog,
        domain,
        attach: false,
        new_tab: false,
        _cmd: false,
    }
}

/// The session that an ssh command opens.
pub fn ssh_plan<A, P>(opts: SshCommand<A, P>) -> (r: SshPlan<A, P>)
    ensures
        r.name@ == "SSH to "@ + opts.user_at_host_and_port.shown@,
        r.remote_address == opts.user_at_host_and_port.host_and_port,
        r.username == opts.user_at_host_and_port.username,
        holds(
            r.options@,
            option_map(opts.verbose, opts.config_override@, opts.config_override@.len() as int),
        ),
        r.start == session_start(opts.class, opts.position, opts.prog, None),
        r.runs_program == (opts.prog@.len() > 0),
{
    let mut name = "SSH to ".to_string();
    name.push_str(opts.user_at_host_and_port.shown.as_str());
    let options = ssh_options(opts.verbose, &opts.config_override);
    let runs_program = opts.prog.len() > 0;
    SshPlan {
        name,
        remote_address: opts.user_at_host_and_port.host_and_port,
        username: opts.user_at_host_and_port.username,
        options,
        start: StartCommand {
            always_new_process: true,
            class: opts.class,
            cwd: None,
            no_auto_connect: true,
            position: opts.position,
            workspace: None,
            prog: opts.prog,
            domain: None,
            attach: false,
            new_tab: false,
            _cmd: false,
        },
        runs_program,
    }
}

/// A serial port to open.
pub struct SerialPlan<A, P> {
    /// The name of the domain.
    pub name: String,
    pub port: String,
    pub baud: Option<usize>,
    pub start: StartCommand<A, P>,
}

/// The session that a serial command opens: it is spawned in the domain of the port.
pub fn serial_plan<A, P>(opts: SerialCommand<P>) -> (r: SerialPlan<A, P>)
    ensures
        r.name@ == "Serial Port "@ + opts.port@,
        r.port == opts.port,
        r.baud == opts.baud,
        r.start.prog@.len() == 0,
        r.start == session_start(opts.class, opts.position, r.start.prog, Some(r.name)),
{
    let mut name = "Serial Port ".to_string();
    name.push_str(opts.port.as_str());
    SerialPlan {
        start: StartCommand {
            always_new_process: true,
            class: opts.class,
            cwd: None,
            no_auto_connect: true,
            position: opts.position,
            workspace: None,
            prog: Vec::new(),
            domain: Some(name.clone()),
            attach: false,
            new_tab: false,
            _cmd: false,
        },
        name,
        port: opts.port,
        baud: opts.baud,
    }
}

/// Whether a command is built depends on the program and the directory alone: either is enough.
pub proof fn law_program_or_directory_needs_a_command<A, P>(opts: StartCommand<A, P>)
    ensures
        opts.prog@.len() > 0 ==> needs_command(opts),
        opts.cwd is Some ==> needs_command(opts),
        opts.prog@.len() == 0 && opts.cwd is None ==> !needs_command(opts),
{
}

/// Connecting to a domain attaches to it in a process of its own, and takes the rest from the
/// command; a session has its own process and no other domains, and takes the rest from its
/// command too.
pub proof fn law_sessions_keep_what_was_asked_for<A, P>(
    connect: ConnectCommand<A, P>,
    class: Option<String>,
    position: Option<P>,
    prog: Vec<A>,
    domain: Option<String>,
)
    ensures
        ({
            let start = connect_start(connect);
            &&& start.domain == Some(connect.domain_name)
            &&& start.attach && start.always_new_process && !start.no_auto_connect
            &&& start.new_tab == connect.new_tab
            &&& start.class == connect.class
            &&& start.workspace == connect.workspace
            &&& start.position == connect.position
            &&& start.prog == connect.prog
            &&& start.cwd is None && !start._cmd
        }),
        ({
            let start = session_start(class, position, prog, domain);
            &&& start.always_new_process && start.no_auto_connect
            &&& !start.attach && !start.new_tab && !start._cmd
            &&& start.class == class
            &&& start.position == position
            &&& start.prog == prog
            &&& start.domain == domain
            &&& start.workspace is None && start.cwd is None
        }),
{
}

/// Nothing but what was asked for is among the options: each is an override, or else the
/// verbosity; and the verbosity is there where it was asked for, unless it is overridden.
pub proof fn law_options_are_the_overrides_and_verbosity(
    verbose: bool,
    overrides: Seq<SshOption>,
    n: int,
    name: Seq<char>,
)
    requires
        0 <= n <= overrides.len(),
    ensures
        option_map(verbose, overrides, n).dom().contains(name) ==> (verbose && name
            == "wezterm_ssh_verbose"@) || exists|i: int|
            0 <= i < n && lowercase((#[trigger] overrides[i]).name@) == name,
        verbose && (forall|i: int|
            0 <= i < n ==> lowercase((#[trigger] overrides[i]).name@) != "wezterm_ssh_verbose"@)
            ==> option_map(verbose, overrides, n).contains_pair("wezterm_ssh_verbose"@, "true"@),
    decreases n,
{
    if n > 0 {
        law_options_are_the_overrides_and_verbosity(verbose, overrides, n - 1, name);
        let _ = overrides[n - 1];
    }
}

/// Under names that count as they stand, the last value given to a name is the one it has;
/// names that nothing was given are not there, but for the verbosity.
pub proof fn law_merging_keeps_the_last_value(
    verbose: bool,
    named: Seq<SshOption>,
    n: int,
    i: int,
    name: Seq<char>,
)
    requires
        0 <= n <= named.len(),
    ensures
        0 <= i < n && (forall|j: int| i < j < n ==> (#[trigger] named[j]).name@ != named[i].name@)
            ==> merged_map(verbose, named, n).contains_pair(named[i].name@, named[i].value@),
        (forall|j: int| 0 <= j < n ==> (#[trigger] named[j]).name@ != name) ==> (merged_map(
            verbose,
            named,
            n,
        ).dom().contains(name) <==> verbose && name == "wezterm_ssh_verbose"@),
        (forall|j: int| 0 <= j < n ==> (#[trigger] named[j]).name@ != "wezterm_ssh_verbose"@)
            && verbose ==> merged_map(verbose, named, n).contains_pair(
            "wezterm_ssh_verbose"@,
            "true"@,
        ),
    decreases n,
{
    if n > 0 {
        law_merging_keeps_the_last_value(verbose, named, n - 1, i, name);
        let _ = named[n - 1];
    }
}

/// A list of options that holds a map has each name of it once, with its value, and no other.
pub proof fn law_option_list_holds_its_map(
    options: Seq<SshOption>,
    map: Map<Seq<char>, Seq<char>>,
    name: Seq<char>,
    i: int,
    j: int,
)
    requires
        holds(options, map),
    ensures
        0 <= i < options.len() ==> map.contains_pair(options[i].name@, options[i].value@),
        0 <= i < j < options.len() ==> options[i].name@ != options[j].name@,
        map.dom().contains(name) ==> exists|k: int|
            0 <= k < options.len() && (#[trigger] options[k]).name@ == name && options[k].value@
                == map[name],
{
    if 0 <= i < options.len() {
        assert(has_option(options, options[i].name@, options[i].value@));
    }
    if map.dom().contains(name) {
        assert(map.contains_pair(name, map[name]));
        assert(has_option(options, name, map[name]));
    }
}

/// A subcommand that was given is run as it was given, but that a blocking start asks for a new
/// process and changes in nothing else; without one the configured words are parsed, all of
/// them and in order, behind the program's name.
pub proof fn law_given_command_is_run<A, P>(
    given: Option<SubCommand<A, P>>,
    default_gui_startup_args: Vec<String>,
    chosen: Chosen<A, P>,
    i: int,
)
    requires
        call_ensures(choose_command::<A, P>, (given, &default_gui_startup_args), chosen),
    ensures
        given is None <==> chosen is ParseArgv,
        given matches Some(SubCommand::BlockingStart(start)) ==> {
            &&& chosen matches Chosen::Run(SubCommand::Start(run))
            &&& run.always_new_process
            &&& run == (StartCommand { always_new_process: true, ..start })
        },
        given matches Some(sub) ==> (!(sub is BlockingStart) ==> chosen == Chosen::Run(sub)),
        given is None ==> {
            let argv = chosen->ParseArgv_0@;
            &&& argv.len() == default_gui_startup_args@.len() + 1
            &&& argv[0]@ == "wezterm-gui"@
            &&& 0 <= i < default_gui_startup_args@.len() ==> argv[i + 1]@
                == default_gui_startup_args@[i]@
        },
{
    if given is None && 0 <= i < default_gui_startup_args@.len() {
        assert(chosen->ParseArgv_0@.skip(1)[i] == chosen->ParseArgv_0@[i + 1]);
    }
}

/// What a subcommand starts: a start and a connection start the GUI, a connection attached to
/// its domain, which is then the default; only a plain start drops stored blobs; every other
/// subcommand is passed on as it is.
pub proof fn law_subcommand_starts_its_own<A, P>(sub: SubCommand<A, P>, launch: Launch<A, P>)
    requires
        !(sub is BlockingStart),
        call_ensures(run::<A, P>, (sub,), launch),
    ensures
        launch is Gui <==> sub is Start || sub is Connect,
        sub matches SubCommand::Start(start) ==> launch == (Launch::Gui {
            start,
            default_domain: None,
            clear_storage: true,
        }),
        sub matches SubCommand::Connect(connect) ==> {
            &&& launch->Gui_default_domain == Some(connect.domain_name)
            &&& launch->Gui_start.domain == Some(connect.domain_name)
            &&& launch->Gui_start.attach && launch->Gui_start.always_new_process
            &&& launch->Gui_start.prog == connect.prog
            &&& !launch->Gui_clear_storage
        },
        sub matches SubCommand::Ssh(ssh) ==> launch == Launch::<A, P>::Ssh(ssh),
        sub matches SubCommand::Serial(serial) ==> launch == Launch::<A, P>::Serial(serial),
        sub matches SubCommand::LsFonts(cmd) ==> launch == Launch::<A, P>::LsFonts(cmd),
        sub matches SubCommand::ShowKeys(cmd) ==> launch == Launch::<A, P>::ShowKeys(cmd),
{
}

/// A session is opened to what its command names: an ssh session to its host, as its user, with
/// its program, and a serial session to its port at its speed, spawned in the port's own domain.
pub proof fn law_session_goes_where_its_command_says<A, P>(
    ssh: SshCommand<A, P>,
    ssh_session: SshPlan<A, P>,
    serial: SerialCommand<P>,
    serial_session: SerialPlan<A, P>,
)
    requires
        call_ensures(ssh_plan::<A, P>, (ssh,), ssh_session),
        call_ensures(serial_plan::<A, P>, (serial,), serial_session),
    ensures
        ssh_session.remote_address == ssh.user_at_host_and_port.host_and_port,
        ssh_session.username == ssh.user_at_host_and_port.username,
        ssh_session.start.prog == ssh.prog,
        ssh_session.runs_program <==> ssh.prog@.len() > 0,
        ssh_session.start.domain is None,
        ssh_session.start.class == ssh.class,
        ssh_session.start.position == ssh.position,
        serial_session.port == serial.port,
        serial_session.baud == serial.baud,
        serial_session.start.domain == Some(serial_session.name),
        serial_session.start.class == serial.class,
        serial_session.start.position == serial.position,
        serial_session.start.prog@.len() == 0,
{
}

} // verus!
