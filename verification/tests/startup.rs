use wezterm_gui::command::{
    bad_startup_args, choose_command, merge_options, parsed_command, run, serial_plan,
    ssh_options, ssh_plan,
    Chosen, ConnectCommand, Launch,
    LsFontsCommand, SerialCommand, ShowKeysCommand, SshCommand, SshOption, SshTarget,
    StartCommand, SubCommand,
};
use wezterm_gui::startup::{
    after_domain_spawn_step, after_fill_step, after_startup_step, async_run_terminal_gui,
    connect_to_auto_connect_domains, default_domain, event_failure,
    gui_sock_name, have_panes_in_domain_and_ws, invalid_domain,
    maybe_show_configuration_error_window, missing_default_domain, missing_window,
    named_domain, run_show_keys,
    setup_mux, spawn_command_plan, spawn_tab_in_domain_if_mux_is_empty, terminate_with_error,
    tab_to_activate, DomainInfo, DomainSpawnPhase, FillOutcome, FillPhase, ShowKeys, StartupNext,
    StartupStep,
};
use wezterm_gui::workspace::{workspace_on_empty, SWITCH_TO_NON_EMPTY_WORKSPACE_ON_EMPTY};

fn s(text: &str) -> String {
    text.to_string()
}

fn start() -> StartCommand<String, u8> {
    StartCommand {
        no_auto_connect: false,
        always_new_process: false,
        new_tab: true,
        cwd: Some(s("/tmp")),
        _cmd: false,
        class: Some(s("cls")),
        workspace: None,
        position: None,
        domain: None,
        attach: false,
        prog: vec![s("vim")],
    }
}

#[test]
fn blocking_start_asks_for_a_new_process() {
    match choose_command(Some(SubCommand::BlockingStart(start())), &vec![]) {
        Chosen::Run(SubCommand::Start(c)) => {
            assert!(c.always_new_process);
            assert!(c.new_tab);
            assert_eq!(c.prog, vec![s("vim")]);
            assert_eq!(c.cwd, Some(s("/tmp")));
            assert_eq!(c.class, Some(s("cls")));
        }
        _ => panic!("not a start"),
    }
}

#[test]
fn given_command_is_kept() {
    match choose_command(Some(SubCommand::Start(start())), &vec![s("x")]) {
        Chosen::Run(SubCommand::Start(c)) => assert!(!c.always_new_process),
        _ => panic!("not a start"),
    }
}

#[test]
fn configured_arguments_stand_in_for_a_command() {
    match choose_command::<String, u8>(None, &vec![s("start"), s("--attach")]) {
        Chosen::ParseArgv(argv) => {
            assert_eq!(argv, vec![s("wezterm-gui"), s("start"), s("--attach")])
        }
        Chosen::Run(_) => panic!("nothing was given"),
    }
}

#[test]
fn bad_configured_arguments_are_named() {
    let args = vec![s("sta\"rt"), s("--x")];
    let message = format!("parsing the default_gui_startup_args config: {args:?}");
    assert_eq!(bad_startup_args(&args), message);
    let failed: Result<SubCommand<String, u8>, &str> = Err("no such option");
    match parsed_command(&args, failed) {
        Err(bad) => {
            assert_eq!(bad.message, message);
            assert_eq!(bad.cause, "no such option");
        }
        Ok(_) => panic!("accepted"),
    }
    let parsed: Result<SubCommand<String, u8>, &str> = Ok(SubCommand::Start(start()));
    assert!(matches!(parsed_command(&args, parsed), Ok(SubCommand::Start(c)) if c.new_tab));
}

#[test]
fn connect_attaches_in_its_own_process() {
    let connect = ConnectCommand {
        domain_name: s("remote"),
        new_tab: true,
        class: None,
        workspace: Some(s("w")),
        position: Some(5u8),
        prog: vec![s("htop")],
    };
    match run(SubCommand::Connect(connect)) {
        Launch::Gui { start, default_domain, clear_storage } => {
            assert_eq!(start.domain, Some(s("remote")));
            assert!(start.always_new_process && start.attach && start.new_tab);
            assert!(!start.no_auto_connect && !start._cmd);
            assert_eq!(start.cwd, None);
            assert_eq!(start.workspace, Some(s("w")));
            assert_eq!(start.position, Some(5));
            assert_eq!(start.prog, vec![s("htop")]);
            assert_eq!(default_domain, Some(s("remote")));
            assert!(!clear_storage);
        }
        _ => panic!("not a GUI"),
    }
}

#[test]
fn other_commands_are_passed_on() {
    match run(SubCommand::Start(start())) {
        Launch::Gui { default_domain, clear_storage, .. } => {
            assert_eq!(default_domain, None);
            assert!(clear_storage);
        }
        _ => panic!("not a GUI"),
    }
    let keys = ShowKeysCommand { lua: true, key_table: Some(s("t")) };
    assert!(matches!(run::<String, u8>(SubCommand::ShowKeys(keys)), Launch::ShowKeys(k) if k.lua));
    let fonts =
        LsFontsCommand { list_system: true, text: None, codepoints: None, rasterize_ascii: false };
    assert!(
        matches!(run::<String, u8>(SubCommand::LsFonts(fonts)), Launch::LsFonts(f) if f.list_system)
    );
}

fn option(name: &str, value: &str) -> SshOption {
    SshOption { name: s(name), value: s(value) }
}

fn pairs(options: &Vec<SshOption>) -> Vec<(String, String)> {
    let mut out: Vec<(String, String)> =
        options.iter().map(|o| (o.name.clone(), o.value.clone())).collect();
    out.sort();
    out
}

#[test]
fn ssh_options_are_lower_case_and_the_last_one_wins() {
    let overrides =
        vec![option("Port", "22"), option("IdentityFile", "a"), option("PORT", "2222")];
    assert_eq!(
        pairs(&ssh_options(true, &overrides)),
        vec![
            (s("identityfile"), s("a")),
            (s("port"), s("2222")),
            (s("wezterm_ssh_verbose"), s("true")),
        ]
    );
    assert_eq!(
        pairs(&ssh_options(true, &vec![option("Wezterm_SSH_Verbose", "false")])),
        vec![(s("wezterm_ssh_verbose"), s("false"))]
    );
    assert_eq!(ssh_options(false, &vec![]).len(), 0);
}

#[test]
fn options_are_merged_under_the_names_given() {
    let named = vec![option("port", "22"), option("Port", "1"), option("port", "2222")];
    assert_eq!(
        pairs(&merge_options(false, &named)),
        vec![(s("Port"), s("1")), (s("port"), s("2222"))]
    );
    assert_eq!(
        pairs(&merge_options(true, &vec![])),
        vec![(s("wezterm_ssh_verbose"), s("true"))]
    );
}

#[test]
fn ssh_session_has_its_own_process() {
    let plan = ssh_plan(SshCommand {
        user_at_host_and_port: SshTarget {
            shown: s("me@host:22"),
            host_and_port: s("host:22"),
            username: Some(s("me")),
        },
        config_override: vec![],
        verbose: false,
        class: Some(s("c")),
        position: Some(1u8),
        prog: vec![s("top")],
    });
    assert_eq!(plan.name, "SSH to me@host:22");
    assert_eq!(plan.remote_address, "host:22");
    assert_eq!(plan.username, Some(s("me")));
    assert!(plan.runs_program);
    assert!(plan.start.always_new_process && plan.start.no_auto_connect);
    assert!(!plan.start.attach && !plan.start.new_tab);
    assert_eq!(plan.start.domain, None);
    assert_eq!(plan.start.prog, vec![s("top")]);
}

#[test]
fn serial_session_spawns_in_its_port() {
    let plan = serial_plan::<String, u8>(SerialCommand {
        baud: Some(9600),
        class: None,
        position: None,
        port: s("/dev/ttyUSB0"),
    });
    assert_eq!(plan.name, "Serial Port /dev/ttyUSB0");
    assert_eq!(plan.start.domain, Some(s("Serial Port /dev/ttyUSB0")));
    assert_eq!(plan.baud, Some(9600));
    assert_eq!(plan.start.prog.len(), 0);
}

#[test]
fn mux_defaults_come_from_the_nearest_source() {
    let d = setup_mux(&Some(s("cd")), &Some(s("cw")), &Some(s("d")), &None, "default");
    assert_eq!((d.domain.as_str(), d.workspace.as_str()), ("d", "cw"));
    let d = setup_mux(&None, &None, &None, &Some(s("w")), "default");
    assert_eq!((d.domain.as_str(), d.workspace.as_str()), ("local", "w"));
    let d = setup_mux(&Some(s("cd")), &None, &None, &None, "default");
    assert_eq!((d.domain.as_str(), d.workspace.as_str()), ("cd", "default"));
}

#[test]
fn complaints_are_worded() {
    assert_eq!(
        missing_default_domain("x"),
        "desired default domain 'x' was not found in mux!?"
    );
    assert_eq!(invalid_domain("x"), "invalid domain x");
    assert_eq!(missing_window(120), "failed to get mux window id 120");
    assert_eq!(gui_sock_name(0), "gui-sock-0");
    assert_eq!(
        event_failure("gui-startup", "oops"),
        "while processing gui-startup event: oops"
    );
}

#[test]
fn panes_count_in_domain_and_workspace() {
    let panes = vec![1, 2, 2];
    assert!(have_panes_in_domain_and_ws(2, &panes, &None));
    assert!(!have_panes_in_domain_and_ws(3, &panes, &None));
    let windows = Some(vec![vec![], vec![vec![1], vec![1, 2]]]);
    assert!(have_panes_in_domain_and_ws(2, &panes, &windows));
    assert!(!have_panes_in_domain_and_ws(2, &panes, &Some(vec![vec![vec![1]]])));
    assert!(!have_panes_in_domain_and_ws(2, &vec![1], &windows));
    assert!(!have_panes_in_domain_and_ws(2, &panes, &Some(vec![])));
}

#[test]
fn only_willing_client_domains_are_connected() {
    let d = |is_client, connect_automatically| DomainInfo { is_client, connect_automatically };
    let domains = vec![d(true, false), d(true, true), d(false, true), d(true, true)];
    assert_eq!(connect_to_auto_connect_domains(&domains), vec![1, 3]);
}

#[test]
fn handlers_hear_of_the_command_and_its_domain() {
    assert!(spawn_command_plan(false, &None).is_none());
    let p = spawn_command_plan(true, &None).unwrap();
    assert!(p.from_command);
    assert_eq!(p.domain, None);
    let p = spawn_command_plan(false, &Some(s("d"))).unwrap();
    assert!(!p.from_command);
    assert_eq!(p.domain, Some(s("d")));
}

#[test]
fn startup_steps_follow_the_command() {
    let mut opts = start();
    assert_eq!(
        async_run_terminal_gui(&opts),
        vec![
            StartupStep::RegisterStorage,
            StartupStep::Serve,
            StartupStep::AutoConnect,
            StartupStep::DescribeCommand,
            StartupStep::EmitGuiStartup,
            StartupStep::FillDomain { is_connecting: false },
        ]
    );
    opts.domain = Some(s("d"));
    opts.no_auto_connect = true;
    assert_eq!(
        async_run_terminal_gui(&opts),
        vec![
            StartupStep::RegisterStorage,
            StartupStep::Serve,
            StartupStep::DescribeCommand,
            StartupStep::FindDomain,
            StartupStep::EmitGuiStartup,
            StartupStep::SpawnInDomain,
            StartupStep::FillDomain { is_connecting: false },
        ]
    );
    opts.attach = true;
    assert_eq!(
        async_run_terminal_gui(&opts),
        vec![
            StartupStep::RegisterStorage,
            StartupStep::Serve,
            StartupStep::DescribeCommand,
            StartupStep::FindDomain,
            StartupStep::FillDomain { is_connecting: true },
        ]
    );
}

fn fill_course(
    is_connecting: bool,
    (before, after): (bool, bool),
    (attach, spawn): (FillOutcome, FillOutcome),
) -> (Vec<FillPhase>, FillPhase) {
    let mut phase = spawn_tab_in_domain_if_mux_is_empty(is_connecting);
    let mut out = vec![];
    loop {
        let outcome = match phase {
            FillPhase::Look => FillOutcome::Saw(before),
            FillPhase::Attach => attach,
            FillPhase::LookAgain => FillOutcome::Saw(after),
            FillPhase::Spawn => spawn,
            FillPhase::EmitGuiAttached => FillOutcome::Succeeded,
            FillPhase::Done | FillPhase::Failed => return (out, phase),
        };
        out.push(phase);
        phase = after_fill_step(phase, outcome);
    }
}

#[test]
fn domains_are_filled_once() {
    let well = (FillOutcome::Succeeded, FillOutcome::Succeeded);
    let tail = |spawns: bool| {
        let mut out = vec![FillPhase::Attach, FillPhase::LookAgain];
        if spawns {
            out.push(FillPhase::Spawn);
        }
        out.push(FillPhase::EmitGuiAttached);
        out
    };
    let looked = |rest: Vec<FillPhase>| {
        let mut out = vec![FillPhase::Look];
        out.extend(rest);
        out
    };
    let done = FillPhase::Done;
    assert_eq!(fill_course(false, (true, true), well), (vec![FillPhase::Look], done));
    assert_eq!(fill_course(false, (false, false), well), (looked(tail(true)), done));
    assert_eq!(fill_course(false, (false, true), well), (looked(tail(false)), done));
    assert_eq!(fill_course(true, (true, true), well), (tail(false), done));
    assert_eq!(fill_course(true, (true, false), well), (tail(true), done));
}

#[test]
fn failure_ends_the_filling_of_a_domain() {
    let no_attach = (FillOutcome::Failed, FillOutcome::Succeeded);
    let no_spawn = (FillOutcome::Succeeded, FillOutcome::Failed);
    assert_eq!(
        fill_course(true, (false, false), no_attach),
        (vec![FillPhase::Attach], FillPhase::Failed)
    );
    assert_eq!(
        fill_course(true, (false, false), no_spawn),
        (vec![FillPhase::Attach, FillPhase::LookAgain, FillPhase::Spawn], FillPhase::Failed)
    );
}

fn startup_course(failing: &[StartupStep]) -> (Vec<StartupStep>, StartupNext) {
    let mut opts = start();
    opts.domain = Some(s("d"));
    let steps = async_run_terminal_gui(&opts);
    let mut performed = vec![];
    let mut ok = true;
    loop {
        match after_startup_step(&steps, performed.len(), ok) {
            StartupNext::Perform(step) => {
                performed.push(step);
                ok = !failing.contains(&step);
            }
            end => return (performed, end),
        }
    }
}

#[test]
fn failure_ends_a_start_up() {
    let (all, end) = startup_course(&[]);
    assert_eq!(end, StartupNext::Finished);
    for (i, step) in all.iter().enumerate() {
        let (performed, end) = startup_course(&[*step]);
        match step {
            StartupStep::Serve | StartupStep::EmitGuiStartup => {
                assert_eq!((performed, end), (all.clone(), StartupNext::Finished));
            }
            _ => assert_eq!((performed, end), (all[..=i].to_vec(), StartupNext::Failed)),
        }
    }
    let (performed, _) = startup_course(&[StartupStep::Serve, StartupStep::AutoConnect]);
    assert_eq!(performed.last(), Some(&StartupStep::AutoConnect));
    assert!(!performed.contains(&StartupStep::EmitGuiStartup));
}

#[test]
fn domains_are_found_or_not() {
    assert_eq!(default_domain(Some(3), "d"), Ok(3));
    assert_eq!(
        default_domain(None::<u8>, "d"),
        Err(s("desired default domain 'd' was not found in mux!?"))
    );
    assert_eq!(named_domain(Some(3), "d"), Ok(3));
    assert_eq!(named_domain(None::<u8>, "d"), Err(s("invalid domain d")));
}

#[test]
fn spawning_in_a_domain_goes_step_by_step() {
    let course = [
        DomainSpawnPhase::Attach,
        DomainSpawnPhase::Spawn,
        DomainSpawnPhase::Activate,
        DomainSpawnPhase::EmitGuiAttached,
        DomainSpawnPhase::Done,
    ];
    for i in 0..4 {
        assert_eq!(after_domain_spawn_step(course[i], true), course[i + 1]);
    }
    for phase in &course[..3] {
        assert_eq!(after_domain_spawn_step(*phase, false), DomainSpawnPhase::Failed);
    }
    assert_eq!(after_domain_spawn_step(course[3], false), DomainSpawnPhase::Done);
    assert_eq!(tab_to_activate(3, Some(Some(1))), Ok(Some(1)));
    assert_eq!(tab_to_activate(3, Some(None)), Ok(None));
    assert_eq!(tab_to_activate(3, None), Err(s("failed to get mux window id 3")));
}

#[test]
fn configuration_errors_are_appended() {
    assert_eq!(terminate_with_error("bad", &vec![]), "bad");
    assert_eq!(
        terminate_with_error("bad", &vec![s("one"), s("two")]),
        "bad\nConfiguration Error: one\ntwo"
    );
    assert_eq!(maybe_show_configuration_error_window(&vec![]), None);
    assert_eq!(maybe_show_configuration_error_window(&vec![s("a"), s("b")]), Some(s("a\nb")));
}

#[test]
fn keys_are_shown_as_asked() {
    let cmd = ShowKeysCommand { lua: true, key_table: Some(s("copy_mode")) };
    assert!(matches!(run_show_keys(&cmd), ShowKeys::DumpConfig(Some(t)) if t == "copy_mode"));
    let cmd = ShowKeysCommand { lua: true, key_table: None };
    assert!(matches!(run_show_keys(&cmd), ShowKeys::DumpConfig(None)));
    let cmd = ShowKeysCommand { lua: false, key_table: None };
    assert!(matches!(run_show_keys(&cmd), ShowKeys::Tables));
}

#[test]
fn empty_workspace_gives_way_unless_switched_off() {
    assert!(SWITCH_TO_NON_EMPTY_WORKSPACE_ON_EMPTY);
    assert_eq!(workspace_on_empty(&vec![0, 0, 2, 1], 0, true), Some(2));
    assert_eq!(workspace_on_empty(&vec![0, 0, 2, 1], 0, false), None);
    assert_eq!(workspace_on_empty(&vec![1, 0, 2], 0, true), None);
    assert_eq!(workspace_on_empty(&vec![0, 0], 1, true), None);
}
