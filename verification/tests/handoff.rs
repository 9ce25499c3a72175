use std::path::PathBuf;
use wezterm_gui::command::StartCommand;
use wezterm_gui::handoff::{
    command_plan, handoff_attributes, run_terminal_gui, stays_alone, wants_new_process, CommandPlan,
    CwdPlan, HandoffPhase, HandoffReply,
};
use wezterm_gui::handoff_otel::{
    event, finish_init, init, resource_attributes, set_attr, set_error, shutdown, AttrValue,
    HandoffSpan, InitStep, KeyValue, Provider, SpanRecord, DEFAULT_ENDPOINT, TRACER_NAME,
};
use wezterm_gui::pane_tree::{find_window, PaneEntry, PaneTree};
use wezterm_gui::publish::{choose_name, GuiSock, Publish, ResolveStep};
use wezterm_gui::try_spawn::{
    handoff_request, spawn_request, HandoffRequest, PathReport, SpawnPhase, SpawnReply,
    SpawnTabDomain, VersionReport, DIFFERENT_CONFIG, DIFFERENT_EXECUTABLE,
};

fn value_text(v: &AttrValue) -> String {
    match v {
        AttrValue::Text(s) => s.clone(),
        AttrValue::Int(n) => format!("{n}"),
        AttrValue::Bool(b) => format!("{b}"),
    }
}

fn show(r: &SpanRecord) -> String {
    match r {
        SpanRecord::Event(name, attrs) => {
            let attrs: Vec<String> =
                attrs.iter().map(|kv| format!("{}={}", kv.key, value_text(&kv.value))).collect();
            format!("{name}[{}]", attrs.join(","))
        }
        SpanRecord::Attr(kv) => format!("{}={}", kv.key, value_text(&kv.value)),
        SpanRecord::Error(e) => format!("error:{e}"),
    }
}

fn show_all(rs: &Vec<SpanRecord>) -> Vec<String> {
    rs.iter().map(show).collect()
}

fn sock(path: &str) -> GuiSock {
    GuiSock { path: PathBuf::from(path), shown: path.to_string() }
}

fn trying(path: &str) -> Publish {
    Publish::TryPathOrPublish(sock(path))
}

fn report(exe: bool, cfg: bool) -> VersionReport {
    VersionReport {
        executable: PathReport {
            same: exe,
            server: "\"/a\"".to_string(),
            ours: "\"/b\"".to_string(),
        },
        config_file: PathReport {
            same: cfg,
            server: "None".to_string(),
            ours: "Some(\"/c\")".to_string(),
        },
    }
}

fn start() -> StartCommand<String, u8> {
    StartCommand {
        no_auto_connect: false,
        always_new_process: false,
        new_tab: false,
        cwd: None,
        _cmd: false,
        class: None,
        workspace: None,
        position: None,
        domain: None,
        attach: false,
        prog: vec![],
    }
}

fn asked(new_tab: bool, prefer_to_spawn_tabs: bool) -> HandoffRequest<u32> {
    let opts = StartCommand { new_tab, ..start() };
    handoff_request(&opts, None, prefer_to_spawn_tabs, &None, "default")
}

#[test]
fn domain_mismatch_means_no_handoff() {
    let configured = Some("unix".to_string());
    match Publish::resolve(&"local".to_string(), &configured, false, false) {
        ResolveStep::Decided(p, r) => {
            assert_eq!(p.variant_name(), "NoConnectNoPublish");
            assert!(!p.should_publish());
            assert_eq!(
                show(&r),
                "publish.resolve[variant=NoConnectNoPublish,\
                 reason=mux_vs_config_default_domain_mismatch,\
                 mux.default_domain=local,config.default_domain=Some(\"unix\")]"
            );
        }
        ResolveStep::LookUpGuiSock => panic!("undecided"),
    }
}

#[test]
fn unset_default_domain_is_local() {
    assert!(matches!(
        Publish::resolve(&"local".to_string(), &None, false, false),
        ResolveStep::LookUpGuiSock
    ));
    match Publish::resolve(&"ssh".to_string(), &None, true, true) {
        ResolveStep::Decided(_, r) => assert!(show(&r).ends_with("config.default_domain=None]")),
        ResolveStep::LookUpGuiSock => panic!("undecided"),
    }
}

#[test]
fn new_process_and_overridden_config_are_reasons() {
    let local = "local".to_string();
    for (always, overridden, reason) in
        [(true, true, "always_new_process"), (false, true, "config_overridden")]
    {
        match Publish::resolve(&local, &Some(local.clone()), always, overridden) {
            ResolveStep::Decided(p, r) => {
                assert_eq!(p.variant_name(), "NoConnectNoPublish");
                assert_eq!(
                    show(&r),
                    format!("publish.resolve[variant=NoConnectNoPublish,reason={reason}]")
                );
            }
            ResolveStep::LookUpGuiSock => panic!("undecided"),
        }
    }
}

#[test]
fn looked_up_socket_is_tried_or_ours_is_published() {
    let (p, r) = Publish::resolve_gui_sock(Ok(sock("/run/gui")));
    assert_eq!(p.variant_name(), "TryPathOrPublish");
    assert!(p.should_publish());
    assert_eq!(show(&r), "publish.resolve[variant=TryPathOrPublish,gui_sock=/run/gui]");
    let (p, r) = Publish::resolve_gui_sock(Err("no link".to_string()));
    assert_eq!(p.variant_name(), "NoConnectButPublish");
    assert!(p.should_publish());
    assert_eq!(
        show(&r),
        "publish.resolve[variant=NoConnectButPublish,reason=resolve_gui_sock_path_failed,\
         error=no link]"
    );
}

#[test]
fn attempt_is_skipped_without_a_socket() {
    let (phase, records) = Publish::NoConnectNoPublish.try_spawn();
    assert_eq!(phase, SpawnPhase::Done(false));
    assert_eq!(show_all(&records), vec!["try_spawn.skipped[publish_variant=NoConnectNoPublish]"]);
    let (phase, records) = Publish::NoConnectButPublish.try_spawn();
    assert_eq!(phase, SpawnPhase::Done(false));
    assert_eq!(show_all(&records), vec!["try_spawn.skipped[publish_variant=NoConnectButPublish]"]);
}

#[test]
fn accepted_attempt_runs_through_all_phases() {
    let mut p = trying("/s");
    let (phase, records) = p.try_spawn();
    assert_eq!(phase, SpawnPhase::Connect);
    assert_eq!(show_all(&records), vec!["try_spawn.connect_attempt[gui_sock=/s]"]);
    let (phase, _) = p.try_spawn_reply(phase, &asked(false, true), SpawnReply::Connected(Ok(())));
    assert_eq!(phase, SpawnPhase::Verify);
    let (phase, _) =
        p.try_spawn_reply(phase, &asked(false, true), SpawnReply::Verified(Ok(report(true, true))));
    assert_eq!(phase, SpawnPhase::ResolvePane);
    let request = asked(false, true);
    let (phase, _) = p.try_spawn_reply(phase, &request, SpawnReply::PaneResolved(Some(4)));
    assert_eq!(phase, SpawnPhase::ListPanes(4));
    let tabs = vec![
        PaneTree::Empty,
        PaneTree::Split(
            Box::new(PaneTree::Leaf(PaneEntry { pane_id: 3, window_id: 8 })),
            Box::new(PaneTree::Leaf(PaneEntry { pane_id: 4, window_id: 9 })),
        ),
    ];
    let (phase, records) =
        p.try_spawn_reply(phase, &request, SpawnReply::PanesListed(Ok(tabs)));
    assert_eq!(phase, SpawnPhase::Spawn(Some(9)));
    assert_eq!(records.len(), 0);
    let (phase, records) =
        p.try_spawn_reply(phase, &request, SpawnReply::Spawned(Ok("SpawnResponse".to_string())));
    assert_eq!(phase, SpawnPhase::Done(true));
    assert_eq!(
        show_all(&records),
        vec!["try_spawn.handoff_ok[spawn_response=SpawnResponse]"]
    );
    assert_eq!(p.variant_name(), "TryPathOrPublish");
}

#[test]
fn a_new_window_needs_no_pane() {
    let mut p = trying("/s");
    let (phase, _) = p.try_spawn_reply(SpawnPhase::Verify, &asked(false, false),
        SpawnReply::Verified(Ok(report(true, true))),
    );
    assert_eq!(phase, SpawnPhase::Spawn(None));
    let (phase, _) =
        p.try_spawn_reply(
            SpawnPhase::ResolvePane,
            &asked(true, false),
            SpawnReply::PaneResolved(None),
        );
    assert_eq!(phase, SpawnPhase::Spawn(None));
}

#[test]
fn connect_failure_is_reported() {
    let mut p = trying("/s");
    let (phase, records) = p.try_spawn_reply(SpawnPhase::Connect, &asked(false, false),
        SpawnReply::Connected(Err("refused".to_string())),
    );
    assert_eq!(phase, SpawnPhase::Done(false));
    assert_eq!(
        show_all(&records),
        vec![
            "try_spawn.handoff_failed[cause=connect_failed,gui_sock=/s,error=refused]".to_string(),
            "error:refused".to_string(),
        ]
    );
    assert_eq!(p.variant_name(), "TryPathOrPublish");
}

#[test]
fn mismatches_switch_publishing_off() {
    let mut p = trying("/s");
    let (phase, records) = p.try_spawn_reply(SpawnPhase::Verify, &asked(false, false),
        SpawnReply::Verified(Ok(report(false, false))),
    );
    assert_eq!(phase, SpawnPhase::Done(false));
    assert_eq!(
        show_all(&records),
        vec![
            "try_spawn.version_mismatch[kind=executable_path,server=\"/a\",ours=\"/b\"]"
                .to_string(),
            format!(
                "try_spawn.handoff_failed[cause=spawn_v2_error,error={DIFFERENT_EXECUTABLE}]"
            ),
            format!("error:{DIFFERENT_EXECUTABLE}"),
        ]
    );
    assert!(!p.should_publish());

    let mut p = trying("/s");
    let (_, records) = p.try_spawn_reply(SpawnPhase::Verify, &asked(true, false),
        SpawnReply::Verified(Ok(report(true, false))),
    );
    assert_eq!(
        show(&records[0]),
        "try_spawn.version_mismatch[kind=config_file_path,server=None,ours=Some(\"/c\")]"
    );
    assert_eq!(show(&records[2]), format!("error:{DIFFERENT_CONFIG}"));
    assert!(!p.should_publish());
}

#[test]
fn later_failures_end_the_attempt_and_keep_the_decision() {
    for (phase, reply) in [
        (SpawnPhase::Verify, SpawnReply::Verified(Err("e".to_string()))),
        (SpawnPhase::ListPanes(1), SpawnReply::PanesListed(Err("e".to_string()))),
        (SpawnPhase::Spawn(None), SpawnReply::Spawned(Err("e".to_string()))),
    ] {
        let mut p = trying("/s");
        let (next, records) = p.try_spawn_reply(phase, &asked(true, true), reply);
        assert_eq!(next, SpawnPhase::Done(false));
        assert_eq!(
            show_all(&records),
            vec![
                "try_spawn.handoff_failed[cause=spawn_v2_error,error=e]".to_string(),
                "error:e".to_string(),
            ]
        );
        assert!(p.should_publish());
    }
}

#[test]
fn the_first_pane_with_the_id_counts() {
    let leaf = |pane_id, window_id| PaneTree::Leaf(PaneEntry { pane_id, window_id });
    let tabs = vec![
        PaneTree::Split(
            Box::new(PaneTree::Split(Box::new(leaf(1, 10)), Box::new(leaf(2, 20)))),
            Box::new(leaf(3, 30)),
        ),
        leaf(2, 99),
    ];
    assert_eq!(find_window(&tabs, 2), Some(20));
    assert_eq!(find_window(&tabs, 3), Some(30));
    assert_eq!(find_window(&tabs, 4), None);
    assert_eq!(find_window(&vec![], 4), None);
}

#[test]
fn request_is_made_from_the_start_command() {
    let some = |s: &str| Some(s.to_string());
    let mut opts = start();
    opts.domain = some("d");
    opts.workspace = some("w");
    opts.new_tab = true;
    opts.prog = vec!["vim".to_string()];
    let request = handoff_request(&opts, Some(7), false, &some("c"), "default");
    assert!(request.new_tab && !request.prefer_to_spawn_tabs);
    let sent = spawn_request(&request, Some(11));
    assert!(matches!(sent.domain, SpawnTabDomain::DomainName(n) if n == "d"));
    assert_eq!(sent.window_id, Some(11));
    assert_eq!(*sent.command, Some(7));
    assert_eq!(sent.command_dir, None);
    assert_eq!(sent.workspace, "w");
    let again = spawn_request(&request, None);
    assert_eq!(again.window_id, None);
    assert_eq!(again.command, sent.command);
    assert_eq!(again.workspace, sent.workspace);
}

#[test]
fn workspace_of_a_request_falls_back() {
    let configured = Some("c".to_string());
    let request = handoff_request(&start(), None::<u32>, true, &configured, "default");
    assert_eq!(request.workspace, "c");
    assert_eq!(request.command, None);
    assert!(matches!(request.domain, SpawnTabDomain::DefaultDomain));
    let request = handoff_request(&start(), None::<u32>, true, &None, "default");
    assert_eq!(request.workspace, "default");
    assert_eq!(choose_name(&None, &None, "x"), "x");
}

#[test]
fn tab_is_asked_for_in_the_window_of_the_current_pane() {
    let leaf = |pane_id, window_id| Box::new(PaneTree::Leaf(PaneEntry { pane_id, window_id }));
    let tabs = vec![
        PaneTree::Split(leaf(1, 10), leaf(2, 10)),
        PaneTree::Split(leaf(4, 11), leaf(3, 11)),
    ];
    let mut p = trying("/s");
    let (phase, _) = p.try_spawn_reply(
        SpawnPhase::ListPanes(3),
        &asked(true, false),
        SpawnReply::PanesListed(Ok(tabs)),
    );
    assert_eq!(phase, SpawnPhase::Spawn(Some(11)));
}

#[test]
fn paths_are_compared() {
    let s = |text: &str| text.to_string();
    let a = PathBuf::from("/a");
    let b = PathBuf::from("/b");
    let r = PathReport::of_paths(&a, &a, s("x"), s("y"));
    assert!(r.same);
    assert_eq!((r.server.as_str(), r.ours.as_str()), ("x", "y"));
    assert!(!PathReport::of_paths(&a, &b, s(""), s("")).same);
    let opt = |server: &Option<PathBuf>, ours: &Option<PathBuf>| {
        PathReport::of_optional_paths(server, ours, s(""), s("")).same
    };
    assert!(opt(&None, &None));
    assert!(!opt(&Some(a.clone()), &None));
    assert!(!opt(&None, &Some(a.clone())));
    assert!(opt(&Some(a.clone()), &Some(a.clone())));
    assert!(!opt(&Some(a), &Some(b)));
}

#[test]
fn accepted_first_attempt_exits() {
    let (phase, records) = run_terminal_gui(
        HandoffPhase::FirstTry,
        &vec![],
        &trying("/s"),
        false,
        HandoffReply::Tried(true),
    );
    assert_eq!(phase, HandoffPhase::Exit);
    assert_eq!(show_all(&records), vec!["handoff.outcome=handoff_ok_exit"]);
}

#[test]
fn empty_sweep_is_a_cold_start() {
    let p = Publish::NoConnectButPublish;
    let (phase, records) =
        run_terminal_gui(HandoffPhase::FirstTry, &vec![], &p, false, HandoffReply::Tried(false));
    assert_eq!(phase, HandoffPhase::Sweep);
    assert_eq!(records.len(), 0);
    let (phase, records) = run_terminal_gui(phase, &vec![], &p, false, HandoffReply::Swept);
    assert_eq!(phase, HandoffPhase::ColdStart(true));
    assert_eq!(
        show_all(&records),
        vec![
            "fresh_gui_fallthrough.sweep[survivors=0]",
            "handoff.outcome=fresh_gui_frontend",
            "handoff.should_publish=true",
        ]
    );
}

#[test]
fn second_survivor_takes_the_request() {
    let survivors = vec![sock("/1"), sock("/2"), sock("/3")];
    let p = Publish::NoConnectNoPublish;
    let (phase, records) =
        run_terminal_gui(HandoffPhase::Sweep, &survivors, &p, false, HandoffReply::Swept);
    assert_eq!(phase, HandoffPhase::Retry(0));
    assert_eq!(show_all(&records), vec!["fresh_gui_fallthrough.sweep[survivors=3]"]);
    let (phase, records) =
        run_terminal_gui(phase, &survivors, &p, false, HandoffReply::Tried(false));
    assert_eq!(phase, HandoffPhase::Retry(1));
    assert_eq!(records.len(), 0);
    let (phase, _) = run_terminal_gui(phase, &survivors, &p, false, HandoffReply::Tried(true));
    assert_eq!(phase, HandoffPhase::Republish(1));
    let (phase, records) =
        run_terminal_gui(phase, &survivors, &p, false, HandoffReply::Republished);
    assert_eq!(phase, HandoffPhase::Exit);
    assert_eq!(
        show_all(&records),
        vec![
            "fresh_gui_fallthrough.survivor_handoff[survivor_sock=/2]",
            "handoff.outcome=survivor_handoff_ok_exit",
        ]
    );
}

#[test]
fn cold_start_after_every_survivor_failed() {
    let survivors = vec![sock("/1"), sock("/2")];
    let p = Publish::NoConnectNoPublish;
    let (phase, records) =
        run_terminal_gui(HandoffPhase::Retry(1), &survivors, &p, false, HandoffReply::Tried(false));
    assert_eq!(phase, HandoffPhase::ColdStart(false));
    assert_eq!(
        show_all(&records),
        vec!["handoff.outcome=fresh_gui_frontend", "handoff.should_publish=false"]
    );
}

#[test]
fn new_process_is_started_whoever_else_is_alive() {
    let survivors = vec![sock("/1"), sock("/2")];
    let p = Publish::NoConnectNoPublish;
    let (attempt, _) = p.try_spawn();
    assert_eq!(attempt, SpawnPhase::Done(false));
    let (phase, records) = run_terminal_gui(
        HandoffPhase::FirstTry,
        &survivors,
        &p,
        true,
        HandoffReply::Tried(false),
    );
    assert_eq!(phase, HandoffPhase::ColdStart(false));
    assert_eq!(
        show_all(&records),
        vec!["handoff.outcome=fresh_gui_frontend", "handoff.should_publish=false"]
    );
}

#[test]
fn placed_window_still_asks_survivors() {
    let mut opts = start();
    opts.position = Some(1);
    assert!(wants_new_process(&opts));
    let alone = stays_alone(&opts, false);
    let survivors = vec![sock("/1")];
    let p = Publish::NoConnectNoPublish;
    assert_eq!(p.try_spawn().0, SpawnPhase::Done(false));
    let mut phase = HandoffPhase::FirstTry;
    for (reply, next) in [
        (HandoffReply::Tried(false), HandoffPhase::Sweep),
        (HandoffReply::Swept, HandoffPhase::Retry(0)),
        (HandoffReply::Tried(true), HandoffPhase::Republish(0)),
        (HandoffReply::Republished, HandoffPhase::Exit),
    ] {
        phase = run_terminal_gui(phase, &survivors, &p, alone, reply).0;
        assert_eq!(phase, next);
    }
}

#[test]
fn who_stays_alone() {
    let mut opts = start();
    assert!(!stays_alone(&opts, false));
    assert!(stays_alone(&opts, true));
    opts.position = Some(1);
    assert!(!stays_alone(&opts, false));
    assert!(stays_alone(&opts, true));
    opts.position = None;
    opts.always_new_process = true;
    assert!(stays_alone(&opts, false));
}

#[test]
fn commands_are_built_only_when_asked_for() {
    let mut opts = start();
    assert_eq!(command_plan(&opts, false), None);
    opts.prog.push("vim".to_string());
    assert_eq!(
        command_plan(&opts, true),
        Some(CommandPlan { uses_prog: true, cwd: CwdPlan::Unset })
    );
    opts.prog.clear();
    opts.cwd = Some("src".to_string());
    assert_eq!(
        command_plan(&opts, true),
        Some(CommandPlan { uses_prog: false, cwd: CwdPlan::BelowCurrentDir })
    );
    assert_eq!(
        command_plan(&opts, false),
        Some(CommandPlan { uses_prog: false, cwd: CwdPlan::AsGiven })
    );
}

#[test]
fn placing_the_window_wants_a_new_process() {
    let mut opts = start();
    assert!(!wants_new_process(&opts));
    opts.position = Some(1);
    assert!(wants_new_process(&opts));
    opts.position = None;
    opts.always_new_process = true;
    assert!(wants_new_process(&opts));
}

#[test]
fn span_starts_with_the_command_line() {
    let mut opts = start();
    opts.domain = Some("d".to_string());
    opts.attach = true;
    let span = HandoffSpan::start(handoff_attributes(12, "[\"wezterm-gui\"]", &opts));
    assert_eq!(span.name, "run_terminal_gui.handoff");
    let shown: Vec<String> = span
        .attributes
        .iter()
        .map(|kv| format!("{}={}", kv.key, value_text(&kv.value)))
        .collect();
    assert_eq!(
        shown,
        vec![
            "process.pid=12",
            "process.argv=[\"wezterm-gui\"]",
            "opts.domain=d",
            "opts.workspace=",
            "opts.attach=true",
            "opts.new_tab=false",
            "opts.always_new_process=false",
        ]
    );
}

#[test]
fn records_hold_what_they_are_given() {
    assert_eq!(show(&event("e", vec![KeyValue::of_int("n", -3)])), "e[n=-3]");
    assert_eq!(show(&set_attr(KeyValue::of_bool("b", true))), "b=true");
    assert_eq!(show(&set_error("boom")), "error:boom");
    assert_eq!(TRACER_NAME, "wezterm::handoff");
}

#[test]
fn disabled_exporter_stays_off() {
    let mut p = Provider::Unset;
    assert!(matches!(init(&mut p, true, &None), InitStep::Settled(false)));
    assert_eq!(p, Provider::Off);
    assert!(matches!(init(&mut p, false, &None), InitStep::Settled(false)));
    assert!(!shutdown(&p));
}

#[test]
fn exporter_is_built_once_below_the_collector() {
    let mut p = Provider::Unset;
    match init(&mut p, false, &None) {
        InitStep::Build(e) => assert_eq!(e, format!("{DEFAULT_ENDPOINT}/v1/traces")),
        InitStep::Settled(_) => panic!("settled"),
    }
    match init(&mut p, false, &Some("http://host:4318//".to_string())) {
        InitStep::Build(e) => assert_eq!(e, "http://host:4318/v1/traces"),
        InitStep::Settled(_) => panic!("settled"),
    }
    assert!(finish_init(&mut p, true));
    assert!(matches!(init(&mut p, true, &None), InitStep::Settled(true)));
    assert!(shutdown(&p));
    let mut p = Provider::Unset;
    assert!(!finish_init(&mut p, false));
    assert_eq!(p, Provider::Off);
}

#[test]
fn the_process_is_named_to_the_collector() {
    let attrs = resource_attributes(4096);
    assert_eq!(attrs[0].key, "service.name");
    assert_eq!(value_text(&attrs[0].value), "wezterm-gui");
    assert_eq!(attrs[1].key, "service.instance.id");
    assert_eq!(value_text(&attrs[1].value), "4096");
}
