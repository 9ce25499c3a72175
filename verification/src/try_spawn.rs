//! Handing a start-up request to a GUI that is already running.
//!
//! An attempt goes through phases. In each phase the caller performs one exchange with
//! the running GUI and reports the reply; the reply decides the next phase and what is
//! reported to the tracing back end.

use crate::command::{needs_command, StartCommand};
use crate::handoff_otel::{
    attr_views, event, event_record, record_views, set_error, text_kv, KeyValue, SpanRecord,
    SpanRecordView,
};
use crate::pane_tree::{
    all_panes, find_window, law_window_is_found_iff_the_pane_is_there, window_of, PaneEntry,
    PaneId, PaneTree, WindowId,
};
use crate::publish::{choose_name, first_given, option_view, Publish};
use std::path::PathBuf;
use vstd::prelude::*;
use vstd::std_specs::cmp::PartialEqSpec;

verus! {

/// What the next exchange with the running GUI is.
#[derive(Debug, Clone, Copy, PartialEq, Eq, Structural)]
pub enum SpawnPhase {
    /// Connect to its socket.
    Connect,
    /// Ask for its version, executable and configuration file.
    Verify,
    /// Ask which pane is the current one.
    ResolvePane,
    /// Ask for all panes, to find the window of this one.
    ListPanes(PaneId),
    /// Ask it to spawn, in this window or in a new one.
    Spawn(Option<WindowId>),
    /// Nothing: whether the request was handed off.
    Done(bool),
}

/// A path that the running GUI reported, against ours.
pub struct PathReport {
    pub same: bool,
    pub server: String,
    pub ours: String,
}

/// `PathBuf::eq` of `std::cmp::PartialEq`: whether two paths are equal, which depends on the
/// two paths alone; a path is equal to itself. Which paths count as equal though they are
/// written differently is the platform's to say, and is left unsaid.
#[verifier::external_body]
fn same_path(a: &PathBuf, b: &PathBuf) -> (r: bool)
    ensures
        r == a.eq_spec(b),
        *a == *b ==> r,
{
    a == b
}

impl PathReport {
    /// Compares two paths, given with the texts that show them.
    pub fn of_paths(
        server: &PathBuf,
        ours: &PathBuf,
        server_shown: String,
        ours_shown: String,
    ) -> (r: PathReport)
        ensures
            r.same == server.eq_spec(ours),
            *server == *ours ==> r.same,
            r.server == server_shown,
            r.ours == ours_shown,
    {
        PathReport { same: same_path(server, ours), server: server_shown, ours: ours_shown }
    }

    /// Compares two paths either of which may be missing: one that is there differs from one
    /// that is not, and two that are missing are the same.
    pub fn of_optional_paths(
        server: &Option<PathBuf>,
        ours: &Option<PathBuf>,
        server_shown: String,
        ours_shown: String,
    ) -> (r: PathReport)
        ensures
            r.same == match (*server, *ours) {
                (Some(server), Some(ours)) => server.eq_spec(&ours),
                (None, None) => true,
                _ => false,
            },
            *server == *ours ==> r.same,
            r.server == server_shown,
            r.ours == ours_shown,
    {
        let same = match (server, ours) {
            (Some(server), Some(ours)) => same_path(server, ours),
            (None, None) => true,
            _ => false,
        };
        PathReport { same, server: server_shown, ours: ours_shown }
    }
}

/// What the running GUI said about itself.
pub struct VersionReport {
    pub executable: PathReport,
    pub config_file: PathReport,
}

/// How an exchange with the running GUI went. Errors come as their text.
pub enum SpawnReply {
    Connected(Result<(), String>),
    Verified(Result<VersionReport, String>),
    PaneResolved(Option<PaneId>),
    PanesListed(Result<Vec<PaneTree>, String>),
    /// The response of a spawn that was accepted, as text.
    Spawned(Result<String, String>),
}

/// Which domain a tab is spawned in.
pub enum SpawnTabDomain {
    DefaultDomain,
    DomainName(String),
}

/// What a start-up asks of a running GUI, the same in every attempt. `C` is the type of a
/// command that was built.
pub struct HandoffRequest<C> {
    pub domain: SpawnTabDomain,
    /// The command to run, if one was asked for.
    pub command: Option<C>,
    pub workspace: String,
    /// Whether a tab of an open window is asked for.
    pub new_tab: bool,
    /// Whether the configuration prefers tabs of an open window.
    pub prefer_to_spawn_tabs: bool,
}

/// A request as it is sent to a running GUI.
pub struct SpawnRequest<'a, C> {
    pub domain: &'a SpawnTabDomain,
    pub window_id: Option<WindowId>,
    pub command: &'a Option<C>,
    /// A directory to run the command in, apart from the one that it names itself.
    pub command_dir: Option<String>,
    pub workspace: &'a String,
}

impl<C> HandoffRequest<C> {
    /// Whether a tab of an open window is preferred.
    pub open spec fn tabs(self) -> bool {
        self.new_tab || self.prefer_to_spawn_tabs
    }
}

pub const DIFFERENT_EXECUTABLE: &'static str =
    "Running GUI is a different executable from us, will start a new one";

pub const DIFFERENT_CONFIG: &'static str =
    "Running GUI has different config from us, will start a new one";

/// Whether `reply` answers the exchange of `phase`.
pub open spec fn fits(phase: SpawnPhase, reply: SpawnReply) -> bool {
    match phase {
        SpawnPhase::Connect => reply is Connected,
        SpawnPhase::Verify => reply is Verified,
        SpawnPhase::ResolvePane => reply is PaneResolved,
        SpawnPhase::ListPanes(_) => reply is PanesListed,
        SpawnPhase::Spawn(_) => reply is Spawned,
        SpawnPhase::Done(_) => false,
    }
}

/// Whether the running GUI turned out to be a different program or to use a different
/// configuration.
pub open spec fn is_mismatch(reply: SpawnReply) -> bool {
    reply matches SpawnReply::Verified(Ok(v)) && !(v.executable.same && v.config_file.same)
}

/// The phase after `reply`; `tabs` is whether a tab in an open window is preferred.
pub open spec fn next_phase(phase: SpawnPhase, tabs: bool, reply: SpawnReply) -> SpawnPhase {
    match reply {
        SpawnReply::Connected(Ok(_)) => SpawnPhase::Verify,
        SpawnReply::Verified(Ok(_)) if !is_mismatch(reply) => if tabs {
            SpawnPhase::ResolvePane
        } else {
            SpawnPhase::Spawn(None)
        },
        SpawnReply::PaneResolved(Some(pane_id)) => SpawnPhase::ListPanes(pane_id),
        SpawnReply::PaneResolved(None) => SpawnPhase::Spawn(None),
        SpawnReply::PanesListed(Ok(tabs)) => SpawnPhase::Spawn(
            window_of(all_panes(tabs@), phase->ListPanes_0),
        ),
        SpawnReply::Spawned(Ok(_)) => SpawnPhase::Done(true),
        _ => SpawnPhase::Done(false),
    }
}

/// What to do about a running GUI after `reply`: one that does not match us is left alone,
/// and our socket is not offered to others.
pub open spec fn next_publish(publish: Publish, reply: SpawnReply) -> Publish {
    if is_mismatch(reply) {
        Publish::NoConnectNoPublish
    } else {
        publish
    }
}

/// The records of an attempt that failed after connecting.
pub open spec fn failed_records(error: Seq<char>) -> Seq<SpanRecordView> {
    seq![
        event_record(
            "try_spawn.handoff_failed",
            seq![text_kv("cause", "spawn_v2_error"@), text_kv("error", error)],
        ),
        SpanRecordView::Error(error),
    ]
}

/// The records of a running GUI that does not match us.
pub open spec fn mismatch_records(
    kind: Seq<char>,
    report: PathReport,
    message: Seq<char>,
) -> Seq<SpanRecordView> {
    seq![
        event_record(
            "try_spawn.version_mismatch",
            seq![
                text_kv("kind", kind),
                text_kv("server", report.server@),
                text_kv("ours", report.ours@),
            ],
        ),
    ] + failed_records(message)
}

/// What is reported after `reply`.
pub open spec fn reply_records(publish: Publish, reply: SpawnReply) -> Seq<SpanRecordView> {
    match reply {
        SpawnReply::Connected(Err(error)) => seq![
            event_record(
                "try_spawn.handoff_failed",
                seq![
                    text_kv("cause", "connect_failed"@),
                    text_kv("gui_sock", publish->TryPathOrPublish_0.shown@),
                    text_kv("error", error@),
                ],
            ),
            SpanRecordView::Error(error@),
        ],
        SpawnReply::Verified(Ok(v)) => if !v.executable.same {
            mismatch_records("executable_path"@, v.executable, DIFFERENT_EXECUTABLE@)
        } else if !v.config_file.same {
            mismatch_records("config_file_path"@, v.config_file, DIFFERENT_CONFIG@)
        } else {
            Seq::empty()
        },
        SpawnReply::Verified(Err(error)) => failed_records(error@),
        SpawnReply::PanesListed(Err(error)) => failed_records(error@),
        SpawnReply::Spawned(Err(error)) => failed_records(error@),
        SpawnReply::Spawned(Ok(response)) => seq![
            event_record(
                "try_spawn.handoff_ok",
                seq![text_kv("spawn_response", response@)],
            ),
        ],
        _ => Seq::empty(),
    }
}

/// The phase in which an attempt starts, and what is reported.
pub open spec fn first_phase(publish: Publish) -> (SpawnPhase, Seq<SpanRecordView>) {
    match publish {
        Publish::TryPathOrPublish(sock) => (
            SpawnPhase::Connect,
            seq![
                event_record(
                    "try_spawn.connect_attempt",
                    seq![text_kv("gui_sock", sock.shown@)],
                ),
            ],
        ),
        _ => (
            SpawnPhase::Done(false),
            seq![
                event_record(
                    "try_spawn.skipped",
                    seq![text_kv("publish_variant", publish.variant())],
                ),
            ],
        ),
    }
}

/// The records of an attempt that failed after connecting.
fn failed(error: &str) -> (r: Vec<SpanRecord>)
    ensures
        record_views(r@) == failed_records(error@),
{
    let attrs = vec![
        KeyValue::of_text("cause", "spawn_v2_error"),
        KeyValue::of_text("error", error),
    ];
    assert(attr_views(attrs@) =~= seq![
        text_kv("cause", "spawn_v2_error"@),
        text_kv("error", error@),
    ]);
    let records = vec![event("try_spawn.handoff_failed", attrs), set_error(error)];
    assert(record_views(records@) =~= failed_records(error@));
    records
}

/// The records of a running GUI that does not match us.
fn mismatched(kind: &'static str, report: &PathReport, message: &str) -> (r: Vec<SpanRecord>)
    ensures
        record_views(r@) == mismatch_records(kind@, *report, message@),
{
    let attrs = vec![
        KeyValue::of_text("kind", kind),
        KeyValue::of_text("server", report.server.as_str()),
        KeyValue::of_text("ours", report.ours.as_str()),
    ];
    assert(attr_views(attrs@) =~= seq![
        text_kv("kind", kind@),
        text_kv("server", report.server@),
        text_kv("ours", report.ours@),
    ]);
    let mut records = vec![event("try_spawn.version_mismatch", attrs)];
    let mut rest = failed(message);
    let ghost head = records@;
    let ghost tail = rest@;
    records.append(&mut rest);
    assert(record_views(records@) =~= record_views(head) + record_views(tail));
    assert(record_views(records@) =~= mismatch_records(kind@, *report, message@));
    records
}

impl Publish {
    /// Starts an attempt to hand off: the first phase and what to report. Without a socket
    /// to try, the attempt is over at once.
    pub fn try_spawn(&self) -> (r: (SpawnPhase, Vec<SpanRecord>))
        ensures
            (r.0, record_views(r.1@)) == first_phase(*self),
    {
        match self {
            Publish::TryPathOrPublish(sock) => {
                let attrs = vec![KeyValue::of_text("gui_sock", sock.shown.as_str())];
                assert(attr_views(attrs@) =~= seq![text_kv("gui_sock", sock.shown@)]);
                let records = vec![event("try_spawn.connect_attempt", attrs)];
                assert(record_views(records@) =~= first_phase(*self).1);
                (SpawnPhase::Connect, records)
            },
            _ => {
                let attrs = vec![KeyValue::of_text("publish_variant", self.variant_name())];
                assert(attr_views(attrs@) =~= seq![text_kv("publish_variant", self.variant())]);
                let records = vec![event("try_spawn.skipped", attrs)];
                assert(record_views(records@) =~= first_phase(*self).1);
                (SpawnPhase::Done(false), records)
            },
        }
    }

    /// Takes the attempt on from `phase` with the reply to its exchange: the next phase and
    /// what to report.
    pub fn try_spawn_reply<C>(
        &mut self,
        phase: SpawnPhase,
        request: &HandoffRequest<C>,
        reply: SpawnReply,
    ) -> (r: (SpawnPhase, Vec<SpanRecord>))
        requires
            fits(phase, reply),
            phase == SpawnPhase::Connect ==> *old(self) is TryPathOrPublish,
        ensures
            r.0 == next_phase(phase, request.tabs(), reply),
            *final(self) == next_publish(*old(self), reply),
            record_views(r.1@) == reply_records(*old(self), reply),
    {
        let none: Vec<SpanRecord> = Vec::new();
        assert(record_views(none@) =~= Seq::empty());
        match reply {
            SpawnReply::Connected(Ok(_)) => (SpawnPhase::Verify, none),
            SpawnReply::Connected(Err(error)) => {
                let attrs = match self {
                    Publish::TryPathOrPublish(sock) => vec![
                        KeyValue::of_text("cause", "connect_failed"),
                        KeyValue::of_text("gui_sock", sock.shown.as_str()),
                        KeyValue::of_text("error", error.as_str()),
                    ],
                    _ => Vec::new(),
                };
                assert(attr_views(attrs@) =~= seq![
                    text_kv("cause", "connect_failed"@),
                    text_kv("gui_sock", self->TryPathOrPublish_0.shown@),
                    text_kv("error", error@),
                ]);
                let records = vec![
                    event("try_spawn.handoff_failed", attrs),
                    set_error(error.as_str()),
                ];
                assert(record_views(records@) =~= reply_records(*self, reply));
                (SpawnPhase::Done(false), records)
            },
            SpawnReply::Verified(Ok(v)) => if !v.executable.same {
                *self = Publish::NoConnectNoPublish;
                (
                    SpawnPhase::Done(false),
                    mismatched("executable_path", &v.executable, DIFFERENT_EXECUTABLE),
                )
            } else if !v.config_file.same {
                *self = Publish::NoConnectNoPublish;
                (
                    SpawnPhase::Done(false),
                    mismatched("config_file_path", &v.config_file, DIFFERENT_CONFIG),
                )
            } else if request.new_tab || request.prefer_to_spawn_tabs {
                (SpawnPhase::ResolvePane, none)
            } else {
                (SpawnPhase::Spawn(None), none)
            },
            SpawnReply::Verified(Err(error)) => (SpawnPhase::Done(false), failed(error.as_str())),
            SpawnReply::PaneResolved(Some(pane_id)) => (SpawnPhase::ListPanes(pane_id), none),
            SpawnReply::PaneResolved(None) => (SpawnPhase::Spawn(None), none),
            SpawnReply::PanesListed(Ok(tabs)) => match phase {
                SpawnPhase::ListPanes(pane_id) => (
                    SpawnPhase::Spawn(find_window(&tabs, pane_id)),
                    none,
                ),
                _ => (SpawnPhase::Done(false), none),
            },
            SpawnReply::PanesListed(Err(error)) => (
                SpawnPhase::Done(false),
                failed(error.as_str()),
            ),
            SpawnReply::Spawned(Ok(response)) => {
                let attrs = vec![KeyValue::of_text("spawn_response", response.as_str())];
                assert(attr_views(attrs@) =~= seq![text_kv("spawn_response", response@)]);
                let records = vec![event("try_spawn.handoff_ok", attrs)];
                assert(record_views(records@) =~= reply_records(*self, reply));
                (SpawnPhase::Done(true), records)
            },
            SpawnReply::Spawned(Err(error)) => (SpawnPhase::Done(false), failed(error.as_str())),
        }
    }
}

/// The domain that a tab is asked for in: the named one, or the default.
pub fn spawn_tab_domain(name: &Option<String>) -> (r: SpawnTabDomain)
    ensures
        is_domain(r, *name),
{
    match name {
        Some(name) => SpawnTabDomain::DomainName(name.clone()),
        None => SpawnTabDomain::DefaultDomain,
    }
}

/// Whether `domain` is the one that `name` names: the named one, or the default.
pub open spec fn is_domain(domain: SpawnTabDomain, name: Option<String>) -> bool {
    match name {
        Some(name) => domain is DomainName && domain->DomainName_0@ == name@,
        None => domain is DefaultDomain,
    }
}

/// Whether `request` is what the start command `opts` asks of a running GUI, with the command
/// that was built for it.
pub open spec fn asks_for<A, P, C>(
    request: HandoffRequest<C>,
    opts: StartCommand<A, P>,
    command: Option<C>,
    prefer_to_spawn_tabs: bool,
    config_default_workspace: Option<String>,
    mux_default_workspace: Seq<char>,
) -> bool {
    &&& is_domain(request.domain, opts.domain)
    &&& request.command == command
    &&& request.workspace@ == first_given(
        option_view(opts.workspace),
        option_view(config_default_workspace),
        mux_default_workspace,
    )
    &&& request.new_tab == opts.new_tab
    &&& request.prefer_to_spawn_tabs == prefer_to_spawn_tabs
}

/// What a start command asks of a running GUI. It is made once, with the command that was
/// built for the start command; the workspace is the one asked for, else the configured one,
/// else the multiplexer's own default.
pub fn handoff_request<A, P, C>(
    opts: &StartCommand<A, P>,
    command: Option<C>,
    prefer_to_spawn_tabs: bool,
    config_default_workspace: &Option<String>,
    mux_default_workspace: &str,
) -> (r: HandoffRequest<C>)
    requires
        command is Some <==> needs_command(*opts),
    ensures
        asks_for(
            r,
            *opts,
            command,
            prefer_to_spawn_tabs,
            *config_default_workspace,
            mux_default_workspace@,
        ),
{
    HandoffRequest {
        domain: spawn_tab_domain(&opts.domain),
        command,
        workspace: choose_name(&opts.workspace, config_default_workspace, mux_default_workspace),
        new_tab: opts.new_tab,
        prefer_to_spawn_tabs,
    }
}

/// Whether `sent` is `request` for the window `window_id`. No directory is sent with it.
pub open spec fn is_sent<C>(
    sent: SpawnRequest<C>,
    request: HandoffRequest<C>,
    window_id: Option<WindowId>,
) -> bool {
    &&& *sent.domain == request.domain
    &&& sent.window_id == window_id
    &&& *sent.command == request.command
    &&& sent.command_dir is None
    &&& *sent.workspace == request.workspace
}

/// The request as it is sent to a running GUI, for the window that was found there.
pub fn spawn_request<'a, C>(request: &'a HandoffRequest<C>, window_id: Option<WindowId>) -> (r:
    SpawnRequest<'a, C>)
    ensures
        is_sent(r, *request, window_id),
{
    SpawnRequest {
        domain: &request.domain,
        window_id,
        command: &request.command,
        command_dir: None,
        workspace: &request.workspace,
    }
}

/// All attempts of a start-up, the first one and every retry, send the same request but for
/// the window, which is found afresh in each GUI: the domain is the one that the start
/// command names, or the default; the workspace is the one it names, if it does; there is a
/// command exactly where the start command names a program or a directory; and whether a tab
/// is preferred is the same too.
pub proof fn law_every_attempt_sends_the_same_request<A, P, C>(
    request: HandoffRequest<C>,
    opts: StartCommand<A, P>,
    command: Option<C>,
    prefer_to_spawn_tabs: bool,
    config_default_workspace: Option<String>,
    mux_default_workspace: Seq<char>,
    sent: Seq<SpawnRequest<C>>,
    windows: Seq<Option<WindowId>>,
)
    requires
        command is Some <==> needs_command(opts),
        asks_for(
            request,
            opts,
            command,
            prefer_to_spawn_tabs,
            config_default_workspace,
            mux_default_workspace,
        ),
        sent.len() == windows.len(),
        forall|i: int| 0 <= i < sent.len() ==> is_sent(#[trigger] sent[i], request, windows[i]),
    ensures
        request.tabs() == (opts.new_tab || prefer_to_spawn_tabs),
        forall|i: int|
            #![trigger sent[i]]
            0 <= i < sent.len() ==> {
                &&& is_domain(*sent[i].domain, opts.domain)
                &&& *sent[i].command == command
                &&& sent[i].command is None <==> opts.prog@.len() == 0 && opts.cwd is None
                &&& sent[i].command_dir is None
                &&& opts.workspace is Some ==> sent[i].workspace@ == opts.workspace->0@
            },
        forall|i: int, j: int|
            #![trigger sent[i], sent[j]]
            0 <= i < sent.len() && 0 <= j < sent.len() ==> {
                &&& sent[i].domain == sent[j].domain
                &&& sent[i].command == sent[j].command
                &&& sent[i].command_dir == sent[j].command_dir
                &&& sent[i].workspace == sent[j].workspace
            },
{
}

/// Where an attempt stands after `replies`.
pub open spec fn attempt(
    publish: Publish,
    phase: SpawnPhase,
    tabs: bool,
    replies: Seq<SpawnReply>,
) -> (SpawnPhase, Publish)
    decreases replies.len(),
{
    if replies.len() == 0 {
        (phase, publish)
    } else {
        attempt(
            next_publish(publish, replies[0]),
            next_phase(phase, tabs, replies[0]),
            tabs,
            replies.drop_first(),
        )
    }
}

/// Whether each of `replies` answers the exchange of its phase.
pub open spec fn replies_fit(phase: SpawnPhase, tabs: bool, replies: Seq<SpawnReply>) -> bool
    decreases replies.len(),
{
    replies.len() == 0 || fits(phase, replies[0]) && replies_fit(
        next_phase(phase, tabs, replies[0]),
        tabs,
        replies.drop_first(),
    )
}

/// How many exchanges an attempt can still need.
pub open spec fn exchanges_left(phase: SpawnPhase) -> nat {
    match phase {
        SpawnPhase::Connect => 5,
        SpawnPhase::Verify => 4,
        SpawnPhase::ResolvePane => 3,
        SpawnPhase::ListPanes(_) => 2,
        SpawnPhase::Spawn(_) => 1,
        SpawnPhase::Done(_) => 0,
    }
}

/// Every attempt ends: each exchange brings it closer to its end, so that a handful of
/// them is enough.
pub proof fn law_attempt_ends(
    publish: Publish,
    phase: SpawnPhase,
    tabs: bool,
    replies: Seq<SpawnReply>,
)
    requires
        replies_fit(phase, tabs, replies),
    ensures
        replies.len() + exchanges_left(attempt(publish, phase, tabs, replies).0)
            <= exchanges_left(phase),
    decreases replies.len(),
{
    if replies.len() > 0 {
        law_attempt_ends(
            next_publish(publish, replies[0]),
            next_phase(phase, tabs, replies[0]),
            tabs,
            replies.drop_first(),
        );
    }
}

/// A request is handed off exactly when the running GUI accepted the spawn, and that is
/// the last thing that happens.
pub proof fn law_handed_off_iff_accepted(
    publish: Publish,
    phase: SpawnPhase,
    tabs: bool,
    replies: Seq<SpawnReply>,
)
    requires
        phase != SpawnPhase::Done(true),
        replies_fit(phase, tabs, replies),
    ensures
        attempt(publish, phase, tabs, replies).0 == SpawnPhase::Done(true) <==> (replies.len() > 0
            && replies.last() matches SpawnReply::Spawned(Ok(_))),
        forall|i: int|
            0 <= i < replies.len() - 1 ==> !(#[trigger] replies[i] is Spawned),
    decreases replies.len(),
{
    if replies.len() > 0 {
        let next = next_phase(phase, tabs, replies[0]);
        let rest = replies.drop_first();
        if replies[0] is Spawned {
            law_attempt_ends(publish, next, tabs, rest);
            assert(attempt(next_publish(publish, replies[0]), next, tabs, rest).0 == next);
        } else {
            law_handed_off_iff_accepted(next_publish(publish, replies[0]), next, tabs, rest);
            if rest.len() > 0 {
                assert(rest.last() == replies.last());
            }
            assert forall|i: int| 0 <= i < replies.len() - 1 implies !(
            #[trigger] replies[i] is Spawned) by {
                if i > 0 {
                    assert(rest[i - 1] == replies[i]);
                }
            }
        }
    }
}

/// An attempt leaves the decision about publishing alone, except when the running GUI does
/// not match us: then nothing was handed off, and our socket is not published either.
pub proof fn law_only_a_mismatch_changes_the_decision(
    publish: Publish,
    phase: SpawnPhase,
    tabs: bool,
    replies: Seq<SpawnReply>,
)
    requires
        replies_fit(phase, tabs, replies),
    ensures
        ({
            let (end, after) = attempt(publish, phase, tabs, replies);
            let mismatch = exists|i: int| 0 <= i < replies.len() && is_mismatch(
                #[trigger] replies[i],
            );
            &&& mismatch ==> after is NoConnectNoPublish && end == SpawnPhase::Done(false)
            &&& !mismatch ==> after == publish
        }),
    decreases replies.len(),
{
    if replies.len() > 0 {
        let next = next_phase(phase, tabs, replies[0]);
        let rest = replies.drop_first();
        law_only_a_mismatch_changes_the_decision(
            next_publish(publish, replies[0]),
            next,
            tabs,
            rest,
        );
        if is_mismatch(replies[0]) {
            law_attempt_ends(publish, next, tabs, rest);
        } else {
            assert forall|i: int| 0 <= i < replies.len() && is_mismatch(#[trigger] replies[i])
                implies 0 <= i - 1 < rest.len() && is_mismatch(rest[i - 1]) by {}
            assert forall|i: int| 0 <= i < rest.len() && is_mismatch(#[trigger] rest[i])
                implies is_mismatch(replies[i + 1]) by {}
        }
    }
}

/// Without a socket to try, an attempt is over before any exchange and nothing is handed
/// off.
pub proof fn law_no_socket_no_attempt(publish: Publish)
    ensures
        first_phase(publish).0 == SpawnPhase::Done(false) <==> !(publish is TryPathOrPublish),
        first_phase(publish).0 != SpawnPhase::Done(true),
{
}

/// A running GUI is asked for more only where its executable and its configuration file are
/// both the same as ours. Where either differs, the attempt ends with nothing handed off, and
/// our own socket is not published; where both are the same, the decision stays.
pub proof fn law_different_gui_is_left_alone(
    publish: Publish,
    phase: SpawnPhase,
    tabs: bool,
    v: VersionReport,
)
    ensures
        !v.executable.same ==> next_phase(phase, tabs, SpawnReply::Verified(Ok(v)))
            == SpawnPhase::Done(false) && next_publish(publish, SpawnReply::Verified(Ok(v)))
            is NoConnectNoPublish,
        !v.config_file.same ==> next_phase(phase, tabs, SpawnReply::Verified(Ok(v)))
            == SpawnPhase::Done(false) && next_publish(publish, SpawnReply::Verified(Ok(v)))
            is NoConnectNoPublish,
        v.executable.same && v.config_file.same ==> {
            let next = next_phase(phase, tabs, SpawnReply::Verified(Ok(v)));
            &&& tabs ==> next == SpawnPhase::ResolvePane
            &&& !tabs ==> next == SpawnPhase::Spawn(None)
            &&& next_publish(publish, SpawnReply::Verified(Ok(v))) == publish
        },
{
}

/// Whether a running GUI said that its executable and configuration file are both the same as
/// ours.
pub open spec fn is_match(reply: SpawnReply) -> bool {
    reply matches SpawnReply::Verified(Ok(v)) && v.executable.same && v.config_file.same
}

/// An attempt that has got as far as asking for panes or for a spawn, or that has handed off,
/// went past a reply that said that executable and configuration file are the same as ours.
pub proof fn law_only_a_matching_gui_gets_a_request(
    publish: Publish,
    phase: SpawnPhase,
    tabs: bool,
    replies: Seq<SpawnReply>,
)
    requires
        phase is Connect || phase is Verify,
        replies_fit(phase, tabs, replies),
    ensures
        ({
            let (end, _) = attempt(publish, phase, tabs, replies);
            end is ResolvePane || end is ListPanes || end is Spawn || end == SpawnPhase::Done(true)
        }) ==> exists|i: int| 0 <= i < replies.len() && is_match(#[trigger] replies[i]),
    decreases replies.len(),
{
    if replies.len() > 0 {
        let next = next_phase(phase, tabs, replies[0]);
        let after = next_publish(publish, replies[0]);
        let rest = replies.drop_first();
        if is_match(replies[0]) {
        } else if next is Verify {
            law_only_a_matching_gui_gets_a_request(after, next, tabs, rest);
            if exists|i: int| 0 <= i < rest.len() && is_match(#[trigger] rest[i]) {
                let i = choose|i: int| 0 <= i < rest.len() && is_match(#[trigger] rest[i]);
                assert(is_match(replies[i + 1]));
            }
        } else {
            assert(next == SpawnPhase::Done(false));
            law_attempt_ends(after, next, tabs, rest);
            assert(attempt(after, next, tabs, rest).0 == next);
        }
    }
}

/// Any error ends an attempt with nothing handed off, except that not knowing the current pane
/// only means a new window; no error touches the decision about publishing.
pub proof fn law_errors_end_an_attempt(
    publish: Publish,
    phase: SpawnPhase,
    tabs: bool,
    error: String,
)
    ensures
        next_phase(phase, tabs, SpawnReply::Connected(Err(error))) == SpawnPhase::Done(false),
        next_phase(phase, tabs, SpawnReply::Verified(Err(error))) == SpawnPhase::Done(false),
        next_phase(phase, tabs, SpawnReply::PanesListed(Err(error))) == SpawnPhase::Done(false),
        next_phase(phase, tabs, SpawnReply::Spawned(Err(error))) == SpawnPhase::Done(false),
        next_phase(phase, tabs, SpawnReply::PaneResolved(None)) == SpawnPhase::Spawn(None),
        next_publish(publish, SpawnReply::Connected(Err(error))) == publish,
        next_publish(publish, SpawnReply::Verified(Err(error))) == publish,
        next_publish(publish, SpawnReply::PanesListed(Err(error))) == publish,
        next_publish(publish, SpawnReply::Spawned(Err(error))) == publish,
        next_publish(publish, SpawnReply::PaneResolved(None)) == publish,
{
}

/// A tab is asked for in the window that holds the current pane, if that pane is found there;
/// else, and where tabs are not preferred, in a new window.
pub proof fn law_tab_goes_to_the_window_of_the_current_pane(
    pane_id: PaneId,
    tabs: bool,
    listed: Vec<PaneTree>,
)
    ensures
        next_phase(
            SpawnPhase::ResolvePane,
            tabs,
            SpawnReply::PaneResolved(Some(pane_id)),
        ) == SpawnPhase::ListPanes(pane_id),
        ({
            let next = next_phase(
                SpawnPhase::ListPanes(pane_id),
                tabs,
                SpawnReply::PanesListed(Ok(listed)),
            );
            let panes = all_panes(listed@);
            &&& next matches SpawnPhase::Spawn(window)
            &&& window is Some <==> exists|i: int|
                0 <= i < panes.len() && (#[trigger] panes[i]).pane_id == pane_id
            &&& window is Some ==> panes.contains(
                PaneEntry { pane_id, window_id: window->0 },
            )
        }),
{
    law_window_is_found_iff_the_pane_is_there(all_panes(listed@), pane_id);
}

/// What is reported matches how the attempt goes on: one that ends with the request handed off
/// reports that and the response, one that ends without it reports an event and marks the
/// span as failed, and one that goes on reports nothing. Of a GUI that differs, the difference
/// is reported first: the executable if that differs, else the configuration file.
pub proof fn law_the_end_of_an_attempt_is_reported(
    publish: Publish,
    phase: SpawnPhase,
    tabs: bool,
    reply: SpawnReply,
)
    requires
        fits(phase, reply),
    ensures
        ({
            let next = next_phase(phase, tabs, reply);
            let records = reply_records(publish, reply);
            &&& next == SpawnPhase::Done(true) ==> records.len() == 1 && records[0] is Event
            &&& next == SpawnPhase::Done(false) ==> records.len() >= 2 && records.last() is Error
                && records[records.len() - 2] is Event
            &&& !(next is Done) ==> records.len() == 0
            &&& reply matches SpawnReply::Verified(Ok(v)) ==> {
                &&& (!v.executable.same || !v.config_file.same) <==> records.len() == 3
                &&& !v.executable.same ==> records[0]->Event_1.contains(
                    text_kv("kind", "executable_path"@),
                ) && records.last() == SpanRecordView::Error(DIFFERENT_EXECUTABLE@)
                    && records[0]->Event_1.contains(text_kv("server", v.executable.server@))
                    && records[0]->Event_1.contains(text_kv("ours", v.executable.ours@))
                &&& v.executable.same && !v.config_file.same ==> records[0]->Event_1.contains(
                    text_kv("kind", "config_file_path"@),
                ) && records.last() == SpanRecordView::Error(DIFFERENT_CONFIG@)
                    && records[0]->Event_1.contains(text_kv("server", v.config_file.server@))
                    && records[0]->Event_1.contains(text_kv("ours", v.config_file.ours@))
            }
            &&& reply matches SpawnReply::Connected(Err(error)) ==> records.last()
                == SpanRecordView::Error(error@)
            &&& reply matches SpawnReply::Verified(Err(error)) ==> records.last()
                == SpanRecordView::Error(error@)
            &&& reply matches SpawnReply::PanesListed(Err(error)) ==> records.last()
                == SpanRecordView::Error(error@)
            &&& reply matches SpawnReply::Spawned(Err(error)) ==> records.last()
                == SpanRecordView::Error(error@)
        }),
{
    let records = reply_records(publish, reply);
    if let SpawnReply::Verified(Ok(v)) = reply {
        let report = if !v.executable.same {
            v.executable
        } else {
            v.config_file
        };
        if !v.executable.same || !v.config_file.same {
            let kind = if !v.executable.same {
                "executable_path"@
            } else {
                "config_file_path"@
            };
            let attrs = seq![
                text_kv("kind", kind),
                text_kv("server", report.server@),
                text_kv("ours", report.ours@),
            ];
            assert(records[0]->Event_1 == attrs);
            assert(attrs[0] == text_kv("kind", kind));
            assert(attrs[1] == text_kv("server", report.server@));
            assert(attrs[2] == text_kv("ours", report.ours@));
        }
    }
}

/// The request names the domain of the start command, or none; the workspace that it names,
/// else the configured one, else the multiplexer's own; and its wish for a tab.
pub proof fn law_request_says_what_the_start_command_says<A, P, C>(
    request: HandoffRequest<C>,
    opts: StartCommand<A, P>,
    command: Option<C>,
    prefer_to_spawn_tabs: bool,
    config_default_workspace: Option<String>,
    mux_default_workspace: Seq<char>,
    sent: SpawnRequest<C>,
    window_id: Option<WindowId>,
)
    requires
        asks_for(
            request,
            opts,
            command,
            prefer_to_spawn_tabs,
            config_default_workspace,
            mux_default_workspace,
        ),
        is_sent(sent, request, window_id),
    ensures
        opts.domain is None ==> sent.domain is DefaultDomain,
        opts.domain matches Some(name) ==> *sent.domain is DomainName
            && (*sent.domain)->DomainName_0@ == name@,
        opts.workspace matches Some(name) ==> sent.workspace@ == name@,
        opts.workspace is None && config_default_workspace is Some ==> sent.workspace@
            == config_default_workspace->0@,
        opts.workspace is None && config_default_workspace is None ==> sent.workspace@
            == mux_default_workspace,
        *sent.command == command,
        sent.command_dir is None,
        sent.window_id == window_id,
        request.tabs() <==> opts.new_tab || prefer_to_spawn_tabs,
{
}

} // verus!
