//! What a GUI does once it runs: set up the multiplexer, connect domains, open the first
//! window.

use crate::command::{ShowKeysCommand, StartCommand};
use crate::publish::{choose_name, first_given, option_view};
use crate::text::{decimal, join, join_all, push_decimal, views};
use vstd::prelude::*;

verus! {

pub type DomainId = usize;

/// The workspace and the domain that are the defaults of a new multiplexer.
pub struct MuxDefaults {
    pub workspace: String,
    pub domain: String,
}

/// The defaults of a new multiplexer: the names asked for, else the configured ones, else
/// the multiplexer's own workspace and the local domain.
pub fn setup_mux(
    config_default_domain: &Option<String>,
    config_default_workspace: &Option<String>,
    default_domain_name: &Option<String>,
    default_workspace_name: &Option<String>,
    mux_default_workspace: &str,
) -> (r: MuxDefaults)
    ensures
        r.workspace@ == first_given(
            option_view(*default_workspace_name),
            option_view(*config_default_workspace),
            mux_default_workspace@,
        ),
        r.domain@ == first_given(
            option_view(*default_domain_name),
            option_view(*config_default_domain),
            "local"@,
        ),
{
    MuxDefaults {
        workspace: choose_name(
            default_workspace_name,
            config_default_workspace,
            mux_default_workspace,
        ),
        domain: choose_name(default_domain_name, config_default_domain, "local"),
    }
}

/// The complaint that the default domain does not exist.
pub fn missing_default_domain(name: &str) -> (r: String)
    ensures
        r@ == "desired default domain '"@ + name@ + "' was not found in mux!?"@,
{
    let mut out = "desired default domain '".to_string();
    out.push_str(name);
    out.push_str("' was not found in mux!?");
    out
}

/// The complaint that a domain that was asked for does not exist.
pub fn invalid_domain(name: &str) -> (r: String)
    ensures
        r@ == "invalid domain "@ + name@,
{
    let mut out = "invalid domain ".to_string();
    out.push_str(name);
    out
}

/// The default domain of a new multiplexer: the one that was found under its name. Where there
/// is none, setting up fails; no other domain takes its place.
pub fn default_domain<D>(found: Option<D>, name: &str) -> (r: Result<D, String>)
    ensures
        match found {
            Some(domain) => r == Ok::<D, String>(domain),
            None => r is Err && r->Err_0@ == "desired default domain '"@ + name@
                + "' was not found in mux!?"@,
        },
{
    match found {
        Some(domain) => Ok(domain),
        None => Err(missing_default_domain(name)),
    }
}

/// The domain that a start command asks for: the one that was found under its name. Where
/// there is none, that is an error.
pub fn named_domain<D>(found: Option<D>, name: &str) -> (r: Result<D, String>)
    ensures
        match found {
            Some(domain) => r == Ok::<D, String>(domain),
            None => r is Err && r->Err_0@ == "invalid domain "@ + name@,
        },
{
    match found {
        Some(domain) => Ok(domain),
        None => Err(invalid_domain(name)),
    }
}

/// The complaint that a window is gone from the multiplexer.
pub fn missing_window(window_id: usize) -> (r: String)
    ensures
        r@ == "failed to get mux window id "@ + decimal(window_id as nat),
{
    let mut out = "failed to get mux window id ".to_string();
    push_decimal(&mut out, window_id as u64);
    out
}

/// The name of the socket of the process `pid`.
pub fn gui_sock_name(pid: u32) -> (r: String)
    ensures
        r@ == "gui-sock-"@ + decimal(pid as nat),
{
    let mut out = "gui-sock-".to_string();
    push_decimal(&mut out, pid as u64);
    out
}

/// The complaint that a handler of the event `name` failed.
pub fn event_failure(name: &str, err: &str) -> (r: String)
    ensures
        r@ == "while processing "@ + name@ + " event: "@ + err@,
{
    let mut out = "while processing ".to_string();
    out.push_str(name);
    out.push_str(" event: ");
    out.push_str(err);
    out
}

/// Whether a domain has panes, as far as the domain and a workspace are concerned.
pub open spec fn has_panes(
    domain_id: DomainId,
    panes: Seq<DomainId>,
    windows: Option<Vec<Vec<Vec<DomainId>>>>,
) -> bool {
    &&& panes.contains(domain_id)
    &&& windows matches Some(windows) ==> exists|w: int, t: int|
        0 <= w < windows@.len() && 0 <= t < windows@[w]@.len()
            && #[trigger] windows@[w]@[t]@.contains(domain_id)
}

/// Whether `id` is among `ids`.
fn contains_id(ids: &Vec<DomainId>, id: DomainId) -> (r: bool)
    ensures
        r == ids@.contains(id),
{
    let mut i: usize = 0;
    while i < ids.len()
        invariant
            i <= ids.len(),
            forall|j: int| 0 <= j < i ==> ids@[j] != id,
        decreases ids.len() - i,
    {
        if ids[i] == id {
            return true;
        }
        i = i + 1;
    }
    false
}

/// Whether the domain has a pane at all and, where a workspace is given, one in that
/// workspace. `panes` holds the domain of every pane; `windows` holds, for the windows of
/// the workspace, the domains of the panes of each of their tabs.
pub fn have_panes_in_domain_and_ws(
    domain_id: DomainId,
    panes: &Vec<DomainId>,
    windows: &Option<Vec<Vec<Vec<DomainId>>>>,
) -> (r: bool)
    ensures
        r == has_panes(domain_id, panes@, *windows),
{
    if !contains_id(panes, domain_id) {
        return false;
    }
    match windows {
        None => true,
        Some(listed) => {
            let mut w: usize = 0;
            while w < listed.len()
                invariant
                    *windows == Some(*listed),
                    panes@.contains(domain_id),
                    w <= listed.len(),
                    forall|i: int, t: int|
                        0 <= i < w && 0 <= t < listed@[i]@.len() ==> !(
                        #[trigger] listed@[i]@[t]@.contains(domain_id)),
                decreases listed.len() - w,
            {
                let tabs = &listed[w];
                let mut t: usize = 0;
                while t < tabs.len()
                    invariant
                        *windows == Some(*listed),
                        panes@.contains(domain_id),
                        w < listed.len(),
                        tabs == listed@[w as int],
                        t <= tabs.len(),
                        forall|j: int| 0 <= j < t ==> !(#[trigger] tabs@[j]@.contains(domain_id)),
                    decreases tabs.len() - t,
                {
                    if contains_id(&tabs[t], domain_id) {
                        assert(windows->Some_0@[w as int]@[t as int]@.contains(domain_id));
                        return true;
                    }
                    t = t + 1;
                }
                w = w + 1;
            }
            false
        },
    }
}

/// What the multiplexer says of a domain.
#[derive(Debug, Clone, Copy, PartialEq, Eq, Structural)]
pub struct DomainInfo {
    /// Whether it is a client of another multiplexer.
    pub is_client: bool,
    /// Whether it asks to be connected at start-up.
    pub connect_automatically: bool,
}

impl DomainInfo {
    pub open spec fn auto_connects(self) -> bool {
        self.is_client && self.connect_automatically
    }
}

/// The domains among the first `n` that are connected at start-up, by index.
pub open spec fn auto_connected(domains: Seq<DomainInfo>, n: int) -> Seq<usize>
    decreases n,
{
    if n <= 0 {
        Seq::empty()
    } else if domains[n - 1].auto_connects() {
        auto_connected(domains, n - 1).push((n - 1) as usize)
    } else {
        auto_connected(domains, n - 1)
    }
}

/// The domains that are connected at start-up, by index and in order.
pub fn connect_to_auto_connect_domains(domains: &Vec<DomainInfo>) -> (r: Vec<usize>)
    ensures
        r@ == auto_connected(domains@, domains@.len() as int),
{
    let mut out: Vec<usize> = Vec::new();
    let mut i: usize = 0;
    while i < domains.len()
        invariant
            i <= domains.len(),
            out@ == auto_connected(domains@, i as int),
        decreases domains.len() - i,
    {
        if domains[i].is_client && domains[i].connect_automatically {
            out.push(i);
        }
        i = i + 1;
    }
    out
}

/// Exactly the client domains that ask for it are connected, each once and in order.
pub proof fn law_auto_connect_picks_exactly_the_willing(domains: Seq<DomainInfo>, n: int)
    requires
        0 <= n <= domains.len() <= usize::MAX,
    ensures
        forall|i: int|
            0 <= i < n ==> (auto_connected(domains, n).contains(i as usize)
                <==> #[trigger] domains[i].auto_connects()),
        forall|a: int|
            0 <= a < auto_connected(domains, n).len() ==> (#[trigger] auto_connected(
                domains,
                n,
            )[a]) < n,
        forall|a: int, b: int|
            0 <= a < b < auto_connected(domains, n).len() ==> (#[trigger] auto_connected(
                domains,
                n,
            )[a]) < (#[trigger] auto_connected(domains, n)[b]),
    decreases n,
{
    if n > 0 {
        law_auto_connect_picks_exactly_the_willing(domains, n - 1);
        let before = auto_connected(domains, n - 1);
        let after = auto_connected(domains, n);
        assert forall|i: int| 0 <= i < n implies (after.contains(i as usize)
            <==> #[trigger] domains[i].auto_connects()) by {
            if i < n - 1 {
                if before.contains(i as usize) {
                    let a = choose|a: int| 0 <= a < before.len() && before[a] == i as usize;
                    assert(after[a] == i as usize);
                }
                if after.contains(i as usize) {
                    let a = choose|a: int| 0 <= a < after.len() && after[a] == i as usize;
                    if a < before.len() {
                        assert(before[a] == i as usize);
                    }
                }
            } else {
                if domains[i].auto_connects() {
                    assert(after[after.len() - 1] == i as usize);
                } else if after.contains(i as usize) {
                    let a = choose|a: int| 0 <= a < after.len() && after[a] == i as usize;
                    assert(before[a] < n - 1);
                }
            }
        }
    }
}

/// The command that start-up handlers are told about.
pub struct SpawnCommandPlan {
    /// Whether it starts from the command that was built rather than from the default one.
    pub from_command: bool,
    /// The domain that is set on it, if any.
    pub domain: Option<String>,
}

/// The command that start-up handlers are told about: the one that was built, if there is
/// one, with the domain that was asked for applied to it.
pub fn spawn_command_plan(has_command: bool, domain: &Option<String>) -> (r: Option<
    SpawnCommandPlan,
>)
    ensures
        r is Some <==> has_command || domain is Some,
        r matches Some(plan) ==> plan.from_command == has_command && option_view(plan.domain)
            == option_view(*domain),
{
    match domain {
        Some(name) => Some(
            SpawnCommandPlan { from_command: has_command, domain: Some(name.clone()) },
        ),
        None => if has_command {
            Some(SpawnCommandPlan { from_command: true, domain: None })
        } else {
            None
        },
    }
}

/// A step of a start-up.
#[derive(Debug, Clone, Copy, PartialEq, Eq, Structural)]
pub enum StartupStep {
    /// Name our socket in the environment and register storage for blobs.
    RegisterStorage,
    /// Serve our socket.
    Serve,
    /// Connect the domains that ask for it.
    AutoConnect,
    /// Put together the command that start-up handlers are told about; it is an error if
    /// it cannot be described.
    DescribeCommand,
    /// Find the domain that was asked for; it is an error if there is none.
    FindDomain,
    /// Tell start-up handlers about the command.
    EmitGuiStartup,
    /// Open a window, attach the domain to it, spawn a tab there, make it the active one
    /// and tell handlers that the domain is attached.
    SpawnInDomain,
    /// Open a window if the domain has no panes yet, or in any case when connecting.
    FillDomain { is_connecting: bool },
}

/// `step`, where `wanted`.
pub open spec fn step_if(wanted: bool, step: StartupStep) -> Seq<StartupStep> {
    if wanted {
        seq![step]
    } else {
        Seq::empty()
    }
}

/// The steps of a start-up, in order.
pub open spec fn startup_steps<A, P>(opts: StartCommand<A, P>) -> Seq<StartupStep> {
    seq![StartupStep::RegisterStorage, StartupStep::Serve] + step_if(
        !opts.no_auto_connect,
        StartupStep::AutoConnect,
    ) + seq![
        StartupStep::DescribeCommand,
    ] + step_if(opts.domain is Some, StartupStep::FindDomain) + step_if(
        !opts.attach,
        StartupStep::EmitGuiStartup,
    ) + step_if(
        opts.domain is Some && !opts.attach,
        StartupStep::SpawnInDomain,
    ) + seq![StartupStep::FillDomain { is_connecting: opts.attach }]
}

/// The steps of a start-up, in order.
pub fn async_run_terminal_gui<A, P>(opts: &StartCommand<A, P>) -> (r: Vec<StartupStep>)
    ensures
        r@ == startup_steps(*opts),
{
    let mut steps = vec![StartupStep::RegisterStorage, StartupStep::Serve];
    if !opts.no_auto_connect {
        steps.push(StartupStep::AutoConnect);
    }
    steps.push(StartupStep::DescribeCommand);
    if opts.domain.is_some() {
        steps.push(StartupStep::FindDomain);
    }
    if !opts.attach {
        steps.push(StartupStep::EmitGuiStartup);
    }
    if opts.domain.is_some() && !opts.attach {
        steps.push(StartupStep::SpawnInDomain);
    }
    steps.push(StartupStep::FillDomain { is_connecting: opts.attach });
    assert(steps@ =~= startup_steps(*opts));
    steps
}

/// Attaching to a domain spawns nothing in it and tells start-up handlers nothing; whatever
/// the start command, the domain is looked for before anything is told or spawned.
pub proof fn law_attach_is_quiet<A, P>(opts: StartCommand<A, P>)
    ensures
        opts.attach ==> !startup_steps(opts).contains(StartupStep::EmitGuiStartup)
            && !startup_steps(opts).contains(StartupStep::SpawnInDomain),
        forall|i: int, j: int|
            0 <= i < startup_steps(opts).len() && 0 <= j < startup_steps(opts).len() && (
            #[trigger] startup_steps(opts)[i]) == StartupStep::FindDomain && ((
            #[trigger] startup_steps(opts)[j]) == StartupStep::EmitGuiStartup || startup_steps(
                opts,
            )[j] == StartupStep::SpawnInDomain) ==> i < j,
{
}

/// What comes next in a start-up.
#[derive(Debug, Clone, Copy, PartialEq, Eq, Structural)]
pub enum StartupNext {
    /// This step.
    Perform(StartupStep),
    /// Nothing: all steps have been performed.
    Finished,
    /// Nothing: a step failed, and its error ends the start-up.
    Failed,
}

/// Whether a failure of `step` is one of the whole start-up. A socket that cannot be served
/// and a start-up handler that fails are only logged.
pub open spec fn can_fail(step: StartupStep) -> bool {
    !(step is Serve) && !(step is EmitGuiStartup)
}

/// Whether the last of the first `done` steps, which went as `ok` says, failed the start-up.
pub open spec fn has_failed(steps: Seq<StartupStep>, done: int, ok: bool) -> bool {
    !ok && 0 < done <= steps.len() && can_fail(steps[done - 1])
}

/// What comes after the first `done` of `steps`; `ok` is whether the last of these went well.
pub open spec fn next_step(steps: Seq<StartupStep>, done: int, ok: bool) -> StartupNext {
    if has_failed(steps, done, ok) {
        StartupNext::Failed
    } else if 0 <= done < steps.len() {
        StartupNext::Perform(steps[done])
    } else {
        StartupNext::Finished
    }
}

/// What comes after the first `done` of `steps`; `ok` is whether the last of these went well.
/// A failure ends the start-up, unless it is one that is only logged.
pub fn after_startup_step(steps: &Vec<StartupStep>, done: usize, ok: bool) -> (r: StartupNext)
    requires
        !ok ==> 0 < done <= steps@.len(),
    ensures
        r == next_step(steps@, done as int, ok),
{
    if !ok {
        match steps[done - 1] {
            StartupStep::Serve | StartupStep::EmitGuiStartup => {},
            _ => {
                return StartupNext::Failed;
            },
        }
    }
    if done < steps.len() {
        StartupNext::Perform(steps[done])
    } else {
        StartupNext::Finished
    }
}

/// The steps that are performed after the first `done`, the last of which went as `ok` says;
/// `outcomes[i]` is whether step `i` goes well.
pub open spec fn performed(
    steps: Seq<StartupStep>,
    outcomes: Seq<bool>,
    done: int,
    ok: bool,
) -> Seq<StartupStep>
    decreases steps.len() - done,
{
    match next_step(steps, done, ok) {
        StartupNext::Perform(step) if 0 <= done < steps.len() => seq![step] + performed(
            steps,
            outcomes,
            done + 1,
            outcomes[done],
        ),
        _ => Seq::empty(),
    }
}

/// The first step whose failure counts is the last one that is performed; where there is no
/// such failure, all steps are. A socket that cannot be served and a start-up handler that
/// fails change nothing.
pub proof fn law_first_failure_ends_the_start_up(
    steps: Seq<StartupStep>,
    outcomes: Seq<bool>,
    done: int,
    last: int,
)
    requires
        0 <= done <= last <= steps.len(),
        outcomes.len() == steps.len(),
        forall|i: int| done <= i < last ==> #[trigger] outcomes[i] || !can_fail(steps[i]),
        last < steps.len() ==> !outcomes[last] && can_fail(steps[last]),
    ensures
        performed(steps, outcomes, done, true) == if last < steps.len() {
            steps.subrange(done, last + 1)
        } else {
            steps.subrange(done, last)
        },
    decreases last - done,
{
    if done < last {
        law_first_failure_ends_the_start_up(steps, outcomes, done + 1, last);
        assert(outcomes[done] || !can_fail(steps[done]));
        assert(next_step(steps, done + 1, outcomes[done]) == next_step(steps, done + 1, true));
        assert(performed(steps, outcomes, done + 1, outcomes[done]) == performed(
            steps,
            outcomes,
            done + 1,
            true,
        ));
    } else if last < steps.len() {
        assert(performed(steps, outcomes, done + 1, false) =~= Seq::empty());
    }
    assert(performed(steps, outcomes, done, true) =~= if last < steps.len() {
        steps.subrange(done, last + 1)
    } else {
        steps.subrange(done, last)
    });
}

/// Storage is registered before the socket is served, and connecting domains comes after
/// that and before start-up handlers are told anything: where either fails, handlers are
/// told nothing.
pub proof fn law_handlers_are_told_after_connecting<A, P>(opts: StartCommand<A, P>, i: int)
    requires
        0 <= i < startup_steps(opts).len(),
    ensures
        startup_steps(opts)[0] == StartupStep::RegisterStorage,
        startup_steps(opts)[1] == StartupStep::Serve,
        startup_steps(opts).contains(StartupStep::AutoConnect) <==> !opts.no_auto_connect,
        startup_steps(opts).contains(StartupStep::EmitGuiStartup) <==> !opts.attach,
        startup_steps(opts)[i] == StartupStep::AutoConnect ==> i == 2,
        startup_steps(opts)[i] == StartupStep::EmitGuiStartup ==> i > 2,
{
    let steps = startup_steps(opts);
    if !opts.no_auto_connect {
        assert(steps[2] == StartupStep::AutoConnect);
    }
    if !opts.attach {
        let before = seq![StartupStep::RegisterStorage, StartupStep::Serve] + step_if(
            !opts.no_auto_connect,
            StartupStep::AutoConnect,
        ) + seq![StartupStep::DescribeCommand] + step_if(
            opts.domain is Some,
            StartupStep::FindDomain,
        );
        assert(steps[before.len() as int] == StartupStep::EmitGuiStartup);
    }
}

/// A step of filling a domain.
#[derive(Debug, Clone, Copy, PartialEq, Eq, Structural)]
pub enum FillPhase {
    /// See whether the domain has panes.
    Look,
    /// Open a window, raise the limits of the process and attach the domain to the window.
    Attach,
    /// See whether attaching brought panes.
    LookAgain,
    /// Watch for configuration changes and spawn a tab in the window.
    Spawn,
    /// Tell handlers that the domain is attached.
    EmitGuiAttached,
    /// Nothing: the domain is filled.
    Done,
    /// Nothing: a step failed, and its error is returned.
    Failed,
}

/// How a step of filling a domain went.
#[derive(Debug, Clone, Copy, PartialEq, Eq, Structural)]
pub enum FillOutcome {
    /// It was a look: whether there are panes.
    Saw(bool),
    /// It went well.
    Succeeded,
    /// It failed.
    Failed,
}

/// The first step of filling a domain.
pub open spec fn first_fill(is_connecting: bool) -> FillPhase {
    if is_connecting {
        FillPhase::Attach
    } else {
        FillPhase::Look
    }
}

/// The first step of filling a domain: one that is being connected is attached at once.
pub fn spawn_tab_in_domain_if_mux_is_empty(is_connecting: bool) -> (r: FillPhase)
    ensures
        r == first_fill(is_connecting),
{
    if is_connecting {
        FillPhase::Attach
    } else {
        FillPhase::Look
    }
}

/// Whether `outcome` is one that `phase` can have: only a look sees, and neither a look nor
/// telling handlers fails.
pub open spec fn can_end(phase: FillPhase, outcome: FillOutcome) -> bool {
    match phase {
        FillPhase::Look | FillPhase::LookAgain => outcome is Saw,
        FillPhase::Attach | FillPhase::Spawn => !(outcome is Saw),
        FillPhase::EmitGuiAttached => outcome is Succeeded,
        FillPhase::Done | FillPhase::Failed => false,
    }
}

/// The step after `phase`, which went as `outcome` says.
pub open spec fn next_fill(phase: FillPhase, outcome: FillOutcome) -> FillPhase {
    match (phase, outcome) {
        (_, FillOutcome::Failed) => FillPhase::Failed,
        (FillPhase::Look, FillOutcome::Saw(have_panes)) => if have_panes {
            FillPhase::Done
        } else {
            FillPhase::Attach
        },
        (FillPhase::Attach, _) => FillPhase::LookAgain,
        (FillPhase::LookAgain, FillOutcome::Saw(have_panes)) => if have_panes {
            FillPhase::EmitGuiAttached
        } else {
            FillPhase::Spawn
        },
        (FillPhase::Spawn, _) => FillPhase::EmitGuiAttached,
        (FillPhase::EmitGuiAttached, _) => FillPhase::Done,
        _ => phase,
    }
}

/// The step after `phase`, which went as `outcome` says. A failure ends the filling.
pub fn after_fill_step(phase: FillPhase, outcome: FillOutcome) -> (r: FillPhase)
    requires
        can_end(phase, outcome),
    ensures
        r == next_fill(phase, outcome),
{
    match outcome {
        FillOutcome::Failed => FillPhase::Failed,
        FillOutcome::Saw(have_panes) => match (phase, have_panes) {
            (FillPhase::Look, true) => FillPhase::Done,
            (FillPhase::Look, false) => FillPhase::Attach,
            (FillPhase::LookAgain, true) => FillPhase::EmitGuiAttached,
            (FillPhase::LookAgain, false) => FillPhase::Spawn,
            _ => phase,
        },
        FillOutcome::Succeeded => match phase {
            FillPhase::Attach => FillPhase::LookAgain,
            FillPhase::Spawn => FillPhase::EmitGuiAttached,
            FillPhase::EmitGuiAttached => FillPhase::Done,
            _ => phase,
        },
    }
}

/// How the steps of filling a domain go.
pub struct FillCourse {
    /// Whether the domain has panes before it is attached.
    pub before: bool,
    /// Whether it has panes once it is attached.
    pub after: bool,
    pub attach_works: bool,
    pub spawn_works: bool,
}

impl FillCourse {
    /// How `phase` goes.
    pub open spec fn outcome(self, phase: FillPhase) -> FillOutcome {
        match phase {
            FillPhase::Look => FillOutcome::Saw(self.before),
            FillPhase::LookAgain => FillOutcome::Saw(self.after),
            FillPhase::Attach if !self.attach_works => FillOutcome::Failed,
            FillPhase::Spawn if !self.spawn_works => FillOutcome::Failed,
            _ => FillOutcome::Succeeded,
        }
    }

    /// Whether there is anything to do: the domain is being connected, or has no panes.
    pub open spec fn is_needed(self, is_connecting: bool) -> bool {
        is_connecting || !self.before
    }

    /// Whether all that is done works.
    pub open spec fn works(self, is_connecting: bool) -> bool {
        self.is_needed(is_connecting) ==> self.attach_works && (self.after || self.spawn_works)
    }
}

/// `phase`, where `wanted`.
pub open spec fn phase_if(wanted: bool, phase: FillPhase) -> Seq<FillPhase> {
    if wanted {
        seq![phase]
    } else {
        Seq::empty()
    }
}

/// The steps from `phase` on, at most `fuel` of them, and where they end.
pub open spec fn fill_steps(phase: FillPhase, course: FillCourse, fuel: nat) -> (
    Seq<FillPhase>,
    FillPhase,
)
    decreases fuel,
{
    if phase == FillPhase::Done || phase == FillPhase::Failed || fuel == 0 {
        (Seq::empty(), phase)
    } else {
        let (steps, end) = fill_steps(
            next_fill(phase, course.outcome(phase)),
            course,
            (fuel - 1) as nat,
        );
        (seq![phase] + steps, end)
    }
}

/// Filling a domain takes one of a few courses. Nothing happens where the domain has panes
/// and is not being connected. Otherwise it is attached, once, and if that fails nothing
/// follows. A tab is spawned, once, exactly where attaching worked and brought no panes. And
/// handlers are told, once, exactly where all of that worked; else the error is returned.
pub proof fn law_domain_is_filled_once(is_connecting: bool, course: FillCourse, fuel: nat)
    requires
        fuel >= 5,
    ensures
        ({
            let needed = course.is_needed(is_connecting);
            let attached = needed && course.attach_works;
            let (steps, end) = fill_steps(first_fill(is_connecting), course, fuel);
            &&& steps == phase_if(!is_connecting, FillPhase::Look) + phase_if(
                needed,
                FillPhase::Attach,
            ) + phase_if(attached, FillPhase::LookAgain) + phase_if(
                attached && !course.after,
                FillPhase::Spawn,
            ) + phase_if(needed && course.works(is_connecting), FillPhase::EmitGuiAttached)
            &&& end == if course.works(is_connecting) {
                FillPhase::Done
            } else {
                FillPhase::Failed
            }
        }),
{
    reveal_with_fuel(fill_steps, 6);
    let needed = course.is_needed(is_connecting);
    let attached = needed && course.attach_works;
    assert(fill_steps(first_fill(is_connecting), course, fuel).0 =~= phase_if(
        !is_connecting,
        FillPhase::Look,
    ) + phase_if(needed, FillPhase::Attach) + phase_if(attached, FillPhase::LookAgain) + phase_if(
        attached && !course.after,
        FillPhase::Spawn,
    ) + phase_if(needed && course.works(is_connecting), FillPhase::EmitGuiAttached));
}

/// A step of spawning in the domain that was asked for.
#[derive(Debug, Clone, Copy, PartialEq, Eq, Structural)]
pub enum DomainSpawnPhase {
    /// Open a window and attach the domain to it.
    Attach,
    /// Spawn a tab in the window.
    Spawn,
    /// Make the tab the active one of the window.
    Activate,
    /// Tell handlers that the domain is attached.
    EmitGuiAttached,
    /// Nothing: the tab is there.
    Done,
    /// Nothing: a step failed, and its error is returned.
    Failed,
}

/// The step after `phase`; `ok` is whether it went well. A handler that fails is only logged.
pub open spec fn next_domain_spawn(phase: DomainSpawnPhase, ok: bool) -> DomainSpawnPhase {
    if !ok && !(phase is EmitGuiAttached) {
        DomainSpawnPhase::Failed
    } else {
        match phase {
            DomainSpawnPhase::Attach => DomainSpawnPhase::Spawn,
            DomainSpawnPhase::Spawn => DomainSpawnPhase::Activate,
            DomainSpawnPhase::Activate => DomainSpawnPhase::EmitGuiAttached,
            DomainSpawnPhase::EmitGuiAttached => DomainSpawnPhase::Done,
            _ => phase,
        }
    }
}

/// The step after `phase`; `ok` is whether it went well. A failure ends the spawning, unless
/// it is that of a handler, which is only logged.
pub fn after_domain_spawn_step(phase: DomainSpawnPhase, ok: bool) -> (r: DomainSpawnPhase)
    requires
        !(phase is Done) && !(phase is Failed),
    ensures
        r == next_domain_spawn(phase, ok),
{
    match phase {
        DomainSpawnPhase::EmitGuiAttached => DomainSpawnPhase::Done,
        _ if !ok => DomainSpawnPhase::Failed,
        DomainSpawnPhase::Attach => DomainSpawnPhase::Spawn,
        DomainSpawnPhase::Spawn => DomainSpawnPhase::Activate,
        DomainSpawnPhase::Activate => DomainSpawnPhase::EmitGuiAttached,
        _ => phase,
    }
}

/// Which tab of the window is made active: the new one, if the window has it. `window` holds
/// its index there; a window that is gone is an error.
pub fn tab_to_activate(window_id: usize, window: Option<Option<usize>>) -> (r: Result<
    Option<usize>,
    String,
>)
    ensures
        match window {
            Some(index) => r == Ok::<Option<usize>, String>(index),
            None => r is Err && r->Err_0@ == "failed to get mux window id "@ + decimal(
                window_id as nat,
            ),
        },
{
    match window {
        Some(index) => Ok(index),
        None => Err(missing_window(window_id)),
    }
}

/// The text of an error that ends the program: the error, and what is wrong with the
/// configuration, if anything.
pub fn terminate_with_error(err: &str, warnings: &Vec<String>) -> (r: String)
    ensures
        r@ == if warnings@.len() == 0 {
            err@
        } else {
            err@ + "\nConfiguration Error: "@ + join_all(views(warnings@), seq!['\n'])
        },
{
    let mut text = err.to_string();
    if warnings.len() > 0 {
        let joined = join_lines(warnings);
        text.push_str("\nConfiguration Error: ");
        text.push_str(joined.as_str());
    }
    text
}

/// What the window about configuration errors shows, if it is shown.
pub fn maybe_show_configuration_error_window(warnings: &Vec<String>) -> (r: Option<String>)
    ensures
        match r {
            None => warnings@.len() == 0,
            Some(text) => warnings@.len() > 0 && text@ == join_all(
                views(warnings@),
                seq!['\n'],
            ),
        },
{
    if warnings.len() == 0 {
        None
    } else {
        Some(join_lines(warnings))
    }
}

/// The parts, one per line.
fn join_lines(parts: &Vec<String>) -> (r: String)
    ensures
        r@ == join_all(views(parts@), seq!['\n']),
{
    proof {
        reveal_strlit("\n");
        assert("\n"@ =~= seq!['\n']);
    }
    join(parts, "\n")
}

/// How key assignments are shown.
pub enum ShowKeys {
    /// As configuration text, of this key table alone if one is given.
    DumpConfig(Option<String>),
    /// As tables for people.
    Tables,
}

/// How key assignments are shown.
pub fn run_show_keys(cmd: &ShowKeysCommand) -> (r: ShowKeys)
    ensures
        if cmd.lua {
            r is DumpConfig && option_view(r->DumpConfig_0) == option_view(cmd.key_table)
        } else {
            r is Tables
        },
{
    if cmd.lua {
        match &cmd.key_table {
            Some(table) => ShowKeys::DumpConfig(Some(table.clone())),
            None => ShowKeys::DumpConfig(None),
        }
    } else {
        ShowKeys::Tables
    }
}

/// The place of a step among the others.
pub open spec fn place(step: StartupStep) -> int {
    match step {
        StartupStep::RegisterStorage => 0,
        StartupStep::Serve => 1,
        StartupStep::AutoConnect => 2,
        StartupStep::DescribeCommand => 3,
        StartupStep::FindDomain => 4,
        StartupStep::EmitGuiStartup => 5,
        StartupStep::SpawnInDomain => 6,
        StartupStep::FillDomain { .. } => 7,
    }
}

/// Which steps a start-up has, whatever else its start command says: a domain that was named is
/// looked for, and spawned in unless it is to be attached; handlers are told unless a domain is
/// to be attached; domains are connected unless that is switched off; and all other steps are
/// always there. No step is there twice, and they come in their places, the domain being
/// filled last.
#[verifier::rlimit(30)]
pub proof fn law_each_step_has_its_reason<A, P>(opts: StartCommand<A, P>)
    ensures
        ({
            let steps = startup_steps(opts);
            &&& steps.contains(StartupStep::RegisterStorage)
            &&& steps.contains(StartupStep::Serve)
            &&& steps.contains(StartupStep::AutoConnect) <==> !opts.no_auto_connect
            &&& steps.contains(StartupStep::DescribeCommand)
            &&& steps.contains(StartupStep::FindDomain) <==> opts.domain is Some
            &&& steps.contains(StartupStep::EmitGuiStartup) <==> !opts.attach
            &&& steps.contains(StartupStep::SpawnInDomain) <==> opts.domain is Some && !opts.attach
            &&& steps.last() == (StartupStep::FillDomain { is_connecting: opts.attach })
            &&& forall|i: int, j: int|
                0 <= i < j < steps.len() ==> place(#[trigger] steps[i]) < place(#[trigger] steps[j])
        }),
{
    let steps = startup_steps(opts);
    let head = seq![StartupStep::RegisterStorage, StartupStep::Serve] + step_if(
        !opts.no_auto_connect,
        StartupStep::AutoConnect,
    );
    let described = head + seq![StartupStep::DescribeCommand];
    let found = described + step_if(opts.domain is Some, StartupStep::FindDomain);
    let told = found + step_if(!opts.attach, StartupStep::EmitGuiStartup);
    assert(steps[0] == StartupStep::RegisterStorage);
    assert(steps[1] == StartupStep::Serve);
    assert(steps[head.len() as int] == StartupStep::DescribeCommand);
    if !opts.no_auto_connect {
        assert(steps[2] == StartupStep::AutoConnect);
    }
    if opts.domain is Some {
        assert(steps[described.len() as int] == StartupStep::FindDomain);
    }
    if !opts.attach {
        assert(steps[found.len() as int] == StartupStep::EmitGuiStartup);
    }
    if opts.domain is Some && !opts.attach {
        assert(steps[told.len() as int] == StartupStep::SpawnInDomain);
    }
}

/// What a failure of each step means: one to serve the socket or to tell start-up handlers
/// changes nothing about what comes next, and one of any other step ends the start-up. A step
/// that went well never ends it before the last one.
pub proof fn law_which_failures_count(steps: Seq<StartupStep>, done: int)
    requires
        0 < done <= steps.len(),
    ensures
        steps[done - 1] is Serve || steps[done - 1] is EmitGuiStartup ==> next_step(
            steps,
            done,
            false,
        ) == next_step(steps, done, true),
        steps[done - 1] is RegisterStorage || steps[done - 1] is AutoConnect || steps[done - 1]
            is DescribeCommand || steps[done - 1] is FindDomain || steps[done - 1] is SpawnInDomain
            || steps[done - 1] is FillDomain ==> next_step(steps, done, false)
            == StartupNext::Failed,
        done < steps.len() ==> next_step(steps, done, true) == StartupNext::Perform(steps[done]),
        done == steps.len() ==> next_step(steps, done, true) == StartupNext::Finished,
{
}

/// Where spawning in a domain stands once its steps went as `outcomes` says.
pub open spec fn domain_spawn_after(outcomes: Seq<bool>) -> DomainSpawnPhase
    decreases outcomes.len(),
{
    if outcomes.len() == 0 {
        DomainSpawnPhase::Attach
    } else {
        next_domain_spawn(domain_spawn_after(outcomes.drop_last()), outcomes.last())
    }
}

/// Handlers hear that a domain is attached exactly once attaching, spawning and activating have
/// all worked, and then the spawning is done whatever they say. The first of the three that
/// fails is the last that is tried.
pub proof fn law_spawning_in_a_domain_takes_three_steps(
    attach: bool,
    spawn: bool,
    activate: bool,
    told: bool,
)
    ensures
        domain_spawn_after(seq![attach]) == if attach {
            DomainSpawnPhase::Spawn
        } else {
            DomainSpawnPhase::Failed
        },
        domain_spawn_after(seq![true, spawn]) == if spawn {
            DomainSpawnPhase::Activate
        } else {
            DomainSpawnPhase::Failed
        },
        domain_spawn_after(seq![true, true, activate]) == if activate {
            DomainSpawnPhase::EmitGuiAttached
        } else {
            DomainSpawnPhase::Failed
        },
        domain_spawn_after(seq![true, true, true, told]) == DomainSpawnPhase::Done,
{
    let none = Seq::<bool>::empty();
    assert(domain_spawn_after(none) == DomainSpawnPhase::Attach);
    assert(seq![attach].drop_last() =~= none);
    assert(seq![true].drop_last() =~= none);
    assert(domain_spawn_after(seq![true]) == DomainSpawnPhase::Spawn);
    assert(seq![true, spawn].drop_last() =~= seq![true]);
    assert(seq![true, true].drop_last() =~= seq![true]);
    assert(domain_spawn_after(seq![true, true]) == DomainSpawnPhase::Activate);
    assert(seq![true, true, activate].drop_last() =~= seq![true, true]);
    assert(seq![true, true, true].drop_last() =~= seq![true, true]);
    assert(domain_spawn_after(seq![true, true, true]) == DomainSpawnPhase::EmitGuiAttached);
    assert(seq![true, true, true, told].drop_last() =~= seq![true, true, true]);
}

/// A failure of attaching or spawning ends the filling of a domain at once, and neither a look
/// nor a success does before handlers have been told.
pub proof fn law_filling_ends_on_failure(phase: FillPhase, outcome: FillOutcome)
    requires
        can_end(phase, outcome),
    ensures
        next_fill(phase, outcome) is Failed <==> outcome is Failed,
        outcome is Failed ==> phase is Attach || phase is Spawn,
        next_fill(phase, outcome) is Done <==> phase is EmitGuiAttached || (phase is Look
            && outcome == FillOutcome::Saw(true)),
        next_fill(phase, outcome) is EmitGuiAttached <==> (phase is LookAgain && outcome
            == FillOutcome::Saw(true)) || (phase is Spawn && outcome is Succeeded),
        next_fill(phase, outcome) is Spawn <==> phase is LookAgain && outcome == FillOutcome::Saw(
            false,
        ),
        next_fill(phase, outcome) is Attach <==> phase is Look && outcome == FillOutcome::Saw(
            false,
        ),
        next_fill(phase, outcome) is LookAgain <==> phase is Attach && outcome is Succeeded,
{
}

/// A domain has panes where one of its panes is in some tab of some window of the workspace,
/// or anywhere at all where no workspace is given; other domains' panes and panes in other
/// workspaces make no difference.
pub proof fn law_panes_count_in_their_domain_and_workspace(
    domain_id: DomainId,
    panes: Seq<DomainId>,
    windows: Vec<Vec<Vec<DomainId>>>,
    i: int,
    w: int,
    t: int,
    p: int,
)
    ensures
        0 <= i < panes.len() && panes[i] == domain_id ==> has_panes(domain_id, panes, None),
        has_panes(domain_id, panes, None) ==> exists|j: int|
            0 <= j < panes.len() && #[trigger] panes[j] == domain_id,
        has_panes(domain_id, panes, None) && 0 <= w < windows@.len() && 0 <= t
            < windows@[w]@.len() && 0 <= p < windows@[w]@[t]@.len() && windows@[w]@[t]@[p]
            == domain_id ==> has_panes(domain_id, panes, Some(windows)),
        has_panes(domain_id, panes, Some(windows)) ==> has_panes(domain_id, panes, None)
            && exists|a: int, b: int, c: int|
            #![trigger windows@[a]@[b]@[c]]
            0 <= a < windows@.len() && 0 <= b < windows@[a]@.len() && 0 <= c
                < windows@[a]@[b]@.len() && windows@[a]@[b]@[c] == domain_id,
{
    if 0 <= w < windows@.len() && 0 <= t < windows@[w]@.len() && 0 <= p
        < windows@[w]@[t]@.len() && windows@[w]@[t]@[p] == domain_id {
        assert(windows@[w]@[t]@.contains(domain_id));
    }
    if has_panes(domain_id, panes, Some(windows)) {
        let (a, b) = choose|a: int, b: int|
            0 <= a < windows@.len() && 0 <= b < windows@[a]@.len()
                && #[trigger] windows@[a]@[b]@.contains(domain_id);
        let c = choose|c: int|
            0 <= c < windows@[a]@[b]@.len() && windows@[a]@[b]@[c] == domain_id;
        assert(windows@[a]@[b]@[c] == domain_id);
    }
}

/// A domain is connected at start-up exactly where it is a client of another multiplexer and
/// asks for it.
pub proof fn law_clients_that_ask_are_connected(domains: Seq<DomainInfo>, i: int)
    requires
        0 <= i < domains.len() <= usize::MAX,
    ensures
        auto_connected(domains, domains.len() as int).contains(i as usize)
            <==> domains[i].is_client && domains[i].connect_automatically,
{
    law_auto_connect_picks_exactly_the_willing(domains, domains.len() as int);
    assert(domains[i].auto_connects() <==> domains[i].is_client
        && domains[i].connect_automatically);
}

/// Start-up handlers hear of a command exactly where one was built or a domain was named: of
/// the one that was built, where there is one, and with the domain that was named, or none.
pub proof fn law_handlers_hear_of_command_and_domain(
    has_command: bool,
    domain: Option<String>,
    plan: Option<SpawnCommandPlan>,
)
    requires
        call_ensures(spawn_command_plan, (has_command, &domain), plan),
    ensures
        plan is None <==> !has_command && domain is None,
        plan matches Some(plan) ==> {
            &&& plan.from_command <==> has_command
            &&& domain is None <==> plan.domain is None
            &&& domain matches Some(name) ==> plan.domain->0@ == name@
        },
{
}

/// The multiplexer's defaults are the names that were asked for, else the configured ones, else
/// its own workspace and the local domain. Neither depends on the other.
pub proof fn law_nearest_names_are_the_defaults(
    config_domain: Option<String>,
    config_workspace: Option<String>,
    domain: Option<String>,
    workspace: Option<String>,
    mux_workspace: &str,
    defaults: MuxDefaults,
)
    requires
        call_ensures(
            setup_mux,
            (&config_domain, &config_workspace, &domain, &workspace, mux_workspace),
            defaults,
        ),
    ensures
        domain matches Some(name) ==> defaults.domain@ == name@,
        domain is None && config_domain is Some ==> defaults.domain@ == config_domain->0@,
        domain is None && config_domain is None ==> defaults.domain@ == "local"@,
        workspace matches Some(name) ==> defaults.workspace@ == name@,
        workspace is None && config_workspace is Some ==> defaults.workspace@
            == config_workspace->0@,
        workspace is None && config_workspace is None ==> defaults.workspace@ == mux_workspace@,
{
}

/// An error that ends the program is told in full, and what is wrong with the configuration is
/// told behind it exactly where something is: the same that its own window shows.
pub proof fn law_configuration_errors_are_told(
    err: &str,
    warnings: Vec<String>,
    text: String,
    shown: Option<String>,
)
    requires
        call_ensures(terminate_with_error, (err, &warnings), text),
        call_ensures(maybe_show_configuration_error_window, (&warnings,), shown),
    ensures
        err@.len() <= text@.len(),
        text@.take(err@.len() as int) == err@,
        shown is Some <==> warnings@.len() > 0,
        shown is None ==> text@ == err@,
        shown matches Some(complaint) ==> text@ == err@ + "\nConfiguration Error: "@ + complaint@,
{
    assert(text@.take(err@.len() as int) =~= err@);
}

} // verus!
