//! The way from a start command to a window: hand off to a running GUI, or become one.
//!
//! A start-up first tries the GUI that the published socket names. If that fails, it
//! tries every other GUI that is alive, oldest first, before it starts a GUI of its own.
//! One that is to have a process of its own asks nobody.

use crate::command::{needs_command, StartCommand};
use crate::handoff_otel::{
    attr_views, bool_kv, event, event_record, int_kv, record_views, set_attr, text_kv, KeyValue,
    KeyValueView, SpanRecord, SpanRecordView,
};
use crate::publish::{declines, GuiSock, Publish};
use crate::try_spawn::{first_phase, SpawnPhase};
use vstd::prelude::*;

verus! {

/// Where the command's directory comes from.
#[derive(Debug, Clone, Copy, PartialEq, Eq, Structural)]
pub enum CwdPlan {
    /// It is left to the configuration.
    Unset,
    /// The given directory, below the current one.
    BelowCurrentDir,
    /// The given directory.
    AsGiven,
}

/// A command to build for the first tab.
#[derive(Debug, Clone, Copy, PartialEq, Eq, Structural)]
pub struct CommandPlan {
    /// Whether the words of the start command are run rather than the default program.
    pub uses_prog: bool,
    pub cwd: CwdPlan,
}

/// The command to build for a start command, if it names a program or a directory.
pub fn command_plan<A, P>(opts: &StartCommand<A, P>, cwd_is_relative: bool) -> (r: Option<
    CommandPlan,
>)
    ensures
        r is Some <==> needs_command(*opts),
        r == if !needs_command(*opts) {
            None
        } else {
            Some(
                CommandPlan {
                    uses_prog: opts.prog@.len() > 0,
                    cwd: if opts.cwd is None {
                        CwdPlan::Unset
                    } else if cwd_is_relative {
                        CwdPlan::BelowCurrentDir
                    } else {
                        CwdPlan::AsGiven
                    },
                },
            )
        },
{
    let uses_prog = opts.prog.len() > 0;
    if !uses_prog && opts.cwd.is_none() {
        return None;
    }
    let cwd = if opts.cwd.is_none() {
        CwdPlan::Unset
    } else if cwd_is_relative {
        CwdPlan::BelowCurrentDir
    } else {
        CwdPlan::AsGiven
    };
    Some(CommandPlan { uses_prog, cwd })
}

/// Whether a start command passes over the published GUI: by asking for a process of its own,
/// or by placing the window.
pub fn wants_new_process<A, P>(opts: &StartCommand<A, P>) -> (r: bool)
    ensures
        r == (opts.always_new_process || opts.position is Some),
{
    opts.always_new_process || opts.position.is_some()
}

/// Whether a start-up keeps to a process of its own: because its start command says so
/// outright, or because its configuration was overridden.
///
/// An overridden configuration is taken to differ from that of every running GUI. So such a
/// start-up is not handed to any of them, although in general a GUI of our own is started
/// only once all that are alive have been tried. Placing the window is no such reason: it
/// passes over the published GUI alone.
pub open spec fn keeps_to_itself<A, P>(opts: StartCommand<A, P>, config_overridden: bool) -> bool {
    opts.always_new_process || config_overridden
}

/// Whether a start-up keeps to a process of its own: no running GUI is asked then.
pub fn stays_alone<A, P>(opts: &StartCommand<A, P>, config_overridden: bool) -> (r: bool)
    ensures
        r == keeps_to_itself(*opts, config_overridden),
{
    opts.always_new_process || config_overridden
}

/// `s`, or nothing.
pub open spec fn text_or_empty(s: Option<String>) -> Seq<char> {
    match s {
        Some(s) => s@,
        None => Seq::empty(),
    }
}

/// `s`, or nothing.
fn or_empty(s: &Option<String>) -> (r: String)
    ensures
        r@ == text_or_empty(*s),
{
    match s {
        Some(s) => s.clone(),
        None => String::new(),
    }
}

/// What the span of a start-up says about it.
pub open spec fn start_attributes<A, P>(
    pid: u32,
    argv: Seq<char>,
    opts: StartCommand<A, P>,
) -> Seq<KeyValueView> {
    seq![
        int_kv("process.pid", pid as int),
        text_kv("process.argv", argv),
        text_kv("opts.domain", text_or_empty(opts.domain)),
        text_kv("opts.workspace", text_or_empty(opts.workspace)),
        bool_kv("opts.attach", opts.attach),
        bool_kv("opts.new_tab", opts.new_tab),
        bool_kv("opts.always_new_process", opts.always_new_process),
    ]
}

/// What the span of a start-up says about it; `argv` is the command line as text.
pub fn handoff_attributes<A, P>(pid: u32, argv: &str, opts: &StartCommand<A, P>) -> (r: Vec<
    KeyValue,
>)
    ensures
        attr_views(r@) == start_attributes(pid, argv@, *opts),
{
    let domain = or_empty(&opts.domain);
    let workspace = or_empty(&opts.workspace);
    let attrs = vec![
        KeyValue::of_int("process.pid", pid as i64),
        KeyValue::of_text("process.argv", argv),
        KeyValue::of_text("opts.domain", domain.as_str()),
        KeyValue::of_text("opts.workspace", workspace.as_str()),
        KeyValue::of_bool("opts.attach", opts.attach),
        KeyValue::of_bool("opts.new_tab", opts.new_tab),
        KeyValue::of_bool("opts.always_new_process", opts.always_new_process),
    ];
    assert(attr_views(attrs@) =~= start_attributes(pid, argv@, *opts));
    attrs
}

/// What comes next on the way to a window.
#[derive(Debug, Clone, Copy, PartialEq, Eq, Structural)]
pub enum HandoffPhase {
    /// Try to hand off to the GUI that was resolved.
    FirstTry,
    /// Find the GUIs that are alive.
    Sweep,
    /// Try to hand off to the survivor with this index.
    Retry(usize),
    /// Make the published name point to the survivor with this index.
    Republish(usize),
    /// Leave: the request was handed off.
    Exit,
    /// Start a GUI of our own; the flag tells whether it publishes its socket.
    ColdStart(bool),
}

/// How the last step went.
#[derive(Debug, Clone, Copy, PartialEq, Eq, Structural)]
pub enum HandoffReply {
    /// Whether the request was handed off; an error counts as not.
    Tried(bool),
    /// The survivors are known.
    Swept,
    /// The name was republished, or could not be.
    Republished,
}

/// Whether `reply` answers `phase`, with `count` survivors.
pub open spec fn answers(phase: HandoffPhase, count: int, reply: HandoffReply) -> bool {
    match phase {
        HandoffPhase::FirstTry => reply is Tried,
        HandoffPhase::Sweep => reply is Swept,
        HandoffPhase::Retry(i) => reply is Tried && i < count,
        HandoffPhase::Republish(i) => reply is Republished && i < count,
        HandoffPhase::Exit => false,
        HandoffPhase::ColdStart(_) => false,
    }
}

/// The survivor to try at `index`, or a GUI of our own when there is none left.
pub open spec fn retry_or_start(index: int, count: int, publishes: bool) -> HandoffPhase {
    if index < count {
        HandoffPhase::Retry(index as usize)
    } else {
        HandoffPhase::ColdStart(publishes)
    }
}

/// The phase after `reply`, with `count` survivors. A start-up that always has a new process
/// looks for no survivors.
pub open spec fn next_handoff(
    phase: HandoffPhase,
    count: int,
    publishes: bool,
    always_new_process: bool,
    reply: HandoffReply,
) -> HandoffPhase {
    match (phase, reply) {
        (HandoffPhase::FirstTry, HandoffReply::Tried(ok)) => if ok {
            HandoffPhase::Exit
        } else if always_new_process {
            HandoffPhase::ColdStart(publishes)
        } else {
            HandoffPhase::Sweep
        },
        (HandoffPhase::Sweep, HandoffReply::Swept) => retry_or_start(0, count, publishes),
        (HandoffPhase::Retry(i), HandoffReply::Tried(ok)) => if ok {
            HandoffPhase::Republish(i)
        } else {
            retry_or_start(i + 1, count, publishes)
        },
        (HandoffPhase::Republish(_), HandoffReply::Republished) => HandoffPhase::Exit,
        _ => phase,
    }
}

/// How the start-up ended, as an attribute of its span.
pub open spec fn outcome_record(outcome: &str) -> SpanRecordView {
    SpanRecordView::Attr(text_kv("handoff.outcome", outcome@))
}

/// What is reported when `phase` is entered.
pub open spec fn entry_records(phase: HandoffPhase) -> Seq<SpanRecordView> {
    match phase {
        HandoffPhase::ColdStart(publishes) => seq![
            outcome_record("fresh_gui_frontend"),
            SpanRecordView::Attr(bool_kv("handoff.should_publish", publishes)),
        ],
        _ => Seq::empty(),
    }
}

/// What is reported after `reply`.
pub open spec fn handoff_records(
    phase: HandoffPhase,
    survivors: Seq<GuiSock>,
    publishes: bool,
    always_new_process: bool,
    reply: HandoffReply,
) -> Seq<SpanRecordView> {
    let next = next_handoff(
        phase,
        survivors.len() as int,
        publishes,
        always_new_process,
        reply,
    );
    match phase {
        HandoffPhase::FirstTry => if reply == HandoffReply::Tried(true) {
            seq![outcome_record("handoff_ok_exit")]
        } else {
            entry_records(next)
        },
        HandoffPhase::Sweep => seq![
            event_record(
                "fresh_gui_fallthrough.sweep",
                seq![int_kv("survivors", survivors.len() as i64 as int)],
            ),
        ] + entry_records(next),
        HandoffPhase::Retry(_) => entry_records(next),
        HandoffPhase::Republish(i) => seq![
            event_record(
                "fresh_gui_fallthrough.survivor_handoff",
                seq![text_kv("survivor_sock", survivors[i as int].shown@)],
            ),
            outcome_record("survivor_handoff_ok_exit"),
        ],
        _ => Seq::empty(),
    }
}

/// Appends to `records` what is reported when `phase` is entered.
fn push_entry(records: &mut Vec<SpanRecord>, phase: HandoffPhase)
    ensures
        record_views(final(records)@) == record_views(old(records)@) + entry_records(phase),
{
    match phase {
        HandoffPhase::ColdStart(publishes) => {
            records.push(
                set_attr(KeyValue::of_text("handoff.outcome", "fresh_gui_frontend")),
            );
            records.push(set_attr(KeyValue::of_bool("handoff.should_publish", publishes)));
        },
        _ => {},
    }
    assert(record_views(records@) =~= record_views(old(records)@) + entry_records(phase));
}

/// Takes the start-up on from `phase`: the next phase and what to report.
///
/// `publish` is the decision that the first attempt left behind; attempts at survivors do
/// not touch it. With `always_new_process` no survivor is looked for or asked.
pub fn run_terminal_gui(
    phase: HandoffPhase,
    survivors: &Vec<GuiSock>,
    publish: &Publish,
    always_new_process: bool,
    reply: HandoffReply,
) -> (r: (HandoffPhase, Vec<SpanRecord>))
    requires
        answers(phase, survivors@.len() as int, reply),
    ensures
        r.0 == next_handoff(
            phase,
            survivors@.len() as int,
            publish.publishes(),
            always_new_process,
            reply,
        ),
        record_views(r.1@) == handoff_records(
            phase,
            survivors@,
            publish.publishes(),
            always_new_process,
            reply,
        ),
{
    let count: usize = survivors.len();
    let mut records: Vec<SpanRecord> = Vec::new();
    assert(record_views(records@) =~= Seq::empty());
    let next = match phase {
        HandoffPhase::FirstTry => if reply == HandoffReply::Tried(true) {
            records.push(set_attr(KeyValue::of_text("handoff.outcome", "handoff_ok_exit")));
            assert(record_views(records@) =~= seq![outcome_record("handoff_ok_exit")]);
            HandoffPhase::Exit
        } else {
            let next = if always_new_process {
                HandoffPhase::ColdStart(publish.should_publish())
            } else {
                HandoffPhase::Sweep
            };
            push_entry(&mut records, next);
            assert(record_views(records@) =~= entry_records(next));
            next
        },
        HandoffPhase::Sweep => {
            let attrs = vec![KeyValue::of_int("survivors", count as i64)];
            assert(attr_views(attrs@) =~= seq![
                int_kv("survivors", survivors@.len() as i64 as int),
            ]);
            records.push(event("fresh_gui_fallthrough.sweep", attrs));
            assert(record_views(records@) =~= seq![
                event_record(
                    "fresh_gui_fallthrough.sweep",
                    seq![int_kv("survivors", survivors@.len() as i64 as int)],
                ),
            ]);
            let next = if count > 0 {
                HandoffPhase::Retry(0)
            } else {
                HandoffPhase::ColdStart(publish.should_publish())
            };
            push_entry(&mut records, next);
            next
        },
        HandoffPhase::Retry(i) => {
            let next = if reply == HandoffReply::Tried(true) {
                HandoffPhase::Republish(i)
            } else if i + 1 < count {
                HandoffPhase::Retry(i + 1)
            } else {
                HandoffPhase::ColdStart(publish.should_publish())
            };
            push_entry(&mut records, next);
            assert(record_views(records@) =~= entry_records(next));
            next
        },
        HandoffPhase::Republish(i) => {
            let attrs = vec![KeyValue::of_text("survivor_sock", survivors[i].shown.as_str())];
            assert(attr_views(attrs@) =~= seq![
                text_kv("survivor_sock", survivors@[i as int].shown@),
            ]);
            records.push(event("fresh_gui_fallthrough.survivor_handoff", attrs));
            records.push(
                set_attr(KeyValue::of_text("handoff.outcome", "survivor_handoff_ok_exit")),
            );
            assert(record_views(records@) =~= handoff_records(
                phase,
                survivors@,
                publish.publishes(),
                always_new_process,
                reply,
            ));
            HandoffPhase::Exit
        },
        HandoffPhase::Exit | HandoffPhase::ColdStart(_) => phase,
    };
    (next, records)
}

/// Where the sweep stands once the survivors from `index` on have been tried, one after the
/// other until one accepts: `tries[i]` is what trying survivor `i` comes to.
pub open spec fn swept_from(tries: Seq<bool>, index: int, publishes: bool) -> HandoffPhase
    decreases tries.len() - index,
{
    let phase = retry_or_start(index, tries.len() as int, publishes);
    if index < 0 || index >= tries.len() {
        phase
    } else {
        let reply = HandoffReply::Tried(tries[index]);
        match next_handoff(phase, tries.len() as int, publishes, false, reply) {
            HandoffPhase::Retry(_) => swept_from(tries, index + 1, publishes),
            HandoffPhase::ColdStart(_) => swept_from(tries, index + 1, publishes),
            other => other,
        }
    }
}

/// Where a start-up ends before the published name is put right: `first` is what the first
/// attempt comes to, `tries` what trying each survivor comes to.
pub open spec fn start_up(
    always_new_process: bool,
    first: bool,
    tries: Seq<bool>,
    publishes: bool,
) -> HandoffPhase {
    match next_handoff(
        HandoffPhase::FirstTry,
        tries.len() as int,
        publishes,
        always_new_process,
        HandoffReply::Tried(first),
    ) {
        HandoffPhase::Sweep => swept_from(tries, 0, publishes),
        other => other,
    }
}

proof fn lemma_swept_from(tries: Seq<bool>, index: int, publishes: bool)
    requires
        0 <= index <= tries.len() <= usize::MAX,
    ensures
        match swept_from(tries, index, publishes) {
            HandoffPhase::Republish(i) => {
                &&& index <= i < tries.len()
                &&& tries[i as int]
                &&& forall|j: int| index <= j < i ==> !#[trigger] tries[j]
            },
            HandoffPhase::ColdStart(p) => p == publishes && forall|j: int|
                index <= j < tries.len() ==> !#[trigger] tries[j],
            _ => false,
        },
    decreases tries.len() - index,
{
    if index < tries.len() {
        lemma_swept_from(tries, index + 1, publishes);
    }
}

/// Where a start-up stands that was in `phase` and got `replies`, as far as they answer.
pub open spec fn reached(
    phase: HandoffPhase,
    count: int,
    publishes: bool,
    always_new_process: bool,
    replies: Seq<HandoffReply>,
) -> HandoffPhase
    decreases replies.len(),
{
    if replies.len() == 0 || !answers(phase, count, replies[0]) {
        phase
    } else {
        reached(
            next_handoff(phase, count, publishes, always_new_process, replies[0]),
            count,
            publishes,
            always_new_process,
            replies.drop_first(),
        )
    }
}

/// A start-up that always has a new process starts one, whatever other GUIs are alive and
/// would accept. However its steps go, no survivor is ever looked for or tried.
pub proof fn law_new_process_asks_no_survivor(
    tries: Seq<bool>,
    publishes: bool,
    replies: Seq<HandoffReply>,
)
    ensures
        start_up(true, false, tries, publishes) == HandoffPhase::ColdStart(publishes),
        ({
            let phase = reached(
                HandoffPhase::FirstTry,
                tries.len() as int,
                publishes,
                true,
                replies,
            );
            !(phase is Sweep) && !(phase is Retry) && !(phase is Republish)
        }),
{
    let count = tries.len() as int;
    if replies.len() > 0 && answers(HandoffPhase::FirstTry, count, replies[0]) {
        let next = next_handoff(HandoffPhase::FirstTry, count, publishes, true, replies[0]);
        let rest = replies.drop_first();
        assert(reached(next, count, publishes, true, rest) == next);
    }
}

/// A start command that asks outright for a new process, or a configuration that was
/// overridden, always leads to a GUI of our own that nobody else is told about: the published
/// GUI is not tried, no survivor is, and our socket is not published.
pub proof fn law_start_up_that_stays_alone_starts_a_gui<A, P>(
    opts: StartCommand<A, P>,
    config_overridden: bool,
    mux_default: Seq<char>,
    config_default: Option<Seq<char>>,
    publish: Publish,
    tries: Seq<bool>,
)
    requires
        keeps_to_itself(opts, config_overridden),
        declines(
            mux_default,
            config_default,
            opts.always_new_process || opts.position is Some,
            config_overridden,
        ) ==> publish is NoConnectNoPublish,
    ensures
        publish is NoConnectNoPublish,
        first_phase(publish).0 == SpawnPhase::Done(false),
        start_up(keeps_to_itself(opts, config_overridden), false, tries, publish.publishes())
            == HandoffPhase::ColdStart(false),
{
}

/// A start command that places the window, and does not keep to itself otherwise, passes over
/// the published GUI, but not over the others that are alive: the first of them that accepts
/// gets the request, and a GUI of our own stays unpublished.
pub proof fn law_placed_window_still_asks_survivors<A, P>(
    opts: StartCommand<A, P>,
    mux_default: Seq<char>,
    config_default: Option<Seq<char>>,
    publish: Publish,
    tries: Seq<bool>,
)
    requires
        opts.position is Some,
        !keeps_to_itself(opts, false),
        tries.len() <= usize::MAX,
        declines(
            mux_default,
            config_default,
            opts.always_new_process || opts.position is Some,
            false,
        ) ==> publish is NoConnectNoPublish,
    ensures
        first_phase(publish).0 == SpawnPhase::Done(false),
        match start_up(keeps_to_itself(opts, false), false, tries, publish.publishes()) {
            HandoffPhase::Republish(i) => {
                &&& i < tries.len()
                &&& tries[i as int]
                &&& forall|j: int| 0 <= j < i ==> !#[trigger] tries[j]
            },
            HandoffPhase::ColdStart(publishes) => !publishes && forall|j: int|
                0 <= j < tries.len() ==> !#[trigger] tries[j],
            _ => false,
        },
{
    lemma_swept_from(tries, 0, publish.publishes());
}

/// A GUI of our own is started exactly when the first attempt failed and, unless a new
/// process was asked for anyway, every survivor failed too or there was none; whether it
/// publishes its socket depends on the first attempt's decision alone.
pub proof fn law_cold_start_is_the_last_resort(
    always_new_process: bool,
    first: bool,
    tries: Seq<bool>,
    publishes: bool,
)
    requires
        tries.len() <= usize::MAX,
    ensures
        start_up(always_new_process, first, tries, publishes) == HandoffPhase::ColdStart(publishes)
            <==> (!first && (always_new_process || forall|j: int|
            0 <= j < tries.len() ==> !#[trigger] tries[j])),
        start_up(always_new_process, first, tries, publishes) is ColdStart ==> start_up(
            always_new_process,
            first,
            tries,
            publishes,
        ) == HandoffPhase::ColdStart(publishes),
{
    lemma_swept_from(tries, 0, publishes);
}

/// A start-up always ends with a window: either a running GUI accepted the request, in the
/// first attempt or as a survivor, or a GUI of our own is started.
pub proof fn law_there_is_always_a_window(
    always_new_process: bool,
    first: bool,
    tries: Seq<bool>,
    publishes: bool,
)
    requires
        tries.len() <= usize::MAX,
    ensures
        match start_up(always_new_process, first, tries, publishes) {
            HandoffPhase::Exit => first,
            HandoffPhase::Republish(i) => !always_new_process && i < tries.len()
                && tries[i as int],
            HandoffPhase::ColdStart(_) => true,
            _ => false,
        },
{
    lemma_swept_from(tries, 0, publishes);
}

/// After a failed first attempt, unless a new process was asked for, the survivors are tried
/// in their order and the first one that accepts gets the request: the published name is
/// pointed to that survivor, and the process leaves.
pub proof fn law_oldest_willing_survivor_gets_the_request(
    always_new_process: bool,
    tries: Seq<bool>,
    publishes: bool,
    i: int,
)
    requires
        !always_new_process,
        tries.len() <= usize::MAX,
        0 <= i < tries.len(),
        tries[i],
        forall|j: int| 0 <= j < i ==> !#[trigger] tries[j],
    ensures
        start_up(always_new_process, false, tries, publishes) == HandoffPhase::Republish(
            i as usize,
        ),
        next_handoff(
            start_up(always_new_process, false, tries, publishes),
            tries.len() as int,
            publishes,
            always_new_process,
            HandoffReply::Republished,
        ) == HandoffPhase::Exit,
{
    lemma_swept_from(tries, 0, publishes);
}

/// Once the first attempt is accepted, the process leaves without sweeping.
pub proof fn law_accepted_first_attempt_leaves(
    always_new_process: bool,
    tries: Seq<bool>,
    publishes: bool,
)
    ensures
        start_up(always_new_process, true, tries, publishes) == HandoffPhase::Exit,
{
}

/// A start-up keeps to itself where a new process was asked for outright and where the
/// configuration was overridden, and for no other reason; what else the start command says
/// makes no difference.
pub proof fn law_two_reasons_to_keep_to_oneself<A, P>(
    opts: StartCommand<A, P>,
    config_overridden: bool,
)
    ensures
        opts.always_new_process ==> keeps_to_itself(opts, config_overridden),
        keeps_to_itself(opts, true),
        !opts.always_new_process ==> !keeps_to_itself(opts, false),
{
}

/// Where a start-up stands after `replies`, one for each of its phases from the first attempt
/// on.
pub open spec fn driven(
    count: int,
    publishes: bool,
    always_new_process: bool,
    replies: Seq<HandoffReply>,
) -> HandoffPhase
    decreases replies.len(),
{
    if replies.len() == 0 {
        HandoffPhase::FirstTry
    } else {
        next_handoff(
            driven(count, publishes, always_new_process, replies.drop_last()),
            count,
            publishes,
            always_new_process,
            replies.last(),
        )
    }
}

/// A failed first attempt, a sweep, and `n` survivors that did not accept.
pub open spec fn turned_down(n: nat) -> Seq<HandoffReply>
    decreases n,
{
    if n == 0 {
        seq![HandoffReply::Tried(false), HandoffReply::Swept]
    } else {
        turned_down((n - 1) as nat).push(HandoffReply::Tried(false))
    }
}

/// Step by step, after a failed first attempt the survivors are tried one by one, from the
/// first to the last, none left out; a GUI of our own is started only after the last of them
/// has failed. One that accepts has the name pointed to it, and then the process leaves.
pub proof fn law_survivors_are_tried_one_by_one(count: nat, publishes: bool, n: nat)
    requires
        n <= count <= usize::MAX,
    ensures
        driven(count as int, publishes, false, seq![HandoffReply::Tried(false)])
            == HandoffPhase::Sweep,
        driven(count as int, publishes, false, seq![HandoffReply::Tried(true)])
            == HandoffPhase::Exit,
        driven(count as int, publishes, true, seq![HandoffReply::Tried(false)])
            == HandoffPhase::ColdStart(publishes),
        n < count ==> driven(count as int, publishes, false, turned_down(n))
            == HandoffPhase::Retry(n as usize),
        n == count ==> driven(count as int, publishes, false, turned_down(n))
            == HandoffPhase::ColdStart(publishes),
        n < count ==> driven(
            count as int,
            publishes,
            false,
            turned_down(n).push(HandoffReply::Tried(true)),
        ) == HandoffPhase::Republish(n as usize),
        n < count ==> driven(
            count as int,
            publishes,
            false,
            turned_down(n).push(HandoffReply::Tried(true)).push(HandoffReply::Republished),
        ) == HandoffPhase::Exit,
    decreases n,
{
    let c = count as int;
    let none = Seq::<HandoffReply>::empty();
    assert(driven(c, publishes, false, none) == HandoffPhase::FirstTry);
    assert(driven(c, publishes, true, none) == HandoffPhase::FirstTry);
    assert(seq![HandoffReply::Tried(false)].drop_last() =~= none);
    assert(seq![HandoffReply::Tried(true)].drop_last() =~= none);
    if n == 0 {
        assert(turned_down(0).drop_last() =~= seq![HandoffReply::Tried(false)]);
    } else {
        law_survivors_are_tried_one_by_one(count, publishes, (n - 1) as nat);
        assert(turned_down(n).drop_last() =~= turned_down((n - 1) as nat));
    }
    if n < count {
        let accepted = turned_down(n).push(HandoffReply::Tried(true));
        assert(accepted.drop_last() =~= turned_down(n));
        assert(accepted.push(HandoffReply::Republished).drop_last() =~= accepted);
    }
}

/// The outcome is reported as the start-up ends, once and truly: as a GUI of our own, with
/// whether that one publishes its socket, exactly where one is started; as handed off by the
/// first attempt or to a survivor, with its socket, where it was. A sweep reports how many
/// survivors it found; on the way nothing else is reported.
pub proof fn law_the_outcome_is_reported(
    phase: HandoffPhase,
    survivors: Seq<GuiSock>,
    publishes: bool,
    always_new_process: bool,
    reply: HandoffReply,
)
    requires
        survivors.len() <= usize::MAX,
        answers(phase, survivors.len() as int, reply),
    ensures
        ({
            let next = next_handoff(
                phase,
                survivors.len() as int,
                publishes,
                always_new_process,
                reply,
            );
            let records = handoff_records(phase, survivors, publishes, always_new_process, reply);
            let swept: int = if phase is Sweep {
                1
            } else {
                0
            };
            &&& next is ColdStart ==> records.len() == swept + 2 && records.last()
                == SpanRecordView::Attr(bool_kv("handoff.should_publish", publishes))
                && records[records.len() - 2] == outcome_record("fresh_gui_frontend")
            &&& next is Exit && phase is FirstTry ==> records == seq![
                outcome_record("handoff_ok_exit"),
            ]
            &&& phase matches HandoffPhase::Republish(i) ==> records == seq![
                event_record(
                    "fresh_gui_fallthrough.survivor_handoff",
                    seq![text_kv("survivor_sock", survivors[i as int].shown@)],
                ),
                outcome_record("survivor_handoff_ok_exit"),
            ]
            &&& phase is Sweep && survivors.len() <= i64::MAX ==> records[0] == event_record(
                "fresh_gui_fallthrough.sweep",
                seq![int_kv("survivors", survivors.len() as int)],
            )
            &&& !(next is ColdStart) && !(next is Exit) ==> records.len() == swept
        }),
{
    let next = next_handoff(
        phase,
        survivors.len() as int,
        publishes,
        always_new_process,
        reply,
    );
    let records = handoff_records(phase, survivors, publishes, always_new_process, reply);
    if next is ColdStart {
        assert(records[records.len() - 2] == outcome_record("fresh_gui_frontend"));
    }
    if let HandoffPhase::Republish(i) = phase {
        assert(records =~= seq![
            event_record(
                "fresh_gui_fallthrough.survivor_handoff",
                seq![text_kv("survivor_sock", survivors[i as int].shown@)],
            ),
            outcome_record("survivor_handoff_ok_exit"),
        ]);
    }
}

/// The span of a start-up tells its process, its command line and what the start command says,
/// each under its own name; a domain or workspace that it does not name is told as an empty
/// text.
pub proof fn law_the_span_tells_the_start_command<A, P>(
    pid: u32,
    argv: Seq<char>,
    opts: StartCommand<A, P>,
)
    ensures
        ({
            let attrs = start_attributes(pid, argv, opts);
            &&& attrs.contains(int_kv("process.pid", pid as int))
            &&& attrs.contains(text_kv("process.argv", argv))
            &&& attrs.contains(bool_kv("opts.attach", opts.attach))
            &&& attrs.contains(bool_kv("opts.new_tab", opts.new_tab))
            &&& attrs.contains(bool_kv("opts.always_new_process", opts.always_new_process))
            &&& opts.domain matches Some(name) ==> attrs.contains(text_kv("opts.domain", name@))
            &&& opts.workspace matches Some(name) ==> attrs.contains(
                text_kv("opts.workspace", name@),
            )
            &&& opts.domain is None ==> attrs.contains(text_kv("opts.domain", Seq::empty()))
            &&& opts.workspace is None ==> attrs.contains(text_kv("opts.workspace", Seq::empty()))
            &&& attrs.len() == 7
        }),
{
    let attrs = start_attributes(pid, argv, opts);
    assert(attrs[0] == int_kv("process.pid", pid as int));
    assert(attrs[1] == text_kv("process.argv", argv));
    assert(attrs[2] == text_kv("opts.domain", text_or_empty(opts.domain)));
    assert(attrs[3] == text_kv("opts.workspace", text_or_empty(opts.workspace)));
    assert(attrs[4] == bool_kv("opts.attach", opts.attach));
    assert(attrs[5] == bool_kv("opts.new_tab", opts.new_tab));
    assert(attrs[6] == bool_kv("opts.always_new_process", opts.always_new_process));
}

/// A command is built exactly where the start command names a program or a directory. It runs
/// the named program where there is one, and a directory that is named is the command's:
/// below the current one where it is relative.
pub proof fn law_command_runs_what_is_named<A, P>(
    opts: StartCommand<A, P>,
    cwd_is_relative: bool,
    plan: Option<CommandPlan>,
)
    requires
        call_ensures(command_plan::<A, P>, (&opts, cwd_is_relative), plan),
    ensures
        plan is Some <==> opts.prog@.len() > 0 || opts.cwd is Some,
        plan matches Some(plan) ==> {
            &&& plan.uses_prog <==> opts.prog@.len() > 0
            &&& plan.cwd is Unset <==> opts.cwd is None
            &&& plan.cwd is BelowCurrentDir <==> opts.cwd is Some && cwd_is_relative
        },
{
}

} // verus!
