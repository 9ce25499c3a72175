//! Whether a starting process talks to a GUI that is already running, and whether it
//! offers its own socket to later ones.

use crate::handoff_otel::{
    attr_views, event, event_record, text_kv, KeyValue, SpanRecord, SpanRecordView,
};
use std::path::PathBuf;
use vstd::prelude::*;

verus! {

/// `std::path::PathBuf`, carried through and never looked into.
#[verifier::external_type_specification]
#[verifier::external_body]
pub struct ExPathBuf(PathBuf);

/// The socket of a running GUI: its path and the path as it is shown to people.
pub struct GuiSock {
    pub path: PathBuf,
    pub shown: String,
}

/// What a starting process does about a running GUI and about its own socket.
pub enum Publish {
    /// Try to hand off to the GUI behind this socket; failing that, publish our own.
    TryPathOrPublish(GuiSock),
    /// Neither hand off nor publish.
    NoConnectNoPublish,
    /// There is nobody to hand off to; publish our own socket.
    NoConnectButPublish,
}

/// What [`Publish::resolve`] came to.
pub enum ResolveStep {
    /// It is decided, with the event to report.
    Decided(Publish, SpanRecord),
    /// Look for the socket of a running GUI and go on with [`Publish::resolve_gui_sock`].
    LookUpGuiSock,
}

/// The view of an optional string.
pub open spec fn option_view(s: Option<String>) -> Option<Seq<char>> {
    match s {
        Some(s) => Some(s@),
        None => None,
    }
}

/// `explicit`, or else `configured`, or else `fallback`.
pub open spec fn first_given(
    explicit: Option<Seq<char>>,
    configured: Option<Seq<char>>,
    fallback: Seq<char>,
) -> Seq<char> {
    match explicit {
        Some(name) => name,
        None => match configured {
            Some(name) => name,
            None => fallback,
        },
    }
}

/// `explicit`, or else `configured`, or else `fallback`.
pub fn choose_name(
    explicit: &Option<String>,
    configured: &Option<String>,
    fallback: &str,
) -> (r: String)
    ensures
        r@ == first_given(option_view(*explicit), option_view(*configured), fallback@),
{
    match explicit {
        Some(name) => name.clone(),
        None => match configured {
            Some(name) => name.clone(),
            None => fallback.to_string(),
        },
    }
}

/// Whether `record` is the event that reports the decision `publish`: its first attribute
/// names the variant.
pub open spec fn reports(record: SpanRecordView, publish: Publish) -> bool {
    &&& record is Event
    &&& record->Event_0 == "publish.resolve"@
    &&& record->Event_1.len() > 0
    &&& record->Event_1[0] == text_kv("variant", publish.variant())
}

/// Whether a start-up neither hands off nor publishes: the domain that is the default here is
/// not the configured one, a new process was asked for, or the configuration was overridden.
pub open spec fn declines(
    mux_default: Seq<char>,
    config_default: Option<Seq<char>>,
    always_new_process: bool,
    config_overridden: bool,
) -> bool {
    mux_default != first_given(None, config_default, "local"@) || always_new_process
        || config_overridden
}

/// What `{:?}` makes of an optional string.
pub uninterp spec fn debug_text(s: Option<Seq<char>>) -> Seq<char>;

/// `Option::fmt` of `std::fmt::Debug`, through `format!("{:?}", ..)`: a text that depends
/// on the optional string alone, and is `None` where there is none. How it quotes and
/// escapes a string that is there is left unsaid.
#[verifier::external_body]
fn debug_option(s: &Option<String>) -> (r: String)
    ensures
        r@ == debug_text(option_view(*s)),
        s is None ==> r@ == "None"@,
{
    format!("{:?}", s)
}

impl Publish {
    /// The name of the variant.
    pub open spec fn variant(self) -> Seq<char> {
        match self {
            Publish::TryPathOrPublish(_) => "TryPathOrPublish"@,
            Publish::NoConnectNoPublish => "NoConnectNoPublish"@,
            Publish::NoConnectButPublish => "NoConnectButPublish"@,
        }
    }

    /// Whether our own socket is offered to later processes.
    pub open spec fn publishes(self) -> bool {
        !(self is NoConnectNoPublish)
    }

    /// Decides, as far as that can be done without looking for a running GUI.
    ///
    /// Neither handing off nor publishing makes sense when the domain that is the default
    /// here is not the configured one, when a new process was asked for, or when the
    /// configuration was overridden and so may differ from that of a running GUI.
    pub fn resolve(
        mux_default_domain: &String,
        config_default_domain: &Option<String>,
        always_new_process: bool,
        config_overridden: bool,
    ) -> (step: ResolveStep)
        ensures
            ({
                let mux_default = mux_default_domain@;
                let config_default = option_view(*config_default_domain);
                if mux_default != first_given(None, config_default, "local"@) {
                    &&& step is Decided
                    &&& step->Decided_0 is NoConnectNoPublish
                    &&& step->Decided_1@ == event_record(
                        "publish.resolve",
                        seq![
                            text_kv("variant", "NoConnectNoPublish"@),
                            text_kv("reason", "mux_vs_config_default_domain_mismatch"@),
                            text_kv("mux.default_domain", mux_default),
                            text_kv("config.default_domain", debug_text(config_default)),
                        ],
                    )
                } else if always_new_process {
                    &&& step is Decided
                    &&& step->Decided_0 is NoConnectNoPublish
                    &&& step->Decided_1@ == event_record(
                        "publish.resolve",
                        seq![
                            text_kv("variant", "NoConnectNoPublish"@),
                            text_kv("reason", "always_new_process"@),
                        ],
                    )
                } else if config_overridden {
                    &&& step is Decided
                    &&& step->Decided_0 is NoConnectNoPublish
                    &&& step->Decided_1@ == event_record(
                        "publish.resolve",
                        seq![
                            text_kv("variant", "NoConnectNoPublish"@),
                            text_kv("reason", "config_overridden"@),
                        ],
                    )
                } else {
                    step is LookUpGuiSock
                }
            }),
            step is Decided <==> declines(
                mux_default_domain@,
                option_view(*config_default_domain),
                always_new_process,
                config_overridden,
            ),
            step matches ResolveStep::Decided(publish, record) ==> publish is NoConnectNoPublish
                && reports(record@, publish),
    {
        let configured = choose_name(&None, config_default_domain, "local");
        if *mux_default_domain != configured {
            let config_default = debug_option(config_default_domain);
            let attrs = vec![
                KeyValue::of_text("variant", "NoConnectNoPublish"),
                KeyValue::of_text("reason", "mux_vs_config_default_domain_mismatch"),
                KeyValue::of_text("mux.default_domain", mux_default_domain.as_str()),
                KeyValue::of_text("config.default_domain", config_default.as_str()),
            ];
            assert(attr_views(attrs@) =~= seq![
                text_kv("variant", "NoConnectNoPublish"@),
                text_kv("reason", "mux_vs_config_default_domain_mismatch"@),
                text_kv("mux.default_domain", mux_default_domain@),
                text_kv("config.default_domain", debug_text(option_view(*config_default_domain))),
            ]);
            return ResolveStep::Decided(
                Publish::NoConnectNoPublish,
                event("publish.resolve", attrs),
            );
        }
        if always_new_process {
            return Self::decided_not_to("always_new_process");
        }
        if config_overridden {
            return Self::decided_not_to("config_overridden");
        }
        ResolveStep::LookUpGuiSock
    }

    /// Neither hand off nor publish, for the given reason.
    fn decided_not_to(reason: &'static str) -> (step: ResolveStep)
        ensures
            step is Decided,
            step->Decided_0 is NoConnectNoPublish,
            step->Decided_1@ == event_record(
                "publish.resolve",
                seq![text_kv("variant", "NoConnectNoPublish"@), text_kv("reason", reason@)],
            ),
    {
        let attrs = vec![
            KeyValue::of_text("variant", "NoConnectNoPublish"),
            KeyValue::of_text("reason", reason),
        ];
        assert(attr_views(attrs@) =~= seq![
            text_kv("variant", "NoConnectNoPublish"@),
            text_kv("reason", reason@),
        ]);
        ResolveStep::Decided(Publish::NoConnectNoPublish, event("publish.resolve", attrs))
    }

    /// Decides, once a running GUI has been looked for: try its socket if there is one, else
    /// publish our own.
    pub fn resolve_gui_sock(found: Result<GuiSock, String>) -> (r: (Publish, SpanRecord))
        ensures
            match found {
                Ok(sock) => {
                    &&& r.0 == Publish::TryPathOrPublish(sock)
                    &&& r.1@ == event_record(
                        "publish.resolve",
                        seq![
                            text_kv("variant", "TryPathOrPublish"@),
                            text_kv("gui_sock", sock.shown@),
                        ],
                    )
                },
                Err(error) => {
                    &&& r.0 is NoConnectButPublish
                    &&& r.1@ == event_record(
                        "publish.resolve",
                        seq![
                            text_kv("variant", "NoConnectButPublish"@),
                            text_kv("reason", "resolve_gui_sock_path_failed"@),
                            text_kv("error", error@),
                        ],
                    )
                },
            },
            reports(r.1@, r.0),
    {
        match found {
            Ok(sock) => {
                let attrs = vec![
                    KeyValue::of_text("variant", "TryPathOrPublish"),
                    KeyValue::of_text("gui_sock", sock.shown.as_str()),
                ];
                assert(attr_views(attrs@) =~= seq![
                    text_kv("variant", "TryPathOrPublish"@),
                    text_kv("gui_sock", sock.shown@),
                ]);
                (Publish::TryPathOrPublish(sock), event("publish.resolve", attrs))
            },
            Err(error) => {
                let attrs = vec![
                    KeyValue::of_text("variant", "NoConnectButPublish"),
                    KeyValue::of_text("reason", "resolve_gui_sock_path_failed"),
                    KeyValue::of_text("error", error.as_str()),
                ];
                assert(attr_views(attrs@) =~= seq![
                    text_kv("variant", "NoConnectButPublish"@),
                    text_kv("reason", "resolve_gui_sock_path_failed"@),
                    text_kv("error", error@),
                ]);
                (Publish::NoConnectButPublish, event("publish.resolve", attrs))
            },
        }
    }

    /// Whether our own socket is offered to later processes.
    pub fn should_publish(&self) -> (r: bool)
        ensures
            r == self.publishes(),
    {
        match self {
            Publish::TryPathOrPublish(_) | Publish::NoConnectButPublish => true,
            Publish::NoConnectNoPublish => false,
        }
    }

    /// The name of the variant.
    pub fn variant_name(&self) -> (r: &'static str)
        ensures
            r@ == self.variant(),
    {
        match self {
            Publish::TryPathOrPublish(_) => "TryPathOrPublish",
            Publish::NoConnectNoPublish => "NoConnectNoPublish",
            Publish::NoConnectButPublish => "NoConnectButPublish",
        }
    }
}

/// A name that was asked for counts, whatever is configured; without one the configured name
/// counts, whatever the fallback; and the fallback counts only where there is neither. A name
/// counts even if it is empty.
pub proof fn law_the_nearest_name_counts(
    explicit: Option<String>,
    configured: Option<String>,
    fallback: Seq<char>,
)
    ensures
        explicit matches Some(name) ==> first_given(
            option_view(explicit),
            option_view(configured),
            fallback,
        ) == name@,
        explicit is None && configured is Some ==> first_given(
            option_view(explicit),
            option_view(configured),
            fallback,
        ) == configured->0@,
        explicit is None && configured is None ==> first_given(
            option_view(explicit),
            option_view(configured),
            fallback,
        ) == fallback,
{
}

/// A start-up stays out of handing off and publishing for each of three reasons, and for no
/// other: a new process was asked for, the configuration was overridden, or the default domain
/// is not the configured one, which is `local` where none is configured.
pub proof fn law_three_reasons_to_stay_out(
    mux_default: Seq<char>,
    config_default: Option<Seq<char>>,
    always_new_process: bool,
    config_overridden: bool,
)
    ensures
        always_new_process ==> declines(mux_default, config_default, true, config_overridden),
        config_overridden ==> declines(mux_default, config_default, always_new_process, true),
        config_default matches Some(name) ==> (mux_default != name <==> declines(
            mux_default,
            config_default,
            false,
            false,
        )),
        config_default is None ==> (mux_default != "local"@ <==> declines(
            mux_default,
            config_default,
            false,
            false,
        )),
        mux_default != (if config_default is Some {
            config_default->0
        } else {
            "local"@
        }) ==> declines(mux_default, config_default, always_new_process, config_overridden),
{
}

/// Our socket is published where we look for a running GUI first and where there is none to
/// look for, but never once it was decided to stay out.
pub proof fn law_staying_out_publishes_nothing(sock: GuiSock)
    ensures
        Publish::TryPathOrPublish(sock).publishes(),
        Publish::NoConnectButPublish.publishes(),
        !Publish::NoConnectNoPublish.publishes(),
{
}

/// A running GUI is looked for exactly where there is no reason to stay out, and the reason is
/// told where there is one. What is then found decides: a socket is tried and, failing that,
/// our own published; without one ours is published.
pub proof fn law_found_socket_is_tried(
    mux_default_domain: String,
    config_default_domain: Option<String>,
    always_new_process: bool,
    config_overridden: bool,
    step: ResolveStep,
    found: Result<GuiSock, String>,
    decided: (Publish, SpanRecord),
)
    requires
        call_ensures(
            Publish::resolve,
            (&mux_default_domain, &config_default_domain, always_new_process, config_overridden),
            step,
        ),
        call_ensures(Publish::resolve_gui_sock, (found,), decided),
    ensures
        ({
            let configured = match config_default_domain {
                Some(name) => name@,
                None => "local"@,
            };
            &&& step is LookUpGuiSock <==> mux_default_domain@ == configured && !always_new_process
                && !config_overridden
            &&& step matches ResolveStep::Decided(publish, record) ==> publish
                is NoConnectNoPublish && record@ is Event
        }),
        ({
            let (publish, record) = decided;
            &&& found matches Ok(sock) ==> publish == Publish::TryPathOrPublish(sock)
                && record@->Event_1.contains(text_kv("gui_sock", sock.shown@))
            &&& found matches Err(error) ==> publish is NoConnectButPublish
                && record@->Event_1.contains(text_kv("error", error@))
        }),
{
    let (publish, record) = decided;
    if let Ok(sock) = found {
        assert(record@->Event_1[1] == text_kv("gui_sock", sock.shown@));
    }
    if let Err(error) = found {
        assert(record@->Event_1[2] == text_kv("error", error@));
    }
}

} // verus!
