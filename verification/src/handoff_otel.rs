//! What the start-up hand-off reports to the tracing back end.
//!
//! The functions here decide which span, events and attributes are reported and whether
//! the exporter is set up; sending them is left to the program around the library.

use crate::text::{decimal, push_decimal, trim_end_matches, without_trailing};
use vstd::prelude::*;

verus! {

/// Where spans go when the environment names no collector.
pub const DEFAULT_ENDPOINT: &'static str = "https://otlp-push.jacobbrugh.net";

/// The name under which the tracer is registered.
pub const TRACER_NAME: &'static str = "wezterm::handoff";

/// The value of an attribute.
pub enum AttrValue {
    Text(String),
    Int(i64),
    Bool(bool),
}

/// An attribute of a span or of an event.
pub struct KeyValue {
    pub key: &'static str,
    pub value: AttrValue,
}

/// The value of an attribute, as a mathematical value.
pub enum AttrValueView {
    Text(Seq<char>),
    Int(int),
    Bool(bool),
}

/// An attribute, as a mathematical value.
pub struct KeyValueView {
    pub key: Seq<char>,
    pub value: AttrValueView,
}

impl View for KeyValue {
    type V = KeyValueView;

    open spec fn view(&self) -> KeyValueView {
        KeyValueView {
            key: self.key@,
            value: match self.value {
                AttrValue::Text(text) => AttrValueView::Text(text@),
                AttrValue::Int(n) => AttrValueView::Int(n as int),
                AttrValue::Bool(b) => AttrValueView::Bool(b),
            },
        }
    }
}

/// The views of a run of attributes.
pub open spec fn attr_views(attrs: Seq<KeyValue>) -> Seq<KeyValueView> {
    attrs.map_values(|kv: KeyValue| kv@)
}

/// A text attribute.
pub open spec fn text_kv(key: &str, value: Seq<char>) -> KeyValueView {
    KeyValueView { key: key@, value: AttrValueView::Text(value) }
}

/// A whole-number attribute.
pub open spec fn int_kv(key: &str, value: int) -> KeyValueView {
    KeyValueView { key: key@, value: AttrValueView::Int(value) }
}

/// A truth-value attribute.
pub open spec fn bool_kv(key: &str, value: bool) -> KeyValueView {
    KeyValueView { key: key@, value: AttrValueView::Bool(value) }
}

impl KeyValue {
    pub fn of_text(key: &'static str, value: &str) -> (r: KeyValue)
        ensures
            r@ == text_kv(key, value@),
    {
        KeyValue { key, value: AttrValue::Text(value.to_string()) }
    }

    pub fn of_int(key: &'static str, value: i64) -> (r: KeyValue)
        ensures
            r@ == int_kv(key, value as int),
    {
        KeyValue { key, value: AttrValue::Int(value) }
    }

    pub fn of_bool(key: &'static str, value: bool) -> (r: KeyValue)
        ensures
            r@ == bool_kv(key, value),
    {
        KeyValue { key, value: AttrValue::Bool(value) }
    }
}

/// Something reported on the active span.
pub enum SpanRecord {
    /// A named event with its attributes.
    Event(&'static str, Vec<KeyValue>),
    /// An attribute of the span itself.
    Attr(KeyValue),
    /// The span failed, with this message.
    Error(String),
}

/// Something reported on the active span, as a mathematical value.
pub enum SpanRecordView {
    Event(Seq<char>, Seq<KeyValueView>),
    Attr(KeyValueView),
    Error(Seq<char>),
}

impl View for SpanRecord {
    type V = SpanRecordView;

    open spec fn view(&self) -> SpanRecordView {
        match *self {
            SpanRecord::Event(name, attrs) => SpanRecordView::Event(name@, attr_views(attrs@)),
            SpanRecord::Attr(kv) => SpanRecordView::Attr(kv@),
            SpanRecord::Error(message) => SpanRecordView::Error(message@),
        }
    }
}

/// The views of a run of records.
pub open spec fn record_views(records: Seq<SpanRecord>) -> Seq<SpanRecordView> {
    records.map_values(|r: SpanRecord| r@)
}

/// An event with its attributes.
pub open spec fn event_record(name: &str, attrs: Seq<KeyValueView>) -> SpanRecordView {
    SpanRecordView::Event(name@, attrs)
}

/// Records a named event.
pub fn event(name: &'static str, attrs: Vec<KeyValue>) -> (r: SpanRecord)
    ensures
        r@ == event_record(name, attr_views(attrs@)),
{
    SpanRecord::Event(name, attrs)
}

/// Records an attribute of the span.
pub fn set_attr(kv: KeyValue) -> (r: SpanRecord)
    ensures
        r@ == SpanRecordView::Attr(kv@),
{
    SpanRecord::Attr(kv)
}

/// Records that the span failed with the message `err`.
pub fn set_error(err: &str) -> (r: SpanRecord)
    ensures
        r@ == SpanRecordView::Error(err@),
{
    SpanRecord::Error(err.to_string())
}

/// The span around one start-up hand-off.
pub struct HandoffSpan {
    pub name: &'static str,
    pub attributes: Vec<KeyValue>,
}

impl HandoffSpan {
    /// The span with the attributes that it starts with.
    pub fn start(initial_attrs: Vec<KeyValue>) -> (r: HandoffSpan)
        ensures
            r.name@ == "run_terminal_gui.handoff"@,
            r.attributes == initial_attrs,
    {
        HandoffSpan { name: "run_terminal_gui.handoff", attributes: initial_attrs }
    }
}

/// Where the exporter stands.
#[derive(Debug, Clone, Copy, PartialEq, Eq, Structural)]
pub enum Provider {
    /// Nobody has asked for it yet.
    Unset,
    /// It was not set up, and will not be.
    Off,
    /// It is set up.
    On,
}

/// What setting up the exporter comes to.
pub enum InitStep {
    /// It is settled already: whether the exporter is on.
    Settled(bool),
    /// Build an exporter that sends to this address, and report with
    /// [`finish_init`] whether that worked.
    Build(String),
}

/// What setting up the exporter comes to, as a mathematical value.
pub enum InitStepView {
    Settled(bool),
    Build(Seq<char>),
}

impl View for InitStep {
    type V = InitStepView;

    open spec fn view(&self) -> InitStepView {
        match *self {
            InitStep::Settled(on) => InitStepView::Settled(on),
            InitStep::Build(endpoint) => InitStepView::Build(endpoint@),
        }
    }
}

/// The address that spans are sent to, below the collector `base`.
pub open spec fn traces_endpoint(base: Seq<char>) -> Seq<char> {
    without_trailing(base, '/') + "/v1/traces"@
}

/// The collector that the environment names, or the default.
pub open spec fn collector(base: Option<String>) -> Seq<char> {
    match base {
        Some(base) => base@,
        None => DEFAULT_ENDPOINT@,
    }
}

impl Provider {
    pub open spec fn is_on(self) -> bool {
        self == Provider::On
    }

    /// What asking for the exporter answers, and where the exporter stands then.
    pub open spec fn asked(self, disabled: bool, base: Option<String>) -> (Provider, InitStepView) {
        match self {
            Provider::Unset => if disabled {
                (Provider::Off, InitStepView::Settled(false))
            } else {
                (Provider::Unset, InitStepView::Build(traces_endpoint(collector(base))))
            },
            _ => (self, InitStepView::Settled(self.is_on())),
        }
    }

    /// Where the exporter stands once building it has been tried.
    pub open spec fn tried(built: bool) -> Provider {
        if built {
            Provider::On
        } else {
            Provider::Off
        }
    }
}

/// Asks for the exporter. The first time, it is off if `disabled`, else an exporter is to
/// be built; after that the answer stays what it was.
pub fn init(provider: &mut Provider, disabled: bool, base: &Option<String>) -> (step: InitStep)
    ensures
        (*final(provider), step@) == old(provider).asked(disabled, *base),
{
    match *provider {
        Provider::Off => InitStep::Settled(false),
        Provider::On => InitStep::Settled(true),
        Provider::Unset => if disabled {
            *provider = Provider::Off;
            InitStep::Settled(false)
        } else {
            let mut endpoint = match base {
                Some(base) => trim_end_matches(base.as_str(), '/'),
                None => trim_end_matches(DEFAULT_ENDPOINT, '/'),
            };
            endpoint.push_str("/v1/traces");
            InitStep::Build(endpoint)
        },
    }
}

/// Settles whether the exporter is on, after it was to be built.
pub fn finish_init(provider: &mut Provider, built: bool) -> (on: bool)
    requires
        *old(provider) == Provider::Unset,
    ensures
        on == built,
        *final(provider) == Provider::tried(built),
{
    if built {
        *provider = Provider::On;
    } else {
        *provider = Provider::Off;
    }
    built
}

/// Whether there is an exporter to flush and shut down.
pub fn shutdown(provider: &Provider) -> (r: bool)
    ensures
        r == provider.is_on(),
{
    match *provider {
        Provider::On => true,
        _ => false,
    }
}

/// The attributes that name this process to the collector.
pub fn resource_attributes(pid: u32) -> (r: Vec<KeyValue>)
    ensures
        attr_views(r@) == seq![
            text_kv("service.name", "wezterm-gui"@),
            text_kv("service.instance.id", decimal(pid as nat)),
        ],
{
    let mut id = String::new();
    push_decimal(&mut id, pid as u64);
    let attrs = vec![
        KeyValue::of_text("service.name", "wezterm-gui"),
        KeyValue::of_text("service.instance.id", id.as_str()),
    ];
    assert(id@ =~= decimal(pid as nat));
    assert(attr_views(attrs@) =~= seq![
        text_kv("service.name", "wezterm-gui"@),
        text_kv("service.instance.id", decimal(pid as nat)),
    ]);
    attrs
}

/// Setting up the exporter is idempotent: once it is settled, by switching it off or by
/// trying to build it, every later request gets that same answer, whatever the
/// environment says by then, and nothing is built again.
pub proof fn law_init_is_idempotent(
    first_disabled: bool,
    first_base: Option<String>,
    built: bool,
    disabled: bool,
    base: Option<String>,
)
    ensures
        ({
            let (asked, step) = Provider::Unset.asked(first_disabled, first_base);
            let settled = if step is Build {
                Provider::tried(built)
            } else {
                asked
            };
            &&& settled.is_on() == (!first_disabled && built)
            &&& settled.asked(disabled, base) == (
                settled,
                InitStepView::Settled(settled.is_on()),
            )
        }),
{
}

/// Trailing slashes of the collector's address make no difference.
pub proof fn law_endpoint_ignores_trailing_slashes(base: Seq<char>)
    ensures
        traces_endpoint(base.push('/')) == traces_endpoint(base),
{
    assert(base.push('/').drop_last() =~= base);
}

/// Spans go below the address that the environment names, or else the default one: to that
/// address without its trailing slashes, followed by the path for traces. An address without
/// trailing slashes is taken as it stands.
pub proof fn law_spans_go_below_the_collector(base: Seq<char>, given: Option<String>)
    ensures
        given matches Some(named) ==> collector(given) == named@,
        given is None ==> collector(given) == DEFAULT_ENDPOINT@,
        base.len() > 0 && base.last() != '/' ==> traces_endpoint(base) == base + "/v1/traces"@,
        ({
            let kept = traces_endpoint(base).len() - "/v1/traces"@.len();
            &&& 0 <= kept <= base.len()
            &&& traces_endpoint(base) == base.take(kept) + "/v1/traces"@
            &&& kept > 0 ==> base[kept - 1] != '/'
            &&& forall|i: int| kept <= i < base.len() ==> #[trigger] base[i] == '/'
        }),
{
    crate::text::law_only_the_named_character_is_dropped(base, '/');
    let kept = without_trailing(base, '/');
    assert(traces_endpoint(base).len() == kept.len() + "/v1/traces"@.len());
    if kept.len() > 0 {
        assert(kept.last() == base[kept.len() - 1]);
    }
}

/// An exporter is built exactly where none was asked for before and it is not switched off, for
/// the collector's address; switching it off settles it, and so does trying to build it, as it
/// went.
pub proof fn law_exporter_is_built_unless_switched_off(
    provider: Provider,
    disabled: bool,
    base: Option<String>,
    built: bool,
)
    ensures
        ({
            let (after, step) = provider.asked(disabled, base);
            &&& step is Build <==> provider is Unset && !disabled
            &&& step is Build ==> step == InitStepView::Build(traces_endpoint(collector(base)))
                && after is Unset
            &&& provider is Unset && disabled ==> after is Off && step == InitStepView::Settled(
                false,
            )
            &&& provider is On ==> after is On && step == InitStepView::Settled(true)
            &&& provider is Off ==> after is Off && step == InitStepView::Settled(false)
        }),
        Provider::tried(built).is_on() <==> built,
        !(Provider::tried(built) is Unset),
        Provider::On.is_on() && !Provider::Off.is_on() && !Provider::Unset.is_on(),
{
}

/// What is recorded is told in full: an attribute by its key and its value, an event by its name
/// and all its attributes in order, a failure by its message, and records one by one.
pub proof fn law_records_are_told_in_full(
    key: &'static str,
    text: String,
    number: i64,
    flag: bool,
    name: &'static str,
    attrs: Vec<KeyValue>,
    kv: KeyValue,
    records: Seq<SpanRecord>,
    i: int,
)
    ensures
        (KeyValue { key, value: AttrValue::Text(text) })@ == (KeyValueView {
            key: key@,
            value: AttrValueView::Text(text@),
        }),
        (KeyValue { key, value: AttrValue::Int(number) })@ == (KeyValueView {
            key: key@,
            value: AttrValueView::Int(number as int),
        }),
        (KeyValue { key, value: AttrValue::Bool(flag) })@ == (KeyValueView {
            key: key@,
            value: AttrValueView::Bool(flag),
        }),
        SpanRecord::Attr(kv)@ == SpanRecordView::Attr(kv@),
        SpanRecord::Error(text)@ == SpanRecordView::Error(text@),
        SpanRecord::Event(name, attrs)@ is Event,
        SpanRecord::Event(name, attrs)@->Event_0 == name@,
        SpanRecord::Event(name, attrs)@->Event_1.len() == attrs@.len(),
        0 <= i < attrs@.len() ==> SpanRecord::Event(name, attrs)@->Event_1[i] == attrs@[i]@,
        attr_views(attrs@).len() == attrs@.len(),
        0 <= i < attrs@.len() ==> attr_views(attrs@)[i] == attrs@[i]@,
        record_views(records).len() == records.len(),
        0 <= i < records.len() ==> record_views(records)[i] == records[i]@,
{
}

} // verus!
