//! What every backend works with: targets, requests, responses, errors.

use crate::binary::Binary64;
use crate::json_text;
use crate::json_text::text_of;
use crate::protocol::WireFormat;
use crate::text::chars_of;
use serde_json::Value;
use vstd::prelude::*;
use vstd::string::*;

verus! {

/// The format that a target speaks.
#[derive(Clone, Copy, Debug, PartialEq, Eq, Structural)]
pub enum BackendFormat {
    /// Not resolved yet.
    Auto,
    /// OpenAI Chat Completions.
    OpenAi,
    /// OpenAI Responses.
    Responses,
    /// Anthropic Messages.
    Anthropic,
}

/// The format that a request came in.
#[derive(Clone, Copy, Debug, PartialEq, Eq, Structural)]
pub enum ChatRequestType {
    /// OpenAI Chat Completions.
    OpenAiChat,
    /// OpenAI Responses.
    OpenAiResponses,
    /// Anthropic Messages.
    Anthropic,
}

/// The name of a backend format.
pub open spec fn format_name(format: BackendFormat) -> Seq<char> {
    match format {
        BackendFormat::Auto => "Auto"@,
        BackendFormat::OpenAi => "OpenAi"@,
        BackendFormat::Responses => "Responses"@,
        BackendFormat::Anthropic => "Anthropic"@,
    }
}

/// The name of a request format.
pub open spec fn request_type_name(request_type: ChatRequestType) -> Seq<char> {
    match request_type {
        ChatRequestType::OpenAiChat => "OpenAiChat"@,
        ChatRequestType::OpenAiResponses => "OpenAiResponses"@,
        ChatRequestType::Anthropic => "Anthropic"@,
    }
}

/// The wire format of a request format.
pub open spec fn wire_format_of(request_type: ChatRequestType) -> WireFormat {
    match request_type {
        ChatRequestType::OpenAiChat => WireFormat::OpenAiChat,
        ChatRequestType::OpenAiResponses => WireFormat::OpenAiResponses,
        ChatRequestType::Anthropic => WireFormat::AnthropicMessages,
    }
}

impl BackendFormat {
    /// The name of the format.
    pub fn name(self) -> (name: &'static str)
        ensures
            name@ == format_name(self),
    {
        match self {
            BackendFormat::Auto => "Auto",
            BackendFormat::OpenAi => "OpenAi",
            BackendFormat::Responses => "Responses",
            BackendFormat::Anthropic => "Anthropic",
        }
    }
}

impl ChatRequestType {
    /// The name of the format.
    pub fn name(self) -> (name: &'static str)
        ensures
            name@ == request_type_name(self),
    {
        match self {
            ChatRequestType::OpenAiChat => "OpenAiChat",
            ChatRequestType::OpenAiResponses => "OpenAiResponses",
            ChatRequestType::Anthropic => "Anthropic",
        }
    }
}

/// The wire format of a request.
pub fn request_wire_format(request_type: ChatRequestType) -> (format: WireFormat)
    ensures
        format == wire_format_of(request_type),
{
    match request_type {
        ChatRequestType::OpenAiChat => WireFormat::OpenAiChat,
        ChatRequestType::OpenAiResponses => WireFormat::OpenAiResponses,
        ChatRequestType::Anthropic => WireFormat::AnthropicMessages,
    }
}

/// One header.
#[derive(Debug, PartialEq)]
pub struct Header {
    /// Its name.
    pub name: String,
    /// Its value.
    pub value: String,
}

/// One header.
pub struct HeaderView {
    /// Its name.
    pub name: Seq<char>,
    /// Its value.
    pub value: Seq<char>,
}

impl View for Header {
    type V = HeaderView;

    open spec fn view(&self) -> HeaderView {
        HeaderView { name: self.name@, value: self.value@ }
    }
}

impl Header {
    /// A header with this name and value.
    pub fn new(name: &str, value: &str) -> (header: Header)
        ensures
            header@ == (HeaderView { name: name@, value: value@ }),
    {
        Header { name: name.to_owned(), value: value.to_owned() }
    }

    /// A copy of the header.
    pub fn copy(&self) -> (copy: Header)
        ensures
            copy == *self,
    {
        Header { name: self.name.clone(), value: self.value.clone() }
    }
}

/// Headers, by their content.
pub open spec fn headers_view(headers: Seq<Header>) -> Seq<HeaderView> {
    headers.map_values(|header: Header| header@)
}

/// `a` comes before `b`, character by character.
pub open spec fn precedes(a: Seq<char>, b: Seq<char>) -> bool
    decreases a.len(),
{
    if b.len() == 0 {
        false
    } else if a.len() == 0 {
        true
    } else if a[0] != b[0] {
        (a[0] as int) < (b[0] as int)
    } else {
        precedes(a.drop_first(), b.drop_first())
    }
}

/// Of two different texts one comes before the other, and not the other way round.
pub proof fn lemma_precedes_is_total(a: Seq<char>, b: Seq<char>)
    ensures
        a == b ==> !precedes(a, b),
        a != b ==> precedes(a, b) != precedes(b, a),
    decreases a.len(),
{
    if a.len() > 0 && b.len() > 0 {
        if a[0] == b[0] {
            lemma_precedes_is_total(a.drop_first(), b.drop_first());
            if a.drop_first() == b.drop_first() {
                assert(a =~= seq![a[0]] + a.drop_first());
                assert(b =~= seq![b[0]] + b.drop_first());
            }
        }
    } else if a.len() == 0 && b.len() == 0 {
        assert(a =~= b);
    }
}

/// What comes before something comes before all that follows it.
pub proof fn lemma_precedes_is_transitive(a: Seq<char>, b: Seq<char>, c: Seq<char>)
    requires
        precedes(a, b),
        precedes(b, c),
    ensures
        precedes(a, c),
    decreases a.len(),
{
    if a.len() > 0 && a[0] == b[0] && b[0] == c[0] {
        lemma_precedes_is_transitive(a.drop_first(), b.drop_first(), c.drop_first());
    }
}

/// Whether `a` comes before `b`.
pub fn comes_before(a: &str, b: &str) -> (yes: bool)
    ensures
        yes == precedes(a@, b@),
{
    let left = chars_of(a);
    let right = chars_of(b);
    let mut i: usize = 0;
    proof {
        assert(a@.skip(0) =~= a@);
        assert(b@.skip(0) =~= b@);
    }
    while i < left.len() && i < right.len()
        invariant
            left@ == a@,
            right@ == b@,
            i <= left@.len(),
            i <= right@.len(),
            precedes(a@.skip(i as int), b@.skip(i as int)) == precedes(a@, b@),
        decreases left@.len() - i,
    {
        if left[i] != right[i] {
            return left[i] < right[i];
        }
        proof {
            assert(a@.skip(i as int).drop_first() =~= a@.skip(i + 1));
            assert(b@.skip(i as int).drop_first() =~= b@.skip(i + 1));
        }
        i += 1;
    }
    i < right.len()
}

/// Headers that a target adds to its requests: at most one of each name, in the
/// order of their names.
#[derive(Debug, PartialEq)]
pub struct ExtraHeaders {
    entries: Vec<Header>,
}

/// At most one of each name, in the order of their names.
pub open spec fn ordered(headers: Seq<HeaderView>) -> bool {
    forall|i: int, j: int|
        0 <= i < j < headers.len() ==> precedes(
            (#[trigger] headers[i]).name,
            (#[trigger] headers[j]).name,
        )
}

/// The value under a name, of the first header that has it.
pub open spec fn value_under(headers: Seq<HeaderView>, name: Seq<char>) -> Option<Seq<char>>
    decreases headers.len(),
{
    if headers.len() == 0 {
        None
    } else if headers[0].name == name {
        Some(headers[0].value)
    } else {
        value_under(headers.drop_first(), name)
    }
}

/// Where a name stands, its value is found.
proof fn lemma_value_under(headers: Seq<HeaderView>, name: Seq<char>, at: int)
    requires
        0 <= at < headers.len() ==> headers[at].name == name,
        forall|i: int| 0 <= i < headers.len() && i != at ==> (#[trigger] headers[i]).name != name,
    ensures
        value_under(headers, name) == if 0 <= at < headers.len() {
            Some(headers[at].value)
        } else {
            None
        },
    decreases headers.len(),
{
    if headers.len() > 0 && at != 0 {
        lemma_value_under(headers.drop_first(), name, at - 1);
    }
}

/// Finding a value is finding a header that has the name.
proof fn lemma_value_under_found(headers: Seq<HeaderView>, name: Seq<char>)
    requires
        value_under(headers, name) is Some,
    ensures
        exists|i: int|
            0 <= i < headers.len() && (#[trigger] headers[i]).name == name && value_under(
                headers,
                name,
            ) == Some(headers[i].value),
    decreases headers.len(),
{
    if headers[0].name != name {
        lemma_value_under_found(headers.drop_first(), name);
        let i = choose|i: int|
            0 <= i < headers.drop_first().len() && (#[trigger] headers.drop_first()[i]).name == name
                && value_under(headers, name) == Some(headers.drop_first()[i].value);
        assert(headers[i + 1].name == name);
    }
}

/// In ordered headers a name stands in one place.
proof fn lemma_ordered_distinct(headers: Seq<HeaderView>, i: int, j: int)
    requires
        ordered(headers),
        0 <= i < headers.len(),
        0 <= j < headers.len(),
        headers[i].name == headers[j].name,
    ensures
        i == j,
{
    lemma_precedes_is_total(headers[i].name, headers[j].name);
}

/// Headers that agree with others on every name but one, which they hold.
proof fn lemma_one_name_set(
    before: Seq<HeaderView>,
    after: Seq<HeaderView>,
    name: Seq<char>,
    value: Seq<char>,
    other: Seq<char>,
)
    requires
        ordered(before),
        ordered(after),
        exists|i: int|
            0 <= i < after.len() && #[trigger] after[i] == (HeaderView { name, value }),
        forall|i: int|
            0 <= i < after.len() && (#[trigger] after[i]).name != name ==> before.contains(after[i]),
        forall|i: int|
            0 <= i < before.len() && (#[trigger] before[i]).name != name ==> after.contains(
                before[i],
            ),
    ensures
        value_under(after, other) == if other == name {
            Some(value)
        } else {
            value_under(before, other)
        },
{
    if other == name {
        let at = choose|i: int|
            0 <= i < after.len() && #[trigger] after[i] == (HeaderView { name, value });
        assert forall|i: int| 0 <= i < after.len() && i != at implies (#[trigger] after[i]).name
            != name by {
            if after[i].name == name {
                lemma_ordered_distinct(after, i, at);
            }
        }
        lemma_value_under(after, name, at);
    } else {
        if value_under(before, other) is Some {
            lemma_value_under_found(before, other);
            let i = choose|i: int|
                0 <= i < before.len() && (#[trigger] before[i]).name == other && value_under(
                    before,
                    other,
                ) == Some(before[i].value);
            let j = choose|j: int| 0 <= j < after.len() && #[trigger] after[j] == before[i];
            assert forall|k: int| 0 <= k < after.len() && k != j implies (#[trigger] after[k]).name
                != other by {
                if after[k].name == other {
                    lemma_ordered_distinct(after, k, j);
                }
            }
            lemma_value_under(after, other, j);
        }
        if value_under(after, other) is Some {
            lemma_value_under_found(after, other);
            let i = choose|i: int|
                0 <= i < after.len() && (#[trigger] after[i]).name == other && value_under(
                    after,
                    other,
                ) == Some(after[i].value);
            let j = choose|j: int| 0 <= j < before.len() && #[trigger] before[j] == after[i];
            assert forall|k: int| 0 <= k < before.len() && k != j implies (
            #[trigger] before[k]).name != other by {
                if before[k].name == other {
                    lemma_ordered_distinct(before, k, j);
                }
            }
            lemma_value_under(before, other, j);
        }
    }
}

impl View for ExtraHeaders {
    type V = Seq<HeaderView>;

    closed spec fn view(&self) -> Seq<HeaderView> {
        headers_view(self.entries@)
    }
}

impl ExtraHeaders {
    /// At most one of each name, in the order of their names.
    #[verifier::type_invariant]
    spec fn well_formed(self) -> bool {
        ordered(headers_view(self.entries@))
    }

    /// No headers.
    pub fn new() -> (headers: ExtraHeaders)
        ensures
            headers@ == Seq::<HeaderView>::empty(),
            ordered(headers@),
    {
        let headers = ExtraHeaders { entries: Vec::new() };
        proof {
            assert(headers@ =~= Seq::<HeaderView>::empty());
        }
        headers
    }

    /// The headers with `value` under `name`, in place of what was there.
    pub fn with(self, name: &str, value: &str) -> (headers: ExtraHeaders)
        ensures
            ordered(headers@),
            forall|other: Seq<char>| #[trigger]
                value_under(headers@, other) == if other == name@ {
                    Some(value@)
                } else {
                    value_under(self@, other)
                },
    {
        proof {
            use_type_invariant(&self);
        }
        let ghost before = self@;
        let ghost set = HeaderView { name: name@, value: value@ };
        let mut entries = self.entries;
        let mut at: usize = 0;
        while at < entries.len() && comes_before(entries[at].name.as_str(), name)
            invariant
                at <= entries@.len(),
                before == headers_view(entries@),
                forall|i: int| 0 <= i < at ==> precedes((#[trigger] before[i]).name, name@),
            decreases entries@.len() - at,
        {
            proof {
                assert(before[at as int].name == entries@[at as int].name@);
            }
            at += 1;
        }
        let replaced = at < entries.len() && !comes_before(name, entries[at].name.as_str());
        if replaced {
            entries.set(at, Header::new(name, value));
        } else {
            entries.insert(at, Header::new(name, value));
        }
        let ghost after = headers_view(entries@);
        proof {
            if replaced {
                lemma_precedes_is_total(before[at as int].name, name@);
                assert(after =~= before.update(at as int, set));
            } else {
                assert(after =~= before.insert(at as int, set));
            }
            if at < before.len() && !replaced {
                lemma_precedes_is_total(before[at as int].name, name@);
            }
            assert(ordered(after)) by {
                assert forall|i: int, j: int| 0 <= i < j < after.len() implies precedes(
                    (#[trigger] after[i]).name,
                    (#[trigger] after[j]).name,
                ) by {
                    let from = |k: int|
                        if replaced || k < at {
                            k
                        } else {
                            k - 1
                        };
                    if i != at && j != at {
                        assert(after[i] == before[from(i)] && after[j] == before[from(j)]);
                    } else if j == at {
                        assert(after[i] == before[i]);
                    } else {
                        assert(after[j] == before[from(j)]);
                        if !replaced && from(j) > at {
                            lemma_precedes_is_transitive(
                                name@,
                                before[at as int].name,
                                before[from(j)].name,
                            );
                        }
                    }
                }
            }
            assert(after[at as int] == set);
            assert forall|i: int|
                0 <= i < after.len() && (#[trigger] after[i]).name != name@ implies before.contains(
                after[i],
            ) by {
                if i < at || replaced {
                    assert(after[i] == before[i]);
                } else {
                    assert(after[i] == before[i - 1]);
                }
            }
            assert forall|i: int|
                0 <= i < before.len() && (#[trigger] before[i]).name
                    != name@ implies after.contains(before[i]) by {
                if i < at || replaced {
                    assert(after[i] == before[i]);
                } else {
                    assert(after[i + 1] == before[i]);
                }
            }
        }
        let headers = ExtraHeaders { entries };
        proof {
            assert forall|other: Seq<char>| #[trigger]
                value_under(after, other) == if other == name@ {
                    Some(value@)
                } else {
                    value_under(before, other)
                } by {
                lemma_one_name_set(before, after, name@, value@, other);
            }
        }
        headers
    }

    /// The headers, in the order of their names.
    pub fn entries(&self) -> (entries: &Vec<Header>)
        ensures
            headers_view(entries@) == self@,
            ordered(self@),
    {
        proof {
            use_type_invariant(self);
        }
        &self.entries
    }

    /// A copy of the headers.
    pub fn copy(&self) -> (copy: ExtraHeaders)
        ensures
            copy@ == self@,
    {
        proof {
            use_type_invariant(self);
        }
        let mut entries: Vec<Header> = Vec::new();
        let mut i: usize = 0;
        while i < self.entries.len()
            invariant
                i <= self.entries@.len(),
                entries@ == self.entries@.take(i as int),
            decreases self.entries@.len() - i,
        {
            entries.push(self.entries[i].copy());
            i += 1;
            proof {
                assert(entries@ =~= self.entries@.take(i as int));
            }
        }
        proof {
            assert(entries@ =~= self.entries@);
        }
        ExtraHeaders { entries }
    }
}

/// How a target is reached.
#[derive(Debug, PartialEq)]
pub struct EndpointConfig {
    /// Where it is, where that is not the provider's own address.
    pub base_url: Option<String>,
    /// The key that it wants.
    pub api_key: Option<String>,
    /// How long to wait for it, in seconds.
    pub timeout_secs: Option<Binary64>,
}

/// An upstream model, and how to call it.
#[derive(Debug, PartialEq)]
pub struct LlmTarget {
    /// Names the target.
    pub id: String,
    /// The model to ask for.
    pub model: String,
    /// The format that it speaks.
    pub format: BackendFormat,
    /// How it is reached.
    pub endpoint: EndpointConfig,
    /// Members filled into every request body.
    pub extra_body: Option<Value>,
    /// Headers added to every request.
    pub extra_headers: ExtraHeaders,
}

/// A request as a client sent it.
#[derive(Debug, PartialEq)]
pub struct ChatRequest {
    /// The format that it came in.
    pub request_type: ChatRequestType,
    /// Its body.
    pub body: Value,
}

impl ChatRequest {
    /// An Anthropic Messages request.
    pub fn anthropic(body: Value) -> (request: ChatRequest)
        ensures
            request == (ChatRequest { request_type: ChatRequestType::Anthropic, body }),
    {
        ChatRequest { request_type: ChatRequestType::Anthropic, body }
    }

    /// The model that the client asked for.
    pub fn model(&self) -> (model: Option<&str>)
        ensures
            match model {
                Some(name) => json_text::text_member(self.body, "model"@) == Some(name@),
                None => json_text::text_member(self.body, "model"@) is None,
            },
    {
        text_of(&self.body, "model")
    }
}

/// What a client gets back: a whole completion, or a stream `S` of events.
#[derive(Debug, PartialEq)]
pub enum ChatResponse<S> {
    /// A whole Anthropic completion.
    AnthropicCompletion(Value),
    /// A stream of Anthropic events.
    AnthropicStream(S),
}

/// What can go wrong in a backend.
#[derive(Debug, PartialEq)]
pub enum SwitchyardError {
    /// The configuration does not fit.
    InvalidConfig(String),
    /// The backend itself failed.
    Backend(String),
    /// The upstream could not be reached or understood.
    Upstream(String),
    /// The upstream answered with an error status.
    UpstreamHttp {
        /// Whose answer.
        provider: String,
        /// The status.
        status_code: u16,
        /// What it said.
        body: String,
    },
    /// The conversation is too long for the model.
    ContextWindowExceeded {
        /// The target.
        target_id: String,
        /// The model.
        model: String,
        /// What the upstream said.
        message: String,
    },
    /// Anything else.
    Other(String),
}

impl SwitchyardError {
    /// A copy of the error.
    pub fn copy(&self) -> (copy: SwitchyardError)
        ensures
            copy == *self,
    {
        match self {
            SwitchyardError::InvalidConfig(text) => SwitchyardError::InvalidConfig(text.clone()),
            SwitchyardError::Backend(text) => SwitchyardError::Backend(text.clone()),
            SwitchyardError::Upstream(text) => SwitchyardError::Upstream(text.clone()),
            SwitchyardError::UpstreamHttp { provider, status_code, body } =>
                SwitchyardError::UpstreamHttp {
                provider: provider.clone(),
                status_code: *status_code,
                body: body.clone(),
            },
            SwitchyardError::ContextWindowExceeded { target_id, model, message } =>
                SwitchyardError::ContextWindowExceeded {
                target_id: target_id.clone(),
                model: model.clone(),
                message: message.clone(),
            },
            SwitchyardError::Other(text) => SwitchyardError::Other(text.clone()),
        }
    }
}

/// What can go wrong in a backend.
pub enum ErrorView {
    /// The configuration does not fit.
    InvalidConfig(Seq<char>),
    /// The backend itself failed.
    Backend(Seq<char>),
    /// The upstream could not be reached or understood.
    Upstream(Seq<char>),
    /// The upstream answered with an error status.
    UpstreamHttp {
        /// Whose answer.
        provider: Seq<char>,
        /// The status.
        status_code: u16,
        /// What it said.
        body: Seq<char>,
    },
    /// The conversation is too long for the model.
    ContextWindowExceeded {
        /// The target.
        target_id: Seq<char>,
        /// The model.
        model: Seq<char>,
        /// What the upstream said.
        message: Seq<char>,
    },
    /// Anything else.
    Other(Seq<char>),
}

impl View for SwitchyardError {
    type V = ErrorView;

    open spec fn view(&self) -> ErrorView {
        match self {
            SwitchyardError::InvalidConfig(text) => ErrorView::InvalidConfig(text@),
            SwitchyardError::Backend(text) => ErrorView::Backend(text@),
            SwitchyardError::Upstream(text) => ErrorView::Upstream(text@),
            SwitchyardError::UpstreamHttp { provider, status_code, body } =>
                ErrorView::UpstreamHttp {
                provider: provider@,
                status_code: *status_code,
                body: body@,
            },
            SwitchyardError::ContextWindowExceeded { target_id, model, message } =>
                ErrorView::ContextWindowExceeded {
                target_id: target_id@,
                model: model@,
                message: message@,
            },
            SwitchyardError::Other(text) => ErrorView::Other(text@),
        }
    }
}

/// What each format is called.
pub proof fn law_format_names(format: BackendFormat, request_type: ChatRequestType)
    ensures
        format == BackendFormat::Auto ==> format_name(format) == "Auto"@,
        format == BackendFormat::OpenAi ==> format_name(format) == "OpenAi"@,
        format == BackendFormat::Responses ==> format_name(format) == "Responses"@,
        format == BackendFormat::Anthropic ==> format_name(format) == "Anthropic"@,
        request_type == ChatRequestType::OpenAiChat ==> request_type_name(request_type)
            == "OpenAiChat"@,
        request_type == ChatRequestType::OpenAiResponses ==> request_type_name(request_type)
            == "OpenAiResponses"@,
        request_type == ChatRequestType::Anthropic ==> request_type_name(request_type)
            == "Anthropic"@,
{
}

/// Each request format is its own wire format.
pub proof fn law_wire_formats(a: ChatRequestType, b: ChatRequestType)
    ensures
        wire_format_of(a) == wire_format_of(b) ==> a == b,
        a == ChatRequestType::OpenAiChat <==> wire_format_of(a) == WireFormat::OpenAiChat,
        a == ChatRequestType::OpenAiResponses <==> wire_format_of(a) == WireFormat::OpenAiResponses,
        a == ChatRequestType::Anthropic <==> wire_format_of(a) == WireFormat::AnthropicMessages,
{
}

/// Headers are seen one for one, name and value.
pub proof fn law_headers_are_seen(headers: Seq<Header>, i: int)
    requires
        0 <= i < headers.len(),
    ensures
        headers_view(headers).len() == headers.len(),
        headers_view(headers)[i].name == headers[i].name@,
        headers_view(headers)[i].value == headers[i].value@,
{
}

/// The order of texts is settled where they first differ: by the characters there,
/// or by which text has ended.
pub proof fn law_first_difference_decides(a: Seq<char>, b: Seq<char>, at: int)
    requires
        0 <= at <= a.len(),
        at <= b.len(),
        forall|i: int| 0 <= i < at ==> #[trigger] a[i] == b[i],
        at == a.len() || at == b.len() || a[at] != b[at],
    ensures
        precedes(a, b) <==> at < b.len() && (at == a.len() || (a[at] as int) < (b[at] as int)),
    decreases at,
{
    if at > 0 {
        assert(a[0] == b[0]);
        assert forall|i: int| 0 <= i < at - 1 implies #[trigger] a.drop_first()[i]
            == b.drop_first()[i] by {
            assert(a[i + 1] == b[i + 1]);
        }
        law_first_difference_decides(a.drop_first(), b.drop_first(), at - 1);
    }
}

/// In ordered headers no name stands twice, and each stands before every later one.
pub proof fn law_ordered_headers(headers: Seq<HeaderView>, i: int, j: int)
    requires
        ordered(headers),
        0 <= i < j < headers.len(),
    ensures
        headers[i].name != headers[j].name,
        precedes(headers[i].name, headers[j].name),
        !precedes(headers[j].name, headers[i].name),
{
    lemma_precedes_is_total(headers[i].name, headers[j].name);
}

/// The value under a name is that of the first header that has it, and there is none
/// where no header has it.
pub proof fn law_first_header_counts(headers: Seq<HeaderView>, name: Seq<char>, at: int)
    requires
        0 <= at <= headers.len(),
        forall|i: int| 0 <= i < at ==> (#[trigger] headers[i]).name != name,
        at < headers.len() ==> headers[at].name == name,
    ensures
        at < headers.len() ==> value_under(headers, name) == Some(headers[at].value),
        at == headers.len() ==> value_under(headers, name) is None,
    decreases headers.len(),
{
    if at > 0 {
        assert(headers[0].name != name);
        assert forall|i: int| 0 <= i < at - 1 implies (#[trigger] headers.drop_first()[i]).name
            != name by {
            assert(headers.drop_first()[i] == headers[i + 1]);
        }
        law_first_header_counts(headers.drop_first(), name, at - 1);
    }
}

/// An error is seen as what it is, with all that it tells.
pub proof fn law_errors_are_seen(error: SwitchyardError)
    ensures
        error matches SwitchyardError::InvalidConfig(told) ==> error@ == ErrorView::InvalidConfig(
            told@,
        ),
        error matches SwitchyardError::Backend(told) ==> error@ == ErrorView::Backend(told@),
        error matches SwitchyardError::Upstream(told) ==> error@ == ErrorView::Upstream(told@),
        error matches SwitchyardError::Other(told) ==> error@ == ErrorView::Other(told@),
        error matches SwitchyardError::UpstreamHttp { provider, status_code, body }
            ==> (error@ matches ErrorView::UpstreamHttp {
            provider: whose,
            status_code: status,
            body: said,
        } && whose == provider@ && status == status_code && said == body@),
        error matches SwitchyardError::ContextWindowExceeded { target_id, model, message }
            ==> (error@ matches ErrorView::ContextWindowExceeded {
            target_id: target,
            model: asked,
            message: said,
        } && target == target_id@ && asked == model@ && said == message@),
{
}

} // verus!
