//! The Anthropic Messages backend.
//!
//! Everything but the calls themselves: which targets it takes, what goes out to
//! them, and what their replies mean. Whoever holds the HTTP client sends what
//! [`AnthropicNativeBackend::http_request`] builds and reports what came back.

use crate::backend;
use crate::backend::{
    BackendFormat, ChatRequest, ChatRequestType, ChatResponse, ErrorView, ExtraHeaders, Header,
    HeaderView, LlmTarget, SwitchyardError,
};
use crate::json_text;
use crate::json_text::{flag_of, merge_target_extra_body, set_json_model, text_of};
use crate::protocol;
use crate::text;
use crate::text::{concat, contains, ends_with, is_blank, trim_end_matches};
use serde_json::Value;
use vstd::prelude::*;
use vstd::string::*;

verus! {

/// Where the provider is.
pub const DEFAULT_ANTHROPIC_BASE_URL: &'static str = "https://api.anthropic.com";

/// The environment variable that holds the key of targets without one.
pub const ANTHROPIC_API_KEY_ENV: &'static str = "ANTHROPIC_API_KEY";

/// The version of the API that is spoken.
pub const ANTHROPIC_VERSION: &'static str = "2023-06-01";

/// The status of a request that the upstream would not take.
pub const BAD_REQUEST: u16 = 400;

/// The URL of the Messages API at an address.
pub open spec fn messages_url_of(base_url: Option<Seq<char>>) -> Seq<char> {
    let base = text::without_trailing(
        match base_url {
            Some(url) => url,
            None => DEFAULT_ANTHROPIC_BASE_URL@,
        },
        '/',
    );
    if "/v1/messages"@.is_suffix_of(base) {
        base
    } else if "/v1"@.is_suffix_of(base) {
        base + "/messages"@
    } else {
        base + "/v1/messages"@
    }
}

/// The URL of the Messages API at an address: the address may be the root, the
/// version below it, or the API itself, with or without slashes at the end.
pub fn messages_url(base_url: Option<&str>) -> (url: String)
    ensures
        url@ == messages_url_of(
            match base_url {
                Some(url) => Some(url@),
                None => None,
            },
        ),
{
    let base = trim_end_matches(
        match base_url {
            Some(url) => url,
            None => DEFAULT_ANTHROPIC_BASE_URL,
        },
        '/',
    );
    if ends_with(base, "/v1/messages") {
        base.to_owned()
    } else if ends_with(base, "/v1") {
        concat(base, "/messages")
    } else {
        concat(base, "/v1/messages")
    }
}

/// Whatever the address, the URL is the API's: it ends as the API's does, and
/// resolving it again changes nothing.
pub proof fn law_messages_url(base_url: Option<Seq<char>>)
    ensures
        "/v1/messages"@.is_suffix_of(messages_url_of(base_url)),
        messages_url_of(Some(messages_url_of(base_url))) == messages_url_of(base_url),
{
    reveal_strlit("/v1/messages");
    reveal_strlit("/v1");
    reveal_strlit("/messages");
    let base = text::without_trailing(
        match base_url {
            Some(url) => url,
            None => DEFAULT_ANTHROPIC_BASE_URL@,
        },
        '/',
    );
    let url = messages_url_of(base_url);
    if !"/v1/messages"@.is_suffix_of(base) {
        if "/v1"@.is_suffix_of(base) {
            assert("/v1"@ + "/messages"@ =~= "/v1/messages"@);
            let head = base.take(base.len() - 3);
            assert(base =~= head + "/v1"@);
            assert(url =~= head + "/v1/messages"@);
        }
        assert(url.skip(url.len() - 12) =~= "/v1/messages"@);
    }
    assert(url.last() == "/v1/messages"@.last());
    assert("/v1/messages"@.last() == 's');
}

/// The key to send: the configured one, else the environment's, and none at all
/// where that is blank.
pub open spec fn key_to_send(
    configured: Option<Seq<char>>,
    environment: Option<Seq<char>>,
) -> Option<Seq<char>> {
    let key = match configured {
        Some(key) => Some(key),
        None => environment,
    };
    match key {
        Some(key) if !text::blank(key) => Some(key),
        _ => None,
    }
}

/// The key to send. `environment` is what [`ANTHROPIC_API_KEY_ENV`] holds at the
/// time of the call, so that a key that was rotated there is picked up.
pub fn anthropic_api_key(configured: Option<&str>, environment: Option<&str>) -> (key: Option<
    String,
>)
    ensures
        protocol::optional_text(key) == key_to_send(
            match configured {
                Some(key) => Some(key@),
                None => None,
            },
            match environment {
                Some(key) => Some(key@),
                None => None,
            },
        ),
{
    let chosen = match configured {
        Some(key) => Some(key),
        None => environment,
    };
    match chosen {
        Some(key) => if is_blank(key) {
            None
        } else {
            Some(key.to_owned())
        },
        None => None,
    }
}

/// A body that says the conversation is too long. The provider has no code for
/// it, so it is known by how it is put.
pub open spec fn overflows(body: Seq<char>) -> bool {
    ||| text::occurs("prompt is too long"@, body)
    ||| text::occurs("maximum number of tokens"@, body)
    ||| text::occurs("context window"@, body)
    ||| text::occurs("context length"@, body)
}

/// Whether an error body says that the conversation is too long.
pub fn is_context_overflow(body: &str) -> (yes: bool)
    ensures
        yes == overflows(body@),
{
    contains(body, "prompt is too long") || contains(body, "maximum number of tokens")
        || contains(body, "context window") || contains(body, "context length")
}

/// Why a target is refused, where it is.
pub open spec fn refusal(target: LlmTarget) -> Option<ErrorView> {
    match target.format {
        BackendFormat::Anthropic => None,
        _ => Some(
            ErrorView::InvalidConfig(
                "AnthropicNativeBackend requires a target with resolved Anthropic format, got "@
                    + backend::format_name(target.format) + " for "@ + target.id@,
            ),
        ),
    }
}

/// Refuses a target whose format is not resolved to Anthropic's.
pub fn validate_target_format(target: &LlmTarget) -> (checked: Result<(), SwitchyardError>)
    ensures
        match refusal(*target) {
            None => checked is Ok,
            Some(error) => checked matches Err(refused) && refused@ == error,
        },
{
    match target.format {
        BackendFormat::Anthropic => Ok(()),
        BackendFormat::Auto | BackendFormat::OpenAi | BackendFormat::Responses => {
            let mut message = concat(
                "AnthropicNativeBackend requires a target with resolved Anthropic format, got ",
                target.format.name(),
            );
            message.append(" for ");
            message.append(target.id.as_str());
            Err(SwitchyardError::InvalidConfig(message))
        },
    }
}

/// A request ready to be sent.
#[derive(Debug, PartialEq)]
pub struct AnthropicHttpRequest {
    /// The target, for diagnostics.
    pub target_id: String,
    /// The URL of the Messages API.
    pub url: String,
    /// The key, where there is one.
    pub api_key: Option<String>,
    /// The body.
    pub body: Value,
    /// Whether the reply is to be read as a stream.
    pub stream: bool,
    /// Headers that the target adds.
    pub extra_headers: ExtraHeaders,
}

/// A reply as it was received: a whole body, or a stream `S` of events.
#[derive(Debug, PartialEq)]
pub enum AnthropicHttpResponse<S> {
    /// A whole body.
    Buffered(Value),
    /// A stream of events.
    Stream(S),
}

/// What is to be read of a reply, by its status.
#[derive(Clone, Copy, Debug, PartialEq, Eq, Structural)]
pub enum NextRead {
    /// The body of an error.
    ErrorBody,
    /// A stream of events.
    Stream,
    /// A whole completion.
    Completion,
}

/// A status of success.
pub open spec fn success(status: u16) -> bool {
    200 <= status < 300
}

/// A text, where there is one, as no headers or one.
pub open spec fn maybe_header(name: Seq<char>, value: Option<Seq<char>>) -> Seq<HeaderView> {
    match value {
        Some(value) => seq![HeaderView { name, value }],
        None => seq![],
    }
}

/// The body of an error, or a word on why it could not be read.
pub open spec fn error_body(read: Result<String, String>) -> Seq<char> {
    match read {
        Ok(body) => body@,
        Err(detail) => "<failed to read error body: "@ + detail@ + ">"@,
    }
}

impl AnthropicHttpRequest {
    /// What the request sends along, in order: the API's version, the key, the
    /// sender's own version, and the target's headers by name.
    pub open spec fn header_list(self, telemetry: Option<Header>) -> Seq<HeaderView> {
        maybe_header("anthropic-version"@, Some(ANTHROPIC_VERSION@)) + maybe_header(
            "x-api-key"@,
            protocol::optional_text(self.api_key),
        ) + (match telemetry {
            Some(header) => seq![header@],
            None => seq![],
        }) + self.extra_headers@
    }

    /// The headers to send besides those of the JSON body. `telemetry` is the
    /// header that tells the sender's own version, where it is told.
    pub fn headers(&self, telemetry: Option<&Header>) -> (headers: Vec<Header>)
        ensures
            backend::headers_view(headers@) == self.header_list(
                match telemetry {
                    Some(header) => Some(*header),
                    None => None,
                },
            ),
    {
        let mut headers: Vec<Header> = Vec::new();
        headers.push(Header::new("anthropic-version", ANTHROPIC_VERSION));
        proof {
            assert(backend::headers_view(headers@) =~= maybe_header(
                "anthropic-version"@,
                Some(ANTHROPIC_VERSION@),
            ));
        }
        let ghost versioned = backend::headers_view(headers@);
        if let Some(key) = &self.api_key {
            headers.push(Header::new("x-api-key", key.as_str()));
        }
        proof {
            assert(backend::headers_view(headers@) =~= versioned + maybe_header(
                "x-api-key"@,
                protocol::optional_text(self.api_key),
            ));
        }
        let ghost keyed = backend::headers_view(headers@);
        if let Some(header) = telemetry {
            headers.push(header.copy());
        }
        proof {
            assert(backend::headers_view(headers@) =~= keyed + (match telemetry {
                Some(header) => seq![header@],
                None => seq![],
            }));
        }
        let ghost led = backend::headers_view(headers@);
        let extra = self.extra_headers.entries();
        let mut i: usize = 0;
        proof {
            assert(led + self.extra_headers@.take(0) =~= led);
        }
        while i < extra.len()
            invariant
                i <= extra@.len(),
                backend::headers_view(extra@) == self.extra_headers@,
                backend::headers_view(headers@) == led + self.extra_headers@.take(i as int),
            decreases extra@.len() - i,
        {
            let ghost before = headers@;
            headers.push(extra[i].copy());
            i += 1;
            proof {
                assert(self.extra_headers@[i - 1] == extra@[i - 1]@);
                assert(backend::headers_view(headers@) =~= backend::headers_view(before).push(
                    self.extra_headers@[i - 1],
                ));
                assert(backend::headers_view(headers@) =~= led + self.extra_headers@.take(
                    i as int,
                ));
            }
        }
        proof {
            assert(self.extra_headers@.take(extra@.len() as int) =~= self.extra_headers@);
        }
        headers
    }

    /// What to read of a reply with this status.
    pub fn next_read(&self, status: u16) -> (next: NextRead)
        ensures
            next == if !success(status) {
                NextRead::ErrorBody
            } else if self.stream {
                NextRead::Stream
            } else {
                NextRead::Completion
            },
    {
        if !(200 <= status && status < 300) {
            NextRead::ErrorBody
        } else if self.stream {
            NextRead::Stream
        } else {
            NextRead::Completion
        }
    }

    /// The error of a reply with an error status, whose body was read or could
    /// not be: a conversation that is too long is told apart from the rest.
    pub open spec fn rejection(self, status: u16, read: Result<String, String>) -> ErrorView {
        if status == BAD_REQUEST && overflows(error_body(read)) {
            ErrorView::ContextWindowExceeded {
                target_id: self.target_id@,
                model: match json_text::text_member(self.body, "model"@) {
                    Some(model) => model,
                    None => ""@,
                },
                message: error_body(read),
            }
        } else {
            ErrorView::UpstreamHttp {
                provider: "Anthropic messages"@,
                status_code: status,
                body: error_body(read),
            }
        }
    }

    /// The error of a reply with an error status. `read` is its body, or what
    /// went wrong reading it.
    pub fn rejected(&self, status: u16, read: Result<String, String>) -> (error: SwitchyardError)
        ensures
            error@ == self.rejection(status, read),
    {
        let body = match read {
            Ok(body) => body,
            Err(detail) => {
                let mut body = concat("<failed to read error body: ", detail.as_str());
                body.append(">");
                body
            },
        };
        if status == BAD_REQUEST && is_context_overflow(body.as_str()) {
            let model = match text_of(&self.body, "model") {
                Some(model) => model.to_owned(),
                None => "".to_owned(),
            };
            return SwitchyardError::ContextWindowExceeded {
                target_id: self.target_id.clone(),
                model,
                message: body,
            };
        }
        SwitchyardError::UpstreamHttp {
            provider: "Anthropic messages".to_owned(),
            status_code: status,
            body,
        }
    }
}

/// The error of a request that got no reply.
pub fn request_failed(detail: &str) -> (error: SwitchyardError)
    ensures
        error@ == ErrorView::Upstream("Anthropic messages request failed: "@ + detail@),
{
    SwitchyardError::Upstream(concat("Anthropic messages request failed: ", detail))
}

/// The reply that a whole body makes; `read` is the body as JSON, or what went
/// wrong reading it so.
pub fn completion_read<S>(read: Result<Value, String>) -> (reply: Result<
    AnthropicHttpResponse<S>,
    SwitchyardError,
>)
    ensures
        match read {
            Ok(body) => reply == Ok::<AnthropicHttpResponse<S>, SwitchyardError>(
                AnthropicHttpResponse::Buffered(body),
            ),
            Err(detail) => reply matches Err(error) && error@ == ErrorView::Upstream(
                "Anthropic messages returned invalid JSON: "@ + detail@,
            ),
        },
{
    match read {
        Ok(body) => Ok(AnthropicHttpResponse::Buffered(body)),
        Err(detail) => Err(
            SwitchyardError::Upstream(
                concat("Anthropic messages returned invalid JSON: ", detail.as_str()),
            ),
        ),
    }
}

/// What a client gets back for what the transport brought; its errors pass
/// through as they are.
pub fn chat_response<S>(sent: Result<AnthropicHttpResponse<S>, SwitchyardError>) -> (response:
    Result<ChatResponse<S>, SwitchyardError>)
    ensures
        response == match sent {
            Ok(AnthropicHttpResponse::Buffered(body)) => Ok(ChatResponse::AnthropicCompletion(body)),
            Ok(AnthropicHttpResponse::Stream(stream)) => Ok(ChatResponse::AnthropicStream(stream)),
            Err(error) => Err(error),
        },
{
    match sent {
        Ok(AnthropicHttpResponse::Buffered(body)) => Ok(ChatResponse::AnthropicCompletion(body)),
        Ok(AnthropicHttpResponse::Stream(stream)) => Ok(ChatResponse::AnthropicStream(stream)),
        Err(error) => Err(error),
    }
}

/// What a call adds to the context that it is made in.
#[derive(Debug, PartialEq)]
pub struct ProxyContext {
    /// The format that the client spoke, once it is known.
    pub inbound_format: Option<ChatRequestType>,
}

/// Which target served a request, and for what.
#[derive(Debug, PartialEq)]
pub struct TargetObservation {
    /// The target.
    pub target_id: String,
    /// Its model.
    pub model: String,
    /// The model that the client asked for.
    pub requested_model: Option<String>,
}

/// A call ready to be made.
#[derive(Debug, PartialEq)]
pub struct PreparedCall {
    /// The request to send.
    pub http_request: AnthropicHttpRequest,
    /// What to record of it.
    pub observation: TargetObservation,
}

/// Calls one target that speaks Anthropic Messages.
#[derive(Debug, PartialEq)]
pub struct AnthropicNativeBackend {
    target: LlmTarget,
}

impl View for AnthropicNativeBackend {
    type V = LlmTarget;

    closed spec fn view(&self) -> LlmTarget {
        self.target
    }
}

/// The error of a request that could not be translated.
pub open spec fn untranslated(source: ChatRequestType, detail: Seq<char>) -> ErrorView {
    ErrorView::Backend(
        "failed to translate "@ + backend::request_type_name(source)
            + " request to Anthropic Messages: "@ + detail,
    )
}

/// A body made ready for a target: its model set, then the target's extra
/// members filled in where the caller left them out.
pub open spec fn readied(target: LlmTarget, translated: Value, body: Value) -> bool {
    match json_text::json_members(translated) {
        Some(members) => {
            &&& json_text::json_members(body) == Some(
                json_text::filled(
                    json_text::with_model(members, target.model@),
                    json_text::extra_members(target.extra_body),
                ),
            )
            &&& json_text::text_member(body, "model"@) == Some(target.model@)
        },
        None => body == translated,
    }
}

/// A request made from a body and what the target and the environment say.
pub open spec fn addressed(
    target: LlmTarget,
    environment_key: Option<Seq<char>>,
    request: AnthropicHttpRequest,
) -> bool {
    &&& request.target_id@ == target.id@
    &&& request.url@ == messages_url_of(protocol::optional_text(target.endpoint.base_url))
    &&& protocol::optional_text(request.api_key) == key_to_send(
        protocol::optional_text(target.endpoint.api_key),
        environment_key,
    )
    &&& request.stream == (json_text::flag_member(request.body, "stream"@) == Some(true))
    &&& request.extra_headers@ == target.extra_headers@
}

/// The text that an optional text borrows.
fn borrowed(text: &Option<String>) -> (borrow: Option<&str>)
    ensures
        match borrow {
            Some(inner) => protocol::optional_text(*text) == Some(inner@),
            None => *text is None,
        },
{
    match text {
        Some(inner) => Some(inner.as_str()),
        None => None,
    }
}

impl AnthropicNativeBackend {
    /// A backend for one target, refused where the target's format is not
    /// resolved to Anthropic's.
    pub fn new(target: LlmTarget) -> (built: Result<AnthropicNativeBackend, SwitchyardError>)
        ensures
            match refusal(target) {
                None => built matches Ok(backend) && backend@ == target,
                Some(error) => built matches Err(refused) && refused@ == error,
            },
    {
        match validate_target_format(&target) {
            Ok(()) => Ok(AnthropicNativeBackend { target }),
            Err(error) => Err(error),
        }
    }

    /// The target.
    pub fn target(&self) -> (target: &LlmTarget)
        ensures
            *target == self@,
    {
        &self.target
    }

    /// The formats that the backend takes without translating: its own.
    pub fn supported_request_types(&self) -> (types: Vec<ChatRequestType>)
        ensures
            types@ == seq![ChatRequestType::Anthropic],
    {
        vec![ChatRequestType::Anthropic]
    }

    /// The body to send for a request that came in as `source`. `translated` is
    /// its body in Anthropic's format, or what went wrong translating it.
    pub fn outbound_body(&self, source: ChatRequestType, translated: Result<Value, String>) -> (
        outbound: Result<Value, SwitchyardError>)
        ensures
            match translated {
                Ok(translated) => outbound matches Ok(body) && readied(self@, translated, body),
                Err(detail) => outbound matches Err(error) && error@ == untranslated(
                    source,
                    detail@,
                ),
            },
    {
        let mut body = match translated {
            Ok(body) => body,
            Err(detail) => {
                let mut message = concat("failed to translate ", source.name());
                message.append(" request to Anthropic Messages: ");
                message.append(detail.as_str());
                return Err(SwitchyardError::Backend(message));
            },
        };
        set_json_model(&mut body, self.target.model.as_str());
        merge_target_extra_body(&mut body, &self.target.extra_body);
        Ok(body)
    }

    /// The request to send for one that came in as `source`. `environment_key`
    /// is what [`ANTHROPIC_API_KEY_ENV`] holds.
    pub fn http_request(
        &self,
        source: ChatRequestType,
        translated: Result<Value, String>,
        environment_key: Option<&str>,
    ) -> (built: Result<AnthropicHttpRequest, SwitchyardError>)
        ensures
            match translated {
                Ok(translated) => built matches Ok(request) && readied(
                    self@,
                    translated,
                    request.body,
                ) && addressed(
                    self@,
                    match environment_key {
                        Some(key) => Some(key@),
                        None => None,
                    },
                    request,
                ),
                Err(detail) => built matches Err(error) && error@ == untranslated(source, detail@),
            },
    {
        let body = match self.outbound_body(source, translated) {
            Ok(body) => body,
            Err(error) => return Err(error),
        };
        let stream = match flag_of(&body, "stream") {
            Some(flag) => flag,
            None => false,
        };
        Ok(
            AnthropicHttpRequest {
                target_id: self.target.id.clone(),
                url: messages_url(borrowed(&self.target.endpoint.base_url)),
                api_key: anthropic_api_key(
                    borrowed(&self.target.endpoint.api_key),
                    environment_key,
                ),
                body,
                stream,
                extra_headers: self.target.extra_headers.copy(),
            },
        )
    }

    /// Prepares a call: builds the request first, and only once that succeeded
    /// notes the client's format, where none is noted yet, and says what to
    /// record. A request that cannot be built leaves the context as it was.
    pub fn prepare_call(
        &self,
        ctx: &mut ProxyContext,
        request: &ChatRequest,
        translated: Result<Value, String>,
        environment_key: Option<&str>,
    ) -> (prepared: Result<PreparedCall, SwitchyardError>)
        ensures
            match translated {
                Ok(translated) => {
                    &&& prepared matches Ok(call) && readied(
                        self@,
                        translated,
                        call.http_request.body,
                    ) && addressed(
                        self@,
                        match environment_key {
                            Some(key) => Some(key@),
                            None => None,
                        },
                        call.http_request,
                    ) && call.observation.target_id@ == self@.id@ && call.observation.model@
                        == self@.model@ && protocol::optional_text(call.observation.requested_model)
                        == json_text::text_member(request.body, "model"@)
                    &&& final(ctx).inbound_format == match old(ctx).inbound_format {
                        Some(format) => Some(format),
                        None => Some(request.request_type),
                    }
                },
                Err(detail) => {
                    &&& prepared matches Err(error) && error@ == untranslated(
                        request.request_type,
                        detail@,
                    )
                    &&& *final(ctx) == *old(ctx)
                },
            },
    {
        let http_request = match self.http_request(
            request.request_type,
            translated,
            environment_key,
        ) {
            Ok(built) => built,
            Err(error) => return Err(error),
        };
        if ctx.inbound_format.is_none() {
            ctx.inbound_format = Some(request.request_type);
        }
        let requested_model = match request.model() {
            Some(model) => Some(model.to_owned()),
            None => None,
        };
        Ok(
            PreparedCall {
                http_request,
                observation: TargetObservation {
                    target_id: self.target.id.clone(),
                    model: self.target.model.clone(),
                    requested_model,
                },
            },
        )
    }
}

/// A blank key is never sent, wherever it came from, and a configured key is
/// never replaced by the environment's.
pub proof fn law_key(configured: Option<Seq<char>>, environment: Option<Seq<char>>)
    ensures
        key_to_send(configured, environment) matches Some(key) ==> !text::blank(key) && (configured
            == Some(key) || configured is None && environment == Some(key)),
        configured is Some ==> key_to_send(configured, environment) == key_to_send(configured, None),
{
}

/// Only a bad request can be a conversation that is too long; any other error
/// status keeps its own error, whatever its body says.
pub proof fn law_only_bad_requests_overflow(
    request: AnthropicHttpRequest,
    status: u16,
    read: Result<String, String>,
)
    ensures
        request.rejection(status, read) is ContextWindowExceeded <==> status == BAD_REQUEST
            && overflows(error_body(read)),
        request.rejection(status, read) matches ErrorView::UpstreamHttp { status_code, .. }
            ==> status_code == status,
{
}

/// Where the API is, by address: an address that is the API's already is kept, one
/// that ends at the version gets the API below it, any other the version and the API.
/// No address is the provider's own.
pub proof fn law_address_forms(root: Seq<char>)
    ensures
        messages_url_of(Some(root + "/v1/messages"@)) == root + "/v1/messages"@,
        messages_url_of(Some(root + "/v1"@)) == root + "/v1/messages"@,
        (root.len() > 0 ==> root.last() != '/') && !"/v1"@.is_suffix_of(root)
            && !"/v1/messages"@.is_suffix_of(root) ==> messages_url_of(Some(root)) == root
            + "/v1/messages"@,
        messages_url_of(None) == messages_url_of(Some("https://api.anthropic.com"@)),
        messages_url_of(None) == "https://api.anthropic.com"@ + "/v1/messages"@,
{
    reveal_strlit("/v1/messages");
    reveal_strlit("/v1");
    reveal_strlit("/messages");
    reveal_strlit("https://api.anthropic.com");
    let full = root + "/v1/messages"@;
    assert(full.last() == 's');
    assert(full.skip(full.len() - 12) =~= "/v1/messages"@);
    assert("/v1/messages"@.is_suffix_of(full));
    let versioned = root + "/v1"@;
    assert(versioned.last() == '1');
    assert(versioned.skip(versioned.len() - 3) =~= "/v1"@);
    assert("/v1"@.is_suffix_of(versioned));
    if "/v1/messages"@.is_suffix_of(versioned) {
        assert("/v1/messages"@.last() == versioned.last());
    }
    assert(versioned + "/messages"@ =~= full);
    let own = "https://api.anthropic.com"@;
    assert(own.last() == 'm');
    if "/v1/messages"@.is_suffix_of(own) {
        assert("/v1/messages"@.last() == own.last());
    }
    if "/v1"@.is_suffix_of(own) {
        assert("/v1"@.last() == own.last());
    }
}

/// Slashes at the end of an address make no difference.
pub proof fn law_slashes_make_no_difference(address: Seq<char>, slashes: Seq<char>)
    requires
        forall|i: int| 0 <= i < slashes.len() ==> #[trigger] slashes[i] == '/',
    ensures
        messages_url_of(Some(address + slashes)) == messages_url_of(Some(address)),
{
    text::law_trailing_run_makes_no_difference(address, '/', slashes);
}

/// Every key that is not blank is sent, the configured one first; where one is
/// configured, even a blank one, the environment is not asked.
pub proof fn law_keys_are_sent(key: Seq<char>, environment: Option<Seq<char>>)
    ensures
        !text::blank(key) ==> key_to_send(Some(key), environment) == Some(key),
        text::blank(key) ==> key_to_send(Some(key), environment) is None,
        !text::blank(key) ==> key_to_send(None, Some(key)) == Some(key),
        text::blank(key) ==> key_to_send(None, Some(key)) is None,
        key_to_send(None, None) is None,
{
}

/// A conversation that is too long is known by four phrases, wherever in the body
/// they stand and whatever stands around them, and by nothing else.
pub proof fn law_overflow_phrases(before: Seq<char>, after: Seq<char>, body: Seq<char>)
    ensures
        overflows(before + "prompt is too long"@ + after),
        overflows(before + "maximum number of tokens"@ + after),
        overflows(before + "context window"@ + after),
        overflows(before + "context length"@ + after),
        overflows(body) ==> exists|phrase: Seq<char>, i: int|
            #![trigger body.subrange(i, i + phrase.len())]
            0 <= i <= body.len() - phrase.len() && body.subrange(i, i + phrase.len()) == phrase && (
            phrase == "prompt is too long"@ || phrase == "maximum number of tokens"@ || phrase
                == "context window"@ || phrase == "context length"@),
{
    text::law_occurs("prompt is too long"@, before, after, body);
    text::law_occurs("maximum number of tokens"@, before, after, body);
    text::law_occurs("context window"@, before, after, body);
    text::law_occurs("context length"@, before, after, body);
}

/// A target is taken exactly where its format is Anthropic's, whatever else it says;
/// the refusal tells the format and the target.
pub proof fn law_targets_by_format(target: LlmTarget)
    ensures
        refusal(target) is None <==> target.format == BackendFormat::Anthropic,
        refusal(target) matches Some(error) ==> error == ErrorView::InvalidConfig(
            "AnthropicNativeBackend requires a target with resolved Anthropic format, got "@ + (
            match target.format {
                BackendFormat::Auto => "Auto"@,
                BackendFormat::OpenAi => "OpenAi"@,
                BackendFormat::Responses => "Responses"@,
                BackendFormat::Anthropic => "Anthropic"@,
            }) + " for "@ + target.id@,
        ),
{
}

/// Success is the two hundreds.
pub proof fn law_success(status: u16)
    ensures
        success(status) <==> status / 100 == 2,
{
}

/// An error body is told as it was read, or with what kept it from being read.
pub proof fn law_error_bodies(body: String, detail: String)
    ensures
        error_body(Ok(body)) == body@,
        error_body(Err(detail)) == "<failed to read error body: "@ + detail@ + ">"@,
{
}

/// What goes out with a request: the version always and first, the key under its own
/// name exactly where there is one, then the sender's header where it is told, then
/// every header of the target, in its order and unchanged.
pub proof fn law_headers_sent(request: AnthropicHttpRequest, telemetry: Option<Header>, i: int)
    requires
        0 <= i < request.extra_headers@.len(),
    ensures
        ({
            let sent = request.header_list(telemetry);
            let keyed = if request.api_key is Some {
                1int
            } else {
                0int
            };
            let told = if telemetry is Some {
                1int
            } else {
                0int
            };
            &&& sent.len() == 1 + keyed + told + request.extra_headers@.len()
            &&& sent[0].name == "anthropic-version"@ && sent[0].value == "2023-06-01"@
            &&& request.api_key matches Some(key) ==> sent[1].name == "x-api-key"@ && sent[1].value
                == key@
            &&& telemetry matches Some(header) ==> sent[1 + keyed].name == header.name@ && sent[1
                + keyed].value == header.value@
            &&& sent[1 + keyed + told + i] == request.extra_headers@[i]
        }),
{
}

/// Without headers of the target's own nothing but the version, the key and the
/// sender's header goes out.
pub proof fn law_headers_sent_without_extra(
    request: AnthropicHttpRequest,
    telemetry: Option<Header>,
)
    requires
        request.extra_headers@.len() == 0,
    ensures
        ({
            let sent = request.header_list(telemetry);
            &&& sent[0].name == "anthropic-version"@ && sent[0].value == "2023-06-01"@
            &&& request.api_key is None && telemetry is None ==> sent.len() == 1
            &&& request.api_key matches Some(key) ==> sent[1].name == "x-api-key"@ && sent[1].value
                == key@
            &&& request.api_key is Some && telemetry is None ==> sent.len() == 2
            &&& request.api_key is None ==> (telemetry matches Some(header) ==> sent.len() == 2
                && sent[1] == header@)
            &&& request.api_key is Some ==> (telemetry matches Some(header) ==> sent.len() == 3
                && sent[2] == header@)
        }),
{
}

/// What a rejected request is answered. A bad request whose body says that the
/// conversation is too long names the target, the model that was asked for and the
/// whole body; any other answer keeps the status and the whole body.
pub proof fn law_rejections(
    request: AnthropicHttpRequest,
    status: u16,
    read: Result<String, String>,
)
    ensures
        status == 400 && overflows(error_body(read)) ==> (request.rejection(
            status,
            read,
        ) matches ErrorView::ContextWindowExceeded { target_id, model, message } && target_id
            == request.target_id@ && message == error_body(read) && (match json_text::text_member(
            request.body,
            "model"@,
        ) {
            Some(asked) => model == asked,
            None => model == ""@,
        })),
        !(status == 400 && overflows(error_body(read))) ==> (request.rejection(
            status,
            read,
        ) matches ErrorView::UpstreamHttp { provider, status_code, body } && provider
            == "Anthropic messages"@ && status_code == status && body == error_body(read)),
{
}

/// A request that could not be put in Anthropic's format is told by the format that
/// it came in and by what went wrong.
pub proof fn law_untranslated(source: ChatRequestType, detail: Seq<char>)
    ensures
        untranslated(source, detail) == ErrorView::Backend(
            "failed to translate "@ + (match source {
                ChatRequestType::OpenAiChat => "OpenAiChat"@,
                ChatRequestType::OpenAiResponses => "OpenAiResponses"@,
                ChatRequestType::Anthropic => "Anthropic"@,
            }) + " request to Anthropic Messages: "@ + detail,
        ),
{
}

/// What a body made ready holds: the target's model; what the caller said, whatever
/// the target says; what the target adds where the caller said nothing; nothing else.
/// A body that is no object goes out as it is.
pub proof fn law_bodies_made_ready(
    target: LlmTarget,
    translated: Value,
    body: Value,
    name: Seq<char>,
)
    requires
        readied(target, translated, body),
    ensures
        json_text::json_members(translated) is None ==> body == translated,
        json_text::json_members(translated) matches Some(said) ==> (json_text::json_members(
            body,
        ) matches Some(out) && ({
            let added = json_text::extra_members(target.extra_body);
            &&& out.contains_key("model"@) && out["model"@] == json_text::string_json(target.model@)
            &&& json_text::text_member(body, "model"@) == Some(target.model@)
            &&& name != "model"@ && said.contains_key(name) ==> out.contains_key(name) && out[name]
                == said[name]
            &&& name != "model"@ && !said.contains_key(name) ==> (out.contains_key(name)
                <==> added.contains_key(name))
            &&& name != "model"@ && !said.contains_key(name) && added.contains_key(name)
                ==> out[name] == added[name]
        })),
{
}

/// Where a request goes and with what: to its target's address, with the target's
/// key or else the environment's where it is not blank, as a stream exactly where
/// its body says so, and with the target's headers.
pub proof fn law_requests_are_addressed(
    target: LlmTarget,
    environment_key: Option<Seq<char>>,
    request: AnthropicHttpRequest,
)
    requires
        addressed(target, environment_key, request),
    ensures
        request.target_id@ == target.id@,
        target.endpoint.base_url matches Some(address) ==> request.url@ == messages_url_of(
            Some(address@),
        ),
        target.endpoint.base_url is None ==> request.url@ == messages_url_of(None),
        target.endpoint.api_key matches Some(own) ==> (match request.api_key {
            Some(key) => key@ == own@ && !text::blank(own@),
            None => text::blank(own@),
        }),
        target.endpoint.api_key is None ==> (match request.api_key {
            Some(key) => environment_key == Some(key@) && !text::blank(key@),
            None => environment_key matches Some(held) ==> text::blank(held),
        }),
        request.stream <==> (json_text::json_members(request.body) matches Some(members)
            && members.contains_key("stream"@) && json_text::json_flag(members["stream"@]) == Some(
            true,
        )),
        request.extra_headers@ == target.extra_headers@,
{
}

} // verus!
