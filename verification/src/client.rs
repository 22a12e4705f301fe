//! The client request: from the two values that a caller supplies, and the
//! template that the deployment provides, to a client script ready for
//! download.

use vstd::prelude::*;
use vstd::string::StringExecFns;
use crate::template::{
    config_fault, endpoint_placeholder, law_escape_keeps_text_without_quotes,
    law_rendered_script_is_filled, render, rendered, side_placeholder, ClientConfig,
    TemplateFault,
};
use crate::text::occurs;
use crate::validate::{
    fault_of, has_unsafe_char, is_unsafe_char, lemma_name_of_named, side_fault, url_fault,
    validate_backend_url, validate_monitor_side, Fault, MonitorSide, UrlRule, ValidationError,
};

verus! {

/// The two values of a client request, as the caller wrote them.
#[derive(Debug, PartialEq, Eq)]
pub struct ClientQuery {
    /// The URL that the client script will poll for frames.
    pub backend_url: String,
    /// The side on which the monitor sits.
    pub monitor_side: String,
}

impl ClientQuery {
    /// Accepts the query exactly if its side is one of the six literals.
    pub fn validate_monitor_side(&self) -> (r: Result<(), ValidationError>)
        ensures
            fault_of(r) == side_fault(self.monitor_side@),
    {
        validate_monitor_side(self.monitor_side.as_str())
    }

    /// Accepts the query exactly if its URL keeps the three URL rules.
    pub fn validate_backend_url(&self) -> (r: Result<(), ValidationError>)
        ensures
            fault_of(r) == url_fault(self.backend_url@),
    {
        validate_backend_url(self.backend_url.as_str())
    }

    /// Accepts the query exactly if both values are valid. The side is tried
    /// first, so its fault is the one reported where both values have one.
    pub fn validate(&self) -> (r: Result<(), ValidationError>)
        ensures
            fault_of(r) == config_fault(self.backend_url@, self.monitor_side@),
    {
        match self.validate_monitor_side() {
            Ok(()) => self.validate_backend_url(),
            Err(e) => Err(e),
        }
    }
}

/// Why a client request produced no script.
#[derive(Debug, PartialEq, Eq)]
pub enum ClientError {
    /// A value of the request is invalid: the caller's mistake.
    Invalid(ValidationError),
    /// The template could not be loaded: a fault of the deployment.
    TemplateUnavailable,
    /// The template is unfit for rendering: a fault of the deployment.
    BrokenTemplate(TemplateFault),
}

/// The mathematical model of a [`ClientError`].
pub enum ClientFault {
    /// A value of the request is invalid.
    Invalid(Fault),
    /// The template could not be loaded.
    TemplateUnavailable,
    /// The template is unfit for rendering.
    BrokenTemplate(TemplateFault),
}

impl View for ClientError {
    type V = ClientFault;

    open spec fn view(&self) -> ClientFault {
        match self {
            ClientError::Invalid(e) => ClientFault::Invalid(e@),
            ClientError::TemplateUnavailable => ClientFault::TemplateUnavailable,
            ClientError::BrokenTemplate(fault) => ClientFault::BrokenTemplate(*fault),
        }
    }
}

/// A rendered client script, with the name under which it is downloaded.
#[derive(Debug, PartialEq, Eq)]
pub struct ClientScript {
    pub filename: String,
    pub content: String,
}

/// The name under which a client script is downloaded.
pub const SCRIPT_FILENAME: &'static str = "client.lua";

/// The outcome of a client request. The values are validated first; then the
/// template has to be there; then it is rendered.
pub open spec fn client_outcome(
    backend_url: Seq<char>,
    monitor_side: Seq<char>,
    template: Option<Seq<char>>,
) -> Result<Seq<char>, ClientFault> {
    match config_fault(backend_url, monitor_side) {
        Some(fault) => Err(ClientFault::Invalid(fault)),
        None => match template {
            None => Err(ClientFault::TemplateUnavailable),
            Some(source) => match rendered(
                source,
                MonitorSide::named(monitor_side).unwrap(),
                backend_url,
            ) {
                Ok(script) => Ok(script),
                Err(fault) => Err(ClientFault::BrokenTemplate(fault)),
            },
        },
    }
}

/// The outcome of a client request, over the model of its script.
pub open spec fn outcome_of(r: Result<ClientScript, ClientError>) -> Result<
    Seq<char>,
    ClientFault,
> {
    match r {
        Ok(script) => Ok(script.content@),
        Err(e) => Err(e@),
    }
}

/// Answers a client request: validates the two values, then renders the
/// template with them. `template_source` is the template as it was loaded
/// for this request, or `None` where it could not be loaded.
pub fn request_client(backend_url: &str, monitor_side: &str, template_source: Option<&str>) -> (r:
    Result<ClientScript, ClientError>)
    ensures
        outcome_of(r) == client_outcome(
            backend_url@,
            monitor_side@,
            match template_source {
                Some(source) => Some(source@),
                None => None,
            },
        ),
        r matches Ok(script) ==> script.filename@ == SCRIPT_FILENAME@,
{
    let config = match ClientConfig::new(backend_url, monitor_side) {
        Ok(config) => config,
        Err(e) => {
            return Err(ClientError::Invalid(e));
        },
    };
    let source = match template_source {
        Some(source) => source,
        None => {
            return Err(ClientError::TemplateUnavailable);
        },
    };
    match render(source, &config) {
        Ok(content) => Ok(ClientScript { filename: String::from_str(SCRIPT_FILENAME), content }),
        Err(fault) => Err(ClientError::BrokenTemplate(fault)),
    }
}

/// A request whose side is none of the six literals fails for that side,
/// whatever its URL and whatever the template.
pub proof fn law_unknown_side_is_rejected(
    backend_url: Seq<char>,
    monitor_side: Seq<char>,
    template: Option<Seq<char>>,
)
    requires
        MonitorSide::named(monitor_side) is None,
    ensures
        client_outcome(backend_url, monitor_side, template) == Err::<Seq<char>, ClientFault>(
            ClientFault::Invalid(
                Fault::InvalidEnum { value: monitor_side, allowed: MonitorSide::all() },
            ),
        ),
{
}

/// A request whose URL holds a double quote, a line feed or a carriage
/// return fails validation, so no script is rendered from it. Where its side
/// is valid, it is the URL that is reported: for its scheme, or else for its
/// characters.
pub proof fn law_unsafe_url_is_rejected(
    backend_url: Seq<char>,
    monitor_side: Seq<char>,
    template: Option<Seq<char>>,
    at: int,
)
    requires
        0 <= at < backend_url.len(),
        is_unsafe_char(backend_url[at]),
    ensures
        client_outcome(backend_url, monitor_side, template) matches Err(ClientFault::Invalid(_)),
        MonitorSide::named(monitor_side) is Some ==> (client_outcome(
            backend_url,
            monitor_side,
            template,
        ) matches Err(ClientFault::Invalid(Fault::InvalidUrl { rule })) && rule != UrlRule::Length),
{
    assert(has_unsafe_char(backend_url));
}

/// A request succeeds exactly if both values are valid, the template is
/// there, and it renders. The script then holds the side's literal and the
/// URL as they were given, and no placeholder.
pub proof fn law_served_script_is_filled(
    backend_url: Seq<char>,
    monitor_side: Seq<char>,
    template: Seq<char>,
)
    requires
        client_outcome(backend_url, monitor_side, Some(template)) is Ok,
    ensures
        side_fault(monitor_side) is None,
        url_fault(backend_url) is None,
        ({
            let script = client_outcome(backend_url, monitor_side, Some(template))->Ok_0;
            &&& occurs(script, monitor_side)
            &&& occurs(script, backend_url)
            &&& !occurs(script, side_placeholder())
            &&& !occurs(script, endpoint_placeholder())
        }),
{
    let side = MonitorSide::named(monitor_side).unwrap();
    lemma_name_of_named(monitor_side);
    law_rendered_script_is_filled(template, side, backend_url);
    assert(!backend_url.contains('"')) by {
        if backend_url.contains('"') {
            let i = choose|i: int| 0 <= i < backend_url.len() && backend_url[i] == '"';
            assert(is_unsafe_char(backend_url[i]));
            assert(has_unsafe_char(backend_url));
        }
    }
    law_escape_keeps_text_without_quotes(backend_url);
}

} // verus!
