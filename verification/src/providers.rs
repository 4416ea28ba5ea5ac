//! Weather reports and the handle to the provider that makes them.

pub mod accu_weather;
pub mod open_weather;

use vstd::prelude::*;
use vstd::string::*;

pub use accu_weather::AccuWeather;
pub use open_weather::OpenWeather;

use crate::cli::{full_name_text, kind_by_full_name, lemma_full_name_round_trip, ProviderKind};
use crate::config::{configured, with_default, Config, ConfigView};
use crate::date::{day_month_text, Date};
use crate::error::WeatherError;

verus! {

/// The `User-Agent` that requests to providers carry.
pub const APP_USER_AGENT: &'static str = "weather/0.1.0";

/// How long a request to a provider may take, in seconds.
pub const TIMEOUT_SECONDS: u64 = 10;

#[verifier::external_type_specification]
#[verifier::external_body]
pub struct ExClient(reqwest::blocking::Client);

/// An HTTP client with the settings it was built with.
pub struct HttpClient {
    pub client: reqwest::blocking::Client,
    pub user_agent: String,
    pub timeout_seconds: u64,
}

/// Calls reqwest's `blocking::ClientBuilder` with the user agent and the timeout, then
/// `build`. Claimed: a client it gives was built with exactly these settings, which it
/// records beside it. Whether building succeeds is not claimed: it fails where the TLS
/// backend or the resolver cannot be set up, and the error is handed on as its message.
#[verifier::external_body]
fn build_client(user_agent: &str, timeout_seconds: u64) -> (r: Result<HttpClient, String>)
    ensures
        r matches Ok(c) ==> c.user_agent@ == user_agent@ && c.timeout_seconds == timeout_seconds,
{
    match reqwest::blocking::Client::builder().user_agent(user_agent).timeout(
        std::time::Duration::from_secs(timeout_seconds),
    ).build() {
        Ok(client) => Ok(
            HttpClient { client, user_agent: user_agent.to_string(), timeout_seconds },
        ),
        Err(e) => Err(e.to_string()),
    }
}

/// The view of an optional date.
pub open spec fn option_date_view(date: Option<Date>) -> Option<(int, int, int)> {
    match date {
        Some(d) => Some(d@),
        None => None,
    }
}

/// How a report names a place: `name, country`.
pub open spec fn place_label_text(name: Seq<char>, country: Seq<char>) -> Seq<char> {
    name + ", "@ + country
}

/// The text of a weather report.
pub open spec fn report_text(
    place: Seq<char>,
    date: Option<(int, int, int)>,
    details: Seq<char>,
) -> Seq<char> {
    "Weather in "@ + place + " "@ + match date {
        Some(d) => "on "@ + day_month_text(d),
        None => "right now"@,
    } + ":\n"@ + details
}

/// Names a place as `name, country`.
pub fn place_label(name: &str, country: &str) -> (s: String)
    ensures
        s@ == place_label_text(name@, country@),
{
    let mut s = String::from_str(name);
    s.append(", ");
    s.append(country);
    s
}

/// The weather at a place, on a day or right now.
pub struct Weather {
    pub place: String,
    pub date: Option<Date>,
    pub details: String,
}

impl Weather {
    /// The report: `Weather in <place> <on day.month | right now>:` and the details below.
    pub fn report(&self) -> (s: String)
        ensures
            s@ == report_text(self.place@, option_date_view(self.date), self.details@),
    {
        let mut s = String::from_str("Weather in ");
        s.append(self.place.as_str());
        s.append(" ");
        match &self.date {
            Some(day) => {
                s.append("on ");
                let text = day.format_day_month();
                s.append(text.as_str());
            },
            None => {
                s.append("right now");
            },
        }
        s.append(":\n");
        s.append(self.details.as_str());
        s
    }
}

/// A provider ready to be asked, with its API key and HTTP client.
pub enum Provider {
    Open(OpenWeather),
    Accu(AccuWeather),
}

impl Provider {
    /// Which provider this is.
    pub open spec fn kind_of(self) -> ProviderKind {
        match self {
            Provider::Open(_) => ProviderKind::Open,
            Provider::Accu(_) => ProviderKind::Accu,
        }
    }

    /// The API key it uses.
    pub open spec fn key_of(self) -> Seq<char> {
        match self {
            Provider::Open(p) => p.api_key_text(),
            Provider::Accu(p) => p.api_key_text(),
        }
    }
}

/// The provider asked for, or else the default one of the configuration.
pub open spec fn requested_or_default(
    c: ConfigView,
    requested: Option<ProviderKind>,
) -> Option<ProviderKind> {
    match requested {
        Some(kind) => Some(kind),
        None => match c.default {
            Some(name) => kind_by_full_name(name),
            None => None,
        },
    }
}

/// Which provider is used and with which API key, or why none can be.
pub open spec fn resolution(c: ConfigView, requested: Option<ProviderKind>) -> Result<
    (ProviderKind, Seq<char>),
    WeatherError,
> {
    match requested_or_default(c, requested) {
        Some(kind) => if c.providers.contains_key(full_name_text(kind)) {
            Ok((kind, c.providers[full_name_text(kind)]))
        } else {
            Err(WeatherError::ProviderNotConfigured)
        },
        None => if requested is None && c.default is None {
            Err(WeatherError::NoProvidersConfigured)
        } else {
            Err(WeatherError::UnknownProvider)
        },
    }
}

/// Picks the provider asked for, or the default one of the configuration,
/// and its API key.
pub fn resolve_provider(config: &Config, requested_provider: Option<ProviderKind>) -> (r: Result<
    (ProviderKind, String),
    WeatherError,
>)
    ensures
        match resolution(config@, requested_provider) {
            Ok((kind, key)) => r matches Ok((k, s)) && k == kind && s@ == key,
            Err(e) => r matches Err(e2) && e2 == e,
        },
{
    let kind = match requested_provider {
        Some(kind) => kind,
        None => {
            let name = match config.default_provider() {
                Ok(name) => name,
                Err(e) => {
                    return Err(e);
                },
            };
            match ProviderKind::from_str(name.as_str()) {
                Ok(kind) => kind,
                Err(e) => {
                    return Err(e);
                },
            }
        },
    };
    let full_name = kind.full_name();
    match config.get_api_key(full_name.as_str()) {
        Ok(key) => Ok((kind, key.clone())),
        Err(e) => Err(e),
    }
}

/// Once a provider is made the default, asking for no provider in particular
/// gives that provider with its stored API key.
pub proof fn lemma_default_is_used(c: ConfigView, kind: ProviderKind)
    requires
        c.providers.contains_key(full_name_text(kind)),
    ensures
        resolution(with_default(c, full_name_text(kind)), None) == Ok::<
            (ProviderKind, Seq<char>),
            WeatherError,
        >((kind, c.providers[full_name_text(kind)])),
{
    lemma_full_name_round_trip(kind);
}

/// Configuring a provider as the default makes a request for no provider in
/// particular use it, with the key just given.
pub proof fn lemma_configured_default_is_used(
    c: ConfigView,
    kind: ProviderKind,
    api_key: Seq<char>,
)
    ensures
        resolution(configured(c, full_name_text(kind), api_key, true), None) == Ok::<
            (ProviderKind, Seq<char>),
            WeatherError,
        >((kind, api_key)),
{
    lemma_full_name_round_trip(kind);
}

/// A provider asked for by name is used whatever the default is, when it has a key.
pub proof fn lemma_requested_overrides_default(c: ConfigView, kind: ProviderKind)
    requires
        c.providers.contains_key(full_name_text(kind)),
    ensures
        resolution(c, Some(kind)) == Ok::<(ProviderKind, Seq<char>), WeatherError>(
            (kind, c.providers[full_name_text(kind)]),
        ),
{
}

/// A request for a provider by name is answered by that provider with its own key, or
/// refused: never by another provider. It is refused exactly when that provider has
/// no key.
pub proof fn lemma_requested_provider_or_refusal(c: ConfigView, kind: ProviderKind)
    ensures
        resolution(c, Some(kind)) matches Ok((k, key)) ==> k == kind && c.providers.contains_key(
            full_name_text(kind),
        ) && key == c.providers[full_name_text(kind)],
        !c.providers.contains_key(full_name_text(kind)) ==> resolution(c, Some(kind)) == Err::<
            (ProviderKind, Seq<char>),
            WeatherError,
        >(WeatherError::ProviderNotConfigured),
        c.providers.contains_key(full_name_text(kind)) ==> resolution(c, Some(kind)) is Ok,
{
}

/// Without a request, the provider used is the default one with its own key.
pub proof fn lemma_unrequested_provider_is_default(c: ConfigView)
    ensures
        resolution(c, None) matches Ok((k, key)) ==> c.default == Some(full_name_text(k))
            && c.providers.contains_key(full_name_text(k)) && key == c.providers[full_name_text(k)],
        c.default is None ==> resolution(c, None) == Err::<(ProviderKind, Seq<char>), WeatherError>(
            WeatherError::NoProvidersConfigured,
        ),
{
    if let Some(name) = c.default {
        if let Some(k) = kind_by_full_name(name) {
            lemma_full_name_round_trip(k);
            assert(name == full_name_text(k));
        }
    }
}

/// A handle to the provider that answers weather requests.
pub struct ProviderHandle {
    provider: Provider,
    user_agent: String,
    timeout_seconds: u64,
}

impl ProviderHandle {
    /// The provider behind the handle.
    pub closed spec fn provider_view(&self) -> Provider {
        self.provider
    }

    /// The user agent that the provider's HTTP client was built with.
    pub closed spec fn user_agent_text(&self) -> Seq<char> {
        self.user_agent@
    }

    /// The timeout, in seconds, that the provider's HTTP client was built with.
    pub closed spec fn timeout_value(&self) -> u64 {
        self.timeout_seconds
    }

    /// Sets up the provider asked for, or else the default one, with its API key
    /// and an HTTP client. Fails where [`resolution`] fails, with its error, and
    /// otherwise only where the HTTP client cannot be set up.
    pub fn new(config: Config, requested_provider: Option<ProviderKind>) -> (r: Result<
        ProviderHandle,
        WeatherError,
    >)
        ensures
            match resolution(config@, requested_provider) {
                Ok((kind, key)) => (r matches Ok(h) ==> h.provider_view().kind_of() == kind
                    && h.provider_view().key_of() == key && h.user_agent_text()
                    == APP_USER_AGENT@ && h.timeout_value() == TIMEOUT_SECONDS) && (r matches Err(
                    e,
                ) ==> e is Client),
                Err(e) => r matches Err(e2) && e2 == e,
            },
    {
        let (kind, api_key) = match resolve_provider(&config, requested_provider) {
            Ok(pair) => pair,
            Err(e) => {
                return Err(e);
            },
        };
        let http = match build_client(APP_USER_AGENT, TIMEOUT_SECONDS) {
            Ok(http) => http,
            Err(reason) => {
                return Err(WeatherError::Client { reason });
            },
        };
        let HttpClient { client, user_agent, timeout_seconds } = http;
        let provider = match kind {
            ProviderKind::Open => Provider::Open(OpenWeather::new(api_key, client)),
            ProviderKind::Accu => Provider::Accu(AccuWeather::new(api_key, client)),
        };
        Ok(ProviderHandle { provider, user_agent, timeout_seconds })
    }

    /// The user agent that the provider's HTTP client was built with.
    pub fn user_agent(&self) -> (s: &String)
        ensures
            s@ == self.user_agent_text(),
    {
        &self.user_agent
    }

    /// The timeout, in seconds, that the provider's HTTP client was built with.
    pub fn timeout_seconds(&self) -> (t: u64)
        ensures
            t == self.timeout_value(),
    {
        self.timeout_seconds
    }

    /// The provider behind the handle.
    pub fn provider(&self) -> (p: &Provider)
        ensures
            *p == self.provider_view(),
    {
        &self.provider
    }
}

} // verus!
