//! The errors of the weather tool and the messages it shows for them.

use vstd::prelude::*;
use vstd::string::*;

verus! {

/// Everything that can go wrong while configuring providers or asking one for weather.
#[derive(Debug)]
pub enum WeatherError {
    /// A full provider name that no provider has.
    UnknownProvider,
    /// A short provider name that no provider has; `options` are the accepted ones.
    /// Its message gives the plain option names; the caller may colour them.
    ProviderOptions { options: Vec<String> },
    /// A date that is not `day.month` of the current year.
    InvalidDate,
    /// The provider asked for has no API key in the configuration.
    ProviderNotConfigured,
    /// The configuration names no default provider.
    NoProvidersConfigured,
    /// The provider answered with an error code and message (as JSON text).
    ProviderResponse { code: String, message: String },
    /// The provider's answer does not have the expected shape.
    UndefinedWeatherFormat,
    /// The provider knows no place for the address.
    NoLocationData { address: String },
    /// The provider has no forecast for the day asked for.
    NoForecast,
    /// The system clock gives no date: it reads before 1970 (or past chrono's dates).
    ClockError,
    /// The HTTP client could not be set up.
    Client { reason: String },
}

/// The options of a provider name, each in single quotes, separated by `|`.
pub open spec fn quoted_options(options: Seq<Seq<char>>) -> Seq<char>
    decreases options.len(),
{
    if options.len() == 0 {
        Seq::empty()
    } else if options.len() == 1 {
        "'"@ + options[0] + "'"@
    } else {
        quoted_options(options.drop_last()) + "|"@ + "'"@ + options.last() + "'"@
    }
}

/// The views of a vector of strings.
pub open spec fn string_views(v: Seq<String>) -> Seq<Seq<char>> {
    v.map_values(|s: String| s@)
}

/// The message shown for an error. For [`WeatherError::ProviderOptions`] it names
/// the options in plain text.
pub open spec fn message_text(e: WeatherError) -> Seq<char> {
    match e {
        WeatherError::UnknownProvider => "Unknown provider"@,
        WeatherError::ProviderOptions { options } => "\ntry: "@ + quoted_options(
            string_views(options@),
        ),
        WeatherError::InvalidDate => "Accepted date format: day.month"@,
        WeatherError::ProviderNotConfigured => "This provider is not configured"@,
        WeatherError::NoProvidersConfigured => "No providers configured"@,
        WeatherError::ProviderResponse { code, message } => "Error "@ + code@ + ": "@ + message@,
        WeatherError::UndefinedWeatherFormat => "Undefined weather format"@,
        WeatherError::NoLocationData { address } => "No location data for "@ + address@,
        WeatherError::NoForecast => "No forecast for this day"@,
        WeatherError::ClockError => "system time before Unix epoch"@,
        WeatherError::Client { reason } => reason@,
    }
}

/// Joins the options, each in single quotes, with `|`.
pub fn join_quoted(options: &Vec<String>) -> (s: String)
    ensures
        s@ == quoted_options(string_views(options@)),
{
    let ghost views = string_views(options@);
    let mut s = String::new();
    let n = options.len();
    for i in 0..n
        invariant
            n == options.len(),
            views == string_views(options@),
            s@ == quoted_options(views.take(i as int)),
    {
        assert(views.take(i + 1).drop_last() =~= views.take(i as int));
        if i != 0 {
            s.append("|");
        }
        s.append("'");
        s.append(options[i].as_str());
        s.append("'");
        proof {
            if i == 0 {
                assert(s@ =~= quoted_options(views.take(1)));
            }
        }
    }
    assert(views.take(n as int) =~= views);
    s
}

impl WeatherError {
    /// The message shown for this error.
    pub fn message(&self) -> (s: String)
        ensures
            s@ == message_text(*self),
    {
        match self {
            WeatherError::UnknownProvider => String::from_str("Unknown provider"),
            WeatherError::ProviderOptions { options } => {
                let mut s = String::from_str("\ntry: ");
                let joined = join_quoted(options);
                s.append(joined.as_str());
                s
            },
            WeatherError::InvalidDate => String::from_str("Accepted date format: day.month"),
            WeatherError::ProviderNotConfigured => String::from_str(
                "This provider is not configured",
            ),
            WeatherError::NoProvidersConfigured => String::from_str("No providers configured"),
            WeatherError::ProviderResponse { code, message } => {
                let mut s = String::from_str("Error ");
                s.append(code.as_str());
                s.append(": ");
                s.append(message.as_str());
                s
            },
            WeatherError::UndefinedWeatherFormat => String::from_str("Undefined weather format"),
            WeatherError::NoLocationData { address } => {
                let mut s = String::from_str("No location data for ");
                s.append(address.as_str());
                s
            },
            WeatherError::NoForecast => String::from_str("No forecast for this day"),
            WeatherError::ClockError => String::from_str("system time before Unix epoch"),
            WeatherError::Client { reason } => reason.clone(),
        }
    }
}

} // verus!
