//! The providers the tool supports and how their names are read from
//! the command line and from the configuration.

use vstd::prelude::*;
use vstd::string::*;

use crate::error::{string_views, WeatherError};
use crate::text::same_text;

verus! {

/// A forecast provider that the tool knows how to talk to.
#[derive(Clone, Copy, Debug, PartialEq, Eq, Structural)]
pub enum ProviderKind {
    /// OpenWeather
    Open,
    /// AccuWeather
    Accu,
}

/// Every provider, in the order in which they are offered.
pub open spec fn all_kinds() -> Seq<ProviderKind> {
    seq![ProviderKind::Open, ProviderKind::Accu]
}

/// The full name of a provider, as the configuration keys it.
pub open spec fn full_name_text(kind: ProviderKind) -> Seq<char> {
    match kind {
        ProviderKind::Open => "OpenWeather"@,
        ProviderKind::Accu => "AccuWeather"@,
    }
}

/// The short name of a provider, as the command line takes it.
pub open spec fn short_name_text(kind: ProviderKind) -> Seq<char> {
    match kind {
        ProviderKind::Open => "open"@,
        ProviderKind::Accu => "accu"@,
    }
}

/// The provider whose full name is `name`, if any.
pub open spec fn kind_by_full_name(name: Seq<char>) -> Option<ProviderKind> {
    if name == full_name_text(ProviderKind::Open) {
        Some(ProviderKind::Open)
    } else if name == full_name_text(ProviderKind::Accu) {
        Some(ProviderKind::Accu)
    } else {
        None
    }
}

/// The provider whose short name is `name`, if any.
pub open spec fn kind_by_short_name(name: Seq<char>) -> Option<ProviderKind> {
    if name == short_name_text(ProviderKind::Open) {
        Some(ProviderKind::Open)
    } else if name == short_name_text(ProviderKind::Accu) {
        Some(ProviderKind::Accu)
    } else {
        None
    }
}

/// The short names of all providers, in the order of [`all_kinds`].
pub open spec fn short_names() -> Seq<Seq<char>> {
    all_kinds().map_values(|k: ProviderKind| short_name_text(k))
}

impl ProviderKind {
    /// Every provider, in the order in which they are offered.
    pub fn all() -> (kinds: Vec<ProviderKind>)
        ensures
            kinds@ == all_kinds(),
    {
        let mut kinds = Vec::new();
        kinds.push(ProviderKind::Open);
        kinds.push(ProviderKind::Accu);
        assert(kinds@ =~= all_kinds());
        kinds
    }

    /// The full name, such as `OpenWeather`.
    pub fn full_name(&self) -> (s: String)
        ensures
            s@ == full_name_text(*self),
    {
        let s = match self {
            ProviderKind::Open => "OpenWeather",
            ProviderKind::Accu => "AccuWeather",
        };
        String::from_str(s)
    }

    /// The short name, such as `open`.
    pub fn to_string(&self) -> (s: String)
        ensures
            s@ == short_name_text(*self),
    {
        let s = match self {
            ProviderKind::Open => "open",
            ProviderKind::Accu => "accu",
        };
        String::from_str(s)
    }

    /// The provider with the full name `s`.
    pub fn from_str(s: &str) -> (r: Result<ProviderKind, WeatherError>)
        ensures
            match kind_by_full_name(s@) {
                Some(kind) => r == Ok::<ProviderKind, WeatherError>(kind),
                None => r matches Err(WeatherError::UnknownProvider),
            },
    {
        if same_text(s, "OpenWeather") {
            Ok(ProviderKind::Open)
        } else if same_text(s, "AccuWeather") {
            Ok(ProviderKind::Accu)
        } else {
            Err(WeatherError::UnknownProvider)
        }
    }
}

/// Reads a provider from its short name; where no provider has it, the error
/// offers the short names of all of them.
pub fn parse_provider_kind(input: &str) -> (r: Result<ProviderKind, WeatherError>)
    ensures
        match kind_by_short_name(input@) {
            Some(kind) => r == Ok::<ProviderKind, WeatherError>(kind),
            None => r matches Err(WeatherError::ProviderOptions { options }) && string_views(
                options@,
            ) == short_names(),
        },
{
    proof {
        reveal_strlit("open");
        reveal_strlit("accu");
    }
    let kinds = ProviderKind::all();
    let n = kinds.len();
    for i in 0..n
        invariant
            n == kinds.len(),
            kinds@ == all_kinds(),
            forall|j: int| 0 <= j < i ==> input@ != short_name_text(#[trigger] kinds@[j]),
    {
        let name = kinds[i].to_string();
        if same_text(input, name.as_str()) {
            return Ok(kinds[i]);
        }
    }
    assert(input@ != short_name_text(kinds@[0]));
    assert(input@ != short_name_text(kinds@[1]));
    let mut options: Vec<String> = Vec::new();
    for i in 0..n
        invariant
            n == kinds.len(),
            kinds@ == all_kinds(),
            options.len() == i,
            string_views(options@) == short_names().take(i as int),
    {
        let name = kinds[i].to_string();
        assert(short_names()[i as int] == short_name_text(all_kinds()[i as int]));
        let ghost before = options@;
        options.push(name);
        assert forall|j: int| 0 <= j <= i implies string_views(options@)[j] == short_names().take(
            i + 1,
        )[j] by {
            if j < i {
                assert(options@[j] == before[j]);
                assert(string_views(before)[j] == short_names().take(i as int)[j]);
            }
        }
        assert(string_views(options@) =~= short_names().take(i + 1));
    }
    assert(short_names().take(n as int) =~= short_names());
    Err(WeatherError::ProviderOptions { options })
}

/// A provider is found again from its full name.
pub proof fn lemma_full_name_round_trip(kind: ProviderKind)
    ensures
        kind_by_full_name(full_name_text(kind)) == Some(kind),
{
    reveal_strlit("OpenWeather");
    reveal_strlit("AccuWeather");
    assert("OpenWeather"@ != "AccuWeather"@) by {
        assert("OpenWeather"@[0] != "AccuWeather"@[0]);
    }
}

/// A provider is found again from its short name.
pub proof fn lemma_short_name_round_trip(kind: ProviderKind)
    ensures
        kind_by_short_name(short_name_text(kind)) == Some(kind),
{
    reveal_strlit("open");
    reveal_strlit("accu");
    assert("open"@ != "accu"@) by {
        assert("open"@[0] != "accu"@[0]);
    }
}

} // verus!
