//! The configuration: an API key per provider and the provider used by default.

use vstd::prelude::*;
use vstd::string::*;

use crate::cli::{all_kinds, full_name_text, kind_by_full_name, ProviderKind};
use crate::error::{string_views, WeatherError};
use crate::text::same_text;

verus! {

/// What a configuration holds: the API key of each configured provider,
/// keyed by the provider's full name, and the full name of the default provider.
pub struct ConfigView {
    pub providers: Map<Seq<char>, Seq<char>>,
    pub default: Option<Seq<char>>,
}

/// The key and value texts of a list of entries.
pub open spec fn entry_views(entries: Seq<(String, String)>) -> Seq<(Seq<char>, Seq<char>)> {
    entries.map_values(|e: (String, String)| (e.0@, e.1@))
}

/// The map that inserting the entries one after another gives: a later entry
/// replaces an earlier one with the same key.
pub open spec fn pairs_map<K, V>(entries: Seq<(K, V)>) -> Map<K, V>
    decreases entries.len(),
{
    if entries.len() == 0 {
        Map::empty()
    } else {
        pairs_map(entries.drop_last()).insert(entries.last().0, entries.last().1)
    }
}

/// No two entries share a key.
pub open spec fn distinct_keys<K, V>(entries: Seq<(K, V)>) -> bool {
    forall|i: int, j: int|
        0 <= i < entries.len() && 0 <= j < entries.len() && i != j ==> #[trigger] entries[i].0
            != #[trigger] entries[j].0
}

/// The view of an optional string.
pub open spec fn option_view(s: Option<String>) -> Option<Seq<char>> {
    match s {
        Some(s) => Some(s@),
        None => None,
    }
}

/// Whether `name` is the only key of `providers`.
pub open spec fn only_key(providers: Map<Seq<char>, Seq<char>>, name: Seq<char>) -> bool {
    forall|k: Seq<char>| #[trigger] providers.contains_key(k) ==> k == name
}

/// The configuration after `name` is configured with `api_key`: the key is stored,
/// and the provider becomes the default when asked for or when it is the only one.
pub open spec fn configured(
    c: ConfigView,
    name: Seq<char>,
    api_key: Seq<char>,
    set_default: bool,
) -> ConfigView {
    let providers = c.providers.insert(name, api_key);
    ConfigView {
        providers,
        default: if set_default || only_key(providers, name) {
            Some(name)
        } else {
            c.default
        },
    }
}

/// The configuration with `name` as its default provider.
pub open spec fn with_default(c: ConfigView, name: Seq<char>) -> ConfigView {
    ConfigView { providers: c.providers, default: Some(name) }
}

/// The full names of the providers among `kinds` that have an API key, in order.
pub open spec fn configured_among(
    kinds: Seq<ProviderKind>,
    providers: Map<Seq<char>, Seq<char>>,
) -> Seq<Seq<char>>
    decreases kinds.len(),
{
    if kinds.len() == 0 {
        Seq::empty()
    } else {
        configured_among(kinds.drop_last(), providers) + if providers.contains_key(
            full_name_text(kinds.last()),
        ) {
            seq![full_name_text(kinds.last())]
        } else {
            Seq::empty()
        }
    }
}

/// A key is in the map exactly where some entry has it.
pub proof fn lemma_pairs_map_contains<K, V>(entries: Seq<(K, V)>, k: K)
    ensures
        pairs_map(entries).contains_key(k) <==> exists|i: int|
            0 <= i < entries.len() && #[trigger] entries[i].0 == k,
    decreases entries.len(),
{
    if entries.len() > 0 {
        let rest = entries.drop_last();
        lemma_pairs_map_contains(rest, k);
        if pairs_map(rest).contains_key(k) {
            let i = choose|i: int| 0 <= i < rest.len() && #[trigger] rest[i].0 == k;
            assert(entries[i].0 == k);
        }
        if exists|i: int| 0 <= i < entries.len() && #[trigger] entries[i].0 == k {
            let i = choose|i: int| 0 <= i < entries.len() && #[trigger] entries[i].0 == k;
            if i < entries.len() - 1 {
                assert(rest[i].0 == k);
            }
        }
    }
}

/// Dropping the last entry keeps the keys distinct.
pub proof fn lemma_distinct_keys_drop_last<K, V>(entries: Seq<(K, V)>)
    requires
        distinct_keys(entries),
        entries.len() > 0,
    ensures
        distinct_keys(entries.drop_last()),
{
    let rest = entries.drop_last();
    assert forall|a: int, b: int|
        0 <= a < rest.len() && 0 <= b < rest.len() && a != b implies #[trigger] rest[a].0
        != #[trigger] rest[b].0 by {
        assert(rest[a] == entries[a]);
        assert(rest[b] == entries[b]);
    }
}

/// With distinct keys, the map gives each entry's key that entry's value.
pub proof fn lemma_pairs_map_value<K, V>(entries: Seq<(K, V)>, i: int)
    requires
        distinct_keys(entries),
        0 <= i < entries.len(),
    ensures
        pairs_map(entries).contains_key(entries[i].0),
        pairs_map(entries)[entries[i].0] == entries[i].1,
    decreases entries.len(),
{
    let rest = entries.drop_last();
    if i < entries.len() - 1 {
        assert(rest[i] == entries[i]);
        lemma_distinct_keys_drop_last(entries);
        lemma_pairs_map_value(rest, i);
        assert(entries[i].0 != entries[entries.len() - 1].0);
    }
}

/// With distinct keys, replacing the value of the entry with key `k` is inserting `k` into the map.
pub proof fn lemma_pairs_map_update<K, V>(entries: Seq<(K, V)>, i: int, v: V)
    requires
        distinct_keys(entries),
        0 <= i < entries.len(),
    ensures
        pairs_map(entries.update(i, (entries[i].0, v))) == pairs_map(entries).insert(
            entries[i].0,
            v,
        ),
    decreases entries.len(),
{
    let k = entries[i].0;
    let updated = entries.update(i, (k, v));
    let rest = entries.drop_last();
    if i == entries.len() - 1 {
        assert(updated.drop_last() =~= rest);
        assert(pairs_map(updated) =~= pairs_map(entries).insert(k, v));
    } else {
        assert(updated.drop_last() =~= rest.update(i, (k, v)));
        assert(rest[i] == entries[i]);
        lemma_distinct_keys_drop_last(entries);
        lemma_pairs_map_update(rest, i, v);
        let last = entries.last();
        assert(updated.last() == last);
        assert(k != last.0);
        assert(pairs_map(updated) =~= pairs_map(entries).insert(k, v));
    }
}

/// Index of the entry with key `key`, if any.
fn find_key(entries: &Vec<(String, String)>, key: &str) -> (r: Option<usize>)
    ensures
        match r {
            Some(i) => i < entries.len() && entries@[i as int].0@ == key@,
            None => forall|i: int| 0 <= i < entries.len() ==> #[trigger] entries@[i].0@ != key@,
        },
{
    let n = entries.len();
    for i in 0..n
        invariant
            n == entries.len(),
            forall|j: int| 0 <= j < i ==> #[trigger] entries@[j].0@ != key@,
    {
        if same_text(entries[i].0.as_str(), key) {
            return Some(i);
        }
    }
    None
}

/// The configuration: an API key per provider and the provider used by default.
pub struct Config {
    providers: Vec<(String, String)>,
    default: Option<String>,
}

impl View for Config {
    type V = ConfigView;

    closed spec fn view(&self) -> ConfigView {
        ConfigView {
            providers: pairs_map(entry_views(self.providers@)),
            default: option_view(self.default),
        }
    }
}

impl Default for Config {
    /// The configuration with no provider and no default.
    fn default() -> (c: Config)
        ensures
            c@.providers == Map::<Seq<char>, Seq<char>>::empty(),
            c@.default is None,
    {
        Config::new()
    }
}

impl Config {
    /// No two entries are for the same provider.
    #[verifier::type_invariant]
    spec fn wf(&self) -> bool {
        distinct_keys(entry_views(self.providers@))
    }

    /// The configuration with no provider and no default.
    pub fn new() -> (c: Config)
        ensures
            c@.providers == Map::<Seq<char>, Seq<char>>::empty(),
            c@.default is None,
    {
        let c = Config { providers: Vec::new(), default: None };
        assert(entry_views(c.providers@) =~= Seq::empty());
        c
    }

    /// Stores `value` under `key`, replacing what was there.
    fn insert_entry(&mut self, key: String, value: String)
        ensures
            final(self)@.providers == old(self)@.providers.insert(key@, value@),
            final(self)@.default == old(self)@.default,
    {
        proof {
            use_type_invariant(&*self);
        }
        let mut providers: Vec<(String, String)> = Vec::new();
        std::mem::swap(&mut providers, &mut self.providers);
        let ghost before = entry_views(providers@);
        let ghost kv = key@;
        let ghost vv = value@;
        match find_key(&providers, key.as_str()) {
            Some(i) => {
                providers.set(i, (key, value));
                proof {
                    assert(before[i as int].0 == kv);
                    assert(entry_views(providers@) =~= before.update(i as int, (kv, vv)));
                    lemma_pairs_map_update(before, i as int, vv);
                    let after = entry_views(providers@);
                    assert forall|a: int, b: int|
                        0 <= a < after.len() && 0 <= b < after.len() && a != b implies #[trigger] after[a].0
                        != #[trigger] after[b].0 by {
                        if a != i && b != i {
                            assert(after[a] == before[a]);
                            assert(after[b] == before[b]);
                        } else if a == i {
                            assert(after[b] == before[b]);
                        } else {
                            assert(after[a] == before[a]);
                        }
                    }
                }
            },
            None => {
                let ghost old_entries = providers@;
                providers.push((key, value));
                proof {
                    let after = entry_views(providers@);
                    assert(after =~= before.push((kv, vv)));
                    assert(after.drop_last() =~= before);
                    assert forall|a: int, b: int|
                        0 <= a < after.len() && 0 <= b < after.len() && a != b implies #[trigger] after[a].0
                        != #[trigger] after[b].0 by {
                        if a < before.len() && b < before.len() {
                            assert(after[a] == before[a]);
                            assert(after[b] == before[b]);
                        } else if a < before.len() {
                            assert(after[a] == before[a]);
                            assert(old_entries[a].0@ != kv);
                        } else {
                            assert(after[b] == before[b]);
                            assert(old_entries[b].0@ != kv);
                        }
                    }
                }
            },
        }
        self.providers = providers;
    }

    /// The configuration with the given entries, a later entry for a provider
    /// replacing an earlier one, and the given default provider.
    pub fn from_entries(entries: Vec<(String, String)>, default: Option<String>) -> (c: Config)
        ensures
            c@ == from_entries_view(entries@, default),
    {
        let mut c = Config::new();
        let ghost views = entry_views(entries@);
        let n = entries.len();
        for i in 0..n
            invariant
                    n == entries.len(),
                views == entry_views(entries@),
                c@.providers == pairs_map(views.take(i as int)),
                c@.default is None,
        {
            let k = entries[i].0.clone();
            let v = entries[i].1.clone();
            proof {
                assert(views.take(i + 1).drop_last() =~= views.take(i as int));
                assert(views.take(i + 1).last() == views[i as int]);
            }
            c.insert_entry(k, v);
        }
        assert(views.take(n as int) =~= views);
        proof {
            use_type_invariant(&c);
        }
        c.default = default;
        c
    }

    /// The entries of the configuration, one per provider.
    pub fn entries(&self) -> (r: Vec<(String, String)>)
        ensures
            distinct_keys(entry_views(r@)),
            pairs_map(entry_views(r@)) == self@.providers,
    {
        proof {
            use_type_invariant(self);
        }
        let mut r: Vec<(String, String)> = Vec::new();
        let n = self.providers.len();
        for i in 0..n
            invariant
                n == self.providers.len(),
                entry_views(r@) == entry_views(self.providers@).take(i as int),
                r.len() == i,
        {
            let k = self.providers[i].0.clone();
            let v = self.providers[i].1.clone();
            let ghost before = r@;
            r.push((k, v));
            proof {
                assert forall|j: int| 0 <= j <= i implies #[trigger] entry_views(r@)[j]
                    == entry_views(self.providers@).take(i + 1)[j] by {
                    if j < i {
                        assert(r@[j] == before[j]);
                        assert(entry_views(before)[j] == entry_views(self.providers@).take(
                            i as int,
                        )[j]);
                    }
                }
                assert(entry_views(r@) =~= entry_views(self.providers@).take(i + 1));
            }
        }
        assert(entry_views(self.providers@).take(n as int) =~= entry_views(self.providers@));
        r
    }

    /// The full name of the default provider, if there is one.
    pub fn default_name(&self) -> (r: Option<String>)
        ensures
            option_view(r) == self@.default,
    {
        match &self.default {
            Some(name) => Some(name.clone()),
            None => None,
        }
    }

    /// The API key of `provider` (a full name).
    pub fn get_api_key(&self, provider: &str) -> (r: Result<&String, WeatherError>)
        ensures
            if self@.providers.contains_key(provider@) {
                r matches Ok(key) && key@ == self@.providers[provider@]
            } else {
                r matches Err(WeatherError::ProviderNotConfigured)
            },
    {
        proof {
            use_type_invariant(self);
        }
        let ghost views = entry_views(self.providers@);
        proof {
            lemma_pairs_map_contains(views, provider@);
        }
        match find_key(&self.providers, provider) {
            Some(i) => {
                proof {
                    lemma_pairs_map_value(views, i as int);
                }
                Ok(&self.providers[i].1)
            },
            None => {
                proof {
                    assert forall|j: int| 0 <= j < views.len() implies #[trigger] views[j].0
                        != provider@ by {
                        assert(self.providers@[j].0@ != provider@);
                    }
                }
                Err(WeatherError::ProviderNotConfigured)
            },
        }
    }

    /// The full name of the default provider.
    pub fn default_provider(&self) -> (r: Result<&String, WeatherError>)
        ensures
            match self@.default {
                Some(name) => r matches Ok(s) && s@ == name,
                None => r matches Err(WeatherError::NoProvidersConfigured),
            },
    {
        match &self.default {
            Some(name) => Ok(name),
            None => Err(WeatherError::NoProvidersConfigured),
        }
    }

    /// Whether every entry is for the provider `name`.
    fn only_provider(&self, name: &str) -> (r: bool)
        ensures
            r == only_key(self@.providers, name@),
    {
        let ghost views = entry_views(self.providers@);
        let n = self.providers.len();
        for i in 0..n
            invariant
                n == self.providers.len(),
                views == entry_views(self.providers@),
                forall|j: int| 0 <= j < i ==> #[trigger] views[j].0 == name@,
        {
            if !same_text(self.providers[i].0.as_str(), name) {
                proof {
                    assert(views[i as int].0 != name@);
                    lemma_pairs_map_contains(views, views[i as int].0);
                }
                return false;
            }
        }
        proof {
            assert forall|k: Seq<char>| #[trigger] self@.providers.contains_key(k) implies k
                == name@ by {
                lemma_pairs_map_contains(views, k);
            }
        }
        true
    }

    /// Stores `api_key` for `provider`. The provider becomes the default if
    /// `set_default` holds or if it is the only configured provider.
    pub fn configure_provider(&mut self, provider: ProviderKind, api_key: String, set_default: bool)
        ensures
            final(self)@ == configured(old(self)@, full_name_text(provider), api_key@, set_default),
    {
        let name = provider.full_name();
        self.insert_entry(name.clone(), api_key);
        let is_first_provider = self.only_provider(name.as_str());
        proof {
            use_type_invariant(&*self);
        }
        if set_default || is_first_provider {
            self.default = Some(name);
        }
    }

    /// Makes `provider` the default. Refused when there is no default yet
    /// (nothing configured) or when the provider has no API key.
    pub fn set_default_provider(&mut self, provider: ProviderKind) -> (r: Result<(), WeatherError>)
        ensures
            old(self)@.default is None ==> (r matches Err(WeatherError::NoProvidersConfigured)
                && final(self)@ == old(self)@),
            old(self)@.default is Some && !old(self)@.providers.contains_key(
                full_name_text(provider),
            ) ==> (r matches Err(WeatherError::ProviderNotConfigured) && final(self)@ == old(
                self,
            )@),
            old(self)@.default is Some && old(self)@.providers.contains_key(
                full_name_text(provider),
            ) ==> r is Ok && final(self)@ == with_default(old(self)@, full_name_text(provider)),
    {
        if self.default.is_none() {
            return Err(WeatherError::NoProvidersConfigured);
        }
        let name = provider.full_name();
        match self.get_api_key(name.as_str()) {
            Ok(_) => {},
            Err(e) => {
                return Err(e);
            },
        }
        proof {
            use_type_invariant(&*self);
        }
        self.default = Some(name);
        Ok(())
    }

    /// The full names of the providers that have an API key, in the order
    /// in which providers are offered.
    pub fn configured_providers(&self) -> (r: Vec<String>)
        ensures
            string_views(r@) == configured_among(all_kinds(), self@.providers),
    {
        let kinds = ProviderKind::all();
        let n = kinds.len();
        let mut r: Vec<String> = Vec::new();
        for i in 0..n
            invariant
                n == kinds.len(),
                kinds@ == all_kinds(),
                r@.map_values(|s: String| s@) == configured_among(
                    all_kinds().take(i as int),
                    self@.providers,
                ),
        {
            let name = kinds[i].full_name();
            let ghost before = r@;
            proof {
                assert(all_kinds().take(i + 1).drop_last() =~= all_kinds().take(i as int));
                assert(all_kinds().take(i + 1).last() == kinds@[i as int]);
            }
            match self.get_api_key(name.as_str()) {
                Ok(_) => {
                    r.push(name);
                    assert(r@.map_values(|s: String| s@) =~= before.map_values(|s: String| s@).push(
                        full_name_text(kinds@[i as int]),
                    ));
                },
                Err(_) => {},
            }
        }
        assert(all_kinds().take(n as int) =~= all_kinds());
        r
    }
}

/// Configuring a provider stores its key, which a lookup then gives back,
/// and leaves the keys of the other providers as they were.
pub proof fn lemma_configure_then_lookup(
    c: ConfigView,
    kind: ProviderKind,
    api_key: Seq<char>,
    set_default: bool,
    other: Seq<char>,
)
    ensures
        configured(c, full_name_text(kind), api_key, set_default).providers.contains_key(
            full_name_text(kind),
        ),
        configured(c, full_name_text(kind), api_key, set_default).providers[full_name_text(kind)]
            == api_key,
        other != full_name_text(kind) ==> configured(
            c,
            full_name_text(kind),
            api_key,
            set_default,
        ).providers.contains_key(other) == c.providers.contains_key(other) && configured(
            c,
            full_name_text(kind),
            api_key,
            set_default,
        ).providers[other] == c.providers[other],
{
}

/// The first provider configured, or one configured with `set_default`,
/// becomes the default; otherwise the default stays. In full: with `set_default`, or
/// when no other provider has a key, the provider becomes the default; without
/// `set_default`, when some other provider has a key, the default stays whatever it
/// was (also when the provider had no key before); and the default is never anything
/// but the old one or this provider.
pub proof fn lemma_configure_default(
    c: ConfigView,
    kind: ProviderKind,
    api_key: Seq<char>,
    set_default: bool,
)
    ensures
        (set_default || c.providers.dom().is_empty()) ==> configured(
            c,
            full_name_text(kind),
            api_key,
            set_default,
        ).default == Some(full_name_text(kind)),
        (!set_default && c.providers.contains_key(full_name_text(kind)) && !only_key(
            c.providers,
            full_name_text(kind),
        )) ==> configured(c, full_name_text(kind), api_key, set_default).default == c.default,
        (forall|k: Seq<char>| #[trigger] c.providers.contains_key(k) ==> k == full_name_text(kind))
            ==> configured(c, full_name_text(kind), api_key, set_default).default == Some(
            full_name_text(kind),
        ),
        (!set_default && exists|k: Seq<char>|
            #[trigger] c.providers.contains_key(k) && k != full_name_text(kind)) ==> configured(
            c,
            full_name_text(kind),
            api_key,
            set_default,
        ).default == c.default,
        configured(c, full_name_text(kind), api_key, set_default).default == c.default
            || configured(c, full_name_text(kind), api_key, set_default).default == Some(
            full_name_text(kind),
        ),
{
    let name = full_name_text(kind);
    let p = c.providers.insert(name, api_key);
    if forall|k: Seq<char>| #[trigger] c.providers.contains_key(k) ==> k == name {
        assert forall|k: Seq<char>| #[trigger] p.contains_key(k) implies k == name by {
            if k != name {
                assert(c.providers.contains_key(k));
            }
        }
    }
    if c.providers.dom().is_empty() {
        assert forall|k: Seq<char>| #[trigger] p.contains_key(k) implies k == name by {
            if k != name {
                assert(c.providers.dom().contains(k));
            }
        }
    }
    if exists|k: Seq<char>| #[trigger] c.providers.contains_key(k) && k != name {
        let k = choose|k: Seq<char>| #[trigger] c.providers.contains_key(k) && k != name;
        assert(p.contains_key(k));
    }
}

/// After a provider is configured in a configuration that has a default (or is
/// made the default), setting it as the default is accepted.
pub proof fn lemma_configure_then_set_default(
    c: ConfigView,
    kind: ProviderKind,
    api_key: Seq<char>,
    set_default: bool,
)
    requires
        c.default is Some || set_default,
    ensures
        configured(c, full_name_text(kind), api_key, set_default).default is Some,
        configured(c, full_name_text(kind), api_key, set_default).providers.contains_key(
            full_name_text(kind),
        ),
{
}

/// The names that [`Config::configured_providers`] offers are exactly the full names
/// of the providers among `kinds` that have a key: every offered name is such a name,
/// and every such name is offered.
pub proof fn lemma_configured_among(kinds: Seq<ProviderKind>, providers: Map<Seq<char>, Seq<char>>)
    ensures
        forall|name: Seq<char>|
            #[trigger] configured_among(kinds, providers).contains(name) <==> exists|i: int|
                0 <= i < kinds.len() && name == full_name_text(#[trigger] kinds[i])
                    && providers.contains_key(name),
    decreases kinds.len(),
{
    let r = configured_among(kinds, providers);
    if kinds.len() > 0 {
        let rest = kinds.drop_last();
        lemma_configured_among(rest, providers);
        let prev = configured_among(rest, providers);
        let last = kinds.last();
        let tail: Seq<Seq<char>> = if providers.contains_key(full_name_text(last)) {
            seq![full_name_text(last)]
        } else {
            Seq::empty()
        };
        assert(r =~= prev + tail);
        assert forall|name: Seq<char>| #[trigger] r.contains(name) <==> exists|i: int|
            0 <= i < kinds.len() && name == full_name_text(#[trigger] kinds[i])
                && providers.contains_key(name) by {
            if r.contains(name) {
                let a = choose|a: int| 0 <= a < r.len() && r[a] == name;
                if a < prev.len() {
                    assert(prev[a] == name);
                    assert(prev.contains(name));
                    let i = choose|i: int|
                        0 <= i < rest.len() && name == full_name_text(#[trigger] rest[i])
                            && providers.contains_key(name);
                    assert(kinds[i] == rest[i]);
                } else {
                    assert(tail[a - prev.len()] == name);
                    assert(kinds[kinds.len() - 1] == last);
                }
            }
            if exists|i: int|
                0 <= i < kinds.len() && name == full_name_text(#[trigger] kinds[i])
                    && providers.contains_key(name) {
                let i = choose|i: int|
                    0 <= i < kinds.len() && name == full_name_text(#[trigger] kinds[i])
                        && providers.contains_key(name);
                if i < kinds.len() - 1 {
                    assert(rest[i] == kinds[i]);
                    assert(prev.contains(name));
                    let a = choose|a: int| 0 <= a < prev.len() && prev[a] == name;
                    assert(r[a] == name);
                } else if name == full_name_text(last) {
                    assert(r[prev.len() as int] == name);
                } else {
                    assert(kinds[i] == last);
                }
            }
        }
    }
}

/// The providers offered to become the default are exactly the configured ones, each
/// once, in the order in which providers are offered: OpenWeather before AccuWeather.
/// (Each configured provider is offered, so offering none means none is configured.)
pub proof fn lemma_configured_providers(providers: Map<Seq<char>, Seq<char>>)
    ensures
        forall|kind: ProviderKind|
            #[trigger] configured_among(all_kinds(), providers).contains(full_name_text(kind))
                <==> providers.contains_key(full_name_text(kind)),
        forall|name: Seq<char>|
            #[trigger] configured_among(all_kinds(), providers).contains(name) ==> kind_by_full_name(
                name,
            ) is Some,
        configured_among(all_kinds(), providers).len() <= 2,
        configured_among(all_kinds(), providers).len() == 2 ==> configured_among(
            all_kinds(),
            providers,
        )[0] == full_name_text(ProviderKind::Open) && configured_among(all_kinds(), providers)[1]
            == full_name_text(ProviderKind::Accu),
        configured_among(all_kinds(), providers).len() == 2 ==> configured_among(
            all_kinds(),
            providers,
        )[0] != configured_among(all_kinds(), providers)[1],
{
    lemma_configured_among(all_kinds(), providers);
    crate::cli::lemma_full_name_round_trip(ProviderKind::Open);
    crate::cli::lemma_full_name_round_trip(ProviderKind::Accu);
    let r = configured_among(all_kinds(), providers);
    assert forall|kind: ProviderKind| #[trigger] r.contains(full_name_text(kind))
        <==> providers.contains_key(full_name_text(kind)) by {
        if r.contains(full_name_text(kind)) {
            let i = choose|i: int|
                0 <= i < all_kinds().len() && full_name_text(kind) == full_name_text(
                    #[trigger] all_kinds()[i],
                ) && providers.contains_key(full_name_text(kind));
        }
        if providers.contains_key(full_name_text(kind)) {
            match kind {
                ProviderKind::Open => {
                    assert(all_kinds()[0] == ProviderKind::Open);
                },
                ProviderKind::Accu => {
                    assert(all_kinds()[1] == ProviderKind::Accu);
                },
            }
        }
    }
    assert forall|name: Seq<char>| #[trigger] r.contains(name) implies kind_by_full_name(
        name,
    ) is Some by {
        let i = choose|i: int|
            0 <= i < all_kinds().len() && name == full_name_text(#[trigger] all_kinds()[i])
                && providers.contains_key(name);
        crate::cli::lemma_full_name_round_trip(all_kinds()[i]);
    }
    reveal_with_fuel(configured_among, 3);
    let s1 = all_kinds().drop_last();
    assert(s1.drop_last() =~= Seq::<ProviderKind>::empty());
    assert(s1 =~= seq![ProviderKind::Open]);
}

/// Every name that [`Config::configured_providers`] offers is the full name of a
/// provider that has an API key, so setting it as the default is accepted
/// whenever there is a default.
pub proof fn lemma_configured_names_are_configured(
    providers: Map<Seq<char>, Seq<char>>,
    kinds: Seq<ProviderKind>,
    i: int,
)
    requires
        0 <= i < configured_among(kinds, providers).len(),
    ensures
        providers.contains_key(configured_among(kinds, providers)[i]),
        kind_by_full_name(configured_among(kinds, providers)[i]) is Some,
    decreases kinds.len(),
{
    let rest = configured_among(kinds.drop_last(), providers);
    if i < rest.len() {
        lemma_configured_names_are_configured(providers, kinds.drop_last(), i);
        assert(configured_among(kinds, providers)[i] == rest[i]);
    } else {
        crate::cli::lemma_full_name_round_trip(kinds.last());
    }
}

/// Two lists of entries with distinct keys and the same entries, in whatever
/// order, give the same map.
pub proof fn lemma_pairs_map_same_entries<K, V>(s1: Seq<(K, V)>, s2: Seq<(K, V)>)
    requires
        distinct_keys(s1),
        distinct_keys(s2),
        forall|e: (K, V)| s1.contains(e) <==> s2.contains(e),
    ensures
        pairs_map(s1) == pairs_map(s2),
{
    assert forall|k: K| pairs_map(s1).contains_key(k) <==> pairs_map(s2).contains_key(k) by {
        lemma_pairs_map_contains(s1, k);
        lemma_pairs_map_contains(s2, k);
        if exists|i: int| 0 <= i < s1.len() && #[trigger] s1[i].0 == k {
            let i = choose|i: int| 0 <= i < s1.len() && #[trigger] s1[i].0 == k;
            assert(s1.contains(s1[i]));
            let j = choose|j: int| 0 <= j < s2.len() && s2[j] == s1[i];
            assert(s2[j].0 == k);
        }
        if exists|j: int| 0 <= j < s2.len() && #[trigger] s2[j].0 == k {
            let j = choose|j: int| 0 <= j < s2.len() && #[trigger] s2[j].0 == k;
            assert(s2.contains(s2[j]));
            let i = choose|i: int| 0 <= i < s1.len() && s1[i] == s2[j];
            assert(s1[i].0 == k);
        }
    }
    assert forall|k: K| #[trigger] pairs_map(s1).contains_key(k) implies pairs_map(s1)[k]
        == pairs_map(s2)[k] by {
        lemma_pairs_map_contains(s1, k);
        let i = choose|i: int| 0 <= i < s1.len() && #[trigger] s1[i].0 == k;
        assert(s1.contains(s1[i]));
        let j = choose|j: int| 0 <= j < s2.len() && s2[j] == s1[i];
        lemma_pairs_map_value(s1, i);
        lemma_pairs_map_value(s2, j);
    }
    assert(pairs_map(s1) =~= pairs_map(s2));
}

/// The configuration that [`Config::from_entries`] makes of the entries and the default.
pub open spec fn from_entries_view(entries: Seq<(String, String)>, default: Option<String>) -> ConfigView {
    ConfigView { providers: pairs_map(entry_views(entries)), default: option_view(default) }
}

/// Writing out a configuration ([`Config::entries`], [`Config::default_name`]) and
/// reading it back ([`Config::from_entries`]) gives the same configuration, whatever
/// the order in which the entries come back (a map in between keeps none).
pub proof fn lemma_entries_round_trip(
    saved: ConfigView,
    written: Seq<(String, String)>,
    default: Option<String>,
    read: Seq<(String, String)>,
)
    requires
        distinct_keys(entry_views(written)),
        pairs_map(entry_views(written)) == saved.providers,
        option_view(default) == saved.default,
        distinct_keys(entry_views(read)),
        forall|e: (Seq<char>, Seq<char>)|
            entry_views(read).contains(e) <==> entry_views(written).contains(e),
    ensures
        from_entries_view(read, default) == saved,
{
    lemma_pairs_map_same_entries(entry_views(read), entry_views(written));
}

} // verus!
