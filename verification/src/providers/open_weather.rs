//! The OpenWeather provider: its request, how its answer is checked, which
//! forecasts are kept for a day, and how the report is written.

use vstd::prelude::*;
use vstd::string::*;

use crate::date::{iso_date_text, Date};
use crate::error::{string_views, WeatherError};
use crate::providers::{option_date_view, place_label, place_label_text, Weather};
use crate::text::{decimal, decimal_text, has_prefix, same_text, starts_with};

verus! {

/// The OpenWeather API, with its key and an HTTP client.
pub struct OpenWeather {
    api_key: String,
    client: reqwest::blocking::Client,
}

impl OpenWeather {
    /// The API key.
    pub closed spec fn api_key_text(&self) -> Seq<char> {
        self.api_key@
    }

    /// The HTTP client.
    pub closed spec fn client_value(&self) -> reqwest::blocking::Client {
        self.client
    }

    pub fn new(api_key: String, client: reqwest::blocking::Client) -> (r: OpenWeather)
        ensures
            r.api_key_text() == api_key@,
            r.client_value() == client,
    {
        OpenWeather { api_key, client }
    }

    /// The API key.
    pub fn api_key(&self) -> (r: &String)
        ensures
            r@ == self.api_key_text(),
    {
        &self.api_key
    }

    /// The HTTP client it was made with.
    pub fn client(&self) -> (c: &reqwest::blocking::Client)
        ensures
            *c == self.client_value(),
    {
        &self.client
    }

    /// The address of the 5-day forecast for `address`, in metric units.
    pub fn forecast_url(&self, address: &str) -> (url: String)
        ensures
            url@ == "https://api.openweathermap.org/data/2.5/forecast?units=metric&q="@ + address@
                + "&appid="@ + self.api_key_text(),
    {
        let mut url = String::from_str(
            "https://api.openweathermap.org/data/2.5/forecast?units=metric&q=",
        );
        url.append(address);
        url.append("&appid=");
        url.append(self.api_key.as_str());
        url
    }
}

/// Checks the `cod` field of an answer: anything but the text `200` is an error,
/// reported with the fields `cod` and `message` as JSON text.
pub fn check_status(cod: Option<&str>, cod_json: &str, message_json: &str) -> (r: Result<
    (),
    WeatherError,
>)
    ensures
        (cod matches Some(c) && c@ == "200"@) ==> r is Ok,
        !(cod matches Some(c) && c@ == "200"@) ==> (r matches Err(
            WeatherError::ProviderResponse { code, message },
        ) && code@ == cod_json@ && message@ == message_json@),
{
    match cod {
        Some(c) => {
            if same_text(c, "200") {
                return Ok(());
            }
        },
        None => {},
    }
    Err(
        WeatherError::ProviderResponse {
            code: String::from_str(cod_json),
            message: String::from_str(message_json),
        },
    )
}

/// The indices among the first `n` of `dates` of those that start with `prefix`, in order.
pub open spec fn matching_indices(dates: Seq<Seq<char>>, prefix: Seq<char>, n: int) -> Seq<int>
    decreases n,
{
    if n <= 0 {
        Seq::empty()
    } else {
        matching_indices(dates, prefix, n - 1) + if has_prefix(dates[n - 1], prefix) {
            seq![n - 1]
        } else {
            Seq::empty()
        }
    }
}

/// The forecasts that report a day: those of that day, or else the first one.
pub open spec fn selected_forecasts(dates: Seq<Seq<char>>, date: Option<(int, int, int)>) -> Seq<
    int,
> {
    match date {
        Some(d) => matching_indices(dates, iso_date_text(d), dates.len() as int),
        None => if dates.len() == 0 {
            Seq::empty()
        } else {
            seq![0]
        },
    }
}

/// The indices kept among the first `n` timestamps are exactly those whose
/// timestamp starts with `prefix`, each once and in increasing order.
pub proof fn lemma_matching_indices(dates: Seq<Seq<char>>, prefix: Seq<char>, n: int)
    requires
        0 <= n <= dates.len(),
    ensures
        forall|i: int|
            #[trigger] matching_indices(dates, prefix, n).contains(i) <==> (0 <= i < n
                && has_prefix(dates[i], prefix)),
        forall|a: int, b: int|
            0 <= a < b < matching_indices(dates, prefix, n).len() ==> #[trigger] matching_indices(
                dates,
                prefix,
                n,
            )[a] < #[trigger] matching_indices(dates, prefix, n)[b],
        forall|a: int|
            0 <= a < matching_indices(dates, prefix, n).len() ==> 0 <= #[trigger] matching_indices(
                dates,
                prefix,
                n,
            )[a] < n,
    decreases n,
{
    let m = matching_indices(dates, prefix, n);
    if n > 0 {
        lemma_matching_indices(dates, prefix, n - 1);
        let prev = matching_indices(dates, prefix, n - 1);
        let tail: Seq<int> = if has_prefix(dates[n - 1], prefix) {
            seq![n - 1]
        } else {
            Seq::empty()
        };
        assert(m =~= prev + tail);
        assert forall|i: int| #[trigger] m.contains(i) <==> (0 <= i < n && has_prefix(
            dates[i],
            prefix,
        )) by {
            if m.contains(i) {
                let a = choose|a: int| 0 <= a < m.len() && m[a] == i;
                if a < prev.len() {
                    assert(prev[a] == i);
                    assert(prev.contains(i));
                } else {
                    assert(tail[a - prev.len()] == i);
                }
            }
            if 0 <= i < n && has_prefix(dates[i], prefix) {
                if i < n - 1 {
                    assert(prev.contains(i));
                    let a = choose|a: int| 0 <= a < prev.len() && prev[a] == i;
                    assert(m[a] == i);
                } else {
                    assert(m[prev.len() as int] == i);
                }
            }
        }
        assert forall|a: int, b: int| 0 <= a < b < m.len() implies #[trigger] m[a] < #[trigger] m[b] by {
            if b < prev.len() {
                assert(m[a] == prev[a] && m[b] == prev[b]);
            } else {
                assert(m[a] == prev[a]);
                assert(m[b] == n - 1);
            }
        }
        assert forall|a: int| 0 <= a < m.len() implies 0 <= #[trigger] m[a] < n by {
            if a < prev.len() {
                assert(m[a] == prev[a]);
            }
        }
    }
}

/// What [`select_forecasts`] keeps: for a day, exactly the indices whose timestamp
/// starts with that day (ISO `year-month-day`), each once and in increasing order, and
/// nothing (hence the error) only when no timestamp starts with it; for right now,
/// only the first forecast.
pub proof fn lemma_selected_forecasts(dates: Seq<Seq<char>>, date: Option<(int, int, int)>)
    ensures
        date matches Some(d) ==> (forall|i: int|
            #[trigger] selected_forecasts(dates, date).contains(i) <==> (0 <= i < dates.len()
                && has_prefix(dates[i], iso_date_text(d)))),
        date matches Some(d) ==> (selected_forecasts(dates, date).len() == 0 <==> forall|i: int|
            0 <= i < dates.len() ==> !has_prefix(#[trigger] dates[i], iso_date_text(d))),
        forall|a: int, b: int|
            0 <= a < b < selected_forecasts(dates, date).len() ==> #[trigger] selected_forecasts(
                dates,
                date,
            )[a] < #[trigger] selected_forecasts(dates, date)[b],
        date is None ==> selected_forecasts(dates, date).len() == if dates.len() == 0 {
            0int
        } else {
            1int
        },
        date is None && dates.len() > 0 ==> selected_forecasts(dates, date)[0] == 0,
{
    match date {
        Some(d) => {
            let p = iso_date_text(d);
            lemma_matching_indices(dates, p, dates.len() as int);
            let m = selected_forecasts(dates, date);
            if m.len() == 0 {
                assert forall|i: int| 0 <= i < dates.len() implies !has_prefix(
                    #[trigger] dates[i],
                    p,
                ) by {
                    if has_prefix(dates[i], p) {
                        assert(m.contains(i));
                    }
                }
            } else {
                assert(m.contains(m[0]));
            }
        },
        None => {},
    }
}

/// Picks, by their timestamps `dt_txts`, the forecasts of `date` (those whose timestamp
/// starts with the date), or only the first forecast where no date is given.
/// No forecast at all is an error.
pub fn select_forecasts(dt_txts: &Vec<String>, date: Option<Date>) -> (r: Result<
    Vec<usize>,
    WeatherError,
>)
    ensures
        selected_forecasts(string_views(dt_txts@), option_date_view(date)).len() == 0 ==> r matches Err(
            WeatherError::NoForecast,
        ),
        selected_forecasts(string_views(dt_txts@), option_date_view(date)).len() > 0 ==> (r matches Ok(
            v,
        ) && v@.len() == selected_forecasts(string_views(dt_txts@), option_date_view(date)).len()
            && forall|k: int|
            0 <= k < v@.len() ==> #[trigger] v@[k] == selected_forecasts(
                string_views(dt_txts@),
                option_date_view(date),
            )[k]),
{
    let ghost dates = string_views(dt_txts@);
    let ghost sel = selected_forecasts(dates, option_date_view(date));
    let n = dt_txts.len();
    let mut chosen: Vec<usize> = Vec::new();
    match date {
        Some(day) => {
            let prefix = day.to_string();
            for i in 0..n
                invariant
                    n == dt_txts.len(),
                    dates == string_views(dt_txts@),
                    prefix@ == iso_date_text(day@),
                    chosen@.len() == matching_indices(dates, prefix@, i as int).len(),
                    forall|k: int|
                        0 <= k < chosen@.len() ==> #[trigger] chosen@[k] == matching_indices(
                            dates,
                            prefix@,
                            i as int,
                        )[k],
            {
                let ghost before = chosen@;
                if starts_with(dt_txts[i].as_str(), prefix.as_str()) {
                    chosen.push(i);
                }
                proof {
                    assert(dates[i as int] == dt_txts@[i as int]@);
                    assert forall|k: int| 0 <= k < chosen@.len() implies #[trigger] chosen@[k]
                        == matching_indices(dates, prefix@, i + 1)[k] by {
                        if k < before.len() {
                            assert(chosen@[k] == before[k]);
                        }
                    }
                }
            }
        },
        None => {
            if n > 0 {
                chosen.push(0);
            }
        },
    }
    if chosen.len() == 0 {
        Err(WeatherError::NoForecast)
    } else {
        Ok(chosen)
    }
}

/// The name of the country with the ISO 3166-1 alpha-2 `code` in a table of
/// (code, name) pairs: the first match, or the code itself where none matches.
pub open spec fn country_in_table(table: Seq<(Seq<char>, Seq<char>)>, code: Seq<char>) -> Seq<
    char,
>
    decreases table.len(),
{
    if table.len() == 0 {
        code
    } else if table[0].0 == code {
        table[0].1
    } else {
        country_in_table(table.drop_first(), code)
    }
}

/// The (code, name) texts of a table of country entries.
pub open spec fn table_views(table: Seq<(String, String)>) -> Seq<(Seq<char>, Seq<char>)> {
    table.map_values(|e: (String, String)| (e.0@, e.1@))
}

/// The number of countries in iso_country's table.
pub open spec fn iso_country_count() -> int {
    249
}

/// The (alpha-2 code, name) of the entry at `index` of iso_country's `data::all()`.
pub uninterp spec fn iso_country_entry(index: int) -> (Seq<char>, Seq<char>);

/// iso_country's table of countries, as (alpha-2 code, name) pairs.
pub open spec fn iso_country_table() -> Seq<(Seq<char>, Seq<char>)> {
    Seq::new(iso_country_count() as nat, |i: int| iso_country_entry(i))
}

/// Calls iso_country's `data::all()` and takes the alpha-2 code and the name of each
/// country. Claimed: the table has 249 entries (the source pushes that many), the one
/// at each index being [`iso_country_entry`] of it.
#[verifier::external_body]
fn iso_country_codes() -> (table: Vec<(String, String)>)
    ensures
        table.len() == iso_country_count(),
        forall|i: int|
            0 <= i < iso_country_count() ==> (#[trigger] table@[i].0@, table@[i].1@)
                == iso_country_entry(i),
{
    iso_country::data::all().iter().map(|c| (c.alpha2.to_string(), c.name.to_string())).collect()
}

/// Looks up the country name of `code` in a table of (code, name) pairs: the first
/// entry with that code gives the name; with none, the code itself is the name.
pub fn lookup_country_name(table: &Vec<(String, String)>, code: &str) -> (name: String)
    ensures
        name@ == country_in_table(table_views(table@), code@),
{
    let ghost views = table_views(table@);
    let n = table.len();
    assert(views.skip(0) =~= views);
    for i in 0..n
        invariant
            n == table.len(),
            views == table_views(table@),
            country_in_table(views, code@) == country_in_table(views.skip(i as int), code@),
    {
        proof {
            assert(views.skip(i as int).drop_first() =~= views.skip(i + 1));
            assert(views.skip(i as int)[0] == views[i as int]);
        }
        if same_text(table[i].0.as_str(), code) {
            return table[i].1.clone();
        }
    }
    proof {
        assert(views.skip(n as int) =~= Seq::<(Seq<char>, Seq<char>)>::empty());
    }
    String::from_str(code)
}

/// The name of the country with the ISO 3166-1 alpha-2 `code`, by iso_country's
/// table; the code itself where the table has no such country.
pub fn country_name(code: &str) -> (name: String)
    ensures
        name@ == country_in_table(iso_country_table(), code@),
{
    let table = iso_country_codes();
    assert(table_views(table@) =~= iso_country_table()) by {
        assert forall|i: int| 0 <= i < iso_country_count() implies #[trigger] table_views(
            table@,
        )[i] == iso_country_table()[i] by {
            assert((table@[i].0@, table@[i].1@) == iso_country_entry(i));
        }
    }
    lookup_country_name(&table, code)
}

/// The sum of the values.
pub open spec fn sum_of(values: Seq<u32>) -> int
    decreases values.len(),
{
    if values.len() == 0 {
        0
    } else {
        sum_of(values.drop_last()) + values.last()
    }
}

proof fn lemma_sum_of_prefix(values: Seq<u32>, i: int)
    requires
        0 <= i <= values.len(),
    ensures
        sum_of(values.take(i)) <= sum_of(values),
        sum_of(values.take(i)) >= 0,
    decreases values.len() - i,
{
    if i < values.len() {
        lemma_sum_of_prefix(values, i + 1);
        assert(values.take(i + 1).drop_last() =~= values.take(i));
    } else {
        assert(values.take(i) =~= values);
    }
    lemma_sum_of_nonnegative(values.take(i));
}

proof fn lemma_sum_of_nonnegative(values: Seq<u32>)
    ensures
        sum_of(values) >= 0,
    decreases values.len(),
{
    if values.len() > 0 {
        lemma_sum_of_nonnegative(values.drop_last());
    }
}

/// The average of the values as a `u32`: their sum divided by their count, the count
/// taken modulo 2^16 (as a `u16`). The sum must fit in a `u32` and the count must not
/// be a multiple of 2^16.
pub fn average_u32(values: &Vec<u32>) -> (avg: u32)
    requires
        sum_of(values@) <= u32::MAX,
        values.len() % 65536 != 0,
    ensures
        avg == sum_of(values@) / (values.len() % 65536) as int,
{
    let n = values.len();
    let mut sum: u32 = 0;
    for i in 0..n
        invariant
            n == values.len(),
            sum == sum_of(values@.take(i as int)),
            sum_of(values@) <= u32::MAX,
    {
        proof {
            assert(values@.take(i + 1).drop_last() =~= values@.take(i as int));
            lemma_sum_of_prefix(values@, i + 1);
        }
        sum = sum + values[i];
    }
    assert(values@.take(n as int) =~= values@);
    let count: u32 = (n % 65536) as u32;
    sum / count
}

/// The details of an OpenWeather report.
pub open spec fn details_text(
    temp: Seq<char>,
    temp_feel: Seq<char>,
    humidity: nat,
    wind: Seq<char>,
) -> Seq<char> {
    "Temperature: "@ + temp + "\nFeels like: "@ + temp_feel + "\nHumidity: "@ + decimal(humidity)
        + "\nWind Speed: "@ + wind
}

/// The details of an OpenWeather report, from the averaged values (the temperatures
/// and the wind speed already written with two decimals).
pub fn details(temp: &str, temp_feel: &str, humidity: u32, wind: &str) -> (s: String)
    ensures
        s@ == details_text(temp@, temp_feel@, humidity as nat, wind@),
{
    let mut s = String::from_str("Temperature: ");
    s.append(temp);
    s.append("\nFeels like: ");
    s.append(temp_feel);
    s.append("\nHumidity: ");
    let h = decimal_text(humidity as u64);
    s.append(h.as_str());
    s.append("\nWind Speed: ");
    s.append(wind);
    s
}

/// The report of the forecasts kept for a day: the city with its country's name,
/// the day asked for, and the details with the temperatures and the wind speed
/// (averaged and written with two decimals) and the average of the humidities.
pub fn weather(
    city_name: &str,
    country_code: &str,
    date: Option<Date>,
    temp: &str,
    temp_feel: &str,
    humidities: &Vec<u32>,
    wind: &str,
) -> (w: Weather)
    requires
        sum_of(humidities@) <= u32::MAX,
        humidities.len() % 65536 != 0,
    ensures
        w.date == date,
        w.place@ == place_label_text(city_name@, country_in_table(iso_country_table(), country_code@)),
        w.details@ == details_text(
            temp@,
            temp_feel@,
            (sum_of(humidities@) / (humidities.len() % 65536) as int) as nat,
            wind@,
        ),
{
    let country = country_name(country_code);
    let humidity = average_u32(humidities);
    Weather {
        date,
        place: place_label(city_name, country.as_str()),
        details: details(temp, temp_feel, humidity, wind),
    }
}

} // verus!
