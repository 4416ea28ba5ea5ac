//! The AccuWeather provider: its two requests, how its answers are checked,
//! which place and which forecast are kept, and how the report is written.

use vstd::prelude::*;
use vstd::string::*;

use crate::date::{iso_date_text, Date};
use crate::error::{string_views, WeatherError};
use crate::providers::{option_date_view, place_label, place_label_text, Weather};
use crate::text::{has_prefix, starts_with};

verus! {

/// The AccuWeather API, with its key and an HTTP client.
pub struct AccuWeather {
    api_key: String,
    client: reqwest::blocking::Client,
}

/// A country as AccuWeather names it.
#[derive(Debug)]
pub struct Country {
    pub localized_name: String,
}

/// A place that AccuWeather found for an address.
#[derive(Debug)]
pub struct Place {
    pub key: String,
    pub localized_name: String,
    pub country: Country,
}

impl AccuWeather {
    /// The API key.
    pub closed spec fn api_key_text(&self) -> Seq<char> {
        self.api_key@
    }

    /// The HTTP client.
    pub closed spec fn client_value(&self) -> reqwest::blocking::Client {
        self.client
    }

    pub fn new(api_key: String, client: reqwest::blocking::Client) -> (r: AccuWeather)
        ensures
            r.api_key_text() == api_key@,
            r.client_value() == client,
    {
        AccuWeather { api_key, client }
    }

    /// The API key.
    pub fn api_key(&self) -> (r: &String)
        ensures
            r@ == self.api_key_text(),
    {
        &self.api_key
    }

    /// The HTTP client it was made with.
    pub fn client(&self) -> (c: &reqwest::blocking::Client)
        ensures
            *c == self.client_value(),
    {
        &self.client
    }

    /// The address that looks up places for `address`.
    pub fn location_url(&self, address: &str) -> (url: String)
        ensures
            url@ == "https://dataservice.accuweather.com/locations/v1/cities/autocomplete?q="@
                + address@ + "&apikey="@ + self.api_key_text(),
    {
        let mut url = String::from_str(
            "https://dataservice.accuweather.com/locations/v1/cities/autocomplete?q=",
        );
        url.append(address);
        url.append("&apikey=");
        url.append(self.api_key.as_str());
        url
    }

    /// The address of the detailed 5-day forecast, in metric units, for the place
    /// with `location_key`.
    pub fn forecast_url(&self, location_key: &str) -> (url: String)
        ensures
            url@ == "https://dataservice.accuweather.com/forecasts/v1/daily/5day/"@
                + location_key@ + "?details=true&metric=true&apikey="@ + self.api_key_text(),
    {
        let mut url = String::from_str(
            "https://dataservice.accuweather.com/forecasts/v1/daily/5day/",
        );
        url.append(location_key);
        url.append("?details=true&metric=true&apikey=");
        url.append(self.api_key.as_str());
        url
    }
}

/// Checks an answer: one with a `Code` field that is not null is an error,
/// reported with the fields `Code` and `Message` as JSON text.
pub fn check_status(code_is_null: bool, code_json: &str, message_json: &str) -> (r: Result<
    (),
    WeatherError,
>)
    ensures
        code_is_null ==> r is Ok,
        !code_is_null ==> (r matches Err(WeatherError::ProviderResponse { code, message })
            && code@ == code_json@ && message@ == message_json@),
{
    if code_is_null {
        Ok(())
    } else {
        Err(
            WeatherError::ProviderResponse {
                code: String::from_str(code_json),
                message: String::from_str(message_json),
            },
        )
    }
}

/// Keeps the first place found for `address`; none (or an answer that is not a list
/// of places) is an error that names the address.
pub fn choose_place(places: Option<Vec<Place>>, address: &str) -> (r: Result<Place, WeatherError>)
    ensures
        match places {
            Some(v) if v.len() > 0 => r matches Ok(p) && p == v@[0],
            _ => r matches Err(WeatherError::NoLocationData { address: a }) && a@ == address@,
        },
{
    match places {
        Some(mut v) => {
            if v.len() > 0 {
                Ok(v.remove(0))
            } else {
                Err(WeatherError::NoLocationData { address: String::from_str(address) })
            }
        },
        None => Err(WeatherError::NoLocationData { address: String::from_str(address) }),
    }
}

/// The index of the first of `dates`, from `start` on, that starts with `prefix`.
pub open spec fn first_match_from(dates: Seq<Seq<char>>, prefix: Seq<char>, start: int) -> Option<
    int,
>
    decreases dates.len() - start,
{
    if start < 0 || start >= dates.len() {
        None
    } else if has_prefix(dates[start], prefix) {
        Some(start)
    } else {
        first_match_from(dates, prefix, start + 1)
    }
}

/// The forecast that reports a day: the first one of that day, or else the first one.
pub open spec fn selected_forecast(dates: Seq<Seq<char>>, date: Option<(int, int, int)>) -> Option<
    int,
> {
    match date {
        Some(d) => first_match_from(dates, iso_date_text(d), 0),
        None => if dates.len() == 0 {
            None
        } else {
            Some(0)
        },
    }
}

/// The search from `start` finds the first timestamp from there on that starts with
/// `prefix`, and finds nothing only when none from there on does.
pub proof fn lemma_first_match_from(dates: Seq<Seq<char>>, prefix: Seq<char>, start: int)
    requires
        0 <= start,
    ensures
        first_match_from(dates, prefix, start) matches Some(i) ==> (start <= i < dates.len()
            && has_prefix(dates[i], prefix) && forall|j: int|
            start <= j < i ==> !has_prefix(#[trigger] dates[j], prefix)),
        first_match_from(dates, prefix, start) is None ==> forall|j: int|
            start <= j < dates.len() ==> !has_prefix(#[trigger] dates[j], prefix),
    decreases dates.len() - start,
{
    if start < dates.len() && !has_prefix(dates[start], prefix) {
        lemma_first_match_from(dates, prefix, start + 1);
    }
}

/// What [`select_forecast`] keeps for a day: the index `i` exactly when the date at `i`
/// starts with that day (ISO `year-month-day`) and no earlier one does, index 0
/// included; nothing (hence the error) exactly when no date starts with it. For right
/// now, the first forecast.
pub proof fn lemma_selected_forecast(dates: Seq<Seq<char>>, date: Option<(int, int, int)>, i: int)
    ensures
        date matches Some(d) ==> (selected_forecast(dates, date) == Some(i) <==> (0 <= i
            < dates.len() && has_prefix(dates[i], iso_date_text(d)) && forall|j: int|
            0 <= j < i ==> !has_prefix(#[trigger] dates[j], iso_date_text(d)))),
        date matches Some(d) ==> (selected_forecast(dates, date) is None <==> forall|j: int|
            0 <= j < dates.len() ==> !has_prefix(#[trigger] dates[j], iso_date_text(d))),
        date is None ==> (selected_forecast(dates, date) == Some(i) <==> (i == 0 && dates.len()
            > 0)),
        date is None ==> (selected_forecast(dates, date) is None <==> dates.len() == 0),
{
    match date {
        Some(d) => {
            let p = iso_date_text(d);
            lemma_first_match_from(dates, p, 0);
            match first_match_from(dates, p, 0) {
                Some(k) => {
                    if 0 <= i < dates.len() && has_prefix(dates[i], p) && forall|j: int|
                        0 <= j < i ==> !has_prefix(#[trigger] dates[j], p) {
                        if k < i {
                            assert(!has_prefix(dates[k], p));
                        } else if i < k {
                            assert(!has_prefix(dates[i], p));
                        }
                    }
                    assert(0 <= k < dates.len() && has_prefix(dates[k], p));
                },
                None => {},
            }
        },
        None => {},
    }
}

/// Picks, by their dates, the forecast of `date` (the first whose date starts with
/// that day), or the first forecast where no date is given. None is an error.
pub fn select_forecast(dates: &Vec<String>, date: Option<Date>) -> (r: Result<usize, WeatherError>)
    ensures
        match selected_forecast(string_views(dates@), option_date_view(date)) {
            Some(i) => r matches Ok(j) && j == i,
            None => r matches Err(WeatherError::NoForecast),
        },
{
    let ghost views = string_views(dates@);
    let n = dates.len();
    match date {
        Some(day) => {
            let prefix = day.to_string();
            for i in 0..n
                invariant
                    n == dates.len(),
                    views == string_views(dates@),
                    prefix@ == iso_date_text(day@),
                    option_date_view(date) == Some(day@),
                    first_match_from(views, prefix@, 0) == first_match_from(
                        views,
                        prefix@,
                        i as int,
                    ),
            {
                assert(views[i as int] == dates@[i as int]@);
                if starts_with(dates[i].as_str(), prefix.as_str()) {
                    assert(first_match_from(views, prefix@, i as int) == Some(i as int));
                    assert(selected_forecast(views, option_date_view(date)) == Some(i as int));
                    return Ok(i);
                }
            }
            Err(WeatherError::NoForecast)
        },
        None => {
            if n > 0 {
                Ok(0)
            } else {
                Err(WeatherError::NoForecast)
            }
        },
    }
}

/// The details of an AccuWeather report.
pub open spec fn details_text(
    short_desc: Seq<char>,
    temp: Seq<char>,
    temp_feel: Seq<char>,
    wind: Seq<char>,
) -> Seq<char> {
    short_desc + "\nTemperature: "@ + temp + "\nFeels like: "@ + temp_feel + "\nWind Speed: "@
        + wind
}

/// The details of an AccuWeather report, from the day's short description and the
/// averaged values (written with two decimals).
pub fn details(short_desc: &str, temp: &str, temp_feel: &str, wind: &str) -> (s: String)
    ensures
        s@ == details_text(short_desc@, temp@, temp_feel@, wind@),
{
    let mut s = String::from_str(short_desc);
    s.append("\nTemperature: ");
    s.append(temp);
    s.append("\nFeels like: ");
    s.append(temp_feel);
    s.append("\nWind Speed: ");
    s.append(wind);
    s
}

/// The report of the forecast kept for a day: the place with its country, the day
/// asked for, and the details with the day's short description and the averaged
/// values (written with two decimals).
pub fn weather(
    place: &Place,
    date: Option<Date>,
    short_desc: &str,
    temp: &str,
    temp_feel: &str,
    wind: &str,
) -> (w: Weather)
    ensures
        w.date == date,
        w.place@ == place_label_text(place.localized_name@, place.country.localized_name@),
        w.details@ == details_text(short_desc@, temp@, temp_feel@, wind@),
{
    Weather {
        date,
        place: place_label(place.localized_name.as_str(), place.country.localized_name.as_str()),
        details: details(short_desc, temp, temp_feel, wind),
    }
}

} // verus!
