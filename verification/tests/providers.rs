use weather::date::Date;
use weather::error::WeatherError;
use weather::providers::accu_weather::{self, AccuWeather, Country, Place};
use weather::providers::open_weather::{self, OpenWeather};
use weather::providers::{place_label, Weather};

fn client() -> reqwest::blocking::Client {
    reqwest::blocking::Client::new()
}

fn strings(items: &[&str]) -> Vec<String> {
    items.iter().map(|s| s.to_string()).collect()
}

#[test]
fn weather_report_right_now() {
    let w = Weather {
        place: "Kyiv, Ukraine".to_string(),
        date: None,
        details: "Temperature: 1.00".to_string(),
    };
    assert_eq!(w.report(), "Weather in Kyiv, Ukraine right now:\nTemperature: 1.00");
}

#[test]
fn weather_report_on_a_day() {
    let w = Weather {
        place: "Oslo, Norway".to_string(),
        date: Date::from_ymd(2024, 7, 9),
        details: "Sunny".to_string(),
    };
    assert_eq!(w.report(), "Weather in Oslo, Norway on 09.07:\nSunny");
}

#[test]
fn place_labels() {
    assert_eq!(place_label("London", "United Kingdom"), "London, United Kingdom");
    assert_eq!(place_label("", ""), ", ");
}

#[test]
fn open_weather_forecast_url() {
    let p = OpenWeather::new("KEY".to_string(), client());
    assert_eq!(p.api_key(), "KEY");
    assert_eq!(
        p.forecast_url("Kyiv"),
        "https://api.openweathermap.org/data/2.5/forecast?units=metric&q=Kyiv&appid=KEY"
    );
}

#[test]
fn open_weather_status() {
    assert!(open_weather::check_status(Some("200"), "\"200\"", "0").is_ok());
    let e = open_weather::check_status(Some("404"), "\"404\"", "\"city not found\"").unwrap_err();
    assert_eq!(e.message(), "Error \"404\": \"city not found\"");
    let e = open_weather::check_status(None, "401", "\"Invalid API key\"").unwrap_err();
    assert!(matches!(e, WeatherError::ProviderResponse { .. }));
    assert_eq!(e.message(), "Error 401: \"Invalid API key\"");
}

#[test]
fn open_weather_selects_forecasts_of_the_day() {
    let dates = strings(&[
        "2024-03-04 21:00:00",
        "2024-03-05 00:00:00",
        "2024-03-05 03:00:00",
        "2024-03-06 00:00:00",
        "2024-03-05 21:00:00",
    ]);
    let day = Date::from_ymd(2024, 3, 5);
    assert_eq!(open_weather::select_forecasts(&dates, day).unwrap(), vec![1, 2, 4]);
    assert_eq!(open_weather::select_forecasts(&dates, None).unwrap(), vec![0]);
}

#[test]
fn open_weather_no_forecast() {
    let dates = strings(&["2024-03-04 21:00:00"]);
    let e = open_weather::select_forecasts(&dates, Date::from_ymd(2024, 3, 9)).unwrap_err();
    assert!(matches!(e, WeatherError::NoForecast));
    assert_eq!(e.message(), "No forecast for this day");
    assert!(open_weather::select_forecasts(&Vec::new(), None).is_err());
}

#[test]
fn country_names_from_iso_codes() {
    assert_eq!(open_weather::country_name("UA"), "Ukraine");
    assert_eq!(
        open_weather::country_name("GB"),
        "United Kingdom of Great Britain and Northern Ireland"
    );
    assert_eq!(open_weather::country_name("US"), "United States of America");
    assert_eq!(open_weather::country_name("XX"), "XX");
    assert_eq!(open_weather::country_name(""), "");
}

#[test]
fn country_lookup_in_a_table() {
    let table = vec![
        ("AA".to_string(), "First".to_string()),
        ("BB".to_string(), "Second".to_string()),
        ("AA".to_string(), "Third".to_string()),
    ];
    assert_eq!(open_weather::lookup_country_name(&table, "AA"), "First");
    assert_eq!(open_weather::lookup_country_name(&table, "BB"), "Second");
    assert_eq!(open_weather::lookup_country_name(&table, "CC"), "CC");
}

#[test]
fn integer_averages() {
    assert_eq!(open_weather::average_u32(&vec![80, 70, 91]), 80);
    assert_eq!(open_weather::average_u32(&vec![5]), 5);
    assert_eq!(open_weather::average_u32(&vec![1, 2]), 1);
    assert_eq!(open_weather::average_u32(&vec![u32::MAX]), u32::MAX);
}

#[test]
fn open_weather_details() {
    assert_eq!(
        open_weather::details("3.25", "1.00", 87, "4.10"),
        "Temperature: 3.25\nFeels like: 1.00\nHumidity: 87\nWind Speed: 4.10"
    );
}

#[test]
fn accu_weather_urls() {
    let p = AccuWeather::new("K".to_string(), client());
    assert_eq!(p.api_key(), "K");
    assert_eq!(
        p.location_url("Paris"),
        "https://dataservice.accuweather.com/locations/v1/cities/autocomplete?q=Paris&apikey=K"
    );
    assert_eq!(
        p.forecast_url("623"),
        "https://dataservice.accuweather.com/forecasts/v1/daily/5day/623?details=true&metric=true&apikey=K"
    );
}

#[test]
fn accu_weather_status() {
    assert!(accu_weather::check_status(true, "null", "null").is_ok());
    let e = accu_weather::check_status(false, "\"Unauthorized\"", "\"Api key is invalid\"").unwrap_err();
    assert_eq!(e.message(), "Error \"Unauthorized\": \"Api key is invalid\"");
}

fn place(key: &str, name: &str, country: &str) -> Place {
    Place {
        key: key.to_string(),
        localized_name: name.to_string(),
        country: Country { localized_name: country.to_string() },
    }
}

#[test]
fn accu_weather_chooses_first_place() {
    let places = vec![place("1", "Paris", "France"), place("2", "Paris", "United States")];
    let p = accu_weather::choose_place(Some(places), "Paris").unwrap();
    assert_eq!(p.key, "1");
    assert_eq!(p.country.localized_name, "France");
}

#[test]
fn accu_weather_no_place() {
    let e = accu_weather::choose_place(Some(Vec::new()), "Nowhere").unwrap_err();
    assert_eq!(e.message(), "No location data for Nowhere");
    let e = accu_weather::choose_place(None, "Nowhere").unwrap_err();
    assert!(matches!(e, WeatherError::NoLocationData { .. }));
}

#[test]
fn accu_weather_selects_forecast() {
    let dates = strings(&[
        "2024-03-05T07:00:00+01:00",
        "2024-03-06T07:00:00+01:00",
        "2024-03-07T07:00:00+01:00",
    ]);
    assert_eq!(accu_weather::select_forecast(&dates, Date::from_ymd(2024, 3, 6)).unwrap(), 1);
    assert_eq!(accu_weather::select_forecast(&dates, None).unwrap(), 0);
    let e = accu_weather::select_forecast(&dates, Date::from_ymd(2024, 3, 9)).unwrap_err();
    assert!(matches!(e, WeatherError::NoForecast));
    assert!(accu_weather::select_forecast(&Vec::new(), None).is_err());
}

#[test]
fn accu_weather_details() {
    assert_eq!(
        accu_weather::details("Cloudy", "7.50", "5.00", "11.10"),
        "Cloudy\nTemperature: 7.50\nFeels like: 5.00\nWind Speed: 11.10"
    );
}

#[test]
fn other_error_messages() {
    assert_eq!(WeatherError::UndefinedWeatherFormat.message(), "Undefined weather format");
    assert_eq!(
        WeatherError::Client { reason: "no TLS".to_string() }.message(),
        "no TLS"
    );
}

#[test]
fn open_weather_report() {
    let w = open_weather::weather(
        "Kyiv",
        "UA",
        Date::from_ymd(2024, 3, 5),
        "3.25",
        "1.00",
        &vec![80, 70, 91],
        "4.10",
    );
    assert_eq!(w.place, "Kyiv, Ukraine");
    assert_eq!(w.date, Date::from_ymd(2024, 3, 5));
    assert_eq!(
        w.details,
        "Temperature: 3.25\nFeels like: 1.00\nHumidity: 80\nWind Speed: 4.10"
    );
    let unknown = open_weather::weather("Atlantis", "ZZ", None, "0.00", "0.00", &vec![5], "0.00");
    assert_eq!(unknown.place, "Atlantis, ZZ");
    assert!(unknown.date.is_none());
}

#[test]
fn accu_weather_report() {
    let p = place("623", "Paris", "France");
    let w = accu_weather::weather(&p, None, "Cloudy", "7.50", "5.00", "11.10");
    assert_eq!(w.place, "Paris, France");
    assert!(w.date.is_none());
    assert_eq!(w.details, "Cloudy\nTemperature: 7.50\nFeels like: 5.00\nWind Speed: 11.10");
    assert_eq!(w.report(), "Weather in Paris, France right now:\nCloudy\nTemperature: 7.50\nFeels like: 5.00\nWind Speed: 11.10");
}

#[test]
fn clock_error_message() {
    assert_eq!(WeatherError::ClockError.message(), "system time before Unix epoch");
}
