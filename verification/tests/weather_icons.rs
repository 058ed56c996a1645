use info_screen::weather::{forecast_icon, forecast_icons, resolve_weather_icon, weather_forecast_url};

#[test]
fn known_symbols_have_their_own_icons() {
    let table = [
        ("clearsky_day", "☀️"),
        ("clearsky_night", "🌙"),
        ("fair_day", "🌤️"),
        ("fair_night", "🌤️"),
        ("partlycloudy_day", "⛅"),
        ("partlycloudy_night", "⛅"),
        ("cloudy", "☁️"),
        ("fog", "🌫️"),
        ("lightrain", "🌦️"),
        ("rain", "🌧️"),
        ("heavyrain", "🌧️"),
        ("rainshowers_day", "🌦️"),
        ("rainshowers_night", "🌦️"),
        ("heavyrainshowers_day", "⛈️"),
        ("heavyrainshowers_night", "⛈️"),
        ("lightsnow", "🌨️"),
        ("snow", "❄️"),
        ("heavysnow", "❄️"),
        ("sleet", "🌧️"),
        ("thunderstorms", "⛈️"),
    ];
    for (code, icon) in table {
        assert_eq!(resolve_weather_icon(code), icon, "{code}");
    }
}

#[test]
fn unknown_symbols_show_the_default_icon() {
    assert_eq!(resolve_weather_icon("lightssleetshowers_polartwilight"), "🌤️");
    assert_eq!(resolve_weather_icon(""), "🌤️");
    assert_eq!(resolve_weather_icon("Cloudy"), "🌤️");
}

#[test]
fn forecast_hours_without_symbol_show_clear_sky() {
    assert_eq!(forecast_icon(None), "☀️");
    assert_eq!(forecast_icon(Some("snow")), "❄️");
}

#[test]
fn the_forecast_address_names_the_position() {
    assert_eq!(
        weather_forecast_url("58.1", "8.0"),
        "https://api.met.no/weatherapi/locationforecast/2.0/compact?lat=58.1&lon=8.0"
    );
}

#[test]
fn forecasts_show_the_current_hour_and_at_most_48_hours() {
    assert_eq!(forecast_icons(&vec![]).err().as_deref(), Some("weather data was empty"));
    let short = forecast_icons(&vec![None, Some("snow".to_string()), Some("fog".to_string())]).ok().unwrap();
    assert_eq!(short.current, "☀️");
    assert_eq!(short.hourly, vec!["☀️", "❄️", "🌫️"]);
    let long: Vec<Option<String>> = (0..60).map(|i| if i % 2 == 0 { Some("rain".to_string()) } else { Some("cloudy".to_string()) }).collect();
    let icons = forecast_icons(&long).ok().unwrap();
    assert_eq!(icons.current, "🌧️");
    assert_eq!(icons.hourly.len(), 48);
    assert_eq!(icons.hourly[47], "☁️");
}
