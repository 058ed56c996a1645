//! Weather symbols from the MET Norway forecast shown as emoji.

use vstd::prelude::*;
use crate::text::same_text;

verus! {

/// The emoji shown for a MET Norway symbol code; codes without their own
/// emoji show the "sun behind small cloud" emoji.
pub open spec fn weather_icon_for(code: Seq<char>) -> Seq<char> {
    if code == "clearsky_day"@ {
        "☀️"@
    } else if code == "clearsky_night"@ {
        "🌙"@
    } else if code == "fair_day"@ || code == "fair_night"@ {
        "🌤️"@
    } else if code == "partlycloudy_day"@ || code == "partlycloudy_night"@ {
        "⛅"@
    } else if code == "cloudy"@ {
        "☁️"@
    } else if code == "fog"@ {
        "🌫️"@
    } else if code == "lightrain"@ || code == "rainshowers_day"@ || code == "rainshowers_night"@ {
        "🌦️"@
    } else if code == "rain"@ || code == "heavyrain"@ || code == "sleet"@ {
        "🌧️"@
    } else if code == "heavyrainshowers_day"@ || code == "heavyrainshowers_night"@ || code
        == "thunderstorms"@ {
        "⛈️"@
    } else if code == "lightsnow"@ {
        "🌨️"@
    } else if code == "snow"@ || code == "heavysnow"@ {
        "❄️"@
    } else {
        "🌤️"@
    }
}

/// The symbol codes that have an emoji of their own.
pub open spec fn has_own_icon(code: Seq<char>) -> bool {
    ||| code == "clearsky_day"@
    ||| code == "clearsky_night"@
    ||| code == "fair_day"@
    ||| code == "fair_night"@
    ||| code == "partlycloudy_day"@
    ||| code == "partlycloudy_night"@
    ||| code == "cloudy"@
    ||| code == "fog"@
    ||| code == "lightrain"@
    ||| code == "rain"@
    ||| code == "heavyrain"@
    ||| code == "rainshowers_day"@
    ||| code == "rainshowers_night"@
    ||| code == "heavyrainshowers_day"@
    ||| code == "heavyrainshowers_night"@
    ||| code == "lightsnow"@
    ||| code == "snow"@
    ||| code == "heavysnow"@
    ||| code == "sleet"@
    ||| code == "thunderstorms"@
}

/// Every code outside the twenty of the table shows the default emoji, and
/// each emoji of the table belongs to the codes that the table gives it: the
/// sun only to `clearsky_day`, the moon only to `clearsky_night`, and so on.
pub proof fn weather_icons_follow_the_table(code: Seq<char>)
    ensures
        !has_own_icon(code) ==> weather_icon_for(code) == "🌤️"@,
        weather_icon_for(code) == "☀️"@ <==> code == "clearsky_day"@,
        weather_icon_for(code) == "🌙"@ <==> code == "clearsky_night"@,
        weather_icon_for(code) == "⛅"@ <==> code == "partlycloudy_day"@ || code
            == "partlycloudy_night"@,
        weather_icon_for(code) == "☁️"@ <==> code == "cloudy"@,
        weather_icon_for(code) == "🌫️"@ <==> code == "fog"@,
        weather_icon_for(code) == "🌦️"@ <==> code == "lightrain"@ || code == "rainshowers_day"@
            || code == "rainshowers_night"@,
        weather_icon_for(code) == "🌧️"@ <==> code == "rain"@ || code == "heavyrain"@ || code
            == "sleet"@,
        weather_icon_for(code) == "⛈️"@ <==> code == "heavyrainshowers_day"@ || code
            == "heavyrainshowers_night"@ || code == "thunderstorms"@,
        weather_icon_for(code) == "🌨️"@ <==> code == "lightsnow"@,
        weather_icon_for(code) == "❄️"@ <==> code == "snow"@ || code == "heavysnow"@,
        weather_icon_for(code) == "🌤️"@ <==> !has_own_icon(code) || code == "fair_day"@ || code
            == "fair_night"@,
{
    reveal_strlit("☀️");
    reveal_strlit("🌙");
    reveal_strlit("🌤️");
    reveal_strlit("⛅");
    reveal_strlit("☁️");
    reveal_strlit("🌫️");
    reveal_strlit("🌦️");
    reveal_strlit("🌧️");
    reveal_strlit("⛈️");
    reveal_strlit("🌨️");
    reveal_strlit("❄️");
    reveal_strlit("clearsky_day");
    reveal_strlit("clearsky_night");
    reveal_strlit("fair_day");
    reveal_strlit("fair_night");
    reveal_strlit("partlycloudy_day");
    reveal_strlit("partlycloudy_night");
    reveal_strlit("cloudy");
    reveal_strlit("fog");
    reveal_strlit("lightrain");
    reveal_strlit("rain");
    reveal_strlit("heavyrain");
    reveal_strlit("rainshowers_day");
    reveal_strlit("rainshowers_night");
    reveal_strlit("heavyrainshowers_day");
    reveal_strlit("heavyrainshowers_night");
    reveal_strlit("lightsnow");
    reveal_strlit("snow");
    reveal_strlit("heavysnow");
    reveal_strlit("sleet");
    reveal_strlit("thunderstorms");
    assert("☀️"@.len() == 2 && "☀️"@[0] == '\u{2600}');
    assert("🌙"@.len() == 1 && "🌙"@[0] == '\u{1f319}');
    assert("🌤️"@.len() == 2 && "🌤️"@[0] == '\u{1f324}');
    assert("⛅"@.len() == 1 && "⛅"@[0] == '\u{26c5}');
    assert("☁️"@.len() == 2 && "☁️"@[0] == '\u{2601}');
    assert("🌫️"@.len() == 2 && "🌫️"@[0] == '\u{1f32b}');
    assert("🌦️"@.len() == 2 && "🌦️"@[0] == '\u{1f326}');
    assert("🌧️"@.len() == 2 && "🌧️"@[0] == '\u{1f327}');
    assert("⛈️"@.len() == 2 && "⛈️"@[0] == '\u{26c8}');
    assert("🌨️"@.len() == 2 && "🌨️"@[0] == '\u{1f328}');
    assert("❄️"@.len() == 2 && "❄️"@[0] == '\u{2744}');
    assert("clearsky_day"@.len() == 12 && "clearsky_day"@[0] == 'c' && "clearsky_day"@[11] == 'y');
    assert("clearsky_night"@.len() == 14 && "clearsky_night"@[0] == 'c' && "clearsky_night"@[13] == 't');
    assert("fair_day"@.len() == 8 && "fair_day"@[0] == 'f' && "fair_day"@[7] == 'y');
    assert("fair_night"@.len() == 10 && "fair_night"@[0] == 'f' && "fair_night"@[9] == 't');
    assert("partlycloudy_day"@.len() == 16 && "partlycloudy_day"@[0] == 'p' && "partlycloudy_day"@[15] == 'y');
    assert("partlycloudy_night"@.len() == 18 && "partlycloudy_night"@[0] == 'p' && "partlycloudy_night"@[17] == 't');
    assert("cloudy"@.len() == 6 && "cloudy"@[0] == 'c' && "cloudy"@[5] == 'y');
    assert("fog"@.len() == 3 && "fog"@[0] == 'f' && "fog"@[2] == 'g');
    assert("lightrain"@.len() == 9 && "lightrain"@[0] == 'l' && "lightrain"@[8] == 'n');
    assert("rain"@.len() == 4 && "rain"@[0] == 'r' && "rain"@[3] == 'n');
    assert("heavyrain"@.len() == 9 && "heavyrain"@[0] == 'h' && "heavyrain"@[8] == 'n');
    assert("rainshowers_day"@.len() == 15 && "rainshowers_day"@[0] == 'r' && "rainshowers_day"@[14] == 'y');
    assert("rainshowers_night"@.len() == 17 && "rainshowers_night"@[0] == 'r' && "rainshowers_night"@[16] == 't');
    assert("heavyrainshowers_day"@.len() == 20 && "heavyrainshowers_day"@[0] == 'h' && "heavyrainshowers_day"@[19] == 'y');
    assert("heavyrainshowers_night"@.len() == 22 && "heavyrainshowers_night"@[0] == 'h' && "heavyrainshowers_night"@[21] == 't');
    assert("lightsnow"@.len() == 9 && "lightsnow"@[0] == 'l' && "lightsnow"@[8] == 'w');
    assert("snow"@.len() == 4 && "snow"@[0] == 's' && "snow"@[3] == 'w');
    assert("heavysnow"@.len() == 9 && "heavysnow"@[0] == 'h' && "heavysnow"@[8] == 'w');
    assert("sleet"@.len() == 5 && "sleet"@[0] == 's' && "sleet"@[4] == 't');
    assert("thunderstorms"@.len() == 13 && "thunderstorms"@[0] == 't' && "thunderstorms"@[12] == 's');
}

/// The emoji for a MET Norway symbol code (see `weather_icon_for`).
pub fn resolve_weather_icon(symbol_code: &str) -> (icon: String)
    ensures
        icon@ == weather_icon_for(symbol_code@),
        !has_own_icon(symbol_code@) ==> icon@ == "🌤️"@,
        icon@ == "☀️"@ <==> symbol_code@ == "clearsky_day"@,
{
    proof {
        weather_icons_follow_the_table(symbol_code@);
    }
    let c = symbol_code;
    let icon = if same_text(c, "clearsky_day") {
        "☀️"
    } else if same_text(c, "clearsky_night") {
        "🌙"
    } else if same_text(c, "fair_day") || same_text(c, "fair_night") {
        "🌤️"
    } else if same_text(c, "partlycloudy_day") || same_text(c, "partlycloudy_night") {
        "⛅"
    } else if same_text(c, "cloudy") {
        "☁️"
    } else if same_text(c, "fog") {
        "🌫️"
    } else if same_text(c, "lightrain") || same_text(c, "rainshowers_day") || same_text(
        c,
        "rainshowers_night",
    ) {
        "🌦️"
    } else if same_text(c, "rain") || same_text(c, "heavyrain") || same_text(c, "sleet") {
        "🌧️"
    } else if same_text(c, "heavyrainshowers_day") || same_text(c, "heavyrainshowers_night")
        || same_text(c, "thunderstorms") {
        "⛈️"
    } else if same_text(c, "lightsnow") {
        "🌨️"
    } else if same_text(c, "snow") || same_text(c, "heavysnow") {
        "❄️"
    } else {
        "🌤️"
    };
    String::from_str(icon)
}

/// The emoji for a forecast hour: that of its symbol code, or of
/// `clearsky_day` when the forecast gives none.
pub fn forecast_icon(symbol_code: Option<&str>) -> (icon: String)
    ensures
        icon@ == weather_icon_for(
            match symbol_code {
                Some(c) => c@,
                None => "clearsky_day"@,
            },
        ),
{
    match symbol_code {
        Some(c) => resolve_weather_icon(c),
        None => resolve_weather_icon("clearsky_day"),
    }
}

/// The MET Norway compact forecast address for a position.
pub fn weather_forecast_url(latitude: &str, longitude: &str) -> (url: String)
    ensures
        url@ == "https://api.met.no/weatherapi/locationforecast/2.0/compact?lat="@ + latitude@
            + "&lon="@ + longitude@,
{
    let mut url = String::from_str("https://api.met.no/weatherapi/locationforecast/2.0/compact?lat=");
    url.append(latitude);
    url.append("&lon=");
    url.append(longitude);
    url
}

/// How many forecast hours the screen shows.
pub const HOURLY_FORECAST_HOURS: usize = 48;

/// The emojis of a forecast: that of the current hour and those of the
/// hours shown.
#[derive(Clone, Debug)]
pub struct ForecastIcons {
    pub current: String,
    pub hourly: Vec<String>,
}

/// The symbol code of a forecast hour, `clearsky_day` when it has none.
pub open spec fn symbol_or_clear_sky(symbol: Option<Seq<char>>) -> Seq<char> {
    match symbol {
        Some(c) => c,
        None => "clearsky_day"@,
    }
}

/// The icons for a forecast, given the symbol codes of its hours in order:
/// the first hour's icon, and the icons of the first 48 hours (or all, when
/// there are fewer).  An empty forecast is an error.
pub fn forecast_icons(symbols: &Vec<Option<String>>) -> (icons: Result<ForecastIcons, String>)
    ensures
        icons is Err <==> symbols@.len() == 0,
        icons matches Err(m) ==> m@ == "weather data was empty"@,
        icons matches Ok(f) ==> {
            &&& f.current@ == weather_icon_for(symbol_or_clear_sky(symbols@[0].deep_view()))
            &&& f.hourly@.len() == if symbols@.len() < HOURLY_FORECAST_HOURS {
                symbols@.len() as int
            } else {
                HOURLY_FORECAST_HOURS as int
            }
            &&& forall|i: int|
                0 <= i < f.hourly@.len() ==> (#[trigger] f.hourly@[i])@ == weather_icon_for(
                    symbol_or_clear_sky(symbols@[i].deep_view()),
                )
        },
{
    if symbols.len() == 0 {
        return Err(String::from_str("weather data was empty"));
    }
    let current = symbol_icon(&symbols[0]);
    let count = if symbols.len() < HOURLY_FORECAST_HOURS {
        symbols.len()
    } else {
        HOURLY_FORECAST_HOURS
    };
    let mut hourly: Vec<String> = Vec::new();
    let mut i: usize = 0;
    while i < count
        invariant
            count <= symbols@.len(),
            i <= count,
            hourly@.len() == i,
            forall|j: int|
                0 <= j < i ==> (#[trigger] hourly@[j])@ == weather_icon_for(
                    symbol_or_clear_sky(symbols@[j].deep_view()),
                ),
        decreases count - i,
    {
        hourly.push(symbol_icon(&symbols[i]));
        i += 1;
    }
    Ok(ForecastIcons { current, hourly })
}

fn symbol_icon(symbol: &Option<String>) -> (icon: String)
    ensures
        icon@ == weather_icon_for(symbol_or_clear_sky(symbol.deep_view())),
{
    match symbol {
        Some(c) => forecast_icon(Some(c.as_str())),
        None => forecast_icon(None),
    }
}

} // verus!
