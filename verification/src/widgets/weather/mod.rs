//! The weather widget: the icon for a WMO weather code, the text shown, and
//! the replies of the forecast service.
pub mod openmeteo;
pub mod widget;

use crate::utils::strings::{
    lemma_replace_other_placeholder, lemma_replace_percent_free, lemma_replace_whole, replace,
    spec_replace,
};
use vstd::prelude::*;

verus! {

/// The provider that asks open-meteo for the weather at the machine's
/// public address.
#[derive(Debug)]
pub struct OpenMeteoProvider;

impl OpenMeteoProvider {
    pub fn new() -> (r: Box<Self>) {
        Box::new(Self)
    }
}

/// A set of strings used as icons in the Weather widget
#[derive(Debug)]
pub struct MeteoIcons {
    pub clear: String,
    pub cloudy: String,
    pub fog: String,
    pub freezing_rain: String,
    pub freezing_drizzle: String,
    pub hail: String,
    pub rain: String,
    pub snow: String,
    pub drizzle: String,
    pub light_snow: String,
    pub thunderstorm: String,
    pub unknown: String,
}

impl Default for MeteoIcons {
    fn default() -> (r: Self)
        ensures
            r.clear@ == "󰖙"@,
            r.cloudy@ == "󰖐"@,
            r.drizzle@ == "󰖗"@,
            r.fog@ == "󰖑"@,
            r.freezing_drizzle@ == "󰖘"@,
            r.freezing_rain@ == "󰙿"@,
            r.hail@ == "󰖒"@,
            r.light_snow@ == "󰖘"@,
            r.rain@ == "󰖖"@,
            r.snow@ == "󰼶"@,
            r.thunderstorm@ == ""@,
            r.unknown@ == ""@,
    {
        Self {
            clear: String::from_str("󰖙"),
            cloudy: String::from_str("󰖐"),
            drizzle: String::from_str("󰖗"),
            fog: String::from_str("󰖑"),
            freezing_drizzle: String::from_str("󰖘"),
            freezing_rain: String::from_str("󰙿"),
            hail: String::from_str("󰖒"),
            light_snow: String::from_str("󰖘"),
            rain: String::from_str("󰖖"),
            snow: String::from_str("󰼶"),
            thunderstorm: String::from_str(""),
            unknown: String::from_str(""),
        }
    }
}

/// The icon for a WMO weather code: clear sky, clouds, fog, drizzle,
/// freezing drizzle, rain, freezing rain, snow, snow grains, rain showers,
/// snow showers, thunderstorm, hail; anything else is unknown.
pub open spec fn wmo_icon(icons: MeteoIcons, code: u8) -> String {
    if code == 0 {
        icons.clear
    } else if 1 <= code <= 3 {
        icons.cloudy
    } else if code == 45 || code == 48 {
        icons.fog
    } else if code == 51 || code == 53 || code == 55 {
        icons.drizzle
    } else if code == 56 || code == 57 {
        icons.freezing_drizzle
    } else if code == 61 || code == 63 || code == 65 {
        icons.rain
    } else if code == 66 || code == 67 {
        icons.freezing_rain
    } else if code == 71 || code == 73 || code == 75 {
        icons.snow
    } else if code == 77 {
        icons.light_snow
    } else if 80 <= code <= 82 {
        icons.rain
    } else if code == 85 || code == 86 {
        icons.snow
    } else if code == 95 {
        icons.thunderstorm
    } else if code == 96 || code == 99 {
        icons.hail
    } else {
        icons.unknown
    }
}

impl MeteoIcons {
    /// Convert meteo code to icon
    pub fn translate_code(&self, value: u8) -> (r: &String)
        ensures
            *r == wmo_icon(*self, value),
    {
        match value {
            0 => &self.clear,
            1..=3 => &self.cloudy,
            45 | 48 => &self.fog,
            51 | 53 | 55 => &self.drizzle,
            56 | 57 => &self.freezing_drizzle,
            61 | 63 | 65 => &self.rain,
            66 | 67 => &self.freezing_rain,
            71 | 73 | 75 => &self.snow,
            77 => &self.light_snow,
            80..=82 => &self.rain,
            85 | 86 => &self.snow,
            95 => &self.thunderstorm,
            96 | 99 => &self.hail,
            _ => &self.unknown,
        }
    }
}

/// The weather text: `%city`, `%icon`, `%cur`, `%max` and `%min` in the
/// format replaced, in that order, by the city, the icon for the code, and
/// the current, highest and lowest temperatures.
pub open spec fn spec_weather_text(
    format: Seq<char>,
    icons: MeteoIcons,
    city: Seq<char>,
    code: u8,
    current: Seq<char>,
    max: Seq<char>,
    min: Seq<char>,
) -> Seq<char> {
    let a = spec_replace(format, "%city"@, city);
    let b = spec_replace(a, "%icon"@, wmo_icon(icons, code)@);
    let c = spec_replace(b, "%cur"@, current);
    let d = spec_replace(c, "%max"@, max);
    spec_replace(d, "%min"@, min)
}

/// Fills the weather format with the values read from the provider.
pub fn weather_text(
    format: &str,
    icons: &MeteoIcons,
    city: &str,
    code: u8,
    current: &str,
    max: &str,
    min: &str,
) -> (r: String)
    ensures
        r@ == spec_weather_text(format@, *icons, city@, code, current@, max@, min@),
{
    proof {
        reveal_strlit("%city");
        reveal_strlit("%icon");
        reveal_strlit("%cur");
        reveal_strlit("%max");
        reveal_strlit("%min");
    }
    let a = replace(format, "%city", city);
    let b = replace(a.as_str(), "%icon", icons.translate_code(code).as_str());
    let c = replace(b.as_str(), "%cur", current);
    let d = replace(c.as_str(), "%max", max);
    replace(d.as_str(), "%min", min)
}

/// The WMO weather-code table, row by row: clear sky (0), mainly clear to
/// overcast (1-3), fog (45, 48), drizzle (51, 53, 55), freezing drizzle (56,
/// 57), rain (61, 63, 65) and rain showers (80-82), freezing rain (66, 67),
/// snow fall (71, 73, 75) and snow showers (85, 86), snow grains (77),
/// thunderstorm (95), thunderstorm with hail (96, 99); any other code is
/// unknown.
pub proof fn lemma_wmo_table(icons: MeteoIcons, code: u8)
    ensures
        code == 0 ==> wmo_icon(icons, code) == icons.clear,
        1 <= code <= 3 ==> wmo_icon(icons, code) == icons.cloudy,
        code == 45 || code == 48 ==> wmo_icon(icons, code) == icons.fog,
        code == 51 || code == 53 || code == 55 ==> wmo_icon(icons, code) == icons.drizzle,
        code == 56 || code == 57 ==> wmo_icon(icons, code) == icons.freezing_drizzle,
        code == 61 || code == 63 || code == 65 ==> wmo_icon(icons, code) == icons.rain,
        80 <= code <= 82 ==> wmo_icon(icons, code) == icons.rain,
        code == 66 || code == 67 ==> wmo_icon(icons, code) == icons.freezing_rain,
        code == 71 || code == 73 || code == 75 ==> wmo_icon(icons, code) == icons.snow,
        code == 85 || code == 86 ==> wmo_icon(icons, code) == icons.snow,
        code == 77 ==> wmo_icon(icons, code) == icons.light_snow,
        code == 95 ==> wmo_icon(icons, code) == icons.thunderstorm,
        code == 96 || code == 99 ==> wmo_icon(icons, code) == icons.hail,
        !(code <= 3 || code == 45 || code == 48 || code == 51 || code == 53 || code == 55 || code
            == 56 || code == 57 || code == 61 || code == 63 || code == 65 || code == 66 || code == 67
            || code == 71 || code == 73 || code == 75 || code == 77 || (80 <= code <= 82) || code
            == 85 || code == 86 || code == 95 || code == 96 || code == 99) ==> wmo_icon(icons, code)
            == icons.unknown,
{
}

/// The weather text shows each value at its placeholder: `%icon` the icon
/// of the code, `%city` the city, `%cur`, `%max` and `%min` the current,
/// highest and lowest temperatures (each when the value holds no `%`).
pub proof fn lemma_weather_text_fields(
    icons: MeteoIcons,
    city: Seq<char>,
    code: u8,
    current: Seq<char>,
    max: Seq<char>,
    min: Seq<char>,
)
    ensures
        (forall|i: int| 0 <= i < wmo_icon(icons, code)@.len() ==> wmo_icon(icons, code)@[i]
            != '%') ==> spec_weather_text("%icon"@, icons, city, code, current, max, min) == wmo_icon(
            icons,
            code,
        )@,
        (forall|i: int| 0 <= i < city.len() ==> city[i] != '%') ==> spec_weather_text(
            "%city"@,
            icons,
            city,
            code,
            current,
            max,
            min,
        ) == city,
        (forall|i: int| 0 <= i < current.len() ==> current[i] != '%') ==> spec_weather_text(
            "%cur"@,
            icons,
            city,
            code,
            current,
            max,
            min,
        ) == current,
        (forall|i: int| 0 <= i < max.len() ==> max[i] != '%') ==> spec_weather_text(
            "%max"@,
            icons,
            city,
            code,
            current,
            max,
            min,
        ) == max,
        spec_weather_text("%min"@, icons, city, code, current, max, min) == min,
{
    reveal_strlit("%city");
    reveal_strlit("%icon");
    reveal_strlit("%cur");
    reveal_strlit("%max");
    reveal_strlit("%min");
    let ci = "%city"@;
    let ic = "%icon"@;
    let cu = "%cur"@;
    let ma = "%max"@;
    let mi = "%min"@;
    let icon = wmo_icon(icons, code)@;
    assert(ci[1] != ic[1] && cu[1] != ma[1] && cu[1] != mi[1] && ma[2] != mi[2]);
    // `%icon`
    lemma_replace_other_placeholder(ic, ci, city);
    lemma_replace_whole(ic, icon);
    if forall|i: int| 0 <= i < icon.len() ==> icon[i] != '%' {
        lemma_replace_percent_free(icon, cu, current);
        lemma_replace_percent_free(icon, ma, max);
        lemma_replace_percent_free(icon, mi, min);
    }
    // `%city`
    lemma_replace_whole(ci, city);
    if forall|i: int| 0 <= i < city.len() ==> city[i] != '%' {
        lemma_replace_percent_free(city, ic, icon);
        lemma_replace_percent_free(city, cu, current);
        lemma_replace_percent_free(city, ma, max);
        lemma_replace_percent_free(city, mi, min);
    }
    // `%cur`
    lemma_replace_other_placeholder(cu, ci, city);
    lemma_replace_other_placeholder(cu, ic, icon);
    lemma_replace_whole(cu, current);
    if forall|i: int| 0 <= i < current.len() ==> current[i] != '%' {
        lemma_replace_percent_free(current, ma, max);
        lemma_replace_percent_free(current, mi, min);
    }
    // `%max`
    lemma_replace_other_placeholder(ma, ci, city);
    lemma_replace_other_placeholder(ma, ic, icon);
    lemma_replace_other_placeholder(ma, cu, current);
    lemma_replace_whole(ma, max);
    if forall|i: int| 0 <= i < max.len() ==> max[i] != '%' {
        lemma_replace_percent_free(max, mi, min);
    }
    // `%min`
    lemma_replace_other_placeholder(mi, ci, city);
    lemma_replace_other_placeholder(mi, ic, icon);
    lemma_replace_other_placeholder(mi, cu, current);
    lemma_replace_other_placeholder(mi, ma, max);
    lemma_replace_whole(mi, min);
}

} // verus!
