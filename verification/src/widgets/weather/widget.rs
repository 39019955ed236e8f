//! The weather widget that reads open-meteo directly: its icons, its text,
//! and when it asks for new data.
use crate::utils::strings::{
    lemma_replace_other_placeholder, lemma_replace_percent_free, lemma_replace_whole, replace,
    spec_replace,
};
use crate::widgets::weather::openmeteo::Meteo;
use vstd::prelude::*;

verus! {

/// A set of strings used as icons in the Weather widget
#[derive(Debug)]
pub struct MeteoIcons {
    pub unknown: String,
    pub clear: String,
    pub cloudy: String,
    pub thunderstorm: String,
    pub lighting: String,
    pub fog: String,
    pub light_rain: String,
    pub heavy_rain: String,
    pub freezing_rain: String,
    pub hail: String,
    pub light_snow: String,
    pub heavy_snow: String,
    pub duststorm: String,
}

impl Default for MeteoIcons {
    fn default() -> (r: Self)
        ensures
            r.unknown@ == ""@,
            r.clear@ == "󰖙"@,
            r.cloudy@ == "󰖐"@,
            r.thunderstorm@ == ""@,
            r.lighting@ == "󰖓"@,
            r.fog@ == "󰖑"@,
            r.light_rain@ == "󰖗"@,
            r.heavy_rain@ == "󰖖"@,
            r.freezing_rain@ == "󰙿"@,
            r.hail@ == "󰖒"@,
            r.light_snow@ == "󰖘"@,
            r.heavy_snow@ == "󰼶"@,
            r.duststorm@ == ""@,
    {
        Self {
            unknown: String::from_str(""),
            clear: String::from_str("󰖙"),
            cloudy: String::from_str("󰖐"),
            thunderstorm: String::from_str(""),
            lighting: String::from_str("󰖓"),
            fog: String::from_str("󰖑"),
            light_rain: String::from_str("󰖗"),
            heavy_rain: String::from_str("󰖖"),
            freezing_rain: String::from_str("󰙿"),
            hail: String::from_str("󰖒"),
            light_snow: String::from_str("󰖘"),
            heavy_snow: String::from_str("󰼶"),
            duststorm: String::from_str(""),
        }
    }
}

/// The icon for a weather code of the present-weather table.
pub open spec fn code_icon(icons: MeteoIcons, c: u8) -> String {
    if c == 1 || c == 2 {
        icons.clear
    } else if (3 <= c <= 8) || (10 <= c <= 12) || (14 <= c <= 16) || c == 18 || c == 19 {
        icons.cloudy
    } else if c == 13 {
        icons.lighting
    } else if c == 17 || c == 29 || (95 <= c <= 99) {
        icons.thunderstorm
    } else if c == 20 || c == 21 || (50 <= c <= 53) || (60 <= c <= 63) || c == 80 || c == 83
        || c == 85 || c == 91 {
        icons.light_rain
    } else if c == 22 || c == 36 || c == 38 || (70 <= c <= 73) || (76 <= c <= 78) {
        icons.light_snow
    } else if c == 26 || c == 37 || c == 39 || c == 74 || c == 75 {
        icons.heavy_snow
    } else if c == 23 || c == 25 || c == 54 || c == 55 || c == 64 || c == 65 || c == 81 || c == 82
        || c == 84 || c == 86 || c == 92 {
        icons.heavy_rain
    } else if c == 24 || (87 <= c <= 90) || c == 93 || c == 94 || (66 <= c <= 69) || (56 <= c
        <= 59) {
        icons.freezing_rain
    } else if c == 27 || c == 79 {
        icons.hail
    } else if c == 28 || (40 <= c <= 49) {
        icons.fog
    } else if c == 9 || (30 <= c <= 35) {
        icons.duststorm
    } else {
        icons.unknown
    }
}

impl MeteoIcons {
    /// Convert meteo code to icon
    pub fn translate_code(&self, value: u8) -> (r: &String)
        ensures
            *r == code_icon(*self, value),
    {
        match value {
            1 | 2 => &self.clear,
            3..=8 | 10..=12 | 14..=16 | 18 | 19 => &self.cloudy,
            13 => &self.lighting,
            17 | 29 | 95..=99 => &self.thunderstorm,
            20 | 21 | 50..=53 | 60..=63 | 80 | 83 | 85 | 91 => &self.light_rain,
            22 | 36 | 38 | 70..=73 | 76..=78 => &self.light_snow,
            26 | 37 | 39 | 74 | 75 => &self.heavy_snow,
            23 | 25 | 54 | 55 | 64 | 65 | 81 | 82 | 84 | 86 | 92 => &self.heavy_rain,
            24 | 87..=90 | 93 | 94 | 66..=69 | 56..=59 => &self.freezing_rain,
            27 | 79 => &self.hail,
            28 | 40..=49 => &self.fog,
            9 | 30..=35 => &self.duststorm,
            _ => &self.unknown,
        }
    }
}

/// The text of the weather widget: the units are replaced first (`%cur-u`,
/// `%max-u`, `%min-u`), then `%cit` by the city, `%cod` by the icon, and
/// `%cur`, `%max`, `%min` by the temperatures.
pub open spec fn spec_meteo_text(format: Seq<char>, icons: MeteoIcons, meteo: Meteo) -> Seq<char> {
    let a = spec_replace(format, "%cur-u"@, meteo.cur_u@);
    let b = spec_replace(a, "%max-u"@, meteo.max_u@);
    let c = spec_replace(b, "%min-u"@, meteo.min_u@);
    let d = spec_replace(c, "%cit"@, meteo.city@);
    let e = spec_replace(d, "%cod"@, code_icon(icons, meteo.code)@);
    let f = spec_replace(e, "%cur"@, meteo.cur@);
    let g = spec_replace(f, "%max"@, meteo.max@);
    spec_replace(g, "%min"@, meteo.min@)
}

/// Fills the weather format with `meteo`.
pub fn meteo_text(format: &str, icons: &MeteoIcons, meteo: &Meteo) -> (r: String)
    ensures
        r@ == spec_meteo_text(format@, *icons, *meteo),
{
    proof {
        reveal_strlit("%cur-u");
        reveal_strlit("%max-u");
        reveal_strlit("%min-u");
        reveal_strlit("%cit");
        reveal_strlit("%cod");
        reveal_strlit("%cur");
        reveal_strlit("%max");
        reveal_strlit("%min");
    }
    let a = replace(format, "%cur-u", meteo.cur_u.as_str());
    let b = replace(a.as_str(), "%max-u", meteo.max_u.as_str());
    let c = replace(b.as_str(), "%min-u", meteo.min_u.as_str());
    let d = replace(c.as_str(), "%cit", meteo.city.as_str());
    let e = replace(d.as_str(), "%cod", icons.translate_code(meteo.code).as_str());
    let f = replace(e.as_str(), "%cur", meteo.cur.as_str());
    let g = replace(f.as_str(), "%max", meteo.max.as_str());
    replace(g.as_str(), "%min", meteo.min.as_str())
}

/// The widget asks for new weather on its first update and whenever its
/// timer ran out; asking resets the timer.
pub fn needs_refresh(initialized: bool, timer_done: bool) -> (r: bool)
    ensures
        r == (timer_done || !initialized),
{
    timer_done || !initialized
}

/// The weather-code table of this widget, row by row: 1-2 clear; 3-8,
/// 10-12, 14-16, 18-19 cloudy; 13 lightning; 17, 29, 95-99 thunderstorm;
/// 20-21, 50-53, 60-63, 80, 83, 85, 91 light rain; 22, 36, 38, 70-73, 76-78
/// light snow; 26, 37, 39, 74-75 heavy snow; 23, 25, 54-55, 64-65, 81-82, 84,
/// 86, 92 heavy rain; 24, 56-59, 66-69, 87-90, 93-94 freezing rain; 27, 79
/// hail; 28, 40-49 fog; 9, 30-35 dust storm; 0 and codes above 99 unknown.
pub proof fn lemma_code_table(icons: MeteoIcons, c: u8)
    ensures
        c == 1 || c == 2 ==> code_icon(icons, c) == icons.clear,
        (3 <= c <= 8) || (10 <= c <= 12) || (14 <= c <= 16) || c == 18 || c == 19 ==> code_icon(
            icons,
            c,
        ) == icons.cloudy,
        c == 13 ==> code_icon(icons, c) == icons.lighting,
        c == 17 || c == 29 || (95 <= c <= 99) ==> code_icon(icons, c) == icons.thunderstorm,
        c == 20 || c == 21 || (50 <= c <= 53) || (60 <= c <= 63) || c == 80 || c == 83 || c == 85
            || c == 91 ==> code_icon(icons, c) == icons.light_rain,
        c == 22 || c == 36 || c == 38 || (70 <= c <= 73) || (76 <= c <= 78) ==> code_icon(icons, c)
            == icons.light_snow,
        c == 26 || c == 37 || c == 39 || c == 74 || c == 75 ==> code_icon(icons, c)
            == icons.heavy_snow,
        c == 23 || c == 25 || c == 54 || c == 55 || c == 64 || c == 65 || c == 81 || c == 82 || c
            == 84 || c == 86 || c == 92 ==> code_icon(icons, c) == icons.heavy_rain,
        c == 24 || (56 <= c <= 59) || (66 <= c <= 69) || (87 <= c <= 90) || c == 93 || c == 94
            ==> code_icon(icons, c) == icons.freezing_rain,
        c == 27 || c == 79 ==> code_icon(icons, c) == icons.hail,
        c == 28 || (40 <= c <= 49) ==> code_icon(icons, c) == icons.fog,
        c == 9 || (30 <= c <= 35) ==> code_icon(icons, c) == icons.duststorm,
        c == 0 || c >= 100 ==> code_icon(icons, c) == icons.unknown,
{
}

/// The weather text shows at `%cod` the icon of the code and at `%cit` the
/// city (each when the value holds no `%`).
pub proof fn lemma_meteo_text_fields(icons: MeteoIcons, meteo: Meteo)
    ensures
        (forall|i: int| 0 <= i < code_icon(icons, meteo.code)@.len() ==> code_icon(
            icons,
            meteo.code,
        )@[i] != '%') ==> spec_meteo_text("%cod"@, icons, meteo) == code_icon(icons, meteo.code)@,
        (forall|i: int| 0 <= i < meteo.city@.len() ==> meteo.city@[i] != '%') ==> spec_meteo_text(
            "%cit"@,
            icons,
            meteo,
        ) == meteo.city@,
{
    reveal_strlit("%cur-u");
    reveal_strlit("%max-u");
    reveal_strlit("%min-u");
    reveal_strlit("%cit");
    reveal_strlit("%cod");
    reveal_strlit("%cur");
    reveal_strlit("%max");
    reveal_strlit("%min");
    let icon = code_icon(icons, meteo.code)@;
    let city = meteo.city@;
    assert("%cod"@[2] != "%cit"@[2]);
    // `%cod`
    lemma_replace_other_placeholder("%cod"@, "%cur-u"@, meteo.cur_u@);
    lemma_replace_other_placeholder("%cod"@, "%max-u"@, meteo.max_u@);
    lemma_replace_other_placeholder("%cod"@, "%min-u"@, meteo.min_u@);
    lemma_replace_other_placeholder("%cod"@, "%cit"@, city);
    lemma_replace_whole("%cod"@, icon);
    if forall|i: int| 0 <= i < icon.len() ==> icon[i] != '%' {
        lemma_replace_percent_free(icon, "%cur"@, meteo.cur@);
        lemma_replace_percent_free(icon, "%max"@, meteo.max@);
        lemma_replace_percent_free(icon, "%min"@, meteo.min@);
    }
    // `%cit`
    lemma_replace_other_placeholder("%cit"@, "%cur-u"@, meteo.cur_u@);
    lemma_replace_other_placeholder("%cit"@, "%max-u"@, meteo.max_u@);
    lemma_replace_other_placeholder("%cit"@, "%min-u"@, meteo.min_u@);
    lemma_replace_whole("%cit"@, city);
    if forall|i: int| 0 <= i < city.len() ==> city[i] != '%' {
        lemma_replace_percent_free(city, "%cod"@, icon);
        lemma_replace_percent_free(city, "%cur"@, meteo.cur@);
        lemma_replace_percent_free(city, "%max"@, meteo.max@);
        lemma_replace_percent_free(city, "%min"@, meteo.min@);
    }
}

} // verus!
