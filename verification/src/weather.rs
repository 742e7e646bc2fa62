//! The Waybar weather module: command-line and override handling, the
//! payload that Waybar shows, and the mapping of WMO weather codes.

use vstd::prelude::*;
use crate::text::{
    ascii_lower_code, eq_ignore_ascii_case, eq_ignore_ascii_case_str, equals_str, join_path, path_join,
    trim, trim_str, lemma_trim_push_whitespace, join_lines, join_lines_str, texts_of,
};

verus! {

/// The temperature unit the module reports in.
#[derive(Debug, Clone, Copy, PartialEq, Eq, Structural)]
pub enum Unit {
    Celsius,
    Fahrenheit,
}

/// The unit that a command-line or environment value names: `c` or
/// `celsius`, `f` or `fahrenheit`, in any ASCII case.
pub open spec fn unit_named(value: Seq<char>) -> Option<Unit> {
    if eq_ignore_ascii_case(value, "c"@) || eq_ignore_ascii_case(value, "celsius"@) {
        Some(Unit::Celsius)
    } else if eq_ignore_ascii_case(value, "f"@) || eq_ignore_ascii_case(value, "fahrenheit"@) {
        Some(Unit::Fahrenheit)
    } else {
        None
    }
}

/// `c` and `celsius` name Celsius and `f` and `fahrenheit` name Fahrenheit,
/// the single letters in either case; a value that names a unit is one of
/// these words up to case, so it has one, seven or ten characters.
pub proof fn lemma_unit_named(value: Seq<char>)
    ensures
        value.len() == 1 && (value[0] == 'c' || value[0] == 'C') ==> unit_named(value) == Some(
            Unit::Celsius,
        ),
        value.len() == 1 && (value[0] == 'f' || value[0] == 'F') ==> unit_named(value) == Some(
            Unit::Fahrenheit,
        ),
        value == "celsius"@ ==> unit_named(value) == Some(Unit::Celsius),
        value == "fahrenheit"@ ==> unit_named(value) == Some(Unit::Fahrenheit),
        unit_named(value) is Some ==> value.len() == 1 || value.len() == 7 || value.len() == 10,
{
    reveal_strlit("c");
    reveal_strlit("celsius");
    reveal_strlit("f");
    reveal_strlit("fahrenheit");
    if value.len() == 1 {
        assert(ascii_lower_code('c') == 99 && ascii_lower_code('C') == 99);
        assert(ascii_lower_code('f') == 102 && ascii_lower_code('F') == 102);
        assert("c"@[0] == 'c' && "f"@[0] == 'f');
    }
}

impl Unit {
    /// The symbol printed after a temperature in this unit.
    pub open spec fn symbol_text(self) -> Seq<char> {
        match self {
            Unit::Celsius => "°C"@,
            Unit::Fahrenheit => "°F"@,
        }
    }

    /// The unit that `value` names, if any.
    pub fn from_arg(value: &str) -> (res: Option<Unit>)
        ensures
            res == unit_named(value@),
    {
        if eq_ignore_ascii_case_str(value, "c") || eq_ignore_ascii_case_str(value, "celsius") {
            Some(Unit::Celsius)
        } else if eq_ignore_ascii_case_str(value, "f") || eq_ignore_ascii_case_str(
            value,
            "fahrenheit",
        ) {
            Some(Unit::Fahrenheit)
        } else {
            None
        }
    }

    /// The symbol printed after a temperature in this unit.
    pub fn symbol(self) -> (res: &'static str)
        ensures
            res@ == self.symbol_text(),
    {
        match self {
            Unit::Celsius => "°C",
            Unit::Fahrenheit => "°F",
        }
    }
}

/// Temperatures in Celsius are marked `°C`, in Fahrenheit `°F`: a degree
/// sign followed by the unit's initial, so the two units never share a mark.
pub proof fn lemma_unit_symbols(u: Unit)
    ensures
        u.symbol_text().len() == 2,
        u.symbol_text()[0] == '°',
        u is Celsius <==> u.symbol_text()[1] == 'C',
        u is Fahrenheit <==> u.symbol_text()[1] == 'F',
{
    reveal_strlit("°C");
    reveal_strlit("°F");
}

/// The command-line arguments as character sequences.
pub open spec fn arg_texts(args: Seq<String>) -> Seq<Seq<char>> {
    args.map_values(|a: String| a@)
}

/// The unit that the pair of arguments at `i` and `i + 1` selects: a
/// `--unit` or `-u` flag followed by a unit name.
pub open spec fn unit_flag_at(args: Seq<Seq<char>>, i: int) -> Option<Unit> {
    if args[i] == "--unit"@ || args[i] == "-u"@ {
        unit_named(args[i + 1])
    } else {
        None
    }
}

/// The unit selected by the first flag pair at or after `i` that names one.
pub open spec fn unit_from_args(args: Seq<Seq<char>>, i: int) -> Option<Unit>
    decreases args.len() - i,
{
    if i < 0 || i + 1 >= args.len() {
        None
    } else {
        match unit_flag_at(args, i) {
            Some(u) => Some(u),
            None => unit_from_args(args, i + 1),
        }
    }
}

/// The unit that the first `--unit`/`-u` flag with a valid unit name selects.
pub fn parse_unit(args: &[String]) -> (res: Option<Unit>)
    ensures
        res == unit_from_args(arg_texts(args@), 0),
{
    let ghost texts = arg_texts(args@);
    let n = args.len();
    if n < 2 {
        return None;
    }
    let mut i: usize = 0;
    while i + 1 < n
        invariant
            n == args@.len(),
            texts == arg_texts(args@),
            i + 1 <= n,
            unit_from_args(texts, 0) == unit_from_args(texts, i as int),
        decreases n - i,
    {
        let flag = args[i].as_str();
        let is_flag = equals_str(flag, "--unit") || equals_str(flag, "-u");
        assert(texts[i as int] == args@[i as int]@);
        assert(texts[i + 1] == args@[i + 1]@);
        if is_flag {
            let u = Unit::from_arg(args[i + 1].as_str());
            if u.is_some() {
                return u;
            }
        }
        i += 1;
    }
    None
}

/// The unit the module runs with: the one the command line selects, else the
/// one the `WAYBAR_WEATHER_UNIT` environment value names, else Celsius.
pub fn choose_unit(args: &[String], env_unit: Option<&str>) -> (res: Unit)
    ensures
        res == match unit_from_args(arg_texts(args@), 0) {
            Some(u) => u,
            None => match env_unit {
                Some(v) => match unit_named(v@) {
                    Some(u) => u,
                    None => Unit::Celsius,
                },
                None => Unit::Celsius,
            },
        },
{
    match parse_unit(args) {
        Some(u) => u,
        None => match env_unit {
            Some(v) => match Unit::from_arg(v) {
                Some(u) => u,
                None => Unit::Celsius,
            },
            None => Unit::Celsius,
        },
    }
}

/// Whether the arguments ask for the location prompt.
pub fn wants_prompt(args: &[String]) -> (res: bool)
    ensures
        res == exists|i: int| 0 <= i < args@.len() && #[trigger] args@[i]@ == "--prompt"@,
{
    let mut i: usize = 0;
    while i < args.len()
        invariant
            i <= args@.len(),
            forall|k: int| 0 <= k < i ==> #[trigger] args@[k]@ != "--prompt"@,
        decreases args@.len() - i,
    {
        if equals_str(args[i].as_str(), "--prompt") {
            return true;
        }
        i += 1;
    }
    false
}


/// What Waybar shows: the bar text, the tooltip, and the CSS class.
pub struct WaybarJSON {
    pub text: String,
    pub tooltip: String,
    pub class: String,
}

/// The payload shown when no weather could be had.
pub fn error_payload(message: &str) -> (res: WaybarJSON)
    ensures
        res.text@ == "???"@,
        res.tooltip@ == message@,
        res.class@ == "error"@,
{
    WaybarJSON {
        text: String::from_str("???"),
        tooltip: String::from_str(message),
        class: String::from_str("error"),
    }
}

/// What the daemon prints after a failed refresh: the last cached payload
/// if there is one, else an error payload that names the failure.
pub fn fallback_payload(error: &str, cached: Option<WaybarJSON>) -> (res: WaybarJSON)
    ensures
        match cached {
            Some(c) => res == c,
            None => {
                &&& res.text@ == "???"@
                &&& res.tooltip@ == "Weather error: "@ + error@
                &&& res.class@ == "error"@
            },
        },
{
    match cached {
        Some(c) => c,
        None => {
            let mut message = String::from_str("Weather error: ");
            message.append(error);
            error_payload(message.as_str())
        },
    }
}

/// The directory under the home directory that holds the override file.
pub const WAYBAR_CONFIG_DIR: &'static str = ".config/waybar";

/// The name of the file that holds a manually chosen location.
pub const WAYBAR_OVERRIDE_FILE: &'static str = ".weather_override";

/// The cache of the last payload, under the home directory.
pub const WAYBAR_CACHE_PATH: &'static str = ".cache/.weather_cache.json";

/// The tooltip text kept for the lock screen, under the home directory.
pub const LOCKSCREEN_CACHE_PATH: &'static str = ".cache/.weather_cache";

/// The path of the override file below the home directory `home`.
pub open spec fn override_path_in(home: Seq<char>) -> Seq<char> {
    path_join(path_join(home, WAYBAR_CONFIG_DIR@), WAYBAR_OVERRIDE_FILE@)
}

/// The path of the override file, given the value of `HOME`; `None` when
/// `HOME` is not set.
pub fn weather_override_path(home: Option<&str>) -> (res: Option<String>)
    ensures
        match home {
            Some(h) => res matches Some(p) && p@ == override_path_in(h@),
            None => res is None,
        },
{
    match home {
        Some(h) => {
            let dir = join_path(h, WAYBAR_CONFIG_DIR);
            Some(join_path(dir.as_str(), WAYBAR_OVERRIDE_FILE))
        },
        None => None,
    }
}

/// The paths of the payload cache and of the lock-screen text below the home
/// directory `home`.
pub fn weather_cache_paths(home: &str) -> (res: (String, String))
    ensures
        res.0@ == path_join(home@, WAYBAR_CACHE_PATH@),
        res.1@ == path_join(home@, LOCKSCREEN_CACHE_PATH@),
{
    (join_path(home, WAYBAR_CACHE_PATH), join_path(home, LOCKSCREEN_CACHE_PATH))
}

/// The location that an override file holding `contents` selects: the
/// trimmed contents, or none when they are blank.
pub open spec fn override_in(contents: Seq<char>) -> Option<Seq<char>> {
    if trim(contents).len() == 0 {
        None
    } else {
        Some(trim(contents))
    }
}

/// Reads the location out of the override file's contents.
pub fn override_from_contents(contents: &str) -> (res: Option<String>)
    ensures
        match res {
            Some(r) => override_in(contents@) == Some(r@),
            None => override_in(contents@) is None,
        },
{
    let value = trim_str(contents);
    if value.is_empty() {
        None
    } else {
        Some(String::from_str(value))
    }
}

/// The text written to the override file for the location `zip`.
pub open spec fn override_file_text(zip: Seq<char>) -> Seq<char> {
    zip + seq!['\n']
}

/// The contents written to the override file for the location `zip`.
pub fn override_file_contents(zip: &str) -> (res: String)
    ensures
        res@ == override_file_text(zip@),
{
    let mut out = String::from_str(zip);
    out.append("\n");
    proof {
        reveal_strlit("\n");
        assert("\n"@ =~= seq!['\n']);
    }
    out
}

/// A location saved from the prompt is the one the daemon reads back: the
/// override file written for an answer that does not clear the override
/// selects that answer, trimmed (the answer itself when it arrives trimmed,
/// as the prompt delivers it).
pub proof fn lemma_override_read_back(answer: Seq<char>)
    requires
        !answer_clears_override(answer),
    ensures
        override_in(override_file_text(answer)) == Some(trim(answer)),
        trim(answer) == answer ==> override_in(override_file_text(answer)) == Some(answer),
{
    lemma_trim_push_whitespace(answer, '\n');
    assert(answer.push('\n') == override_file_text(answer));
}

/// What the location prompt does with the user's answer.
#[derive(Debug, PartialEq, Eq)]
pub enum OverrideAction {
    /// Go back to automatic location: remove the override file.
    Clear,
    /// Use this location from now on: write it to the override file.
    Write(String),
}

/// The answer hands location back to automatic scanning: it is blank or
/// `auto` in any ASCII case.
pub open spec fn answer_clears_override(input: Seq<char>) -> bool {
    trim(input).len() == 0 || eq_ignore_ascii_case(trim(input), "auto"@)
}

/// Decides what to do with the answer to the location prompt.
pub fn override_action(input: &str) -> (res: OverrideAction)
    ensures
        match res {
            OverrideAction::Clear => answer_clears_override(input@),
            OverrideAction::Write(z) => !answer_clears_override(input@) && z@ == input@,
        },
{
    let t = trim_str(input);
    if t.is_empty() || eq_ignore_ascii_case_str(t, "auto") {
        OverrideAction::Clear
    } else {
        OverrideAction::Write(String::from_str(input))
    }
}


/// The condition that a WMO weather code names.
pub open spec fn weather_condition(code: i64) -> Seq<char> {
    match code {
        0 => "Clear Sky"@,
        1 => "Mainly Clear"@,
        2 => "Partly Cloudy"@,
        3 => "Overcast"@,
        45 | 48 => "Fog"@,
        51 | 53 | 55 | 56 | 57 => "Drizzle"@,
        61 | 63 | 65 | 66 | 67 => "Rain"@,
        71 | 73 | 75 | 77 => "Snow"@,
        80 | 81 | 82 => "Showers"@,
        85 | 86 => "Snow Showers"@,
        95 | 96 | 99 => "Thunderstorm"@,
        _ => "Unknown"@,
    }
}

/// The icon shown for a WMO weather code.
pub open spec fn weather_icon(code: i64) -> Seq<char> {
    match code {
        0 | 1 => "☀️"@,
        2 => "⛅"@,
        3 => "☁️"@,
        45 | 48 => "🌁"@,
        51 | 53 | 55 => "🌦️"@,
        56 | 57 => "🥶"@,
        61 | 63 | 65 => "🌧️"@,
        66 | 67 => "🧊"@,
        80 | 81 | 82 => "☔"@,
        71 | 73 | 75 | 77 => "❄️"@,
        85 | 86 => "🌨️"@,
        95 | 96 | 99 => "⛈️"@,
        _ => "❓"@,
    }
}

/// The condition that a WMO weather code names.
pub fn weather_code_to_string(code: i64) -> (res: &'static str)
    ensures
        res@ == weather_condition(code),
{
    match code {
        0 => "Clear Sky",
        1 => "Mainly Clear",
        2 => "Partly Cloudy",
        3 => "Overcast",
        45 | 48 => "Fog",
        51 | 53 | 55 | 56 | 57 => "Drizzle",
        61 | 63 | 65 | 66 | 67 => "Rain",
        71 | 73 | 75 | 77 => "Snow",
        80 | 81 | 82 => "Showers",
        85 | 86 => "Snow Showers",
        95 | 96 | 99 => "Thunderstorm",
        _ => "Unknown",
    }
}

/// The icon shown for a WMO weather code.
pub fn weather_code_to_icon(code: i64) -> (res: &'static str)
    ensures
        res@ == weather_icon(code),
{
    match code {
        0 | 1 => "☀️",
        2 => "⛅",
        3 => "☁️",
        45 | 48 => "🌁",
        51 | 53 | 55 => "🌦️",
        56 | 57 => "🥶",
        61 | 63 | 65 => "🌧️",
        66 | 67 => "🧊",
        80 | 81 | 82 => "☔",
        71 | 73 | 75 | 77 => "❄️",
        85 | 86 => "🌨️",
        95 | 96 | 99 => "⛈️",
        _ => "❓",
    }
}

/// Each condition name belongs to exactly the WMO codes of its group: clear
/// (0), mainly clear (1), partly cloudy (2), overcast (3), fog (45, 48),
/// drizzle (51–57), rain (61–67), snow (71–77), showers (80–82), snow showers
/// (85, 86), thunderstorm (95–99); every other code is unknown.
pub proof fn lemma_condition_codes(code: i64)
    ensures
        (weather_condition(code) == "Clear Sky"@) <==> code == 0,
        (weather_condition(code) == "Mainly Clear"@) <==> code == 1,
        (weather_condition(code) == "Partly Cloudy"@) <==> code == 2,
        (weather_condition(code) == "Overcast"@) <==> code == 3,
        (weather_condition(code) == "Fog"@) <==> (code == 45 || code == 48),
        (weather_condition(code) == "Drizzle"@) <==> (code == 51 || code == 53 || code == 55
            || code == 56 || code == 57),
        (weather_condition(code) == "Rain"@) <==> (code == 61 || code == 63 || code == 65 || code
            == 66 || code == 67),
        (weather_condition(code) == "Snow"@) <==> (code == 71 || code == 73 || code == 75 || code
            == 77),
        (weather_condition(code) == "Showers"@) <==> (code == 80 || code == 81 || code == 82),
        (weather_condition(code) == "Snow Showers"@) <==> (code == 85 || code == 86),
        (weather_condition(code) == "Thunderstorm"@) <==> (code == 95 || code == 96 || code
            == 99),
{
    reveal_strlit("Clear Sky");
    reveal_strlit("Mainly Clear");
    reveal_strlit("Partly Cloudy");
    reveal_strlit("Overcast");
    reveal_strlit("Fog");
    reveal_strlit("Drizzle");
    reveal_strlit("Rain");
    reveal_strlit("Snow");
    reveal_strlit("Showers");
    reveal_strlit("Snow Showers");
    reveal_strlit("Thunderstorm");
    reveal_strlit("Unknown");
    assert("Clear Sky"@.len() == 9 && "Clear Sky"@[0] == 'C');
    assert("Mainly Clear"@.len() == 12 && "Mainly Clear"@[0] == 'M');
    assert("Partly Cloudy"@.len() == 13 && "Partly Cloudy"@[0] == 'P');
    assert("Overcast"@.len() == 8 && "Overcast"@[0] == 'O');
    assert("Fog"@.len() == 3 && "Fog"@[0] == 'F');
    assert("Drizzle"@.len() == 7 && "Drizzle"@[0] == 'D');
    assert("Rain"@.len() == 4 && "Rain"@[0] == 'R');
    assert("Snow"@.len() == 4 && "Snow"@[0] == 'S');
    assert("Showers"@.len() == 7 && "Showers"@[0] == 'S');
    assert("Snow Showers"@.len() == 12 && "Snow Showers"@[0] == 'S');
    assert("Thunderstorm"@.len() == 12 && "Thunderstorm"@[0] == 'T');
    assert("Unknown"@.len() == 7 && "Unknown"@[0] == 'U');
}

/// Each icon belongs to exactly the WMO codes of its group: sun (0, 1),
/// sun behind cloud (2), cloud (3), fog (45, 48), drizzle (51, 53, 55),
/// freezing drizzle (56, 57), rain (61, 63, 65), freezing rain (66, 67),
/// showers (80–82), snow (71–77), snow showers (85, 86), thunderstorm
/// (95–99); every other code gets the question mark.
pub proof fn lemma_icon_codes(code: i64)
    ensures
        (weather_icon(code) == "☀️"@) <==> (code == 0 || code == 1),
        (weather_icon(code) == "⛅"@) <==> code == 2,
        (weather_icon(code) == "☁️"@) <==> code == 3,
        (weather_icon(code) == "🌁"@) <==> (code == 45 || code == 48),
        (weather_icon(code) == "🌦️"@) <==> (code == 51 || code == 53 || code == 55),
        (weather_icon(code) == "🥶"@) <==> (code == 56 || code == 57),
        (weather_icon(code) == "🌧️"@) <==> (code == 61 || code == 63 || code == 65),
        (weather_icon(code) == "🧊"@) <==> (code == 66 || code == 67),
        (weather_icon(code) == "☔"@) <==> (code == 80 || code == 81 || code == 82),
        (weather_icon(code) == "❄️"@) <==> (code == 71 || code == 73 || code == 75 || code == 77),
        (weather_icon(code) == "🌨️"@) <==> (code == 85 || code == 86),
        (weather_icon(code) == "⛈️"@) <==> (code == 95 || code == 96 || code == 99),
{
    reveal_strlit("☀️");
    reveal_strlit("⛅");
    reveal_strlit("☁️");
    reveal_strlit("🌁");
    reveal_strlit("🌦️");
    reveal_strlit("🥶");
    reveal_strlit("🌧️");
    reveal_strlit("🧊");
    reveal_strlit("☔");
    reveal_strlit("❄️");
    reveal_strlit("🌨️");
    reveal_strlit("⛈️");
    reveal_strlit("❓");
    assert("☀️"@[0] == '\u{2600}');
    assert("⛅"@[0] == '\u{26c5}');
    assert("☁️"@[0] == '\u{2601}');
    assert("🌁"@[0] == '\u{1f301}');
    assert("🌦️"@[0] == '\u{1f326}');
    assert("🥶"@[0] == '\u{1f976}');
    assert("🌧️"@[0] == '\u{1f327}');
    assert("🧊"@[0] == '\u{1f9ca}');
    assert("☔"@[0] == '\u{2614}');
    assert("❄️"@[0] == '\u{2744}');
    assert("🌨️"@[0] == '\u{1f328}');
    assert("⛈️"@[0] == '\u{26c8}');
    assert("❓"@[0] == '\u{2753}');
}

/// The codes form one vocabulary: a code has the unknown-weather icon
/// exactly when it names no condition.
pub proof fn lemma_unknown_codes_agree(code: i64)
    ensures
        (weather_condition(code) == "Unknown"@) <==> (weather_icon(code) == "❓"@),
{
    reveal_strlit("Clear Sky");
    reveal_strlit("Mainly Clear");
    reveal_strlit("Partly Cloudy");
    reveal_strlit("Overcast");
    reveal_strlit("Fog");
    reveal_strlit("Drizzle");
    reveal_strlit("Rain");
    reveal_strlit("Snow");
    reveal_strlit("Showers");
    reveal_strlit("Snow Showers");
    reveal_strlit("Thunderstorm");
    reveal_strlit("Unknown");
    reveal_strlit("☀️");
    reveal_strlit("⛅");
    reveal_strlit("☁️");
    reveal_strlit("🌁");
    reveal_strlit("🌦️");
    reveal_strlit("🥶");
    reveal_strlit("🌧️");
    reveal_strlit("🧊");
    reveal_strlit("☔");
    reveal_strlit("❄️");
    reveal_strlit("🌨️");
    reveal_strlit("⛈️");
    reveal_strlit("❓");
    if weather_condition(code) != "Unknown"@ {
        assert(weather_icon(code)[0] != "❓"@[0]);
    }
    if weather_icon(code) != "❓"@ {
        assert(weather_condition(code).len() != "Unknown"@.len() || weather_condition(code)[0]
            != "Unknown"@[0] || weather_condition(code)[1] != "Unknown"@[1]);
    }
}


/// The parts of a reverse-geocoding address that the module reads.
pub struct NominatimAddress {
    pub city: Option<String>,
    pub town: Option<String>,
    pub village: Option<String>,
    pub state: Option<String>,
}

/// The place name of an address: its city, else its town, else its village.
pub open spec fn place_name(addr: NominatimAddress) -> Seq<char> {
    match addr.city {
        Some(c) => c@,
        None => match addr.town {
            Some(t) => t@,
            None => match addr.village {
                Some(v) => v@,
                None => "Unknown City"@,
            },
        },
    }
}

/// The place name is the address's city whenever it has one; its town only
/// when it has no city; its village only when it has neither; and
/// `Unknown City` when it has none of the three.
pub proof fn lemma_place_name(addr: NominatimAddress)
    ensures
        forall|c: String| addr.city == Some(c) ==> place_name(addr) == c@,
        forall|t: String| (addr.city is None && addr.town == Some(t)) ==> place_name(addr) == t@,
        forall|v: String|
            (addr.city is None && addr.town is None && addr.village == Some(v)) ==> place_name(addr)
                == v@,
        (addr.city is None && addr.town is None && addr.village is None) ==> place_name(addr)
            == "Unknown City"@,
{
}

/// The state of an address, empty when it has none.
pub open spec fn state_text(addr: NominatimAddress) -> Seq<char> {
    match addr.state {
        Some(s) => s@,
        None => Seq::<char>::empty(),
    }
}

/// The state is the address's own state whenever it has one, and empty
/// otherwise, whatever its city, town or village.
pub proof fn lemma_state_text(addr: NominatimAddress)
    ensures
        forall|s: String| addr.state == Some(s) ==> state_text(addr) == s@,
        addr.state is None ==> state_text(addr).len() == 0,
        forall|other: NominatimAddress| other.state == addr.state ==> state_text(other) == state_text(addr),
{
}

/// The city and state of an address; the state is empty when unknown.
pub fn city_state(addr: NominatimAddress) -> (res: (String, String))
    ensures
        res.0@ == place_name(addr),
        res.1@ == state_text(addr),
{
    let city = match addr.city {
        Some(c) => c,
        None => match addr.town {
            Some(t) => t,
            None => match addr.village {
                Some(v) => v,
                None => String::from_str("Unknown City"),
            },
        },
    };
    let state = match addr.state {
        Some(s) => s,
        None => String::new(),
    };
    (city, state)
}

/// The location label of the tooltip for a reverse-geocoding result.
pub open spec fn location_label(geo: Option<(String, String)>) -> Seq<char> {
    match geo {
        Some((city, state)) => if state@.len() == 0 {
            city@
        } else {
            city@ + ", "@ + state@
        },
        None => "Unknown"@,
    }
}

/// Without a geocoding result the label is `Unknown`; with one, it starts
/// with the city, and when the state is known it goes on with `, ` and ends
/// with the state; with no state it is the city alone.
pub proof fn lemma_location_label(geo: Option<(String, String)>)
    ensures
        geo is None ==> location_label(geo) == "Unknown"@,
        forall|city: String, state: String|
            geo == Some((city, state)) ==> {
                let label = location_label(geo);
                &&& label.len() >= city@.len()
                &&& label.subrange(0, city@.len() as int) == city@
                &&& state@.len() == 0 ==> label == city@
                &&& state@.len() > 0 ==> {
                    &&& label.len() == city@.len() + 2 + state@.len()
                    &&& label[city@.len() as int] == ','
                    &&& label[city@.len() as int + 1] == ' '
                    &&& label.subrange(city@.len() as int + 2, label.len() as int) == state@
                }
            },
{
    reveal_strlit(", ");
    if let Some((city, state)) = geo {
        let label = location_label(geo);
        assert(label.subrange(0, city@.len() as int) =~= city@);
        if state@.len() > 0 {
            assert(label.subrange(city@.len() as int + 2, label.len() as int) =~= state@);
        }
    }
}

/// The location label of the tooltip: `city, state`, or the city alone when
/// the state is empty; `Unknown` when reverse geocoding failed.
pub fn city_label(geo: Option<(String, String)>) -> (res: String)
    ensures
        res@ == location_label(geo),
{
    match geo {
        Some((city, state)) => {
            if state.as_str().is_empty() {
                city
            } else {
                let mut label = city;
                label.append(", ");
                label.append(state.as_str());
                label
            }
        },
        None => String::from_str("Unknown"),
    }
}

/// A temperature reading followed by the unit's symbol.
pub fn format_temperature(value: &str, unit: Unit) -> (res: String)
    ensures
        res@ == value@ + unit.symbol_text(),
{
    let mut out = String::from_str(value);
    out.append(unit.symbol());
    out
}


/// The current conditions, with every number as the text that the caller
/// rendered for it: temperatures in the chosen unit with one decimal, the
/// other readings rounded to whole numbers.
pub struct CurrentWeather {
    pub temperature_2m: String,
    pub apparent_temperature: Option<String>,
    pub weather_code: i64,
    pub relative_humidity_2m: Option<String>,
    pub wind_speed_10m: Option<String>,
    pub pressure_msl: Option<String>,
    pub precipitation_probability: Option<String>,
}

/// The daily forecast, one entry per day in each list, numbers rendered as
/// for `CurrentWeather`.
pub struct DailyForecast {
    pub time: Vec<String>,
    pub weather_code: Vec<i64>,
    pub temperature_2m_max: Vec<String>,
    pub temperature_2m_min: Vec<String>,
    pub precipitation_probability_max: Vec<String>,
}

/// A forecast: current conditions and the days ahead.
pub struct WeatherResponse {
    pub current: CurrentWeather,
    pub daily: DailyForecast,
}

/// A reading followed by its unit, or `missing` when there is no reading.
pub open spec fn reading_or(reading: Option<String>, suffix: Seq<char>, missing: Seq<char>) -> Seq<
    char,
> {
    match reading {
        Some(v) => v@ + suffix,
        None => missing,
    }
}

/// The reading at `i` followed by its unit, or `missing` when the list is
/// shorter.
pub open spec fn reading_at_or(
    readings: Seq<String>,
    i: int,
    suffix: Seq<char>,
    missing: Seq<char>,
) -> Seq<char> {
    if 0 <= i < readings.len() {
        readings[i]@ + suffix
    } else {
        missing
    }
}

/// The temperature of the current conditions, with the unit's symbol.
pub open spec fn current_temperature(w: WeatherResponse, unit: Unit) -> Seq<char> {
    w.current.temperature_2m@ + unit.symbol_text()
}

/// The tooltip lines about the current conditions.
pub open spec fn current_lines(city: Seq<char>, w: WeatherResponse, unit: Unit) -> Seq<Seq<char>> {
    let c = w.current;
    let temp = current_temperature(w, unit);
    seq![
        "Location: "@ + city,
        "Current: "@ + weather_condition(c.weather_code) + " • "@ + temp,
        "Feels like "@ + reading_or(c.apparent_temperature, unit.symbol_text(), temp)
            + " • Humidity "@ + reading_or(c.relative_humidity_2m, "%"@, "n/a"@),
        "Wind: "@ + reading_or(c.wind_speed_10m, " km/h"@, "n/a"@) + " • Pressure: "@
            + reading_or(c.pressure_msl, " hPa"@, "n/a"@),
        "Precip chance: "@ + reading_or(c.precipitation_probability, "%"@, "n/a"@),
    ]
}

/// The weather code of day `i`, 0 when the list is shorter.
pub open spec fn day_code(d: DailyForecast, i: int) -> i64 {
    if 0 <= i < d.weather_code@.len() {
        d.weather_code@[i]
    } else {
        0
    }
}

/// The tooltip line about day `i` of the forecast.
pub open spec fn day_line(d: DailyForecast, i: int, unit: Unit) -> Seq<char> {
    let code = day_code(d, i);
    d.time@[i]@ + ": "@ + weather_icon(code) + " "@ + weather_condition(code) + " • Hi "@
        + reading_at_or(d.temperature_2m_max@, i, unit.symbol_text(), "?"@) + " • Lo "@
        + reading_at_or(d.temperature_2m_min@, i, unit.symbol_text(), "?"@) + " • Rain "@
        + reading_at_or(d.precipitation_probability_max@, i, "%"@, "n/a"@)
}

/// How many forecast days the tooltip lists: at most three.
pub open spec fn listed_days(d: DailyForecast) -> int {
    if d.time@.len() < 3 {
        d.time@.len() as int
    } else {
        3
    }
}

/// All tooltip lines: the current conditions, then, when there is a
/// forecast, today's high and low and a line for each of the first days.
pub open spec fn tooltip_lines(city: Seq<char>, w: WeatherResponse, unit: Unit) -> Seq<Seq<char>> {
    let d = w.daily;
    if d.time@.len() == 0 {
        current_lines(city, w, unit)
    } else {
        current_lines(city, w, unit) + seq![
            "High/Low: "@ + reading_at_or(d.temperature_2m_max@, 0, unit.symbol_text(), "?"@)
                + " / "@ + reading_at_or(d.temperature_2m_min@, 0, unit.symbol_text(), "?"@),
        ] + Seq::new(listed_days(d) as nat, |i: int| day_line(d, i, unit))
    }
}

/// The tooltip has the five lines about the current conditions, and, when
/// there is a forecast, a high/low line and one line for each of at most
/// three days.
pub proof fn lemma_tooltip_line_count(city: Seq<char>, w: WeatherResponse, unit: Unit)
    ensures
        listed_days(w.daily) <= 3,
        w.daily.time@.len() <= 3 ==> listed_days(w.daily) == w.daily.time@.len(),
        w.daily.time@.len() >= 3 ==> listed_days(w.daily) == 3,
        tooltip_lines(city, w, unit).len() == if w.daily.time@.len() == 0 {
            5
        } else {
            6 + listed_days(w.daily)
        },
{
}

/// The tooltip's first five lines, case by case: the location; the current
/// condition and temperature; the apparent temperature when one is given
/// (else the temperature itself) and the humidity in percent (else `n/a`);
/// the wind in km/h and the pressure in hPa (each else `n/a`); the chance of
/// precipitation in percent (else `n/a`).
pub proof fn lemma_current_lines(city: Seq<char>, w: WeatherResponse, unit: Unit)
    ensures
        ({
            let lines = tooltip_lines(city, w, unit);
            let sym = unit.symbol_text();
            let c = w.current;
            let temp = c.temperature_2m@ + sym;
            &&& lines.len() >= 5
            &&& lines[0] == "Location: "@ + city
            &&& lines[1] == "Current: "@ + weather_condition(c.weather_code) + " • "@ + temp
            &&& lines[2] == "Feels like "@ + (match c.apparent_temperature {
                Some(a) => a@ + sym,
                None => temp,
            }) + " • Humidity "@ + (match c.relative_humidity_2m {
                Some(h) => h@ + "%"@,
                None => "n/a"@,
            })
            &&& lines[3] == "Wind: "@ + (match c.wind_speed_10m {
                Some(v) => v@ + " km/h"@,
                None => "n/a"@,
            }) + " • Pressure: "@ + (match c.pressure_msl {
                Some(v) => v@ + " hPa"@,
                None => "n/a"@,
            })
            &&& lines[4] == "Precip chance: "@ + (match c.precipitation_probability {
                Some(v) => v@ + "%"@,
                None => "n/a"@,
            })
        }),
{
    let lines = tooltip_lines(city, w, unit);
    let head = current_lines(city, w, unit);
    assert forall|i: int| 0 <= i < 5 implies lines[i] == head[i] by {
    }
}

/// The tooltip's forecast lines, case by case: with a forecast, line 6 is
/// `High/Low:` with the first day's maximum and minimum (each `?` when
/// missing), and line 7 + i describes day i (for at most three days): its
/// date, the icon and name of its code (code 0 when missing), its maximum and
/// minimum (each `?` when missing) and its chance of rain in percent (`n/a`
/// when missing).
pub proof fn lemma_forecast_lines(city: Seq<char>, w: WeatherResponse, unit: Unit)
    ensures
        ({
            let lines = tooltip_lines(city, w, unit);
            let sym = unit.symbol_text();
            let d = w.daily;
            let temp_or_q = |v: Seq<String>, i: int|
                if 0 <= i < v.len() {
                    v[i]@ + sym
                } else {
                    "?"@
                };
            &&& d.time@.len() == 0 ==> lines.len() == 5
            &&& d.time@.len() > 0 ==> {
                &&& lines.len() == 6 + listed_days(d)
                &&& lines[5] == "High/Low: "@ + temp_or_q(d.temperature_2m_max@, 0) + " / "@
                    + temp_or_q(d.temperature_2m_min@, 0)
                &&& forall|i: int|
                    0 <= i < listed_days(d) ==> {
                        let code = if i < d.weather_code@.len() {
                            d.weather_code@[i]
                        } else {
                            0
                        };
                        #[trigger] lines[6 + i] == d.time@[i]@ + ": "@ + weather_icon(code) + " "@
                            + weather_condition(code) + " • Hi "@ + temp_or_q(
                            d.temperature_2m_max@,
                            i,
                        ) + " • Lo "@ + temp_or_q(d.temperature_2m_min@, i) + " • Rain "@ + (
                        if i < d.precipitation_probability_max@.len() {
                            d.precipitation_probability_max@[i]@ + "%"@
                        } else {
                            "n/a"@
                        })
                    }
            }
        }),
{
}

fn reading_text(reading: &Option<String>, suffix: &str, missing: &str) -> (res: String)
    ensures
        res@ == reading_or(*reading, suffix@, missing@),
{
    match reading {
        Some(v) => {
            let mut out = v.clone();
            out.append(suffix);
            out
        },
        None => String::from_str(missing),
    }
}

fn reading_at_text(readings: &Vec<String>, i: usize, suffix: &str, missing: &str) -> (res: String)
    ensures
        res@ == reading_at_or(readings@, i as int, suffix@, missing@),
{
    if i < readings.len() {
        let mut out = readings[i].clone();
        out.append(suffix);
        out
    } else {
        String::from_str(missing)
    }
}

fn current_lines_exec(city: &str, w: &WeatherResponse, unit: Unit) -> (res: Vec<String>)
    ensures
        texts_of(res@) == current_lines(city@, *w, unit),
{
    let c = &w.current;
    let sym = unit.symbol();
    let mut temp = c.temperature_2m.clone();
    temp.append(sym);

    let mut l1 = String::from_str("Location: ");
    l1.append(city);

    let mut l2 = String::from_str("Current: ");
    l2.append(weather_code_to_string(c.weather_code));
    l2.append(" • ");
    l2.append(temp.as_str());

    let mut l3 = String::from_str("Feels like ");
    let feels = reading_text(&c.apparent_temperature, sym, temp.as_str());
    l3.append(feels.as_str());
    l3.append(" • Humidity ");
    let humidity = reading_text(&c.relative_humidity_2m, "%", "n/a");
    l3.append(humidity.as_str());

    let mut l4 = String::from_str("Wind: ");
    let wind = reading_text(&c.wind_speed_10m, " km/h", "n/a");
    l4.append(wind.as_str());
    l4.append(" • Pressure: ");
    let pressure = reading_text(&c.pressure_msl, " hPa", "n/a");
    l4.append(pressure.as_str());

    let mut l5 = String::from_str("Precip chance: ");
    let precip = reading_text(&c.precipitation_probability, "%", "n/a");
    l5.append(precip.as_str());

    let lines = vec![l1, l2, l3, l4, l5];
    assert(texts_of(lines@) =~= current_lines(city@, *w, unit));
    lines
}

fn day_line_exec(d: &DailyForecast, i: usize, unit: Unit) -> (res: String)
    requires
        i < d.time@.len(),
    ensures
        res@ == day_line(*d, i as int, unit),
{
    let sym = unit.symbol();
    let code = if i < d.weather_code.len() {
        d.weather_code[i]
    } else {
        0
    };
    let mut line = d.time[i].clone();
    line.append(": ");
    line.append(weather_code_to_icon(code));
    line.append(" ");
    line.append(weather_code_to_string(code));
    line.append(" • Hi ");
    let high = reading_at_text(&d.temperature_2m_max, i, sym, "?");
    line.append(high.as_str());
    line.append(" • Lo ");
    let low = reading_at_text(&d.temperature_2m_min, i, sym, "?");
    line.append(low.as_str());
    line.append(" • Rain ");
    let pop = reading_at_text(&d.precipitation_probability_max, i, "%", "n/a");
    line.append(pop.as_str());
    line
}

/// Builds the Waybar payload for a forecast: the bar shows the current
/// condition's icon and temperature, the tooltip the current conditions and
/// up to three days ahead.
pub fn build_weather_payload(city: String, weather: WeatherResponse, unit: Unit) -> (res: WaybarJSON)
    ensures
        res.text@ == weather_icon(weather.current.weather_code) + " "@ + current_temperature(
            weather,
            unit,
        ),
        res.tooltip@ == join_lines(tooltip_lines(city@, weather, unit)),
        res.class@ == "weather"@,
{
    let mut lines = current_lines_exec(city.as_str(), &weather, unit);
    let ghost base = texts_of(lines@);
    let d = &weather.daily;
    if d.time.len() > 0 {
        let sym = unit.symbol();
        let mut hl = String::from_str("High/Low: ");
        let high = reading_at_text(&d.temperature_2m_max, 0, sym, "?");
        hl.append(high.as_str());
        hl.append(" / ");
        let low = reading_at_text(&d.temperature_2m_min, 0, sym, "?");
        hl.append(low.as_str());
        lines.push(hl);
        let ghost head = texts_of(lines@);
        assert(head =~= base.push(hl@));
        let days = if d.time.len() < 3 {
            d.time.len()
        } else {
            3
        };
        let mut i: usize = 0;
        while i < days
            invariant
                days as int == listed_days(*d),
                d == &weather.daily,
                i <= days,
                days <= d.time@.len(),
                texts_of(lines@) == head + Seq::new(i as nat, |k: int| day_line(*d, k, unit)),
            decreases days - i,
        {
            let line = day_line_exec(d, i, unit);
            let ghost before = texts_of(lines@);
            lines.push(line);
            assert(texts_of(lines@) =~= before.push(line@));
            assert(Seq::new((i + 1) as nat, |k: int| day_line(*d, k, unit)) =~= Seq::new(
                i as nat,
                |k: int| day_line(*d, k, unit),
            ).push(day_line(*d, i as int, unit)));
            i += 1;
        }
        assert(texts_of(lines@) =~= tooltip_lines(city@, weather, unit));
    }
    let tooltip = join_lines_str(&lines);
    let code = weather.current.weather_code;
    let mut text = String::from_str(weather_code_to_icon(code));
    text.append(" ");
    text.append(weather.current.temperature_2m.as_str());
    text.append(unit.symbol());
    WaybarJSON { text, tooltip, class: String::from_str("weather") }
}


/// The seconds between two looks at the override file.
pub const POLL_INTERVAL_SECS: u64 = 5;

/// After this many looks without a change, the daemon refreshes anyway.
pub const POLLS_PER_REFRESH: u32 = 60;

/// What the daemon does after one look at the override file.
#[derive(Debug, PartialEq, Eq, Structural)]
pub enum DaemonAction {
    /// The override file changed: refresh now.
    OverrideChanged,
    /// The refresh period is over: refresh now.
    Refresh,
    /// Look again after the poll interval.
    Wait,
}

/// One look at the override file: `polls` looks came before it since the
/// last refresh, `last` is the file's modification time seen before (`None`
/// when there was no file), `now` the time seen now; times are nanoseconds
/// from the Unix epoch. Returns the action and the time to remember.
pub fn daemon_poll(polls: u32, last: Option<i128>, now: Option<i128>) -> (res: (
    DaemonAction,
    Option<i128>,
))
    ensures
        now != last ==> res == (DaemonAction::OverrideChanged, now),
        now == last ==> res == (
            if polls + 1 >= POLLS_PER_REFRESH {
                DaemonAction::Refresh
            } else {
                DaemonAction::Wait
            },
            last,
        ),
{
    if now != last {
        (DaemonAction::OverrideChanged, now)
    } else if polls >= POLLS_PER_REFRESH - 1 {
        (DaemonAction::Refresh, last)
    } else {
        (DaemonAction::Wait, last)
    }
}

/// How long the daemon waits for GeoClue's first location.
pub const GEOCLUE_TIMEOUT_SECS: u64 = 20;

/// What the daemon does once GeoClue has started.
#[derive(Debug, PartialEq, Eq)]
pub enum GeoclueStep {
    /// A location is known: read it at this object path.
    ReadLocation(String),
    /// No location yet: wait this long for the first `LocationUpdated` signal.
    AwaitUpdate { timeout_secs: u64 },
}

/// Decides from the client's `Location` property, an object path that is
/// `/` while no location is known.
pub fn geoclue_step(location_path: &str) -> (res: GeoclueStep)
    ensures
        location_path@ == "/"@ ==> res == (GeoclueStep::AwaitUpdate {
            timeout_secs: GEOCLUE_TIMEOUT_SECS,
        }),
        location_path@ != "/"@ ==> (res matches GeoclueStep::ReadLocation(p) && p@ == location_path@),
{
    if equals_str(location_path, "/") {
        GeoclueStep::AwaitUpdate { timeout_secs: GEOCLUE_TIMEOUT_SECS }
    } else {
        GeoclueStep::ReadLocation(String::from_str(location_path))
    }
}

/// Why a refresh failed, with the underlying error's message.
pub enum RefreshError {
    /// The manual location could not be geocoded.
    Zip(String),
    /// GeoClue gave no location.
    GeoClue(String),
    /// The forecast could not be fetched.
    Fetch(String),
}

/// The message shown for a failed refresh.
pub fn refresh_error_text(e: &RefreshError) -> (res: String)
    ensures
        res@ == match e {
            RefreshError::Zip(m) => "Resolving ZIP: "@ + m@,
            RefreshError::GeoClue(m) => "GeoClue: "@ + m@,
            RefreshError::Fetch(m) => "Weather fetch failed: "@ + m@,
        },
{
    let (prefix, m) = match e {
        RefreshError::Zip(m) => ("Resolving ZIP: ", m),
        RefreshError::GeoClue(m) => ("GeoClue: ", m),
        RefreshError::Fetch(m) => ("Weather fetch failed: ", m),
    };
    let mut out = String::from_str(prefix);
    out.append(m.as_str());
    out
}

} // verus!
