use sys_scripts::weather::{
    build_weather_payload, choose_unit, city_label, city_state, error_payload, fallback_payload,
    format_temperature, override_action, override_file_contents, override_from_contents,
    parse_unit, wants_prompt, weather_cache_paths, weather_code_to_icon, weather_code_to_string,
    weather_override_path, CurrentWeather, DailyForecast, NominatimAddress, OverrideAction, Unit,
    WaybarJSON, WeatherResponse, daemon_poll, geoclue_step, refresh_error_text, DaemonAction,
    GeoclueStep, RefreshError,
};

fn args(list: &[&str]) -> Vec<String> {
    list.iter().map(|s| s.to_string()).collect()
}

#[test]
fn unit_names() {
    assert_eq!(Unit::from_arg("c"), Some(Unit::Celsius));
    assert_eq!(Unit::from_arg("CeLsIuS"), Some(Unit::Celsius));
    assert_eq!(Unit::from_arg("F"), Some(Unit::Fahrenheit));
    assert_eq!(Unit::from_arg("fahrenheit"), Some(Unit::Fahrenheit));
    assert_eq!(Unit::from_arg("kelvin"), None);
    assert_eq!(Unit::from_arg(""), None);
    assert_eq!(Unit::Celsius.symbol(), "°C");
    assert_eq!(Unit::Fahrenheit.symbol(), "°F");
}

#[test]
fn unit_from_command_line() {
    assert_eq!(parse_unit(&args(&["prog", "--unit", "f"])), Some(Unit::Fahrenheit));
    assert_eq!(parse_unit(&args(&["prog", "-u", "C"])), Some(Unit::Celsius));
    assert_eq!(parse_unit(&args(&["prog", "--unit", "x", "-u", "f"])), Some(Unit::Fahrenheit));
    assert_eq!(parse_unit(&args(&["prog", "--unit"])), None);
    assert_eq!(parse_unit(&args(&[])), None);
    assert_eq!(parse_unit(&args(&["prog", "f"])), None);
}

#[test]
fn unit_choice_order() {
    assert_eq!(choose_unit(&args(&["p", "-u", "c"]), Some("f")), Unit::Celsius);
    assert_eq!(choose_unit(&args(&["p"]), Some("F")), Unit::Fahrenheit);
    assert_eq!(choose_unit(&args(&["p"]), Some("x")), Unit::Celsius);
    assert_eq!(choose_unit(&args(&["p"]), None), Unit::Celsius);
}

#[test]
fn prompt_flag() {
    assert!(wants_prompt(&args(&["p", "--prompt"])));
    assert!(!wants_prompt(&args(&["p", "--prompt=1"])));
}

#[test]
fn payload_for_errors() {
    let p = error_payload("boom");
    assert_eq!((p.text.as_str(), p.tooltip.as_str(), p.class.as_str()), ("???", "boom", "error"));
    let f = fallback_payload("timeout", None);
    assert_eq!(f.tooltip, "Weather error: timeout");
    assert_eq!(f.class, "error");
    let cached = WaybarJSON { text: "a".into(), tooltip: "b".into(), class: "weather".into() };
    let f = fallback_payload("timeout", Some(cached));
    assert_eq!((f.text.as_str(), f.tooltip.as_str(), f.class.as_str()), ("a", "b", "weather"));
}

#[test]
fn override_paths() {
    assert_eq!(
        weather_override_path(Some("/home/u")).unwrap(),
        "/home/u/.config/waybar/.weather_override"
    );
    assert_eq!(weather_override_path(Some("")).unwrap(), ".config/waybar/.weather_override");
    assert!(weather_override_path(None).is_none());
    let (json, lock) = weather_cache_paths("/home/u");
    assert_eq!(json, "/home/u/.cache/.weather_cache.json");
    assert_eq!(lock, "/home/u/.cache/.weather_cache");
}

#[test]
fn override_round_trip() {
    assert_eq!(override_file_contents("10001"), "10001\n");
    assert_eq!(override_from_contents(&override_file_contents("10001")).unwrap(), "10001");
    assert_eq!(override_from_contents("  Paris, FR \t\n").unwrap(), "Paris, FR");
    assert!(override_from_contents(" \n\u{a0}").is_none());
}

#[test]
fn prompt_answers() {
    assert_eq!(override_action(""), OverrideAction::Clear);
    assert_eq!(override_action("  "), OverrideAction::Clear);
    assert_eq!(override_action("AUTO"), OverrideAction::Clear);
    assert_eq!(override_action(" auto "), OverrideAction::Clear);
    assert_eq!(override_action("90210"), OverrideAction::Write("90210".to_string()));
    assert_eq!(override_action("autobahn"), OverrideAction::Write("autobahn".to_string()));
}

#[test]
fn weather_codes() {
    assert_eq!(weather_code_to_string(0), "Clear Sky");
    assert_eq!(weather_code_to_icon(0), "☀️");
    assert_eq!(weather_code_to_string(81), "Showers");
    assert_eq!(weather_code_to_icon(81), "☔");
    assert_eq!(weather_code_to_string(57), "Drizzle");
    assert_eq!(weather_code_to_icon(57), "🥶");
    assert_eq!(weather_code_to_string(4), "Unknown");
    assert_eq!(weather_code_to_icon(4), "❓");
    assert_eq!(weather_code_to_string(-1), "Unknown");
    for code in -5..120 {
        assert_eq!(weather_code_to_string(code) == "Unknown", weather_code_to_icon(code) == "❓");
    }
}

#[test]
fn city_and_label() {
    let addr = NominatimAddress { city: None, town: Some("Ithaca".into()), village: Some("V".into()), state: Some("New York".into()) };
    let (city, state) = city_state(addr);
    assert_eq!((city.as_str(), state.as_str()), ("Ithaca", "New York"));
    let addr = NominatimAddress { city: None, town: None, village: None, state: None };
    let (city, state) = city_state(addr);
    assert_eq!((city.as_str(), state.as_str()), ("Unknown City", ""));
    assert_eq!(city_label(Some(("Ithaca".into(), "New York".into()))), "Ithaca, New York");
    assert_eq!(city_label(Some(("10001".into(), String::new()))), "10001");
    assert_eq!(city_label(None), "Unknown");
}

#[test]
fn temperature_text() {
    assert_eq!(format_temperature("21.5", Unit::Celsius), "21.5°C");
    assert_eq!(format_temperature("70.7", Unit::Fahrenheit), "70.7°F");
}

fn sample(days: usize) -> WeatherResponse {
    let all_days = ["2024-06-01", "2024-06-02", "2024-06-03", "2024-06-04"];
    WeatherResponse {
        current: CurrentWeather {
            temperature_2m: "21.5".into(),
            apparent_temperature: None,
            weather_code: 2,
            relative_humidity_2m: Some("60".into()),
            wind_speed_10m: Some("12".into()),
            pressure_msl: None,
            precipitation_probability: Some("5".into()),
        },
        daily: DailyForecast {
            time: all_days[..days].iter().map(|d| d.to_string()).collect(),
            weather_code: vec![61, 0],
            temperature_2m_max: vec!["25.0".into(), "26.1".into(), "27.2".into(), "28.3".into()],
            temperature_2m_min: vec!["15.0".into()],
            precipitation_probability_max: vec!["80".into(), "10".into(), "0".into()],
        },
    }
}

#[test]
fn payload_without_forecast() {
    let p = build_weather_payload("Ithaca, New York".into(), sample(0), Unit::Celsius);
    assert_eq!(p.text, "⛅ 21.5°C");
    assert_eq!(p.class, "weather");
    assert_eq!(
        p.tooltip,
        "Location: Ithaca, New York\nCurrent: Partly Cloudy • 21.5°C\nFeels like 21.5°C • Humidity 60%\nWind: 12 km/h • Pressure: n/a\nPrecip chance: 5%"
    );
}

#[test]
fn payload_with_forecast() {
    let p = build_weather_payload("X".into(), sample(4), Unit::Fahrenheit);
    let lines: Vec<&str> = p.tooltip.split('\n').collect();
    assert_eq!(lines.len(), 9);
    assert_eq!(lines[5], "High/Low: 25.0°F / 15.0°F");
    assert_eq!(lines[6], "2024-06-01: 🌧️ Rain • Hi 25.0°F • Lo 15.0°F • Rain 80%");
    assert_eq!(lines[7], "2024-06-02: ☀️ Clear Sky • Hi 26.1°F • Lo ? • Rain 10%");
    assert_eq!(lines[8], "2024-06-03: ☀️ Clear Sky • Hi 27.2°F • Lo ? • Rain 0%");
}

#[test]
fn payload_with_short_forecast() {
    let p = build_weather_payload("X".into(), sample(1), Unit::Celsius);
    let lines: Vec<&str> = p.tooltip.split('\n').collect();
    assert_eq!(lines.len(), 7);
}

#[test]
fn daemon_poll_rule() {
    assert_eq!(daemon_poll(0, Some(5), Some(5)), (DaemonAction::Wait, Some(5)));
    assert_eq!(daemon_poll(58, None, None), (DaemonAction::Wait, None));
    assert_eq!(daemon_poll(59, None, None), (DaemonAction::Refresh, None));
    assert_eq!(daemon_poll(3, Some(5), Some(6)), (DaemonAction::OverrideChanged, Some(6)));
    assert_eq!(daemon_poll(3, Some(5), None), (DaemonAction::OverrideChanged, None));
    assert_eq!(daemon_poll(u32::MAX, None, None), (DaemonAction::Refresh, None));
}

#[test]
fn geoclue_steps() {
    assert_eq!(geoclue_step("/"), GeoclueStep::AwaitUpdate { timeout_secs: 20 });
    assert_eq!(
        geoclue_step("/org/freedesktop/GeoClue2/Location/1"),
        GeoclueStep::ReadLocation("/org/freedesktop/GeoClue2/Location/1".to_string())
    );
}

#[test]
fn refresh_error_messages() {
    assert_eq!(refresh_error_text(&RefreshError::Zip("No results".into())), "Resolving ZIP: No results");
    assert_eq!(refresh_error_text(&RefreshError::GeoClue("denied".into())), "GeoClue: denied");
    assert_eq!(refresh_error_text(&RefreshError::Fetch("503".into())), "Weather fetch failed: 503");
}
