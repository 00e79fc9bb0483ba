use lotemp::cli::config_missing_message;
use lotemp::cli::get_version;
use lotemp::cli::init_done_message;
use lotemp::cli::parse_mode;
use lotemp::cli::Mode;
use lotemp::text::string_of;
use lotemp::types::ApiResponse;
use lotemp::types::AppConfig;
use lotemp::types::Current;
use lotemp::types::CurrentUnits;
use lotemp::weather::build_forecast_url;
use lotemp::weather::format_temperature_report;
use lotemp::weather::reformat_time;

#[test]
fn test_temperature_formatting() {
    let test_response = r#"{
            "latitude": 50.692,
            "longitude": 3.1899998,
            "generationtime_ms": 0.01621246337890625,
            "utc_offset_seconds": 3600,
            "timezone": "Europe/Paris",
            "timezone_abbreviation": "GMT+1",
            "elevation": 24.0,
            "current_units": {
                "time": "iso8601",
                "interval": "seconds",
                "temperature_2m": "°C"
            },
            "current": {
                "time": "2025-03-18T15:00",
                "interval": 900,
                "temperature_2m": 11.9
            }
        }"#;

    let value: serde_json::Value = serde_json::from_str(test_response).unwrap();
    let api_response = ApiResponse {
        current_units: CurrentUnits {
            temperature_2m: value["current_units"]["temperature_2m"]
                .as_str()
                .unwrap()
                .to_string(),
        },
        current: Current {
            time: value["current"]["time"].as_str().unwrap().to_string(),
            temperature_2m: format!("{}", value["current"]["temperature_2m"].as_f64().unwrap()),
        },
    };

    let formatted_output = format_temperature_report(&api_response);
    assert_eq!(formatted_output, "2025-03-18 15:00 - 11.9°C");
}

#[test]
fn test_reformat_time_replaces_every_t() {
    assert_eq!(reformat_time("2025-03-18T15:00"), "2025-03-18 15:00");
    assert_eq!(reformat_time("aTbTc"), "a b c");
    assert_eq!(reformat_time(""), "");
    assert_eq!(reformat_time("no capital tee"), "no capital tee");
}

#[test]
fn test_string_of_keeps_characters() {
    let v: Vec<char> = vec!['a', 'b', '°', 'T'];
    assert_eq!(string_of(&v), "ab°T");
}

#[test]
fn test_forecast_url() {
    let config = AppConfig { latitude: String::from("50.692"), longitude: String::from("3.19") };
    assert_eq!(
        build_forecast_url(&config),
        "https://api.open-meteo.com/v1/forecast?latitude=50.692&longitude=3.19&current=temperature_2m&timezone=auto"
    );
}

#[test]
fn test_version_format() {
    let version = get_version("lotemp", "0.1.0");
    let expected = format!("{} v{}", "lotemp", "0.1.0");
    assert_eq!(version, expected);
}

#[test]
fn test_version_contains_package_name() {
    let version = get_version("lotemp", "0.1.0");
    assert!(version.contains("lotemp"));
}

#[test]
fn test_version_contains_version_number() {
    let version = get_version("lotemp", "0.1.0");
    assert!(version.contains("0.1.0"));
}

#[test]
fn test_parse_mode() {
    let prog = String::from("lotemp");
    assert_eq!(parse_mode(&vec![prog.clone()]), Mode::Report);
    assert_eq!(parse_mode(&vec![prog.clone(), String::from("init")]), Mode::Init);
    assert_eq!(parse_mode(&vec![prog.clone(), String::from("-v")]), Mode::Version);
    assert_eq!(parse_mode(&vec![prog.clone(), String::from("--version")]), Mode::Version);
    assert_eq!(parse_mode(&vec![prog.clone(), String::from("report")]), Mode::Report);
    assert_eq!(parse_mode(&vec![prog, String::from("-x")]), Mode::Report);
}

#[test]
fn test_fixed_messages() {
    assert_eq!(
        config_missing_message(),
        "!!! Config file not found. Please run: lotemp init\n"
    );
    assert_eq!(
        init_done_message(),
        "Initialization complete. Current GeoIP location stored in ~/.lotemp"
    );
}
