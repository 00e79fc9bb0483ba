use lotemp::config::parse_config;
use lotemp::config::serialize_config;
use lotemp::types::AppConfig;
use lotemp::types::AppError;

#[test]
fn test_parse_config_file() {
    let test_config = "---\nlatitude: 50.692\nlongitude: 3.1899998";
    let config = parse_config(test_config).unwrap();
    assert_eq!(config.latitude.parse::<f64>().unwrap(), 50.692);
    assert_eq!(config.longitude.parse::<f64>().unwrap(), 3.1899998);
}

#[test]
fn test_config_round_trip_bit_equal() {
    let lat: f64 = 50.692;
    let lon: f64 = 3.1899998;
    let config = AppConfig { latitude: format!("{}", lat), longitude: format!("{}", lon) };
    let text = serialize_config(&config);
    let back = parse_config(&text).unwrap();
    assert_eq!(back.latitude, config.latitude);
    assert_eq!(back.longitude, config.longitude);
    assert_eq!(back.latitude.parse::<f64>().unwrap().to_bits(), lat.to_bits());
    assert_eq!(back.longitude.parse::<f64>().unwrap().to_bits(), lon.to_bits());
}

#[test]
fn test_config_missing_longitude_is_deserialize_error() {
    let result = parse_config("latitude: 50.692\n");
    assert!(matches!(result, Err(AppError::Deserialize)));
}

#[test]
fn test_config_missing_latitude_is_deserialize_error() {
    let result = parse_config("longitude: 3.19\n");
    assert!(matches!(result, Err(AppError::Deserialize)));
}

#[test]
fn test_config_non_numeric_value_fails() {
    let result = parse_config("latitude: north\nlongitude: 3.19\n");
    assert!(matches!(result, Err(AppError::Deserialize)));
}

#[test]
fn test_config_empty_text_fails() {
    assert!(parse_config("").is_err());
}

#[test]
fn test_config_unknown_lines_ignored() {
    let text = "# stored location\nlatitude: 1.25\nelevation: 24\nlongitude: -3.5\n";
    let config = parse_config(text).unwrap();
    assert_eq!(config.latitude, "1.25");
    assert_eq!(config.longitude, "-3.5");
}

#[test]
fn test_serialized_config_is_valid_yaml() {
    let config = AppConfig {
        latitude: String::from("50.692"),
        longitude: String::from("3.1899998"),
    };
    let text = serialize_config(&config);
    assert_eq!(text, "latitude: 50.692\nlongitude: 3.1899998\n");
    let value: serde_yaml::Value = serde_yaml::from_str(&text).unwrap();
    assert_eq!(value.get("latitude").unwrap().as_f64().unwrap(), 50.692);
    assert_eq!(value.get("longitude").unwrap().as_f64().unwrap(), 3.1899998);
}

#[test]
fn test_config_accepts_serde_yaml_output() {
    let mut mapping = serde_yaml::Mapping::new();
    mapping.insert(
        serde_yaml::Value::String(String::from("latitude")),
        serde_yaml::Value::Number(serde_yaml::Number::from(50.692)),
    );
    mapping.insert(
        serde_yaml::Value::String(String::from("longitude")),
        serde_yaml::Value::Number(serde_yaml::Number::from(3.1899998)),
    );
    let text = serde_yaml::to_string(&serde_yaml::Value::Mapping(mapping)).unwrap();
    let config = parse_config(&text).unwrap();
    assert_eq!(config.latitude.parse::<f64>().unwrap(), 50.692);
    assert_eq!(config.longitude.parse::<f64>().unwrap(), 3.1899998);
}
