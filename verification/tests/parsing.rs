use lotemp::geo::parse_geo_location;
use lotemp::num::check_float_literal;
use lotemp::types::AppError;

#[test]
fn test_geo_location_parsing() {
    let test_response = "IP: ---\n\
            Country: France\n\
            Country (ISO code): FR\n\
            Is EU?: true\n\
            State: Upper France\n\
            State Code:\n\
            Zip Code: 59100\n\
            Country Capital: Paris\n\
            Latitude: 50.69224\n\
            Longitude: 3.20004\n\
            ISP: ---\n\
            Timezone: Europe/Paris";

    let result = parse_geo_location(test_response);
    assert!(result.is_ok());
    let location = result.unwrap();
    assert_eq!(location.latitude.parse::<f64>().unwrap(), 50.69224);
    assert_eq!(location.longitude.parse::<f64>().unwrap(), 3.20004);
}

#[test]
fn test_invalid_geo_location() {
    let test_response = "Invalid data\nNo coordinates here\n";
    let result = parse_geo_location(test_response);
    assert!(result.is_err());
}

#[test]
fn test_geo_non_numeric_value() {
    let result = parse_geo_location("Latitude: abc\nLongitude: 1.0\n");
    assert!(matches!(result, Err(AppError::Parse)));
}

#[test]
fn test_geo_last_line_wins() {
    let result = parse_geo_location("Latitude: 1\nLatitude: 2\nLongitude: 3\n").unwrap();
    assert_eq!(result.latitude, "2");
    assert_eq!(result.longitude, "3");
}

#[test]
fn test_geo_later_bad_line_clears_field() {
    let result = parse_geo_location("Latitude: 1.0\nLatitude: abc\nLongitude: 2.0\n");
    assert!(matches!(result, Err(AppError::Parse)));
}

#[test]
fn test_geo_missing_value_token() {
    let result = parse_geo_location("Latitude:50\nLongitude: 3\n");
    assert!(matches!(result, Err(AppError::Parse)));
}

#[test]
fn test_geo_empty_text() {
    assert!(parse_geo_location("").is_err());
}

#[test]
fn test_geo_crlf_line_endings() {
    let result = parse_geo_location("Latitude: 1.5\r\nLongitude: 2.5\r\n").unwrap();
    assert_eq!(result.latitude, "1.5");
    assert_eq!(result.longitude, "2.5");
}

#[test]
fn test_geo_order_does_not_matter() {
    let result = parse_geo_location("Longitude: -3.25\nOther: x\nLatitude: +50\n").unwrap();
    assert_eq!(result.latitude, "+50");
    assert_eq!(result.longitude, "-3.25");
}

#[test]
fn test_float_token_acceptance_matches_parse() {
    let cases = [
        "1", "-1", "+1", "1.5", "-1.5", "+.5", ".5", "1.", "5.", "1e5", "1E5", "1e+5", "1e-5",
        "1.25e2", "1.e3", ".5e1", "inf", "INF", "-inf", "+inf", "infinity", "Infinity",
        "INFINITY", "nan", "NaN", "NAN", "-nan", "0", "007", "50.69224", "3.1899998", "", ".",
        "+", "-", "e5", "1e", "1e+", "1e1.5", "--1", "1.2.3", " 1", "1 ", "0x10", "1_000",
        "infx", "nan0", "in", "infinit", "na", "+-1", "1.5e", "1.5E+", "..5", "1..", "NaN(x)",
        "one",
    ];
    for s in cases {
        let chars: Vec<char> = s.chars().collect();
        assert_eq!(
            check_float_literal(&chars),
            s.parse::<f64>().is_ok(),
            "token acceptance differs from the standard parser on {:?}",
            s
        );
    }
}
