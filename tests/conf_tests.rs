use zooming_kittens::conf::{baseline_or_default, font_size_value, parse_failure_message, FontSizeError};

fn value_of(text: &str) -> Result<f64, String> {
    match font_size_value(text.as_bytes()) {
        Ok(v) => {
            let s = String::from_utf8(v).unwrap();
            s.parse::<f64>().map_err(|e| parse_failure_message(&s, &e.to_string()))
        }
        Err(e) => Err(e.message()),
    }
}

#[test]
fn test_parse_font_size_valid() {
    let result = value_of("font_size 12.5\nother_config value\n");
    assert!(result.is_ok());
    assert_eq!(result.unwrap(), 12.5);
}

#[test]
fn test_parse_font_size_with_comments() {
    let result = value_of("# This is a comment\nfont_size 14.0\n# Another comment\n");
    assert!(result.is_ok());
    assert_eq!(result.unwrap(), 14.0);
}

#[test]
fn test_parse_font_size_integer() {
    let result = value_of("font_size 12\n");
    assert!(result.is_ok());
    assert_eq!(result.unwrap(), 12.0);
}

#[test]
fn test_parse_font_size_not_found() {
    let result = value_of("other_config value\n");
    assert!(result.is_err());
    assert!(result.unwrap_err().contains("not found"));
}

#[test]
fn test_parse_font_size_invalid() {
    let result = value_of("font_size invalid\n");
    assert!(result.is_err());
    assert!(result.unwrap_err().contains("Failed to parse"));
}

#[test]
fn test_parse_font_size_empty() {
    let result = value_of("font_size\n");
    assert!(result.is_err());
    assert!(result.unwrap_err().contains("has no value"));
}

#[test]
fn value_text_is_trimmed_and_first_directive_wins() {
    assert_eq!(font_size_value(b"  \t\n  font_size   11.5  \r\nfont_size 20\n"), Ok(b"11.5".to_vec()));
    assert_eq!(font_size_value(b"#font_size 9\nfont_size 10"), Ok(b"10".to_vec()));
    assert_eq!(font_size_value(b""), Err(FontSizeError::NotFound));
    assert_eq!(font_size_value(b"font_size   \n"), Err(FontSizeError::NoValue));
}

#[test]
fn baseline_falls_back_to_twelve_points() {
    assert_eq!(baseline_or_default(None), 1200);
    assert_eq!(baseline_or_default(Some(1450)), 1450);
}
