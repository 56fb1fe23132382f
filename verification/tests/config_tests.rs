use moyn::config::{decode_config, encode_config, load_config_from, Config};
use moyn::err::Error;

#[test]
fn save_then_load_round_trips() {
    let config = Config {
        api_token: "moyn_abc123".to_string(),
        api_url: "http://localhost:3000".to_string(),
    };
    let text = encode_config(&config);
    let back = decode_config(&text).expect("canonical text must decode");
    assert_eq!(back.api_token, config.api_token);
    assert_eq!(back.api_url, config.api_url);
}

#[test]
fn round_trip_survives_escaped_characters() {
    let config = Config {
        api_token: "moyn_\"quoted\"\\slash\nnewline\ttab".to_string(),
        api_url: "http://h/\u{1}ctl".to_string(),
    };
    let text = encode_config(&config);
    let back = decode_config(&text).expect("escaped text must decode");
    assert_eq!(back.api_token, config.api_token);
    assert_eq!(back.api_url, config.api_url);
}

#[test]
fn encoded_text_is_json() {
    let config = Config {
        api_token: "moyn_t".to_string(),
        api_url: "http://h".to_string(),
    };
    let text = encode_config(&config);
    let value: serde_json::Value = serde_json::from_str(&text).expect("encoder writes JSON");
    assert_eq!(value["api_token"].as_str(), Some("moyn_t"));
    assert_eq!(value["api_url"].as_str(), Some("http://h"));
}

#[test]
fn decoder_reads_standard_escapes() {
    let text = "{\"api_token\":\"a\\\"b\\\\c\\u0041\",\"api_url\":\"u\\n\"}";
    let config = decode_config(text).expect("standard escapes decode");
    assert_eq!(config.api_token, "a\"b\\cA");
    assert_eq!(config.api_url, "u\n");
}

#[test]
fn garbage_does_not_decode() {
    assert!(decode_config("").is_err());
    assert!(decode_config("{}").is_err());
    assert!(decode_config("{\"api_token\":\"x\"}").is_err());
    assert!(decode_config("{\"api_token\":\"x\",\"api_url\":\"y\"").is_err());
    assert!(decode_config("{\"api_token\":\"x\",\"api_url\":3}").is_err());
    assert!(decode_config("{\"token\":\"x\",\"api_url\":\"y\"}").is_err());
}

#[test]
fn decoder_tolerates_whitespace_and_field_order() {
    let text = " { \"api_url\" : \"http://h\" ,\n\t\"api_token\": \"moyn_t\" }\n";
    let config = decode_config(text).expect("reordered spaced text must decode");
    assert_eq!(config.api_token, "moyn_t");
    assert_eq!(config.api_url, "http://h");
}

#[test]
fn decoder_reads_pretty_printed_json() {
    let text = "{\n  \"api_token\": \"moyn_t\",\n  \"api_url\": \"http://h\"\n}";
    let config = decode_config(text).expect("pretty-printed text must decode");
    assert_eq!(config.api_token, "moyn_t");
    assert_eq!(config.api_url, "http://h");
}

#[test]
fn decoder_reads_full_unicode_escapes() {
    let text = "{\"api_token\":\"\\u0041\\u00e9\\u20ac\",\"api_url\":\"\\ud83d\\ude00\"}";
    let config = decode_config(text).expect("unicode escapes must decode");
    assert_eq!(config.api_token, "A\u{e9}\u{20ac}");
    assert_eq!(config.api_url, "\u{1f600}");
    assert!(decode_config("{\"api_token\":\"\\ud83d\",\"api_url\":\"u\"}").is_err());
}

#[test]
fn missing_file_means_not_logged_in() {
    let r = load_config_from(None);
    match r {
        Err(Error::NotLoggedIn) => {}
        _ => panic!("expected the not-logged-in failure"),
    }
    let msg = Error::NotLoggedIn.message();
    assert_eq!(msg, "Not logged in. Run `moyn login` first.");
}

#[test]
fn corrupt_file_means_invalid_config() {
    let r = load_config_from(Some("not a config"));
    match r {
        Err(e @ Error::InvalidConfig(_)) => {
            let msg = e.message();
            assert!(msg.starts_with("Invalid config: "));
            assert!(msg.len() > "Invalid config: ".len());
        }
        _ => panic!("expected the invalid-config failure"),
    }
}

#[test]
fn present_file_loads() {
    let config = Config {
        api_token: "moyn_ok".to_string(),
        api_url: "http://example".to_string(),
    };
    let text = encode_config(&config);
    match load_config_from(Some(&text)) {
        Ok(c) => {
            assert_eq!(c.api_token, "moyn_ok");
            assert_eq!(c.api_url, "http://example");
        }
        Err(_) => panic!("expected the config to load"),
    }
}
