use openclaw_launcher::config::{
    err_to_string, is_mergeable, load_openclaw_config, merge_openclaw_config, write_openclaw_config,
};
use openclaw_launcher::paths::{home_dir, openclaw_config_dir, openclaw_config_path};
use serde_json::Value;

fn parse(text: &str) -> Value {
    serde_json::from_str(text).unwrap()
}

const FRESH: &str = r#"{
  "agents": {
    "defaults": {
      "model": {
        "primary": "ollama/llama3"
      }
    }
  },
  "models": {
    "providers": {
      "ollama": {
        "api": "ollama",
        "apiKey": "ollama-local",
        "baseUrl": "http://127.0.0.1:11434",
        "models": [
          {
            "cost": {
              "cacheRead": 0,
              "cacheWrite": 0,
              "input": 0,
              "output": 0
            },
            "id": "llama3",
            "input": [
              "text"
            ],
            "name": "llama3"
          }
        ]
      }
    }
  }
}"#;

#[test]
fn fresh_configuration_is_written() {
    assert_eq!(write_openclaw_config(None, "llama3").unwrap(), FRESH);
}

#[test]
fn unreadable_configuration_is_replaced() {
    for file in ["", "not json", "[1, 2]", "\"text\"", "{\"a\": 1} trailing"] {
        assert_eq!(write_openclaw_config(Some(file), "llama3").unwrap(), FRESH);
        assert!(load_openclaw_config(Some(file)).is_empty());
    }
}

#[test]
fn other_entries_are_kept() {
    let file = r#"{
        "logging": {"level": "debug", "ratio": 0.25},
        "models": {
            "mode": "merge",
            "providers": {
                "openai": {"apiKey": "k"},
                "ollama": {"baseUrl": "http://elsewhere", "extra": true}
            }
        },
        "agents": {
            "list": [1, 2],
            "defaults": {"temperature": 1, "model": {"primary": "openai/x", "fallback": "y"}}
        }
    }"#;
    let written = parse(&write_openclaw_config(Some(file), "m").unwrap());
    let mut expected = parse(file);
    expected["models"]["providers"]["ollama"] =
        parse(&write_openclaw_config(None, "m").unwrap())["models"]["providers"]["ollama"].clone();
    expected["agents"]["defaults"]["model"]["primary"] = Value::from("ollama/m");
    assert_eq!(written, expected);
    assert_eq!(written["models"]["providers"]["ollama"]["extra"], Value::Null);
    assert_eq!(written["agents"]["defaults"]["model"]["fallback"], Value::from("y"));
}

#[test]
fn model_name_is_taken_as_it_is() {
    let written = parse(&write_openclaw_config(None, " a\"b/ü ").unwrap());
    assert_eq!(written["agents"]["defaults"]["model"]["primary"], Value::from("ollama/ a\"b/ü "));
    assert_eq!(
        written["models"]["providers"]["ollama"]["models"][0]["id"],
        Value::from(" a\"b/ü ")
    );
}

#[test]
fn misplaced_values_are_refused() {
    for file in [
        r#"{"models": 1}"#,
        r#"{"models": null}"#,
        r#"{"models": {"providers": []}}"#,
        r#"{"agents": "x"}"#,
        r#"{"agents": {"defaults": false}}"#,
        r#"{"agents": {"defaults": {"model": "openai/x"}}}"#,
    ] {
        assert_eq!(write_openclaw_config(Some(file), "m"), None);
        assert!(!is_mergeable(&load_openclaw_config(Some(file))));
    }
    for file in [
        r#"{}"#,
        r#"{"models": {}}"#,
        r#"{"models": {"providers": {"ollama": 3}}}"#,
        r#"{"agents": {"defaults": {"model": {"primary": 3}}}}"#,
    ] {
        assert!(write_openclaw_config(Some(file), "m").is_some());
        assert!(is_mergeable(&load_openclaw_config(Some(file))));
    }
}

#[test]
fn last_model_wins_in_memory() {
    let file = r#"{"models": {"providers": {"x": {}}}, "other": [null]}"#;
    let mut twice = load_openclaw_config(Some(file));
    merge_openclaw_config(&mut twice, "first");
    merge_openclaw_config(&mut twice, "second");
    let mut once = load_openclaw_config(Some(file));
    merge_openclaw_config(&mut once, "second");
    assert_eq!(twice, once);
}

#[test]
fn last_model_wins_in_the_file() {
    let file = r#"{"models": {"providers": {"x": {}}}, "rate": 0.5, "other": [null]}"#;
    let first = write_openclaw_config(Some(file), "first").unwrap();
    let second = write_openclaw_config(Some(file), "second").unwrap();
    assert_ne!(first, second);
    assert_eq!(write_openclaw_config(Some(&first), "second").unwrap(), second);
}

#[test]
fn written_configuration_reads_back() {
    let file = r#"{"a": [1, -2, {"b": null}], "n": 18446744073709551615, "t": "\u0001\"\\ü"}"#;
    let text = write_openclaw_config(Some(file), "m").unwrap();
    let mut merged = load_openclaw_config(Some(file));
    merge_openclaw_config(&mut merged, "m");
    assert_eq!(load_openclaw_config(Some(&text)), merged);
    assert_eq!(write_openclaw_config(Some(&text), "m").unwrap(), text);
}

#[test]
fn configuration_is_kept_below_home() {
    let dir = openclaw_config_dir(Some(7)).ok().unwrap();
    assert_eq!((dir.base, dir.names), (7, vec![".openclaw".to_string()]));
    let path = openclaw_config_path(Some("/home/u")).ok().unwrap();
    assert_eq!(path.base, "/home/u");
    assert_eq!(path.names, vec![".openclaw".to_string(), "openclaw.json".to_string()]);
    assert_eq!(home_dir(Some(1)), Ok(1));
}

#[test]
fn unknown_home_is_an_error() {
    let message = "Unable to determine home directory".to_string();
    assert_eq!(home_dir::<u8>(None), Err(message.clone()));
    assert_eq!(openclaw_config_dir::<u8>(None).err(), Some(message.clone()));
    assert_eq!(openclaw_config_path::<u8>(None).err(), Some(message));
}

#[test]
fn errors_are_reported_as_text() {
    assert_eq!(err_to_string("disk full"), "Error: disk full");
}
