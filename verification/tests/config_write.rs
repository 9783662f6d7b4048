use kiln_gateway::config::ModelConfig;
use kiln_gateway::config::WorkerKind;
use kiln_gateway::config_write::append_model;
use kiln_gateway::config_write::reverify;
use kiln_gateway::config_write::PersistError;

const PATH: &str = "/etc/kiln.toml";

fn model(id: &str) -> ModelConfig {
    ModelConfig {
        id: id.to_string(),
        path: "/models/somewhere".to_string(),
        worker: WorkerKind::Auto,
        pinned: true,
        ttl_seconds: 300,
        speculative: None,
    }
}

const EXISTING: &str = r#"# Operator notes live here and MUST survive edits.
[server]
port = 9090   # non-default, hand-picked

# The resident model.
[[model]]
id = "resident"
path = "/models/resident"   # local path
worker = "rust"

[[auth.api_keys]]
name = "ops"
key_hash = "x"
"#;

fn read(text: &str) -> toml_edit::DocumentMut {
    text.parse().expect("edited file is valid")
}

#[test]
fn append_preserves_every_existing_line_and_adds_one_block() {
    let after = append_model(PATH, EXISTING, &model("added")).expect("append succeeds");

    // Every original line survives, in order (comments included).
    let mut after_lines = after.lines();
    for line in EXISTING.lines() {
        assert!(
            after_lines.any(|l| l == line),
            "original line lost or reordered: {line:?}\nfull file:\n{after}"
        );
    }
    // The result parses, and only the one model was added.
    let config = read(&after);
    assert_eq!(config["server"]["port"].as_integer(), Some(9090));
    let models = config["model"].as_array_of_tables().expect("blocks");
    assert_eq!(models.len(), 2);
    let added = models.get(1).expect("added");
    assert_eq!(added["id"].as_str(), Some("added"));
    assert_eq!(added["path"].as_str(), Some("/models/somewhere"));
    assert_eq!(added["worker"].as_str(), Some("auto"));
    assert_eq!(added["pinned"].as_bool(), Some(true));
    assert_eq!(added["ttl_seconds"].as_integer(), Some(300));
    let keys = config["auth"]["api_keys"]
        .as_array_of_tables()
        .expect("keys");
    assert_eq!(keys.len(), 1);
}

#[test]
fn append_works_on_a_config_with_no_model_blocks() {
    let after = append_model(PATH, "[server]\nport = 8081\n", &model("first")).expect("append");
    let config = read(&after);
    let models = config["model"].as_array_of_tables().expect("blocks");
    assert_eq!(models.len(), 1);
    assert_eq!(
        models.get(0).expect("first")["id"].as_str(),
        Some("first")
    );
}

#[test]
fn duplicate_id_in_file_is_a_conflict_and_nothing_is_written() {
    let err = append_model(PATH, EXISTING, &model("resident")).expect_err("duplicate rejected");
    assert!(
        matches!(err, PersistError::DuplicateInFile(_)),
        "{}",
        err.message()
    );
}

#[test]
fn unparseable_file_fails_loudly_and_is_untouched() {
    let err = append_model(PATH, "[server\nport = ???", &model("m")).expect_err("parse failure");
    assert!(
        matches!(err, PersistError::Unparseable { .. }),
        "{}",
        err.message()
    );
    assert!(
        err.message().contains("nothing was written"),
        "{}",
        err.message()
    );
}

#[test]
fn reverify_gate_refuses_a_config_the_parser_would_reject() {
    // Valid TOML, invalid configuration: the append itself is fine, but what
    // reading the result says keeps it from being written.
    let edited = append_model(PATH, "[server]\nport = 0\n", &model("m")).expect("append");
    let problem = Some("server.port must be non-zero".to_string());
    let err = reverify(PATH, edited.clone(), problem).expect_err("re-validation");
    assert!(
        matches!(err, PersistError::Reverify { .. }),
        "{}",
        err.message()
    );
    assert_eq!(reverify(PATH, edited.clone(), None).expect("fine"), edited);
}

#[test]
fn a_persisted_model_is_held() {
    let once = append_model(PATH, EXISTING, &model("added")).expect("append");
    for id in ["added", "resident"] {
        let err = append_model(PATH, &once, &model(id)).expect_err("held");
        assert!(matches!(err, PersistError::DuplicateInFile(_)));
    }
    let twice = append_model(PATH, &once, &model("third")).expect("append");
    assert_eq!(
        read(&twice)["model"]
            .as_array_of_tables()
            .expect("blocks")
            .len(),
        3
    );
    // Whatever the id holds, it reads back.
    let odd = "q\"uo\\te\n\u{1}\u{e9}";
    let after = append_model(PATH, EXISTING, &model(odd)).expect("append");
    assert!(append_model(PATH, &after, &model(odd)).is_err());
}

#[test]
fn odd_files_and_numbers_are_refused() {
    let err = append_model(PATH, "model = 3\n", &model("m")).expect_err("no array");
    assert!(
        err.message().contains("array of [[model]] tables"),
        "{}",
        err.message()
    );
    let mut long = model("m");
    long.ttl_seconds = u64::MAX;
    let err = append_model(PATH, "", &long).expect_err("too long");
    assert!(
        err.message().contains("exceeds the TOML integer range"),
        "{}",
        err.message()
    );
    let read = PersistError::Read {
        path: PATH.to_string(),
        source: "denied".to_string(),
    };
    assert_eq!(read.message(), "failed to read /etc/kiln.toml: denied");
    let write = PersistError::Write {
        path: PATH.to_string(),
        source: "full".to_string(),
    };
    assert_eq!(write.message(), "failed to write /etc/kiln.toml: full");
}

#[test]
fn other_settings_and_blocks_read_as_before() {
    let text = r#"top = 1.5
when = 1979-05-27T07:32:00Z

[memory]
budget_bytes = 7
list = [1, { a = "b" }]

[[model]]
id = "first"
pinned = false
ttl_seconds = 9

[model.speculative]
draft = "d"
gamma = 4

[server.deep]
x = true
"#;
    let after = append_model(PATH, text, &model("added")).expect("append succeeds");
    let before = read(text);
    let edited = read(&after);
    for key in ["top", "when", "memory", "server"] {
        assert_eq!(before[key].to_string(), edited[key].to_string(), "{after}");
    }
    let blocks = edited["model"].as_array_of_tables().expect("blocks");
    assert_eq!(blocks.len(), 2);
    let first = blocks.get(0).expect("first");
    assert_eq!(first["ttl_seconds"].as_integer(), Some(9));
    assert_eq!(first["speculative"]["draft"].as_str(), Some("d"));
    assert_eq!(first["speculative"]["gamma"].as_integer(), Some(4));
    let added = blocks.get(1).expect("added");
    assert_eq!(added.len(), 5);
    assert_eq!(added["pinned"].as_bool(), Some(true));
}

#[test]
fn tables_that_stood_apart_leave_the_values_alone() {
    // Printed by where it stood, `[model.s1]` comes to stand behind the new block.
    let text = r#"[[model]]
id = "first"
pinned = true

[model.s1.deep]
a = 1

[model.s2]
b = 2

[model.s1]
c = 3

[server]
port = 8080
"#;
    let after = append_model(PATH, text, &model("added")).expect("append succeeds");
    let edited = read(&after);
    assert_eq!(edited["server"]["port"].as_integer(), Some(8080));
    let blocks = edited["model"].as_array_of_tables().expect("blocks");
    assert_eq!(blocks.len(), 2);
    let first = blocks.get(0).expect("first");
    assert_eq!(first["id"].as_str(), Some("first"));
    assert_eq!(first["pinned"].as_bool(), Some(true));
    let added = blocks.get(1).expect("added");
    assert_eq!(added["id"].as_str(), Some("added"));
    assert_eq!(added["ttl_seconds"].as_integer(), Some(300));
    assert!(added.get("s1").is_some(), "{after}");
}

#[test]
fn long_runs_of_quotes_are_refused() {
    for (quote, n) in [('"', 255), ('\'', 255)] {
        let id: String = std::iter::repeat(quote).take(n).collect();
        let after = append_model(PATH, EXISTING, &model(&id)).expect("append");
        let models = read(&after)["model"].as_array_of_tables().expect("blocks").clone();
        assert_eq!(models.get(1).expect("added")["id"].as_str(), Some(id.as_str()));
    }
    let long: String = std::iter::repeat('"').take(256).collect();
    let err = append_model(PATH, EXISTING, &model(&long)).expect_err("too many");
    assert!(
        err.message().contains("more than 255 quotes in a row"),
        "{}",
        err.message()
    );
    let mut deep = model("m");
    deep.path = format!("/models/{}", "'".repeat(300));
    assert!(matches!(
        append_model(PATH, EXISTING, &deep),
        Err(PersistError::Reverify { .. })
    ));
    // Apart from each other they are fine.
    deep.path = "\"a".repeat(300);
    assert!(append_model(PATH, EXISTING, &deep).is_ok());
}
