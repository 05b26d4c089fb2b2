use focus::herdr::{
    after_panes, after_workspaces, call, in_use, labels, list, list_of, request, result_of, socket,
    workspaces, HerdrError, Kind, Query, Step,
};
use focus::json::Json;
use focus::wire::{parse, Fault};
use serde_json::Value;

/// Goes through herdr's questions; `answer` gives the reply to a request line.
fn ask(name: &str, answer: &dyn Fn(&str) -> String) -> Result<bool, HerdrError> {
    let mut asked = Query::Workspaces;
    loop {
        match in_use(name, &asked, &answer(&asked.request()))? {
            Step::Answer(used) => return Ok(used),
            Step::Ask(next) => asked = next,
        }
    }
}

fn method(line: &str) -> String {
    let request: Value = serde_json::from_str(line).unwrap();
    request["method"].as_str().unwrap().to_string()
}

/// A herdr with these workspaces and panes.
fn herdr(workspaces: &str, panes: &str) -> impl Fn(&str) -> String {
    let (workspaces, panes) = (workspaces.to_string(), panes.to_string());
    move |line: &str| match method(line).as_str() {
        "workspace.list" => {
            format!("{{\"id\":\"1\",\"result\":{{\"workspaces\":{workspaces}}}}}\n")
        }
        "pane.list" => format!("{{\"id\":\"1\",\"result\":{{\"panes\":{panes}}}}}\n"),
        method => panic!("{method}"),
    }
}

/// "shown" is on screen, "idle" has an agent done working, and "busy" one at work, next to one
/// that makes the workspace say "blocked".
#[test]
fn tells_workspaces_in_use() {
    let herdr = herdr(
        r#"[
            {"workspace_id": "w1", "label": "shown", "focused": true},
            {"workspace_id": "w2", "label": "idle", "focused": false},
            {"workspace_id": "w3", "label": "busy", "focused": false}
        ]"#,
        r#"[
            {"workspace_id": "w1", "agent_status": "unknown"},
            {"workspace_id": "w2", "agent_status": "idle"},
            {"workspace_id": "w3", "agent_status": "blocked"},
            {"workspace_id": "w3", "agent_status": "working"}
        ]"#,
    );
    for (name, used) in [
        ("shown", true),
        ("idle", false),
        ("busy", true),
        ("gone", false),
    ] {
        assert_eq!(ask(name, &herdr).unwrap(), used, "{name}");
    }
}

#[test]
fn lists_workspace_names() {
    let line = Query::Workspaces.request();
    assert_eq!(method(&line), "workspace.list");

    let reply = r#"{"id": "1", "result": {"type": "workspace_list", "workspaces": [
            {"workspace_id": "w1", "label": "focus"},
            {"workspace_id": "w2", "label": "say \"hi\"", "worktree": {"repo_name": "x"}}
        ]}}"#;
    assert_eq!(workspaces(reply).unwrap(), ["focus", "say \"hi\""]);

    let reply = r#"{"id": "1", "error": {"code": "x", "message": "nope"}}"#;
    let err = workspaces(reply).unwrap_err().message();
    assert!(err.contains("nope"), "{err}");
}

fn nothing() -> Value {
    Value::Object(serde_json::Map::new())
}

#[test]
fn request_is_one_line() {
    assert_eq!(
        request("workspace.list", nothing()),
        "{\"id\":\"1\",\"method\":\"workspace.list\",\"params\":{}}\n"
    );
    let line = request("say \"hi\"\nand\tgo \u{1} \u{e9}", nothing());
    assert_eq!(line.find('\n'), Some(line.len() - 1));
    let back: Value = serde_json::from_str(&line).unwrap();
    assert_eq!(back["method"], "say \"hi\"\nand\tgo \u{1} \u{e9}");
    assert_eq!(back["id"], "1");
    assert!(back["params"].as_object().unwrap().is_empty());
    assert_eq!(back.as_object().unwrap().len(), 3);
}

#[test]
fn request_carries_its_params() {
    let nested = |depth: usize| format!("{}{}", "[".repeat(depth), "]".repeat(depth));
    for params in [
        "null",
        "true",
        r#""a \"b\"\nc\\ \u0000 \ud83d\udcdd""#,
        "[0, 18446744073709551615, -1, -9223372036854775808]",
        r#"{"z": [{"a\nb": {}}], "a": [], "": null}"#,
        &nested(126),
    ] {
        let params: Value = serde_json::from_str(params).unwrap();
        let line = request("m", params.clone());
        assert_eq!(line.find('\n'), Some(line.len() - 1));
        let back: Value = serde_json::from_str(&line).unwrap();
        assert_eq!(back["params"], params);
        assert_eq!(back["method"], "m");
        assert_eq!(back["id"], "1");
    }
    // One level deeper the params can be read, but not inside a request.
    let params: Value = serde_json::from_str(&nested(127)).unwrap();
    let line = request("m", params);
    assert_eq!(line.find('\n'), Some(line.len() - 1));
    assert!(serde_json::from_str::<Value>(&line).is_err());
    let params: Value = serde_json::from_str("[1.5, -0.0]").unwrap();
    assert_eq!(
        request("m", params),
        "{\"id\":\"1\",\"method\":\"m\",\"params\":[1.5,-0.0]}\n"
    );
}

#[test]
fn queries_ask_their_methods() {
    assert_eq!(Query::Workspaces.request(), request("workspace.list", nothing()));
    assert_eq!(Query::Panes { ids: Vec::new() }.request(), request("pane.list", nothing()));
}

#[test]
fn errors_have_kinds() {
    assert_eq!(workspaces("{").unwrap_err().kind(), Kind::UnexpectedEof);
    assert_eq!(workspaces("nope").unwrap_err().kind(), Kind::InvalidData);
    assert_eq!(workspaces("{}").unwrap_err().kind(), Kind::Other);
    assert_eq!(workspaces(r#"{"result": {}}"#).unwrap_err().kind(), Kind::Other);
}

#[test]
fn refusal_is_told_without_white_space_at_its_ends() {
    let line = "\u{3000} {\"id\": \"1\",  \"error\": 7}\u{a0}\r\n\t";
    // U+3000 is no white space of JSON.
    assert!(matches!(workspaces(line), Err(HerdrError::Malformed(_))));
    let line = " \t{\"id\": \"1\",  \"error\": 7}\r\n";
    for result in [workspaces(line).map(|_| ()), call(line).map(|_| ())] {
        match result {
            Err(HerdrError::Refused(told)) => assert_eq!(told, "{\"id\": \"1\",  \"error\": 7}"),
            other => panic!("{other:?}"),
        }
    }
    assert!(matches!(
        in_use("x", &Query::Workspaces, line),
        Err(HerdrError::Refused(_))
    ));
    let told = result_of(Ok(Json::Null), "\u{2003}\u{85}null \u{3000}\u{a0}").unwrap_err();
    assert_eq!(told.message(), "null");
    // A reply that is no object holds no result.
    assert_eq!(call("[1]\n").unwrap_err().message(), "[1]");
}

#[test]
fn null_result_is_a_result() {
    assert!(matches!(call(r#"{"result": null}"#), Ok(Json::Null)));
    match list(r#"{"result": null}"#, "pane.list", "panes") {
        Err(HerdrError::Missing(what)) => assert_eq!(what, "no panes from pane.list"),
        other => panic!("{other:?}"),
    }
}

#[test]
fn missing_list_is_told() {
    for reply in [
        r#"{"result": {}}"#,
        r#"{"result": {"workspaces": 1}}"#,
        r#"{"result": {"workspaces": {"a": []}}}"#,
        r#"{"result": []}"#,
    ] {
        let err = workspaces(reply).unwrap_err();
        assert!(matches!(err, HerdrError::Missing(_)), "{reply}");
        assert_eq!(err.message(), "no workspaces from workspace.list");
    }
    let err = in_use("x", &Query::Panes { ids: Vec::new() }, r#"{"result": {}}"#).unwrap_err();
    assert_eq!(err.message(), "no panes from pane.list");
    let err = list_of(Json::Bool(true), "m", "k").unwrap_err();
    assert_eq!(err.message(), "no k from m");
}

#[test]
fn malformed_reply_is_told() {
    for line in ["", "\n", "{", "{\"result\": [1", "nope", "{} {}", "\"\\ud800\"", "1e999"] {
        let expected = serde_json::from_str::<Value>(line).unwrap_err();
        match workspaces(line) {
            Err(HerdrError::Malformed(Fault { eof, message })) => {
                assert_eq!(eof, expected.is_eof(), "{line}");
                assert_eq!(message, expected.to_string(), "{line}");
            }
            other => panic!("{other:?}"),
        }
    }
    let err = workspaces("").unwrap_err();
    assert_eq!(err.message(), "EOF while parsing a value at line 1 column 0");
    assert!(matches!(err, HerdrError::Malformed(Fault { eof: true, .. })));
    let err = workspaces("nope").unwrap_err();
    assert!(matches!(err, HerdrError::Malformed(Fault { eof: false, .. })));
    let fault = Fault { eof: true, message: "early".to_string() };
    assert_eq!(result_of(Err(fault), "x").unwrap_err().message(), "early");
}

#[test]
fn later_members_count() {
    let reply = r#"{"result": 1, "result": {"workspaces": [{"label": 1, "label": "b"}]}}"#;
    assert_eq!(workspaces(reply).unwrap(), ["b"]);
    let twice = Json::Object(vec![
        ("a".to_string(), Json::Bool(false)),
        ("a".to_string(), Json::Bool(true)),
    ]);
    assert!(matches!(twice.get("a"), Some(Json::Bool(true))));
    assert!(matches!(twice.take("a"), Some(Json::Bool(true))));
}

#[test]
fn workspaces_without_a_label_have_no_name() {
    let reply = r#"{"result": {"workspaces": [
        {"label": "b"}, {}, {"label": null}, {"label": 3}, "label", {"label": ""}, {"label": "a"}, {"label": "b"}
    ]}}"#;
    assert_eq!(workspaces(reply).unwrap(), ["b", "", "a", "b"]);
    assert!(labels(&Vec::new()).is_empty());
}

#[test]
fn names_keep_the_order_of_the_workspaces() {
    let one = |label: &str| {
        Json::Object(vec![("label".to_string(), Json::String(label.to_string()))])
    };
    let (first, second) = (vec![one("c"), one("a")], vec![Json::Null, one("b")]);
    let both = vec![one("c"), one("a"), Json::Null, one("b")];
    let mut names = labels(&first);
    names.extend(labels(&second));
    assert_eq!(labels(&both), names);
    assert_eq!(names, ["c", "a", "b"]);
}

#[test]
fn shown_needs_no_panes() {
    let line = r#"{"result": {"workspaces": [
        {"label": "x", "focused": false}, {"label": "x", "focused": true}, {"label": "y", "focused": "true"}
    ]}}"#;
    assert!(matches!(
        in_use("x", &Query::Workspaces, line),
        Ok(Step::Answer(true))
    ));
    // Only `true` itself means shown.
    assert!(matches!(
        in_use("y", &Query::Workspaces, line),
        Ok(Step::Ask(Query::Panes { .. }))
    ));
}

#[test]
fn unnamed_is_not_in_use() {
    let herdr = herdr(
        r#"[{"workspace_id": 1, "focused": true}, {"workspace_id": 2, "label": "a"}]"#,
        r#"[{"workspace_id": 1, "agent_status": "working"}, {"agent_status": "working"}]"#,
    );
    assert!(!ask("", &herdr).unwrap());
    assert!(!ask("b", &herdr).unwrap());
    assert!(!ask("a", &herdr).unwrap());
}

#[test]
fn ids_are_any_values() {
    for (workspace, pane, same) in [
        (r#""w""#, r#""w""#, true),
        (r#""w""#, r#""v""#, false),
        ("1", "1", true),
        ("1", "1.0", false),
        ("0.0", "-0.0", true),
        ("0", "-0.0", false),
        ("-1", "-1", true),
        ("-1", "1", false),
        ("18446744073709551615", "18446744073709551615", true),
        ("1e2", "100.0", true),
        ("1e2", "1e3", false),
        ("null", "null", true),
        ("null", "false", false),
        ("[1, [2]]", "[1,[2]]", true),
        ("[1, 2]", "[2, 1]", false),
        ("[1]", "[1, 1]", false),
        (r#"{"a": 1, "b": 2}"#, r#"{"b": 2, "a": 1}"#, true),
        (r#"{"a": 1}"#, r#"{"a": 1, "b": 2}"#, false),
        (r#"{"a": 1, "b": 2}"#, r#"{"a": 1}"#, false),
        (r#"{"a": 1}"#, r#"{"a": 2}"#, false),
    ] {
        let values: (Value, Value) =
            (serde_json::from_str(workspace).unwrap(), serde_json::from_str(pane).unwrap());
        assert_eq!(values.0 == values.1, same, "{workspace} {pane}");
        let (one, two) = (parse(workspace).unwrap(), parse(pane).unwrap());
        assert_eq!(one.same(&two), same, "{workspace} {pane}");
        assert_eq!(two.same(&one), same, "{workspace} {pane}");
        assert!(one.same(&one.clone()));
        let herdr = herdr(
            &format!(r#"[{{"workspace_id": {workspace}, "label": "x"}}]"#),
            &format!(r#"[{{"workspace_id": {pane}, "agent_status": "working"}}]"#),
        );
        assert_eq!(ask("x", &herdr).unwrap(), same, "{workspace} {pane}");
    }
}

#[test]
fn no_id_is_null() {
    let herdr = herdr(
        r#"[{"label": "x"}, {"label": "y", "workspace_id": "w"}]"#,
        r#"[{"agent_status": "working"}]"#,
    );
    assert!(ask("x", &herdr).unwrap());
    assert!(!ask("y", &herdr).unwrap());
}

#[test]
fn decisions_take_values() {
    let text = |s: &str| Json::String(s.to_string());
    let object = |members: Vec<(&str, Json)>| {
        Json::Object(members.into_iter().map(|(k, v)| (k.to_string(), v)).collect())
    };
    let workspaces = vec![object(vec![("label", text("x")), ("workspace_id", text("w"))])];
    let ids = match after_workspaces(&workspaces, "x") {
        Step::Ask(Query::Panes { ids }) => ids,
        other => panic!("{other:?}"),
    };
    assert_eq!(ids.len(), 1);
    assert!(ids[0].same(&text("w")));
    let pane = |status: &str| object(vec![("workspace_id", text("w")), ("agent_status", text(status))]);
    assert!(after_panes(&vec![pane("blocked"), pane("working")], &ids));
    assert!(!after_panes(&vec![pane("blocked"), pane("idle")], &ids));
    assert!(!after_panes(&vec![pane("working")], &Vec::new()));
}

#[test]
fn socket_is_the_exported_one() {
    let bytes = |s: &str| s.as_bytes().to_vec();
    assert_eq!(socket(Some(bytes("/tmp/h.sock")), Some(bytes("/Users/me"))), bytes("/tmp/h.sock"));
    assert_eq!(socket(Some(Vec::new()), None), Vec::<u8>::new());
    assert_eq!(
        socket(None, Some(bytes("/Users/me"))),
        bytes("/Users/me/.config/herdr/herdr.sock")
    );
    assert_eq!(socket(None, Some(bytes("/"))), bytes("/.config/herdr/herdr.sock"));
}
