use herdr_labels::herdr::{
    accept_response, kind_message, mismatch_message, request_frame, response_line, HerdrApiError,
    HerdrClient, HerdrResponse, HerdrTab, PaneInfo, PaneProcessInfo, PaneProcessInfoResult,
    ProcessInfo, Request, SessionSnapshotResult, SessionSnapshotWire, TabGetResult,
};
use herdr_labels::numbering::Tab;
use serde_json::Value;

fn text(value: &Value) -> String {
    value.as_str().unwrap().to_owned()
}

fn tab(value: &Value) -> HerdrTab {
    HerdrTab {
        tab_id: text(&value["tab_id"]),
        workspace_id: text(&value["workspace_id"]),
        label: text(&value["label"]),
        focused: value["focused"].as_bool().unwrap(),
        pane_count: value["pane_count"].as_u64().unwrap() as usize,
    }
}

fn response<T>(id: &str, result: T) -> HerdrResponse<T> {
    HerdrResponse {
        id: id.to_owned(),
        result: Some(result),
        error: None,
    }
}

fn failure<T>(id: &str, code: &str, message: &str) -> HerdrResponse<T> {
    HerdrResponse {
        id: id.to_owned(),
        result: None,
        error: Some(HerdrApiError {
            code: code.to_owned(),
            message: message.to_owned(),
        }),
    }
}

fn tab_result(kind: &str) -> TabGetResult {
    TabGetResult {
        kind: kind.to_owned(),
        tab: HerdrTab {
            tab_id: "w1:t1".into(),
            workspace_id: "w1".into(),
            label: "work".into(),
            focused: false,
            pane_count: 1,
        },
    }
}

fn client() -> HerdrClient {
    HerdrClient::new(&b"/tmp/herdr.sock".to_vec())
}

#[test]
fn parses_the_herdr_0_7_5_tab_get_response() {
    let parsed: Value = serde_json::from_str(
        r#"{
            "type": "tab_info",
            "tab": {
                "tab_id": "wA:t1F",
                "workspace_id": "wA",
                "number": 47,
                "label": "[7] reviewr",
                "focused": false,
                "pane_count": 1,
                "agent_status": "unknown"
            }
        }"#,
    )
    .unwrap();
    let result = TabGetResult {
        kind: text(&parsed["type"]),
        tab: tab(&parsed["tab"]),
    };

    assert_eq!(
        Tab::from(result.tab),
        Tab {
            tab_id: "wA:t1F".into(),
            workspace_id: "wA".into(),
            label: "[7] reviewr".into(),
        }
    );
}

#[test]
fn requests_and_parses_a_session_snapshot() {
    let mut client = client();
    let sent = client.request(&Request::Snapshot);
    let request: Value = serde_json::from_str(&sent.line).unwrap();
    assert_eq!(request["method"], "session.snapshot");
    assert_eq!(request["params"].as_object().unwrap().len(), 0);

    let snapshot = HerdrClient::snapshot(
        &sent.id,
        response(
            request["id"].as_str().unwrap(),
            SessionSnapshotResult {
                kind: "session_snapshot".into(),
                snapshot: SessionSnapshotWire {
                    focused_pane_id: Some("w1:p1".into()),
                    tabs: vec![HerdrTab {
                        tab_id: "w1:t1".into(),
                        workspace_id: "w1".into(),
                        label: "1".into(),
                        focused: true,
                        pane_count: 1,
                    }],
                    panes: vec![PaneInfo {
                        pane_id: "w1:p1".into(),
                        tab_id: "w1:t1".into(),
                        agent: None,
                    }],
                },
            },
        ),
    )
    .unwrap();
    assert_eq!(snapshot.focused_pane_id.as_deref(), Some("w1:p1"));
    assert_eq!(snapshot.tabs[0].tab.label, "1");
    assert!(snapshot.tabs[0].focused);
    assert_eq!(snapshot.tabs[0].pane_count, 1);
    assert_eq!(snapshot.panes[0].pane_id, "w1:p1");
}

#[test]
fn requests_and_parses_foreground_process_information() {
    let mut client = client();
    let sent = client.request(&Request::ProcessInfo {
        pane_id: "w1:p1".into(),
    });
    let request: Value = serde_json::from_str(&sent.line).unwrap();
    assert_eq!(request["method"], "pane.process_info");
    assert_eq!(request["params"]["pane_id"], "w1:p1");

    let process_info = HerdrClient::pane_process_info(
        &sent.id,
        response(
            request["id"].as_str().unwrap(),
            PaneProcessInfoResult {
                kind: "pane_process_info".into(),
                process_info: PaneProcessInfo {
                    foreground_process_group_id: Some(42),
                    foreground_processes: vec![ProcessInfo {
                        pid: 42,
                        name: "wrapped".into(),
                        argv0: Some("/usr/bin/nvim".into()),
                        argv: Some(vec!["nvim".into()]),
                    }],
                },
            },
        ),
    )
    .unwrap();
    assert_eq!(process_info.leader().unwrap().program(), "/usr/bin/nvim");
}

#[test]
fn every_request_is_one_line_with_an_id_of_its_own() {
    let mut client = client();
    assert!(client.can_request());
    let first = client.request(&Request::RenameTab {
        tab_id: "w1:t1".into(),
        label: "two\nlines \"quoted\"".into(),
    });
    assert_eq!(first.id, "tabs:1");
    assert_eq!(first.line.matches('\n').count(), 1);
    assert!(first.line.ends_with('\n'));
    let request: Value = serde_json::from_str(&first.line).unwrap();
    assert_eq!(request["id"], "tabs:1");
    assert_eq!(request["method"], "tab.rename");
    assert_eq!(request["params"]["tab_id"], "w1:t1");
    assert_eq!(request["params"]["label"], "two\nlines \"quoted\"");

    let second = client.request(&Request::GetTab {
        tab_id: "w1:t1".into(),
    });
    assert_eq!(second.id, "tabs:2");
    assert_eq!(
        second.line,
        "{\"id\":\"tabs:2\",\"method\":\"tab.get\",\"params\":{\"tab_id\":\"w1:t1\"}}\n"
    );
    assert_eq!(client.socket_path(), &b"/tmp/herdr.sock".to_vec());
}

#[test]
fn a_missing_tab_is_no_error() {
    assert_eq!(
        HerdrClient::get_tab("tabs:1", response("tabs:1", tab_result("tab_info")))
            .unwrap()
            .unwrap()
            .label,
        "work"
    );
    assert_eq!(
        HerdrClient::get_tab("tabs:1", failure("tabs:1", "tab_not_found", "gone")),
        Ok(None)
    );
    assert_eq!(
        HerdrClient::get_tab("tabs:1", failure("tabs:1", "internal", "broken")),
        Err("Herdr API error internal: broken".to_owned())
    );
    assert_eq!(
        HerdrClient::get_tab("tabs:1", response("tabs:1", tab_result("tab \"list\""))),
        Err("tab get returned unexpected result type \"tab \\\"list\\\"\"".to_owned())
    );
    assert_eq!(
        HerdrClient::rename_tab("tabs:1", response("tabs:1", tab_result("tab_info"))),
        Ok(())
    );
    assert_eq!(
        HerdrClient::rename_tab("tabs:1", failure("tabs:1", "tab_not_found", "gone")),
        Ok(())
    );
    assert_eq!(
        HerdrClient::rename_tab("tabs:1", failure("tabs:1", "denied", "no")),
        Err("Herdr API error denied: no".to_owned())
    );
    assert_eq!(
        HerdrClient::rename_tab("tabs:1", response("tabs:1", tab_result("list"))),
        Err("tab rename returned unexpected result type \"list\"".to_owned())
    );
}

#[test]
fn snapshots_and_processes_need_their_result_type() {
    let wire = SessionSnapshotWire {
        focused_pane_id: None,
        tabs: Vec::new(),
        panes: Vec::new(),
    };
    assert_eq!(
        HerdrClient::snapshot(
            "tabs:1",
            response(
                "tabs:1",
                SessionSnapshotResult {
                    kind: "other".into(),
                    snapshot: wire,
                }
            )
        )
        .unwrap_err(),
        "session snapshot returned unexpected result type \"other\""
    );
    assert_eq!(
        HerdrClient::pane_process_info(
            "tabs:1",
            response(
                "tabs:1",
                PaneProcessInfoResult {
                    kind: "other".into(),
                    process_info: PaneProcessInfo {
                        foreground_process_group_id: None,
                        foreground_processes: Vec::new(),
                    },
                }
            )
        )
        .unwrap_err(),
        "pane process info returned unexpected result type \"other\""
    );
    assert_eq!(
        HerdrClient::snapshot("tabs:1", failure("tabs:1", "internal", "broken")).unwrap_err(),
        "Herdr API error internal: broken"
    );
}

#[test]
fn responses_must_answer_their_request() {
    assert_eq!(
        accept_response("tabs:1", response("tabs:2", 7)).unwrap_err(),
        "Herdr response id \"tabs:2\" did not match request id \"tabs:1\""
    );
    let empty: HerdrResponse<u8> = HerdrResponse {
        id: "tabs:1".into(),
        result: None,
        error: None,
    };
    assert_eq!(
        accept_response("tabs:1", empty).unwrap_err(),
        "Herdr response contained neither a result nor an error"
    );
    let mut both = failure("tabs:1", "internal", "broken");
    both.result = Some(7);
    assert_eq!(
        accept_response("tabs:1", both).unwrap_err(),
        "Herdr response contained neither a result nor an error"
    );
    assert_eq!(
        accept_response("tabs:1", response("tabs:1", 7)).unwrap().unwrap(),
        7
    );
}

#[test]
fn messages_hold_the_literals_they_are_given() {
    assert_eq!(
        kind_message("tab get", "\"list\""),
        "tab get returned unexpected result type \"list\""
    );
    assert_eq!(
        mismatch_message("\"a\"", "\"b\""),
        "Herdr response id \"a\" did not match request id \"b\""
    );
    assert_eq!(request_frame("{}".into()), "{}\n");
}

#[test]
fn requests_are_bounded_by_a_second_each_way() {
    let mut client = HerdrClient::new(&b"/tmp/herdr.sock".to_vec());
    let sent = client.request(&Request::Snapshot);
    assert_eq!(sent.read_timeout, 1_000_000_000);
    assert_eq!(sent.write_timeout, 1_000_000_000);
}

#[test]
fn a_closed_socket_is_no_response() {
    assert_eq!(response_line("{}\n".into()), Ok("{}\n".to_owned()));
    assert_eq!(
        response_line(String::new()),
        Err("Herdr closed the socket before responding".to_owned())
    );
}
