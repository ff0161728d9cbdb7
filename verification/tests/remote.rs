use steam_patch::lifecycle::ProbeResult;
use steam_patch::steam::{
    classify_probe, discover, json_escape, marker_path, select_context, send_absorb, send_begin,
    send_directive, SendDirective, SendEvent, SteamClient, Tab,
};

fn tab(title: &str, url: &str) -> Tab {
    Tab { title: title.as_bytes().to_vec(), url: url.as_bytes().to_vec() }
}

#[test]
fn select_context_picks_first_usable_context() {
    let tabs = vec![
        tab("Some Page", "ws://localhost/1"),
        tab("SharedJSContext", ""),
        tab("SharedJSContext", "ws://localhost/2"),
        tab("SharedJSContext", "ws://localhost/3"),
    ];
    assert_eq!(select_context(&tabs), Some(b"ws://localhost/2".to_vec()));
}

#[test]
fn select_context_without_sentinel_fails() {
    let tabs = vec![tab("Library", "ws://a"), tab("Console", "ws://b")];
    assert_eq!(select_context(&tabs), None);
    assert_eq!(select_context(&Vec::new()), None);
}

#[test]
fn probe_classification() {
    assert_eq!(classify_probe(&None), ProbeResult::Unreachable);
    let no_ctx = Some(vec![tab("Library", "ws://a")]);
    assert_eq!(classify_probe(&no_ctx), ProbeResult::ReachableWithoutContext);
    let with_ctx = Some(vec![tab("Library", "ws://a"), tab("SharedJSContext", "")]);
    assert_eq!(classify_probe(&with_ctx), ProbeResult::ReachableWithContext);
}

#[test]
fn discovery_returns_first_context_within_budget() {
    let polls = vec![
        None,
        Some(vec![tab("Library", "ws://x")]),
        Some(vec![tab("SharedJSContext", "ws://ctx")]),
    ];
    assert_eq!(discover(&polls, 10), Some(b"ws://ctx".to_vec()));
}

#[test]
fn discovery_times_out_without_context() {
    let polls: Vec<Option<Vec<Tab>>> = vec![None, Some(vec![tab("Library", "ws://x")]), None];
    assert_eq!(discover(&polls, 10), None);
}

#[test]
fn discovery_respects_the_bounded_wait() {
    let polls = vec![None, None, Some(vec![tab("SharedJSContext", "ws://late")])];
    assert_eq!(discover(&polls, 2), None);
    assert_eq!(discover(&polls, 3), Some(b"ws://late".to_vec()));
    assert_eq!(discover(&polls, 0), None);
}

#[test]
fn reload_command_bytes() {
    let client = SteamClient::new();
    assert_eq!(
        client.reboot(),
        b"{\"id\":1,\"method\":\"Page.reload\"}".to_vec()
    );
}

#[test]
fn evaluate_command_bytes() {
    let client = SteamClient::new();
    assert_eq!(
        client.execute("console.log(1)"),
        b"{\"id\":1,\"method\":\"Runtime.evaluate\",\"params\":{\"expression\":\"console.log(1)\"}}"
            .to_vec()
    );
}

#[test]
fn evaluate_command_escapes_the_script() {
    let client = SteamClient::new();
    let msg = client.execute("say(\"hi\");\nback\\slash");
    let expected = b"{\"id\":1,\"method\":\"Runtime.evaluate\",\"params\":{\"expression\":\"say(\\\"hi\\\");\\nback\\\\slash\"}}".to_vec();
    assert_eq!(msg, expected);
}

#[test]
fn json_escaping_rules() {
    assert_eq!(json_escape(&b"plain".to_vec()), b"plain".to_vec());
    assert_eq!(json_escape(&b"\"".to_vec()), b"\\\"".to_vec());
    assert_eq!(json_escape(&b"\\".to_vec()), b"\\\\".to_vec());
    assert_eq!(json_escape(&b"\t\r\n".to_vec()), b"\\t\\r\\n".to_vec());
    assert_eq!(json_escape(&vec![0x01u8]), b"\\u0001".to_vec());
    assert_eq!(json_escape(&vec![0x1fu8]), b"\\u001f".to_vec());
    assert_eq!(json_escape(&vec![0x08u8, 0x0c]), b"\\b\\f".to_vec());
}

#[test]
fn escaped_scripts_parse_back_to_the_original() {
    let scripts = [
        "plain",
        "with \"quotes\" and \\slashes\\",
        "line\nbreaks\tand\rreturns",
    ];
    for script in scripts {
        let mut framed = Vec::new();
        framed.push(b'"');
        framed.extend_from_slice(&json_escape(&script.as_bytes().to_vec()));
        framed.push(b'"');
        let parsed: String = serde_json::from_slice(&framed).unwrap();
        assert_eq!(parsed, script);
    }
}

#[test]
fn whole_commands_are_valid_json() {
    let client = SteamClient::new();
    let msg = client.execute("GamepadNavTree.m_Controller.OnButtonActionInternal(true, 28, 2)");
    let v: serde_json::Value = serde_json::from_slice(&msg).unwrap();
    assert_eq!(v["id"], serde_json::Value::from(1));
    assert_eq!(v["method"].as_str(), Some("Runtime.evaluate"));
    assert_eq!(
        v["params"]["expression"].as_str(),
        Some("GamepadNavTree.m_Controller.OnButtonActionInternal(true, 28, 2)")
    );
}

#[test]
fn send_gives_up_after_three_failures() {
    let mut p = send_begin();
    assert_eq!(send_directive(&p, true), SendDirective::TransmitThenReport);
    p = send_absorb(p, SendEvent::TransmitFailed);
    assert_eq!(send_directive(&p, false), SendDirective::ReconnectThenReport);
    p = send_absorb(p, SendEvent::NotConnected);
    assert_eq!(send_directive(&p, true), SendDirective::TransmitThenReport);
    p = send_absorb(p, SendEvent::TransmitFailed);
    assert_eq!(send_directive(&p, true), SendDirective::Stop);
    assert_eq!(send_directive(&p, false), SendDirective::Stop);
    assert!(!p.delivered);
}

#[test]
fn send_stops_after_delivery() {
    let mut p = send_begin();
    p = send_absorb(p, SendEvent::Delivered);
    assert!(p.delivered);
    assert_eq!(send_directive(&p, true), SendDirective::Stop);
}

#[test]
fn client_connection_state() {
    let mut c = SteamClient::new();
    assert!(!c.has_connection);
    c.connect(true);
    assert!(c.has_connection);
    c.connect(false);
    assert!(!c.has_connection);
}

#[test]
fn marker_path_is_fixed_per_user() {
    assert_eq!(
        marker_path("gamer"),
        b"/home/gamer/steam-patch/patched".to_vec()
    );
}
