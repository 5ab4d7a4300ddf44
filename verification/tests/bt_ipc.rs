//! The protocol between the settings application and the Bluetooth module.

use bacak_compositor::bt_ipc::{
    devices_event, pairing_event, parse_cmd, powered_event, scanning_event, socket_path,
    toast_event, BtIpcServer, IpcCmd, IpcDevice,
};

#[test]
fn commands_are_parsed() {
    assert_eq!(parse_cmd(r#"{"cmd":"power","on":true}"#), Some(IpcCmd::Power(true)));
    assert_eq!(parse_cmd(r#"{"cmd":"scan","on":false}"#), Some(IpcCmd::Scan(false)));
    assert_eq!(
        parse_cmd(r#"{"cmd":"pair","mac":"E8:5A:8B:26:C0:32"}"#),
        Some(IpcCmd::Pair("E8:5A:8B:26:C0:32".into()))
    );
    assert_eq!(parse_cmd(r#"{"cmd":"connect","mac":"A"}"#), Some(IpcCmd::Connect("A".into())));
    assert_eq!(parse_cmd(r#"{"cmd":"disconnect","mac":"A"}"#), Some(IpcCmd::Disconnect("A".into())));
    assert_eq!(parse_cmd(r#"{"cmd":"forget","mac":"A"}"#), Some(IpcCmd::Forget("A".into())));
    assert_eq!(parse_cmd(r#"{"cmd":"confirm","accept":true}"#), Some(IpcCmd::Confirm(true)));
    assert_eq!(parse_cmd(r#"{"cmd":"get_state"}"#), Some(IpcCmd::GetState));
    assert_eq!(parse_cmd(r#"{"cmd":"dance"}"#), None);
    assert_eq!(parse_cmd("junk"), None);
    assert_eq!(parse_cmd(r#"{"cmd":"pair"}"#), None);
}

#[test]
fn events_are_written() {
    assert_eq!(powered_event(true), r#"{"t":"powered","on":true}"#);
    assert_eq!(scanning_event(false), r#"{"t":"scanning","on":false}"#);
    assert_eq!(pairing_event("a\"b", "123456"), r#"{"t":"pairing","device":"a\"b","passkey":"123456"}"#);
    assert_eq!(toast_event("Eşleşti"), r#"{"t":"toast","msg":"Eşleşti"}"#);
    let d = |mac: &str, name: &str| IpcDevice {
        mac: mac.into(),
        name: name.into(),
        paired: true,
        connected: false,
    };
    assert_eq!(devices_event(&[]), r#"{"t":"devices","list":[]}"#);
    assert_eq!(
        devices_event(&[d("A", "x"), d("B", "y")]),
        r#"{"t":"devices","list":[{"mac":"A","name":"x","paired":true,"connected":false},{"mac":"B","name":"y","paired":true,"connected":false}]}"#
    );
}

#[test]
fn events_are_json() {
    for text in [
        powered_event(true),
        pairing_event("a\"b", "1"),
        devices_event(&[IpcDevice { mac: "A".into(), name: "q\"q".into(), paired: false, connected: true }]),
    ] {
        let v: serde_json::Value = serde_json::from_str(&text).unwrap();
        assert!(v.get("t").is_some());
    }
}

#[test]
fn one_client_is_served_at_a_time() {
    let mut s = BtIpcServer::start();
    assert!(!s.has_client());
    assert_eq!(s.send_powered(true), None);
    s.accept(true);
    assert!(s.has_client());
    assert_eq!(s.generation(), 1);
    assert_eq!(s.send_powered(true).as_deref(), Some(r#"{"t":"powered","on":true}"#));
    assert_eq!(s.send_toast("x").as_deref(), Some(r#"{"t":"toast","msg":"x"}"#));
    assert!(s.hear(r#"{"cmd":"scan","on":true}"#));
    assert!(!s.hear("noise"));
    assert!(s.hear(r#"{"cmd":"get_state"}"#));
    assert_eq!(s.try_recv_cmd(), Some(IpcCmd::Scan(true)));
    assert_eq!(s.try_recv_cmd(), Some(IpcCmd::GetState));
    assert_eq!(s.try_recv_cmd(), None);
    s.gone();
    assert!(!s.has_client());
    // A client that cannot be read stands, but hears nothing.
    s.accept(false);
    assert!(s.has_client());
    assert_eq!(s.generation(), 2);
    assert_eq!(s.send_scanning(true), None);
    assert_eq!(s.send_devices(&vec![]), None);
    assert_eq!(s.send_pairing("d", "1"), None);
}

#[test]
fn the_socket_is_in_the_runtime_directory() {
    assert_eq!(socket_path(Some("/run/user/7")), "/run/user/7/bacak-bt.sock");
    assert_eq!(socket_path(None), "/run/user/1000/bacak-bt.sock");
}

#[test]
fn odd_addresses_come_through() {
    for mac in ["E8:5A:8B:26:C0:32", "cmd", "", "a b", "mac:x"] {
        let line = format!("{{\"cmd\":\"forget\",\"mac\":\"{mac}\"}}");
        assert_eq!(parse_cmd(&line), Some(IpcCmd::Forget(mac.into())), "{line}");
        let line = format!("{{\"cmd\":\"connect\",\"mac\":\"{mac}\"}}");
        assert_eq!(parse_cmd(&line), Some(IpcCmd::Connect(mac.into())), "{line}");
    }
}

#[test]
fn every_event_is_one_line() {
    let list = [IpcDevice {
        mac: "A\\".into(),
        name: "\"q\"\t".into(),
        paired: false,
        connected: true,
    }];
    for text in [
        powered_event(false),
        scanning_event(true),
        devices_event(&list),
        pairing_event("a\\\"", "0"),
        toast_event("Bağlandı"),
    ] {
        assert!(!text.contains('\n'));
    }
}

#[test]
fn events_stay_json_lines_whatever_they_tell_of() {
    assert_eq!(toast_event("a\nb\t\u{1f}"), r#"{"t":"toast","msg":"a\u000ab\u0009\u001f"}"#);
    assert_eq!(toast_event("c:\\x"), r#"{"t":"toast","msg":"c:\\x"}"#);
    assert_eq!(
        pairing_event("x", "1\",\"t\":\"toast"),
        r#"{"t":"pairing","device":"x","passkey":"1\",\"t\":\"toast"}"#
    );
    let d = IpcDevice { mac: "A\"\n".into(), name: "\\\"".into(), paired: true, connected: false };
    assert_eq!(
        devices_event(&[d]),
        r#"{"t":"devices","list":[{"mac":"A\"\u000a","name":"\\\"","paired":true,"connected":false}]}"#
    );
}
