//! The Bluetooth coprocess and its line protocol.

use bacak_compositor::bluetooth::{
    clean, connected_macs, device_info, device_info_readable, icon_to_type, is_mac, log_path,
    paired_devices, parse_device_lines, parse_line, parse_prompt, send_file_obex,
    start_obex_receiver, strip_ansi, BtEvent, BtOutput, BtReader, BtRequest,
};

#[test]
fn parses_controller_and_devices() {
    assert_eq!(
        parse_line("[CHG] Controller 40:9C:A7:38:0A:F7 Powered: yes\n"),
        Some(BtEvent::Powered(true))
    );
    assert_eq!(
        parse_line("[CHG] Controller 40:9C:A7:38:0A:F7 Discovering: no\n"),
        Some(BtEvent::Discovering(false))
    );
    assert_eq!(
        parse_line("[NEW] Device D8:5D:E2:69:DC:B2 D8-5D-E2-69-DC-B2\n"),
        Some(BtEvent::Device { mac: "D8:5D:E2:69:DC:B2".into(), name: "D8-5D-E2-69-DC-B2".into() })
    );
    assert_eq!(
        parse_line("[CHG] Device D8:5D:E2:69:DC:B2 Name: BRAVIA 4K\n"),
        Some(BtEvent::Device { mac: "D8:5D:E2:69:DC:B2".into(), name: "BRAVIA 4K".into() })
    );
    assert_eq!(
        parse_line("[CHG] Device D8:5D:E2:69:DC:B2 Connected: yes\n"),
        Some(BtEvent::Connected { mac: "D8:5D:E2:69:DC:B2".into(), connected: true })
    );
    assert_eq!(
        parse_line("Device 63:B7:52:BF:F4:61 Sony WH-1000XM4\n"),
        Some(BtEvent::Device { mac: "63:B7:52:BF:F4:61".into(), name: "Sony WH-1000XM4".into() })
    );
    // RSSI/UUID changes are ignored.
    assert_eq!(parse_line("[CHG] Device 63:B7:52:BF:F4:61 RSSI: -52\n"), None);
}

#[test]
fn strips_prompt_noise() {
    // The captured stream prefixes lines with the prompt + erase-line code.
    assert_eq!(
        parse_line("[bluetoothctl]> \u{1b}[K[CHG] Controller 40:9C:A7:38:0A:F7 Powered: yes\n"),
        Some(BtEvent::Powered(true))
    );
}

#[test]
fn parses_agent_prompts() {
    assert_eq!(
        parse_prompt("[agent] Confirm passkey 123456 (yes/no): "),
        Some(BtEvent::ConfirmPasskey { mac: String::new(), passkey: "123456".into() })
    );
    assert_eq!(
        parse_prompt("[agent] Enter PIN code: "),
        Some(BtEvent::RequestPin { mac: String::new() })
    );
    assert_eq!(
        parse_prompt("[agent] Enter passkey (number in 0-999999): "),
        Some(BtEvent::RequestPasskey { mac: String::new() })
    );
}

#[test]
fn confirm_passkey_survives_a_trailing_newline() {
    // Some builds echo a newline after the prompt → it arrives as a complete
    // line. The reader tries `parse_prompt` per-line, so it must still match.
    assert_eq!(
        parse_prompt("[bluetoothctl]> \u{1b}[K[agent] Confirm passkey 097541 (yes/no):\n"),
        Some(BtEvent::ConfirmPasskey { mac: String::new(), passkey: "097541".into() })
    );
    // A `[CHG] Device … Passkey: NNN` display line (parse_line ignores it,
    // then parse_prompt surfaces it as a display passkey).
    assert!(parse_line("[CHG] Device D8:5D:E2:69:DC:B2 Passkey: 097541\n").is_none());
    assert_eq!(
        parse_prompt("[CHG] Device D8:5D:E2:69:DC:B2 Passkey: 097541\n"),
        Some(BtEvent::DisplayPasskey { mac: String::new(), passkey: "097541".into() })
    );
}

fn chars(s: &str) -> Vec<char> {
    s.chars().collect()
}

fn text(v: Vec<char>) -> String {
    v.into_iter().collect()
}

#[test]
fn escape_sequences_and_prompts_are_stripped() {
    assert_eq!(text(strip_ansi(&chars("\u{1b}[0;94mhi\u{1b}[0m!"))), "hi!");
    assert_eq!(text(clean(&chars("  [bluetoothctl]> [bluetoothctl]> yes \r\n"))), "yes");
    assert_eq!(text(clean(&chars("[bluetoothctl]> \u{1b}[Kready"))), "ready");
}

#[test]
fn addresses_are_told_from_names() {
    assert!(is_mac(&chars("D8:5D:E2:69:DC:B2")));
    assert!(is_mac(&chars("d8:5d:e2:69:dc:b2")));
    assert!(!is_mac(&chars("D8-5D-E2-69-DC-B2")));
    assert!(!is_mac(&chars("D8:5D:E2:69:DC")));
    assert!(!is_mac(&chars("")));
}

#[test]
fn reader_keeps_unfinished_lines_and_answers_prompts() {
    let mut r = BtReader::new();
    assert!(r.feed("[CHG] Controller 40:9C:A7:38:0A:F7 Pow").is_empty());
    let out = r.feed("ered: yes\nnoise\n[agent] Enter PIN code: ");
    let events: Vec<BtEvent> = out
        .iter()
        .filter_map(|o| match o {
            BtOutput::Event(e) => Some(e.clone()),
            _ => None,
        })
        .collect();
    assert_eq!(
        events,
        vec![BtEvent::Powered(true), BtEvent::RequestPin { mac: String::new() }]
    );
    // The prompt was consumed: what follows starts a line of its own.
    let out = r.feed("[CHG] Controller 40:9C:A7:38:0A:F7 Discovering: yes\n");
    assert!(out.iter().any(|o| matches!(o, BtOutput::Event(BtEvent::Discovering(true)))));
}

#[test]
fn device_lists_are_read_line_by_line() {
    let out = "Device 63:B7:52:BF:F4:61 Sony WH-1000XM4\njunk\nDevice D8:5D:E2:69:DC:B2\n";
    let expected = vec![
        ("63:B7:52:BF:F4:61".to_string(), "Sony WH-1000XM4".to_string()),
        ("D8:5D:E2:69:DC:B2".to_string(), String::new()),
    ];
    assert_eq!(parse_device_lines(out), expected);
    assert_eq!(paired_devices(Some(out)), expected);
    assert!(paired_devices(None).is_empty());
    assert_eq!(connected_macs(Some(out)), ["63:B7:52:BF:F4:61", "D8:5D:E2:69:DC:B2"]);
    assert!(connected_macs(None).is_empty());
}

#[test]
fn device_info_gives_battery_and_icon() {
    let out = "Device X\n\tName: Buds\n\tIcon: audio-headset\n\tBattery Percentage: 0x50 (80)\n";
    assert!(device_info_readable(out));
    assert_eq!(device_info(Some(out)), (Some(80), "audio-headset".to_string()));
    assert_eq!(device_info(Some("\tBattery Percentage: 0x1f4 (500)\n")), (None, String::new()));
    assert_eq!(device_info(None), (None, String::new()));
    assert!(!device_info_readable("Battery Percentage: ) (\n"));
}

#[test]
fn icons_name_the_kind_of_device() {
    assert_eq!(icon_to_type("phone"), "Telefon");
    assert_eq!(icon_to_type("audio-headphones"), "Kulaklık");
    assert_eq!(icon_to_type("toaster"), "");
}

#[test]
fn requests_are_written_as_the_coprocess_reads_them() {
    assert_eq!(BtRequest::Agent.line(), "agent KeyboardDisplay");
    assert_eq!(BtRequest::DefaultAgent.line(), "default-agent");
    assert_eq!(BtRequest::Power(false).line(), "power off");
    assert_eq!(BtRequest::Scan(true).line(), "scan on");
    assert_eq!(BtRequest::ListDevices.line(), "devices");
    assert_eq!(BtRequest::Pair("AA".into()).line(), "pair AA");
    assert_eq!(BtRequest::Remove("AA".into()).line(), "remove AA");
    assert_eq!(BtRequest::AgentYes(false).line(), "no");
    assert_eq!(BtRequest::AgentValue("0000".into()).line(), "0000");
    assert_eq!(BtRequest::Quit.line(), "quit");
}

#[test]
fn obex_jobs_run_on_the_users_bus() {
    let job = send_file_obex(Some("/home/u"), Some("/run/user/7"), "AA", "/tmp/f");
    assert_eq!(job.dir, "/home/u/.cache/bacak");
    assert_eq!(job.script, "/home/u/.cache/bacak/obex-send.py");
    assert_eq!(job.args, ["AA", "/tmp/f"]);
    assert_eq!(job.bus, "unix:path=/run/user/7/bus");
    let job = start_obex_receiver(None, None);
    assert_eq!(job.script, "/tmp/.cache/bacak/obex-agent.py");
    assert!(job.args.is_empty());
    assert_eq!(job.bus, "unix:path=/run/user/1000/bus");
    assert_eq!(log_path(None), "/tmp/bacak-bt.log");
    assert_eq!(log_path(Some("/home/u")), "/home/u/bacak-bt.log");
}

#[test]
fn lines_are_the_same_however_they_are_cut() {
    let stream = "[CHG] Controller 40:9C:A7:38:0A:F7 Powered: yes\n\
                  Device 63:B7:52:BF:F4:61 Sony\nrest";
    let mut whole = BtReader::new();
    let all = whole.feed(stream);
    assert_eq!(all.iter().filter(|o| matches!(o, BtOutput::Event(_))).count(), 2);
    for cut in 0..stream.len() {
        let mut parts = BtReader::new();
        let mut got = parts.feed(&stream[..cut]);
        got.extend(parts.feed(&stream[cut..]));
        assert_eq!(got, all, "cut at {cut}");
    }
}

#[test]
fn a_clean_line_stays_as_it_is() {
    for line in [
        "[bluetoothctl]> \u{1b}[K[CHG] Powered: yes\n",
        "[bluetoothctl]> [bluetoothctl]> [bluetoothctl]>",
        "  plain  ",
        "\u{1b}[0;94m[agent]\u{1b}[0m ",
    ] {
        let once = clean(&chars(line));
        assert_eq!(clean(&once), once);
    }
}
