//! What the `bacak` command decides and prints.

use bacak_compositor::cli::demo::osk_lines;
use bacak_compositor::cli::device::{
    bt_done, bt_failed, bt_lines, mute_done, mute_target, net_done, net_failed, net_lines,
    output_done, output_failed, sound_lines, volume_done, volume_failed, AudioPort, AudioState,
    BtDevice, BtOp, BtState, NetOp, WifiNetwork, WifiState,
};
use bacak_compositor::cli::files::{
    archive_lines, extracted, format_size, ls_lines, ls_target, Entry, LsTarget,
};
use bacak_compositor::cli::shell::{
    shell_candidates, shell_next, shell_step, shell_ui, shell_url, BrowserOutcome, ShellNext,
    ShellStep,
};
use bacak_compositor::cli::{
    cmd_config, cmd_dock, dock_list, dock_report, edit_verdict, editor_command, report_stored,
    session_cleared, session_lines, session_target, show_config, validate_report, ConfigOp,
    ConfigStep, DockOp, DockStep, NumberTexts, Removal, SessionWindow, StoredFile, Toggle,
};
use bacak_compositor::config::{CompositorConfig, Number};
use bacak_compositor::input::{OskGeometry, OskRect, OskState};
use bacak_compositor::wm::PX;

fn texts(c: &CompositorConfig) -> NumberTexts {
    let t = |n: Number| format!("{}", f32::from_bits(n.bits));
    NumberTexts {
        blur_radius: t(c.blur_radius),
        shadow_top: t(c.shadow_top),
        shadow_step: t(c.shadow_step),
        shadow_floor: t(c.shadow_floor),
        dock_slot_w: t(c.dock_slot_w),
        dock_slot_h: t(c.dock_slot_h),
    }
}

fn set(key: &str, value: &str) -> ConfigOp {
    ConfigOp::SetKey {
        key: key.into(),
        value: value.into(),
        number: value.trim().parse::<f32>().ok().map(|v| Number { bits: v.to_bits() }),
    }
}

#[test]
fn config_show_and_validate_need_little() {
    assert_eq!(
        cmd_config(ConfigOp::Show, None, StoredFile::Absent, None, None),
        Ok(ConfigStep::Show)
    );
    assert_eq!(
        cmd_config(ConfigOp::Validate { file: Some("/f".into()) }, None, StoredFile::Absent, None, None),
        Ok(ConfigStep::Validate { target: "/f".into() })
    );
    assert_eq!(
        cmd_config(ConfigOp::Validate { file: None }, Some("/p"), StoredFile::Absent, None, None),
        Ok(ConfigStep::Validate { target: "/p".into() })
    );
    assert_eq!(
        cmd_config(ConfigOp::Validate { file: None }, None, StoredFile::Absent, None, None),
        Err("could not resolve a config path".into())
    );
}

#[test]
fn config_edit_seeds_a_template() {
    match cmd_config(ConfigOp::Edit, Some("/p"), StoredFile::Absent, Some("code --wait"), Some("nano")) {
        Ok(ConfigStep::Edit { path, seed, editor }) => {
            assert_eq!(path, "/p");
            assert!(seed);
            let e = editor.unwrap();
            assert_eq!(e.program, "code");
            assert_eq!(e.args, ["--wait", "/p"]);
        }
        other => panic!("{other:?}"),
    }
    assert_eq!(editor_command(None, None, "/p").unwrap().program, "vi");
    assert_eq!(editor_command(None, Some("nano"), "/p").unwrap().args, ["/p"]);
    assert!(editor_command(Some("  "), Some("nano"), "/p").is_none());
}

#[test]
fn config_set_keeps_the_other_keys() {
    let stored = CompositorConfig { dock: true, ..CompositorConfig::default() };
    match cmd_config(set("blur", "true"), Some("/p"), StoredFile::Valid(stored), None, None) {
        Ok(ConfigStep::Write { path, config, what }) => {
            assert_eq!((path.as_str(), what.as_str()), ("/p", "set blur"));
            assert!(config.blur && config.dock);
        }
        other => panic!("{other:?}"),
    }
    // What is written is clean.
    match cmd_config(set("shadow_top", "9"), Some("/p"), StoredFile::Absent, None, None) {
        Ok(ConfigStep::Write { config, .. }) => {
            assert_eq!(config.shadow_top, CompositorConfig::default().shadow_top)
        }
        other => panic!("{other:?}"),
    }
    let e = cmd_config(set("blur", "true"), Some("/p"), StoredFile::Invalid("bad".into()), None, None);
    assert_eq!(e, Err("/p: bad\nfix it or run `bacak config edit` first".into()));
    assert!(cmd_config(set("nope", "1"), Some("/p"), StoredFile::Absent, None, None)
        .unwrap_err()
        .contains("unknown key"));
    assert!(cmd_config(set("blur", "true"), None, StoredFile::Absent, None, None).is_err());
}

#[test]
fn config_reset_recovers_even_an_invalid_file() {
    match cmd_config(
        ConfigOp::ResetKey { key: None },
        Some("/p"),
        StoredFile::Invalid("bad".into()),
        None,
        None,
    ) {
        Ok(ConfigStep::Write { config, .. }) => assert_eq!(config, CompositorConfig::default()),
        other => panic!("{other:?}"),
    }
    let stored = CompositorConfig { dock: true, blur: true, ..CompositorConfig::default() };
    match cmd_config(
        ConfigOp::ResetKey { key: Some("blur".into()) },
        Some("/p"),
        StoredFile::Valid(stored),
        None,
        None,
    ) {
        Ok(ConfigStep::Write { config, .. }) => assert!(config.dock && !config.blur),
        other => panic!("{other:?}"),
    }
    assert!(cmd_config(
        ConfigOp::ResetKey { key: Some("blur".into()) },
        Some("/p"),
        StoredFile::Invalid("bad".into()),
        None,
        None
    )
    .is_err());
}

#[test]
fn config_reports_name_the_numbers() {
    let c = CompositorConfig::default();
    let lines = show_config(Some("/p"), true, &c, true, &texts(&c));
    assert_eq!(
        lines,
        [
            "path:           /p",
            "file exists:    true",
            "blur:           false",
            "blur effective: true  (forced by BACAK_BLUR)",
            "blur radius:    24",
            "shadow ramp:    top 1 step 0.18 floor 0.3",
            "dock slot:      96 x 12",
        ]
    );
    assert_eq!(show_config(None, false, &c, false, &texts(&c))[0], "path:           <unresolved>");
    assert_eq!(
        validate_report("/p", Ok(texts(&c))).unwrap(),
        [
            "/p: valid",
            "(sanitised) blur_radius=24 shadow=(1,0.18,0.3) dock=(96x12)",
        ]
    );
    assert_eq!(validate_report("/p", Err("bad".into())), Err("/p: bad".into()));
    assert_eq!(
        edit_verdict("/p", Ok(())),
        Ok("/p: valid (hot-reload will pick it up)".into())
    );
    assert_eq!(
        edit_verdict("/p", Err("bad".into())),
        Err("/p: bad\n(your edits are kept; the compositor falls back to defaults until fixed)".into())
    );
    assert!(report_stored("/p", "set blur", true, &texts(&c)).join("\n").contains("set blur"));
}

fn pinned(pins: &[&str]) -> StoredFile {
    StoredFile::Valid(CompositorConfig {
        dock_pinned: pins.iter().map(|s| s.to_string()).collect(),
        ..CompositorConfig::default()
    })
}

#[test]
fn pins_are_added_once_and_removed() {
    let run = |op, file| match cmd_dock(op, Some("/p"), file) {
        Ok(DockStep::Write { config, note, what, .. }) => (config.dock_pinned, note, what),
        other => panic!("{other:?}"),
    };
    let pin = |a: &str| DockOp::Pin { app: a.into() };
    let unpin = |a: &str| DockOp::Unpin { app: a.into() };
    assert_eq!(
        run(pin("b"), pinned(&["a"])),
        (vec!["a".into(), "b".into()], None, "pin b".into())
    );
    assert_eq!(
        run(pin("a"), pinned(&["a"])),
        (vec!["a".into()], Some("a was already pinned".into()), "pin a".into())
    );
    assert_eq!(run(unpin("a"), pinned(&["a", "b"])), (vec!["b".into()], None, "unpin a".into()));
    assert_eq!(
        run(unpin("c"), pinned(&["a"])),
        (vec!["a".into()], Some("c was not pinned".into()), "unpin c".into())
    );
    assert_eq!(cmd_dock(DockOp::List, None, StoredFile::Absent), Ok(DockStep::List));
    // An odd name is put right; pinning it again adds nothing.
    let once = run(pin(" b, c,,a "), pinned(&["a"])).0;
    assert_eq!(once, ["a", "b", "c"]);
    let once: Vec<&str> = once.iter().map(String::as_str).collect();
    assert_eq!(run(pin(" b, c,,a "), pinned(&once)).0, once);
    assert!(cmd_dock(pin("a"), None, StoredFile::Absent).is_err());
    assert!(cmd_dock(pin("a"), Some("/p"), StoredFile::Invalid("bad".into())).is_err());
    assert_eq!(dock_list(&vec![]), ["(no pinned apps)"]);
    assert_eq!(dock_list(&vec!["a".into(), "b".into()]), ["1. a", "2. b"]);
    let report = dock_report("/p", "pin a", Some("x"), &vec!["a".into()]);
    assert_eq!(report[0], "note: x");
}

#[test]
fn sessions_are_cleared_and_shown() {
    assert_eq!(session_target(Some("/s")), Ok("/s".into()));
    assert_eq!(session_target(None), Err("could not resolve a session path".into()));
    assert_eq!(session_cleared("/s", Removal::Removed), Ok("/s: cleared".into()));
    assert_eq!(session_cleared("/s", Removal::Missing), Ok("/s: nothing to clear".into()));
    assert_eq!(
        session_cleared("/s", Removal::Failed("denied".into())),
        Err("cannot remove /s: denied".into())
    );
    let win = |title: &str| SessionWindow {
        app: "kate".into(),
        title: title.into(),
        x: 10 * PX + PX / 2,
        y: -3 * PX,
        w: 640 * PX,
        h: 480 * PX,
    };
    let lines = session_lines(Some("/s"), true, 2, 1, &vec![win("a.txt"), win("  ")]);
    assert_eq!(lines[2], "primary:        2 workspace(s), active #1");
    assert_eq!(lines[3], "windows:        2");
    assert_eq!(
        lines[4],
        format!("  {:<28} ({:.0}, {:.0}, {:.0}, {:.0})", "kate — a.txt", 10.5, -3.0, 640.0, 480.0)
    );
    assert_eq!(
        lines[5],
        format!("  {:<28} ({:.0}, {:.0}, {:.0}, {:.0})", "kate", 10.5, -3.0, 640.0, 480.0)
    );
}

#[test]
fn lengths_round_as_floats_are_printed() {
    for v in -2000i64..2000 {
        let w = SessionWindow { app: "a".into(), title: String::new(), x: v, y: 0, w: 0, h: 0 };
        let lines = session_lines(None, false, 1, 0, &vec![w]);
        let expected = format!("({:.0}, 0, 0, 0)", v as f64 / 256.0);
        assert!(lines[4].ends_with(&expected), "{v}: {} vs {expected}", lines[4]);
    }
}

/// The size as floating-point arithmetic gives it.
fn float_size(bytes: u64) -> String {
    let units = ["B", "K", "M", "G", "T"];
    let mut v = bytes as f64;
    let mut u = 0;
    while v >= 1024.0 && u + 1 < units.len() {
        v /= 1024.0;
        u += 1;
    }
    if u == 0 {
        format!("{bytes} {}", units[0])
    } else {
        format!("{v:>5.1} {}", units[u])
    }
}

#[test]
fn sizes_are_as_floats_print_them() {
    let mut samples: Vec<u64> = (0..5000).collect();
    for shift in 10..64 {
        let p = 1u64 << shift;
        for d in [0, 1, 2, 51, 52, 127, 1023] {
            samples.push(p + d);
            samples.push(p - d);
            samples.push(p + (p >> 1) + d);
            samples.push(p + (p / 20) * (d + 1) % p);
        }
    }
    samples.push(u64::MAX);
    samples.push(u64::MAX - 1024);
    for b in samples {
        assert_eq!(format_size(b), float_size(b), "{b}");
    }
    assert_eq!(format_size(0), "0 B");
    assert_eq!(format_size(1536), "  1.5 K");
    assert_eq!(format_size(1024 * 1024 - 1), "1024.0 K");
}

#[test]
fn listings_are_laid_out() {
    assert_eq!(ls_target("", None), LsTarget::Native { path: ".".into() });
    assert_eq!(ls_target("/x", None), LsTarget::Native { path: "/x".into() });
    assert_eq!(
        ls_target("in", Some("/a.zip")),
        LsTarget::Archive { archive: "/a.zip".into(), inside: "in".into() }
    );
    let entries = vec![
        Entry { name: "docs".into(), is_dir: true, size: 4096, mime: None },
        Entry { name: "a.txt".into(), is_dir: false, size: 2048, mime: Some("text/plain".into()) },
    ];
    let lines = ls_lines(&entries);
    assert_eq!(lines[0], format!("DIR  {:>10}  {:<28}  ", "    -", "docs"));
    assert_eq!(lines[1], format!("     {:>10}  {:<28}  text/plain", "  2.0 K", "a.txt"));
    let lines = archive_lines(&entries);
    assert_eq!(lines[0], format!("DIR  {:>10}  docs", "  4.0 K"));
    assert_eq!(extracted(12, "/t/x"), "wrote 12 bytes to /t/x");
}

#[test]
fn sound_is_reported() {
    let port = |name: &str, d| AudioPort { name: name.into(), kind: "Speaker".into(), is_default: d };
    let s = AudioState {
        master_volume: 42,
        muted: true,
        sinks: vec![port("Built-in", true), port("HDMI", false)],
        sources: vec![port("Mic", true)],
    };
    let text = sound_lines(&s).join("\n");
    assert!(text.starts_with("Volume:  42  (muted)\n\nOutput sinks:\n"));
    assert!(text.contains(&format!("  ✓ {:<22}  Speaker", "Built-in")));
    assert!(text.contains(&format!("    {:<22}  Speaker", "HDMI")));
    assert!(mute_target(true, false, true));
    assert!(!mute_target(false, true, false));
    assert!(!mute_target(false, false, true));
    assert!(mute_target(true, true, false));
    assert_eq!(volume_done(7), "Volume now 7");
    assert_eq!(mute_done(false), "Mute: off");
    assert_eq!(output_done(None), "Active output: ?");
    assert_eq!(output_failed("x"), "select_sink(x)");
    assert_eq!(volume_failed(), "set_volume");
}

#[test]
fn networks_are_reported() {
    let s = WifiState {
        enabled: true,
        connected_ssid: Some("Home".into()),
        ip: Some("10.0.0.2".into()),
        networks: vec![WifiNetwork {
            ssid: "Home".into(),
            signal_dbm: -48,
            bars: 4,
            secured: true,
            bssid: "aa:bb".into(),
        }],
    };
    let text = net_lines(&s).join("\n");
    assert!(text.starts_with("Wi-Fi:      on\nConnected:  Home  (10.0.0.2)\n\nNetworks (1):\n"));
    assert!(text.contains(&format!("{:<22} {:>5} {:>4} {:<8} BSSID", "SSID", "dBm", "bars", "secured")));
    assert!(text.ends_with(&format!("{:<22} {:>5} {:>4} {:<8} {}", "Home", -48, 4, "yes", "aa:bb")));
    let off = WifiState { enabled: false, ip: None, ..s };
    assert!(net_lines(&off).join("\n").contains("Connected:  —"));
    assert_eq!(net_done(&NetOp::State, None), None);
    assert_eq!(net_done(&NetOp::Toggle { state: Toggle::Off }, None).unwrap(), "Wi-Fi disabled");
    let connect = NetOp::Connect { ssid: "Home".into(), password: None };
    assert_eq!(net_done(&connect, None).unwrap(), "Connected to Home (?)");
    assert_eq!(net_done(&NetOp::Disconnect, None).unwrap(), "Disconnected");
    assert_eq!(net_failed(&connect).unwrap(), "connect(Home)");
    assert_eq!(net_failed(&NetOp::Disconnect), None);
    assert!(Toggle::On.as_bool());
}

#[test]
fn bluetooth_is_reported() {
    let s = BtState {
        enabled: true,
        discovering: false,
        device_name: "bacak".into(),
        devices: vec![
            BtDevice {
                name: "Buds".into(),
                kind: "Headphones".into(),
                paired: true,
                connected: true,
                battery: Some(80),
            },
            BtDevice {
                name: "Mouse".into(),
                kind: "Mouse".into(),
                paired: false,
                connected: false,
                battery: None,
            },
        ],
    };
    let text = bt_lines(&s).join("\n");
    assert!(text.starts_with("Bluetooth:    on\nDiscovering:  no\nDevice name:  bacak\n"));
    assert!(text.contains(&format!(
        "{:<22} {:<12} {:<8} {:<10} 80%",
        "Buds", "Headphones", "yes", "yes"
    )));
    assert!(text.ends_with(&format!("{:<22} {:<12} {:<8} {:<10} —", "Mouse", "Mouse", "no", "no")));
    assert_eq!(bt_done(&BtOp::State), None);
    assert_eq!(bt_done(&BtOp::Scan { state: Toggle::On }).unwrap(), "Scan started");
    assert_eq!(bt_done(&BtOp::Pair { mac: "AA".into() }).unwrap(), "Paired AA");
    assert_eq!(bt_failed(&BtOp::Connect { mac: "AA".into() }).unwrap(), "connect(AA)");
    assert_eq!(bt_failed(&BtOp::State), None);
}

#[test]
fn the_shell_runs_in_the_first_browser_that_works() {
    assert_eq!(shell_candidates().len(), 3);
    assert_eq!(shell_ui(false, true, true).unwrap(), shell_candidates()[1]);
    assert!(shell_ui(false, false, false).is_err());
    assert_eq!(shell_url("/x/index.html"), "file:///x/index.html");
    assert_eq!(
        shell_step(0, true, "u"),
        ShellStep::Print {
            line: "would exec: chromium --kiosk --no-first-run --ozone-platform-hint=auto u".into()
        }
    );
    match shell_step(3, false, "u") {
        ShellStep::Run { browser } => {
            assert_eq!(browser.program, "firefox");
            assert_eq!(browser.args, ["--kiosk", "u"]);
        }
        other => panic!("{other:?}"),
    }
    assert!(matches!(shell_step(5, false, "u"), ShellStep::Fail { .. }));
    assert_eq!(shell_next(0, BrowserOutcome::Success), ShellNext::Done);
    assert_eq!(shell_next(0, BrowserOutcome::NotFound), ShellNext::Try { rank: 1 });
    assert_eq!(shell_next(1, BrowserOutcome::Failure), ShellNext::Try { rank: 2 });
    assert_eq!(
        shell_next(3, BrowserOutcome::NotStarted),
        ShellNext::Fail { context: "failed to spawn firefox".into() }
    );
}

#[test]
fn the_keyboard_demo_is_described() {
    let g = OskGeometry {
        panel: OskRect { x: 0, y: 620 * PX, w: 1440 * PX, h: 280 * PX },
        reserved_top_y: 620 * PX,
    };
    for scroll in -3000..3000i64 {
        let lines = osk_lines(OskState::Open, "Go", &g, scroll);
        assert_eq!(
            lines,
            [
                "OSK state:        Open".to_string(),
                "Enter key label:  Go".to_string(),
                "OSK panel:        (0, 620, 1440, 280)".to_string(),
                "Reserved top y:   620".to_string(),
                format!("Field overlaps → viewport scroll: {:.1}px", scroll as f64 / 256.0),
            ]
        );
    }
}
