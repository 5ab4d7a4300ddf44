//! Wi-Fi, Ethernet, Bluetooth and audio controls.

use bacak_compositor::config::Number;
use bacak_compositor::controls::{
    bt_enabled, captured, datetime, details_for_device, eth_device_sysfs, ethernet_details, ethernet_link_up,
    ethernet_set_link, is_muted, list_sinks, list_sources, mic_volume, move_streams, net_device,
    nmcli_unescape,
    parse_wifi_list, parse_wpa_scan, power_off, reboot, set_bt, set_default_sink, set_default_source,
    set_mute,
    set_volume, set_wifi, split_terse, volume, wifi_connect, wifi_connect_added,
    wifi_connect_polled, wifi_details, wifi_device_sysfs, wifi_enabled, wifi_rescan_trigger,
    wifi_scan_cached, wifi_set_autoconnect, wifi_set_dhcp, wifi_set_static, wifi_ssid, ConnectStep, Invocation, NetEntry,
};

#[test]
fn split_terse_unescapes_colons() {
    // nmcli pads the IN-USE column with a space; `wifi_scan` trims it.
    assert_eq!(split_terse(" :100:WPA2:Samm_IoT"), [" ", "100", "WPA2", "Samm_IoT"]);
    // An SSID containing a literal ':' is escaped by nmcli as '\:'.
    assert_eq!(split_terse("*:80:WPA2:My\\:Net"), ["*", "80", "WPA2", "My:Net"]);
}

fn line(i: &Invocation) -> String {
    let mut s = i.program.clone();
    for a in &i.args {
        s.push(' ');
        s.push_str(a);
    }
    s
}

fn lines(v: &[Invocation]) -> Vec<String> {
    v.iter().map(line).collect()
}

#[test]
fn queries_are_trimmed() {
    assert_eq!(captured(Some(" a b\n")).as_deref(), Some("a b"));
    assert_eq!(captured(None), None);
}

fn dev(name: &str, kind: &str, wireless: bool, device: bool) -> NetEntry {
    NetEntry { name: name.into(), kind: Some(kind.into()), wireless, device }
}

#[test]
fn devices_are_told_apart() {
    let all = vec![
        dev("lo", "772\n", false, false),
        dev("wlan0", "1\n", true, true),
        dev("veth0", "1\n", false, false),
        dev("enp3s0", "1\n", false, true),
    ];
    assert_eq!(wifi_device_sysfs(&all).as_deref(), Some("wlan0"));
    assert_eq!(eth_device_sysfs(&all).as_deref(), Some("enp3s0"));
    assert_eq!(wifi_device_sysfs(&vec![]), None);
    assert!(ethernet_link_up(Some("up\n")));
    assert!(!ethernet_link_up(Some("down\n")));
    assert!(!ethernet_link_up(None));
}

#[test]
fn the_radio_is_on_when_its_flag_is() {
    assert!(wifi_enabled(Some("0x1003\n")));
    assert!(!wifi_enabled(Some("0x1002\n")));
    assert!(!wifi_enabled(Some("junk")));
    assert!(!wifi_enabled(None));
}

#[test]
fn switching_the_radio_starts_and_stops_the_supplicant() {
    let on = set_wifi(Some("wlan0"), true, false, false, None);
    assert!(on.write_conf);
    assert_eq!(
        lines(&on.runs),
        [
            "ip link set wlan0 up",
            "wpa_supplicant -B -i wlan0 -c /tmp/bacak-wpa.conf -P /tmp/wpa_wlan0.pid",
        ]
    );
    let off = set_wifi(Some("wlan0"), false, true, true, Some("42\n"));
    assert_eq!(lines(&off.runs), ["kill 42", "ip link set wlan0 down"]);
    assert!(set_wifi(None, true, false, false, None).runs.is_empty());
}

#[test]
fn networks_are_ranked_and_distinct() {
    let out = "bssid / frequency / signal level / flags / ssid\n\
               aa\t2412\t-50\t[WPA2-PSK]\tHome\n\
               bb\t2412\t-30\t[ESS]\tOpen\n\
               cc\t2412\t-90\t[WEP]\tHome\n\
               dd\t2412\tx\t[WEP]\tOld\n\
               ee\t2412\t-60\t[ESS]\t\n";
    let nets = parse_wpa_scan(out, Some("Home"));
    let seen: Vec<(&str, u8, bool, bool)> =
        nets.iter().map(|n| (n.ssid.as_str(), n.signal, n.secured, n.active)).collect();
    assert_eq!(
        seen,
        [("Home", 100, true, true), ("Open", 100, false, false), ("Old", 0, true, false)]
    );
    assert_eq!(wifi_scan_cached(Some(out), None).len(), 3);
    assert!(wifi_scan_cached(None, None).is_empty());
    let list = parse_wifi_list("*:80:WPA2:A\n :90::B\n :70:WPA2:A\n");
    assert_eq!((list[0].ssid.as_str(), list[0].secured), ("B", false));
    assert_eq!(list[1].ssid, "A");
    assert!(list[1].active && list[1].secured);
    assert_eq!(list.len(), 2);
    // The strongest comes first, connected or not; equal ones stay as they came.
    let list = parse_wifi_list(" :90:WPA2:Cafe\n*:40:WPA2:Home\n :90:--:Park\n");
    let seen: Vec<(&str, u8, bool)> =
        list.iter().map(|n| (n.ssid.as_str(), n.signal, n.active)).collect();
    assert_eq!(seen, [("Cafe", 90, false), ("Park", 90, false), ("Home", 40, true)]);
}

#[test]
fn status_lines_give_the_network() {
    assert_eq!(wifi_ssid(Some("bssid=aa\nssid=Home\nwpa_state=COMPLETED\n")).as_deref(), Some("Home"));
    assert_eq!(wifi_ssid(Some("wpa_state=SCANNING\n")), None);
    assert_eq!(wifi_ssid(None), None);
}

#[test]
fn connecting_goes_step_by_step() {
    assert!(matches!(
        wifi_connect(None, true),
        ConnectStep::Done { ok: false, ref message, .. } if message == "Wi-Fi arayüzü bulunamadı"
    ));
    assert!(matches!(wifi_connect(Some("wlan0"), false), ConnectStep::Done { ok: false, .. }));
    match wifi_connect(Some("wlan0"), true) {
        ConnectStep::Add(i) => assert_eq!(line(&i), "wpa_cli -i wlan0 -p /run/wpa_supplicant add_network"),
        _ => panic!("a slot is added first"),
    }
    assert!(matches!(
        wifi_connect_added("wlan0", "Home", None, None),
        ConnectStep::Done { ok: false, ref message, .. } if message == "wpa_cli hatası"
    ));
    assert!(matches!(
        wifi_connect_added("wlan0", "Home", None, Some("FAIL\n")),
        ConnectStep::Done { ok: false, ref message, .. } if message == "Ağ eklenemedi: FAIL"
    ));
    match wifi_connect_added("wlan0", "Ho\"me", Some("pw"), Some("3\n")) {
        ConnectStep::Setup { net_id, runs } => {
            assert_eq!(net_id, "3");
            let p = "wpa_cli -i wlan0 -p /run/wpa_supplicant";
            assert_eq!(
                lines(&runs),
                [
                    format!("{p} set_network 3 ssid \"Ho\\\"me\""),
                    format!("{p} set_network 3 psk \"pw\""),
                    format!("{p} select_network 3"),
                    format!("{p} save_config"),
                ]
            );
        }
        _ => panic!("the slot is set up"),
    }
    match wifi_connect_added("wlan0", "Cafe", Some(""), Some("4")) {
        ConnectStep::Setup { runs, .. } => assert!(line(&runs[1]).ends_with("key_mgmt NONE")),
        _ => panic!("the slot is set up"),
    }
    assert!(matches!(wifi_connect_polled("wlan0", "Home", "3", 1, None), ConnectStep::Again));
    match wifi_connect_polled("wlan0", "Home", "3", 2, Some("wpa_state=COMPLETED\n")) {
        ConnectStep::Done { runs, ok: true, message } => {
            assert_eq!(lines(&runs), ["dhcpcd -n wlan0"]);
            assert_eq!(message, "Bağlandı: Home");
        }
        _ => panic!("it is connected"),
    }
    match wifi_connect_polled("wlan0", "Home", "3", 20, Some("wpa_state=SCANNING\n")) {
        ConnectStep::Done { runs, ok: false, message } => {
            assert!(line(&runs[0]).ends_with("remove_network 3"));
            assert_eq!(message, "Bağlanılamadı");
        }
        _ => panic!("it is given up"),
    }
    assert!(wifi_rescan_trigger(None, true).is_none());
}

#[test]
fn details_are_gathered_from_several_tools() {
    let addr = "2: wlan0: <UP>\n    inet 192.168.1.5/24 brd 192.168.1.255 scope global wlan0\n    inet6 fe80::1/64 scope link\n";
    let route = "default via 192.168.1.1 dev wlan0 proto dhcp\n";
    let d = wifi_details(
        Some("wlan0"),
        Some("aa:bb:cc:dd:ee:ff\n"),
        Some("ssid=Home\nwpa_state=COMPLETED\n"),
        Some(addr),
        Some(route),
    )
    .unwrap();
    assert_eq!(d.conn, "Home");
    assert_eq!(d.device, "wlan0");
    assert!(d.ipv4.starts_with("192.168.1.5"));
    assert_eq!(d.gateway, "192.168.1.1");
    assert!(d.connected);
    assert!(wifi_details(None, None, None, None, None).is_none());
    let e = ethernet_details(
        Some("enp3s0"),
        Some("aa:bb:cc:dd:ee:ff\n"),
        Some("up\n"),
        Some(addr),
        Some(route),
        Some("nameserver 1.1.1.1\n"),
    )
    .unwrap();
    assert!(e.connected);
    assert!(e.dns.contains("1.1.1.1"));
    assert!(ethernet_details(None, None, None, None, None, None).is_none());
}

#[test]
fn escapes_are_undone() {
    let text: Vec<char> = "a\\:b\\\\c".chars().collect();
    let plain: String = nmcli_unescape(&text).into_iter().collect();
    assert_eq!(plain, "a:b\\c");
}

#[test]
fn links_and_adapters_are_switched() {
    assert_eq!(line(&ethernet_set_link(Some("enp3s0"), true).unwrap()), "ip link set enp3s0 up");
    assert!(ethernet_set_link(None, true).is_none());
    assert_eq!(line(&set_bt(false)), "bluetoothctl power off");
    assert!(bt_enabled(Some("Controller X\n\tPowered: yes\n")));
    assert!(!bt_enabled(Some("\tPowered: no\n")));
    assert!(!bt_enabled(None));
}

fn read(out: &str) -> Vec<Option<Number>> {
    out.split_whitespace()
        .map(|w| w.parse::<f32>().ok().map(|v| Number { bits: v.to_bits() }))
        .collect()
}

fn level(n: Number) -> f32 {
    f32::from_bits(n.bits)
}

#[test]
fn volumes_are_read_and_kept_in_range() {
    let out = "Volume: 0.55 [MUTED]";
    let (l, muted) = volume(Some(out), &read(out));
    assert_eq!((level(l), muted), (0.55, true));
    assert!(is_muted(Some(out)));
    let out = "Volume: 1.40";
    let (l, muted) = volume(Some(out), &read(out));
    assert_eq!((level(l), muted), (1.0, false));
    assert_eq!(level(volume(None, &vec![]).0), 0.5);
    assert_eq!(level(volume(Some("?"), &read("?")).0), 0.5);
    assert_eq!(level(mic_volume(None, &vec![]).0), 0.75);
    assert_eq!(level(mic_volume(Some("Volume: 0.1"), &read("Volume: 0.1")).0), 0.1);
    // A word that reads as no number gives no level.
    let out = "Volume: nan 2.5";
    assert_eq!(level(volume(Some(out), &read(out)).0), 1.0);
    assert_eq!(level(volume(Some("nan"), &read("nan")).0), 0.5);
    assert_eq!(line(&set_volume("0.55")), "wpctl set-volume @DEFAULT_AUDIO_SINK@ 0.55");
    assert_eq!(line(&set_mute(true)), "wpctl set-mute @DEFAULT_AUDIO_SINK@ 1");
}

#[test]
fn audio_devices_are_listed() {
    let status = "Audio\n ├─ Devices:\n │      40. Card\n ├─ Sinks:\n │  *   51. Built-in [vol: 0.55]\n │      52. HDMI [vol: 1.00]\n │      53. * Speakers [vol: 0.40]\n ├─ Sources:\n │      60. * Mic [vol: 1.00]\n ├─ Filters:\n";
    let sinks = list_sinks(Some(status));
    let seen: Vec<(&str, &str, bool)> =
        sinks.iter().map(|s| (s.id.as_str(), s.name.as_str(), s.is_default)).collect();
    assert_eq!(seen, [("52", "HDMI", false), ("53", "Speakers", true)]);
    let sources = list_sources(Some(status));
    assert_eq!(sources.len(), 1);
    assert!(sources[0].is_default);
    assert!(list_sinks(None).is_empty());
    assert_eq!(line(&set_default_sink("52")), "wpctl set-default 52");
}

#[test]
fn power_and_clock() {
    assert_eq!(line(&power_off()), "systemctl poweroff");
    assert_eq!(line(&reboot()), "systemctl reboot");
    assert_eq!(datetime(Some("12:00")), "12:00");
    assert_eq!(datetime(None), "");
}

#[test]
fn network_manager_devices_are_found() {
    let out = "lo:loopback\np2p-dev-wlan0:wifi\nwlan0:wifi\nenp3s0:ethernet";
    assert_eq!(net_device("wifi", Some(out)).as_deref(), Some("wlan0"));
    assert_eq!(net_device("ethernet", Some(out)).as_deref(), Some("enp3s0"));
    assert_eq!(net_device("bridge", Some(out)), None);
    assert_eq!(net_device("wifi", None), None);
}

#[test]
fn network_manager_details_are_read() {
    let show = "GENERAL.HWADDR:AA\\:BB\nGENERAL.CONNECTION:Home\nGENERAL.STATE:100 (connected)\n\
                GENERAL.NM-MANAGED:yes\nIP4.ADDRESS[1]:10.0.0.2/24\nIP4.ADDRESS[2]:10.0.0.3/24\n\
                IP4.GATEWAY:10.0.0.1\nIP4.DNS[1]:1.1.1.1";
    let props = "connection.autoconnect:no\nipv4.method:manual";
    let d = details_for_device("wlan0", Some(show), Some(props)).unwrap();
    assert_eq!((d.mac.as_str(), d.conn.as_str(), d.device.as_str()), ("AA:BB", "Home", "wlan0"));
    assert_eq!((d.ipv4.as_str(), d.gateway.as_str(), d.dns.as_str()), ("10.0.0.2/24", "10.0.0.1", "1.1.1.1"));
    assert!(d.connected && d.managed && !d.autoconnect && !d.dhcp);
    assert_eq!(details_for_device("wlan0", Some("GENERAL.STATE:10 (unmanaged)"), None), None);
    assert_eq!(details_for_device("wlan0", None, Some(props)), None);
}

#[test]
fn addresses_are_leased_or_set() {
    assert_eq!(wifi_set_autoconnect("Home", true), None);
    assert_eq!(wifi_set_dhcp(None), None);
    assert_eq!(line(&wifi_set_dhcp(Some("wlan0")).unwrap()), "dhcpcd -n wlan0");
    assert_eq!(wifi_set_static(None, "10.0.0.2/24", ""), None);
    assert_eq!(
        lines(&wifi_set_static(Some("wlan0"), "10.0.0.2/24", "").unwrap()),
        ["ip addr add 10.0.0.2/24 dev wlan0"]
    );
    assert_eq!(
        lines(&wifi_set_static(Some("wlan0"), "10.0.0.2/24", "10.0.0.1").unwrap()),
        [
            "ip addr add 10.0.0.2/24 dev wlan0",
            "ip route replace default via 10.0.0.1 dev wlan0"
        ]
    );
}

#[test]
fn running_streams_follow_the_default() {
    assert_eq!(line(&set_default_source("51")), "wpctl set-default 51");
    assert_eq!(
        lines(&move_streams(true, Some("hdmi\n"), Some("12 x\n\n13 y"))),
        ["pactl move-sink-input 12 hdmi", "pactl move-sink-input 13 hdmi"]
    );
    assert_eq!(
        lines(&move_streams(false, Some("mic"), Some("7"))),
        ["pactl move-source-output 7 mic"]
    );
    assert!(move_streams(true, Some(" "), Some("12")).is_empty());
    assert!(move_streams(true, None, Some("12")).is_empty());
    assert!(move_streams(true, Some("hdmi"), None).is_empty());
}
