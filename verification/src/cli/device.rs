//! Audio, Wi-Fi and Bluetooth from the command line.

use vstd::prelude::*;

use crate::cli::Toggle;
use crate::text::{
    chars_of, concat2, concat3, decimal, decimal_of, opt_str, own, padded, padded_left, push_all,
    push_padded, push_padded_left, push_str, signed_decimal, signed_decimal_of, string_of, strings,
    law_padded,
};

verus! {

pub open spec fn yes_no(b: bool) -> Seq<char> {
    if b {
        "yes"@
    } else {
        "no"@
    }
}

pub open spec fn on_off(b: bool) -> Seq<char> {
    if b {
        "on"@
    } else {
        "off"@
    }
}

fn yes_or_no(b: bool) -> (r: &'static str)
    ensures
        r@ == yes_no(b),
{
    if b {
        "yes"
    } else {
        "no"
    }
}

fn on_or_off(b: bool) -> (r: &'static str)
    ensures
        r@ == on_off(b),
{
    if b {
        "on"
    } else {
        "off"
    }
}

fn number_line(head: &str, n: u64) -> (r: String)
    ensures
        r@ == head@ + decimal(n as nat),
{
    let mut v: Vec<char> = chars_of(head);
    let d: Vec<char> = decimal_of(n);
    push_all(&mut v, d.as_slice());
    string_of(v.as_slice())
}

// ---------------------------------------------------------------------------
// Audio
// ---------------------------------------------------------------------------

/// A sink or a source; `kind` is how its kind is printed.
#[derive(Debug, Clone, PartialEq, Eq)]
pub struct AudioPort {
    pub name: String,
    pub kind: String,
    pub is_default: bool,
}

#[derive(Debug, Clone, PartialEq, Eq)]
pub struct AudioState {
    pub master_volume: u8,
    pub muted: bool,
    pub sinks: Vec<AudioPort>,
    pub sources: Vec<AudioPort>,
}

pub open spec fn port_line(p: AudioPort) -> Seq<char> {
    "  "@ + (if p.is_default {
        "✓"@
    } else {
        " "@
    }) + " "@ + padded(p.name@, 22) + "  "@ + p.kind@
}

pub open spec fn port_lines(ps: Seq<AudioPort>, n: int) -> Seq<Seq<char>>
    decreases n,
{
    if n <= 0 {
        seq![]
    } else {
        port_lines(ps, n - 1).push(port_line(ps[n - 1]))
    }
}

fn show_port(p: &AudioPort) -> (r: String)
    ensures
        r@ == port_line(*p),
{
    let mut v: Vec<char> = chars_of("  ");
    push_str(
        &mut v,
        if p.is_default {
            "✓"
        } else {
            " "
        },
    );
    push_str(&mut v, " ");
    push_padded(&mut v, p.name.as_str(), 22);
    push_str(&mut v, "  ");
    push_str(&mut v, p.kind.as_str());
    string_of(v.as_slice())
}

fn push_ports(out: &mut Vec<String>, ps: &Vec<AudioPort>)
    ensures
        strings(final(out)@) == strings(old(out)@) + port_lines(ps@, ps.len() as int),
{
    let ghost head = strings(out@);
    let mut i: usize = 0;
    assert(head =~= head + seq![]);
    while i < ps.len()
        invariant
            i <= ps.len(),
            strings(out@) == head + port_lines(ps@, i as int),
        decreases ps.len() - i,
    {
        let ghost before = strings(out@);
        let line: String = show_port(&ps[i]);
        out.push(line);
        assert(strings(out@) =~= before.push(line@));
        assert(before.push(line@) =~= head + port_lines(ps@, i as int).push(line@));
        i += 1;
    }
}

pub open spec fn sound_report(s: AudioState) -> Seq<Seq<char>> {
    seq![
        "Volume:  "@ + decimal(s.master_volume as nat) + (if s.muted {
            "  (muted)"@
        } else {
            ""@
        }),
        "\nOutput sinks:"@,
    ] + port_lines(s.sinks@, s.sinks@.len() as int) + seq!["\nInput sources:"@] + port_lines(
        s.sources@,
        s.sources@.len() as int,
    )
}

/// What `bacak device sound state` prints.
pub fn sound_lines(s: &AudioState) -> (r: Vec<String>)
    ensures
        strings(r@) == sound_report(*s),
{
    let mut out: Vec<String> = Vec::new();
    let mut v: Vec<char> = chars_of("Volume:  ");
    let d: Vec<char> = decimal_of(s.master_volume as u64);
    push_all(&mut v, d.as_slice());
    push_str(
        &mut v,
        if s.muted {
            "  (muted)"
        } else {
            ""
        },
    );
    let first: String = string_of(v.as_slice());
    out.push(first);
    out.push(own("\nOutput sinks:"));
    assert(strings(out@) =~= seq![first@, "\nOutput sinks:"@]);
    push_ports(&mut out, &s.sinks);
    let ghost upto = strings(out@);
    out.push(own("\nInput sources:"));
    assert(strings(out@) =~= upto + seq!["\nInput sources:"@]);
    push_ports(&mut out, &s.sources);
    out
}

pub open spec fn muted_after(on: bool, off: bool, muted: bool) -> bool {
    if on != off {
        on
    } else {
        !muted
    }
}

/// What muting comes to: what was asked for, or the other of what it is where
/// neither or both were.
pub fn mute_target(on: bool, off: bool, muted: bool) -> (r: bool)
    ensures
        r == (if on != off {
            on
        } else {
            !muted
        }),
        r == muted_after(on, off, muted),
{
    match (on, off) {
        (true, false) => true,
        (false, true) => false,
        _ => !muted,
    }
}

pub fn volume_done(volume: u8) -> (r: String)
    ensures
        r@ == "Volume now "@ + decimal(volume as nat),
{
    number_line("Volume now ", volume as u64)
}

pub fn mute_done(target: bool) -> (r: String)
    ensures
        r@ == "Mute: "@ + on_off(target),
{
    concat2("Mute: ", on_or_off(target))
}

/// What is printed once a sink was selected, given the name of the active one.
pub fn output_done(active: Option<&str>) -> (r: String)
    ensures
        r@ == "Active output: "@ + (match active {
            Some(a) => a@,
            None => "?"@,
        }),
{
    match active {
        Some(a) => concat2("Active output: ", a),
        None => concat2("Active output: ", "?"),
    }
}

/// The context of a failure to set the volume.
pub fn volume_failed() -> (r: String)
    ensures
        r@ == "set_volume"@,
{
    own("set_volume")
}

/// The context of a failure to select a sink.
pub fn output_failed(id: &str) -> (r: String)
    ensures
        r@ == "select_sink("@ + id@ + ")"@,
{
    concat3("select_sink(", id, ")")
}

// ---------------------------------------------------------------------------
// Wi-Fi
// ---------------------------------------------------------------------------

#[derive(Debug, Clone, PartialEq, Eq)]
pub struct WifiNetwork {
    pub ssid: String,
    pub signal_dbm: i32,
    pub bars: u8,
    pub secured: bool,
    pub bssid: String,
}

#[derive(Debug, Clone, PartialEq, Eq)]
pub struct WifiState {
    pub enabled: bool,
    pub connected_ssid: Option<String>,
    pub ip: Option<String>,
    pub networks: Vec<WifiNetwork>,
}

/// A row of the table of networks.
pub open spec fn network_row(
    ssid: Seq<char>,
    dbm: Seq<char>,
    bars: Seq<char>,
    secured: Seq<char>,
    bssid: Seq<char>,
) -> Seq<char> {
    padded(ssid, 22) + " "@ + padded_left(dbm, 5) + " "@ + padded_left(bars, 4) + " "@ + padded(
        secured,
        8,
    ) + " "@ + bssid
}

fn show_network_row(ssid: &str, dbm: &str, bars: &str, secured: &str, bssid: &str) -> (r: String)
    ensures
        r@ == network_row(ssid@, dbm@, bars@, secured@, bssid@),
{
    let mut v: Vec<char> = Vec::new();
    push_padded(&mut v, ssid, 22);
    assert(v@ =~= padded(ssid@, 22));
    push_str(&mut v, " ");
    push_padded_left(&mut v, dbm, 5);
    push_str(&mut v, " ");
    push_padded_left(&mut v, bars, 4);
    push_str(&mut v, " ");
    push_padded(&mut v, secured, 8);
    push_str(&mut v, " ");
    push_str(&mut v, bssid);
    string_of(v.as_slice())
}

pub open spec fn network_line(n: WifiNetwork) -> Seq<char> {
    network_row(
        n.ssid@,
        signed_decimal(n.signal_dbm as int),
        decimal(n.bars as nat),
        yes_no(n.secured),
        n.bssid@,
    )
}

pub open spec fn network_lines(ns: Seq<WifiNetwork>, n: int) -> Seq<Seq<char>>
    decreases n,
{
    if n <= 0 {
        seq![]
    } else {
        network_lines(ns, n - 1).push(network_line(ns[n - 1]))
    }
}

pub open spec fn net_report(s: WifiState) -> Seq<Seq<char>> {
    seq![
        "Wi-Fi:      "@ + on_off(s.enabled),
        match (s.connected_ssid, s.ip) {
            (Some(ssid), Some(ip)) => "Connected:  "@ + ssid@ + "  ("@ + ip@ + ")"@,
            _ => "Connected:  —"@,
        },
        "\nNetworks ("@ + decimal(s.networks@.len()) + "):"@,
        network_row("SSID"@, "dBm"@, "bars"@, "secured"@, "BSSID"@),
    ] + network_lines(s.networks@, s.networks@.len() as int)
}

/// What `bacak device net state` prints.
pub fn net_lines(s: &WifiState) -> (r: Vec<String>)
    ensures
        strings(r@) == net_report(*s),
{
    let mut out: Vec<String> = Vec::new();
    out.push(concat2("Wi-Fi:      ", on_or_off(s.enabled)));
    let connected: String = match (&s.connected_ssid, &s.ip) {
        (Some(ssid), Some(ip)) => {
            let mut v: Vec<char> = chars_of("Connected:  ");
            push_str(&mut v, ssid.as_str());
            push_str(&mut v, "  (");
            push_str(&mut v, ip.as_str());
            push_str(&mut v, ")");
            string_of(v.as_slice())
        },
        _ => own("Connected:  —"),
    };
    out.push(connected);
    let mut v: Vec<char> = chars_of("\nNetworks (");
    let d: Vec<char> = decimal_of(s.networks.len() as u64);
    push_all(&mut v, d.as_slice());
    push_str(&mut v, "):");
    out.push(string_of(v.as_slice()));
    out.push(show_network_row("SSID", "dBm", "bars", "secured", "BSSID"));
    let ghost head = strings(out@);
    let ghost ns = s.networks@;
    assert(head =~= net_report(*s).take(4));
    let mut i: usize = 0;
    assert(head =~= head + seq![]);
    while i < s.networks.len()
        invariant
            i <= s.networks.len(),
            ns == s.networks@,
            strings(out@) == head + network_lines(ns, i as int),
        decreases s.networks.len() - i,
    {
        let ghost before = strings(out@);
        let n: &WifiNetwork = &s.networks[i];
        let dbm: String = string_of(signed_decimal_of(n.signal_dbm).as_slice());
        let bars: String = string_of(decimal_of(n.bars as u64).as_slice());
        let line: String = show_network_row(
            n.ssid.as_str(),
            dbm.as_str(),
            bars.as_str(),
            yes_or_no(n.secured),
            n.bssid.as_str(),
        );
        out.push(line);
        assert(strings(out@) =~= before.push(line@));
        assert(before.push(line@) =~= head + network_lines(ns, i as int).push(line@));
        i += 1;
    }
    assert(head + network_lines(ns, ns.len() as int) =~= net_report(*s));
    out
}

/// What is asked of Wi-Fi.
#[derive(Debug, Clone, PartialEq, Eq)]
pub enum NetOp {
    State,
    Toggle { state: Toggle },
    Connect { ssid: String, password: Option<String> },
    Disconnect,
}

/// What is printed once it was done, given the address that was obtained;
/// nothing where only the state was asked for.
pub fn net_done(op: &NetOp, ip: Option<&str>) -> (r: Option<String>)
    ensures
        opt_str(r) == (match *op {
            NetOp::State => None,
            NetOp::Toggle { state } => Some(
                "Wi-Fi "@ + (if state == Toggle::On {
                    "enabled"@
                } else {
                    "disabled"@
                }),
            ),
            NetOp::Connect { ssid, .. } => Some(
                "Connected to "@ + ssid@ + " ("@ + (match ip {
                    Some(a) => a@,
                    None => "?"@,
                }) + ")"@,
            ),
            NetOp::Disconnect => Some("Disconnected"@),
        }),
{
    match op {
        NetOp::State => None,
        NetOp::Toggle { state } => Some(
            concat2(
                "Wi-Fi ",
                if state.as_bool() {
                    "enabled"
                } else {
                    "disabled"
                },
            ),
        ),
        NetOp::Connect { ssid, .. } => {
            let mut v: Vec<char> = chars_of("Connected to ");
            push_str(&mut v, ssid.as_str());
            push_str(&mut v, " (");
            match ip {
                Some(a) => push_str(&mut v, a),
                None => push_str(&mut v, "?"),
            }
            push_str(&mut v, ")");
            Some(string_of(v.as_slice()))
        },
        NetOp::Disconnect => Some(own("Disconnected")),
    }
}

/// The context of a failure, for what names a network.
pub fn net_failed(op: &NetOp) -> (r: Option<String>)
    ensures
        opt_str(r) == (match *op {
            NetOp::Connect { ssid, .. } => Some("connect("@ + ssid@ + ")"@),
            _ => None,
        }),
{
    match op {
        NetOp::Connect { ssid, .. } => Some(concat3("connect(", ssid.as_str(), ")")),
        _ => None,
    }
}

// ---------------------------------------------------------------------------
// Bluetooth
// ---------------------------------------------------------------------------

/// A known device; `kind` is how its kind is printed.
#[derive(Debug, Clone, PartialEq, Eq)]
pub struct BtDevice {
    pub name: String,
    pub kind: String,
    pub paired: bool,
    pub connected: bool,
    pub battery: Option<u8>,
}

#[derive(Debug, Clone, PartialEq, Eq)]
pub struct BtState {
    pub enabled: bool,
    pub discovering: bool,
    pub device_name: String,
    pub devices: Vec<BtDevice>,
}

/// A row of the table of devices.
pub open spec fn device_row(
    name: Seq<char>,
    kind: Seq<char>,
    paired: Seq<char>,
    connected: Seq<char>,
    battery: Seq<char>,
) -> Seq<char> {
    padded(name, 22) + " "@ + padded(kind, 12) + " "@ + padded(paired, 8) + " "@ + padded(
        connected,
        10,
    ) + " "@ + battery
}

fn show_device_row(name: &str, kind: &str, paired: &str, connected: &str, battery: &str) -> (r:
    String)
    ensures
        r@ == device_row(name@, kind@, paired@, connected@, battery@),
{
    let mut v: Vec<char> = Vec::new();
    push_padded(&mut v, name, 22);
    assert(v@ =~= padded(name@, 22));
    push_str(&mut v, " ");
    push_padded(&mut v, kind, 12);
    push_str(&mut v, " ");
    push_padded(&mut v, paired, 8);
    push_str(&mut v, " ");
    push_padded(&mut v, connected, 10);
    push_str(&mut v, " ");
    push_str(&mut v, battery);
    string_of(v.as_slice())
}

pub open spec fn battery_text(battery: Option<u8>) -> Seq<char> {
    match battery {
        Some(b) => decimal(b as nat) + "%"@,
        None => "—"@,
    }
}

pub open spec fn device_line(d: BtDevice) -> Seq<char> {
    device_row(d.name@, d.kind@, yes_no(d.paired), yes_no(d.connected), battery_text(d.battery))
}

pub open spec fn device_lines(ds: Seq<BtDevice>, n: int) -> Seq<Seq<char>>
    decreases n,
{
    if n <= 0 {
        seq![]
    } else {
        device_lines(ds, n - 1).push(device_line(ds[n - 1]))
    }
}

fn show_battery(battery: Option<u8>) -> (r: String)
    ensures
        r@ == battery_text(battery),
{
    match battery {
        Some(b) => {
            let mut v: Vec<char> = decimal_of(b as u64);
            push_str(&mut v, "%");
            string_of(v.as_slice())
        },
        None => own("—"),
    }
}

pub open spec fn bt_report(s: BtState) -> Seq<Seq<char>> {
    seq![
        "Bluetooth:    "@ + on_off(s.enabled),
        "Discovering:  "@ + yes_no(s.discovering),
        "Device name:  "@ + s.device_name@ + "\n"@,
        device_row("Name"@, "Kind"@, "Paired"@, "Connected"@, "Battery"@),
    ] + device_lines(s.devices@, s.devices@.len() as int)
}

/// What `bacak device bt state` prints.
pub fn bt_lines(s: &BtState) -> (r: Vec<String>)
    ensures
        strings(r@) == bt_report(*s),
{
    let mut out: Vec<String> = Vec::new();
    out.push(concat2("Bluetooth:    ", on_or_off(s.enabled)));
    out.push(concat2("Discovering:  ", yes_or_no(s.discovering)));
    out.push(concat3("Device name:  ", s.device_name.as_str(), "\n"));
    out.push(show_device_row("Name", "Kind", "Paired", "Connected", "Battery"));
    let ghost head = strings(out@);
    let ghost ds = s.devices@;
    assert(head =~= bt_report(*s).take(4));
    let mut i: usize = 0;
    assert(head =~= head + seq![]);
    while i < s.devices.len()
        invariant
            i <= s.devices.len(),
            ds == s.devices@,
            strings(out@) == head + device_lines(ds, i as int),
        decreases s.devices.len() - i,
    {
        let ghost before = strings(out@);
        let d: &BtDevice = &s.devices[i];
        let battery: String = show_battery(d.battery);
        let line: String = show_device_row(
            d.name.as_str(),
            d.kind.as_str(),
            yes_or_no(d.paired),
            yes_or_no(d.connected),
            battery.as_str(),
        );
        out.push(line);
        assert(strings(out@) =~= before.push(line@));
        assert(before.push(line@) =~= head + device_lines(ds, i as int).push(line@));
        i += 1;
    }
    assert(head + device_lines(ds, ds.len() as int) =~= bt_report(*s));
    out
}

/// What is asked of Bluetooth.
#[derive(Debug, Clone, PartialEq, Eq)]
pub enum BtOp {
    State,
    Toggle { state: Toggle },
    Scan { state: Toggle },
    Pair { mac: String },
    Connect { mac: String },
    Disconnect { mac: String },
}

/// What is printed once it was done; nothing where only the state was asked for.
pub fn bt_done(op: &BtOp) -> (r: Option<String>)
    ensures
        opt_str(r) == (match *op {
            BtOp::State => None,
            BtOp::Toggle { state } => Some(
                "Bluetooth "@ + (if state == Toggle::On {
                    "enabled"@
                } else {
                    "disabled"@
                }),
            ),
            BtOp::Scan { state } => Some(
                "Scan "@ + (if state == Toggle::On {
                    "started"@
                } else {
                    "stopped"@
                }),
            ),
            BtOp::Pair { mac } => Some("Paired "@ + mac@),
            BtOp::Connect { mac } => Some("Connected "@ + mac@),
            BtOp::Disconnect { mac } => Some("Disconnected "@ + mac@),
        }),
{
    match op {
        BtOp::State => None,
        BtOp::Toggle { state } => Some(
            concat2(
                "Bluetooth ",
                if state.as_bool() {
                    "enabled"
                } else {
                    "disabled"
                },
            ),
        ),
        BtOp::Scan { state } => Some(
            concat2(
                "Scan ",
                if state.as_bool() {
                    "started"
                } else {
                    "stopped"
                },
            ),
        ),
        BtOp::Pair { mac } => Some(concat2("Paired ", mac.as_str())),
        BtOp::Connect { mac } => Some(concat2("Connected ", mac.as_str())),
        BtOp::Disconnect { mac } => Some(concat2("Disconnected ", mac.as_str())),
    }
}

/// The context of a failure, for what names a device.
pub fn bt_failed(op: &BtOp) -> (r: Option<String>)
    ensures
        opt_str(r) == (match *op {
            BtOp::Pair { mac } => Some("pair("@ + mac@ + ")"@),
            BtOp::Connect { mac } => Some("connect("@ + mac@ + ")"@),
            BtOp::Disconnect { mac } => Some("disconnect("@ + mac@ + ")"@),
            _ => None,
        }),
{
    match op {
        BtOp::Pair { mac } => Some(concat3("pair(", mac.as_str(), ")")),
        BtOp::Connect { mac } => Some(concat3("connect(", mac.as_str(), ")")),
        BtOp::Disconnect { mac } => Some(concat3("disconnect(", mac.as_str(), ")")),
        _ => None,
    }
}

/// A switch is told by `on` and `off`, a fact by `yes` and `no`.
pub proof fn law_words_for_flags()
    ensures
        yes_no(true) == "yes"@ && yes_no(false) == "no"@,
        on_off(true) == "on"@ && on_off(false) == "off"@,
{
}

/// The volume is told first, with its muting where it is muted; the outputs come before
/// the inputs, each on a line of its own, in order.
pub proof fn law_sound_report(s: AudioState, i: int)
    ensures
        s.muted ==> sound_report(s)[0] == "Volume:  "@ + decimal(s.master_volume as nat)
            + "  (muted)"@,
        !s.muted ==> sound_report(s)[0] == "Volume:  "@ + decimal(s.master_volume as nat) + ""@,
        0 <= i < s.sinks@.len() ==> sound_report(s)[2 + i] == port_line(s.sinks@[i]),
        0 <= i < s.sources@.len() ==> sound_report(s)[3 + s.sinks@.len() + i] == port_line(
            s.sources@[i],
        ),
        sound_report(s).len() == 3 + s.sinks@.len() + s.sources@.len(),
{
    lemma_port_lines(s.sinks@, s.sinks@.len() as int, i);
    lemma_port_lines(s.sources@, s.sources@.len() as int, i);
}

proof fn lemma_port_lines(ps: Seq<AudioPort>, n: int, i: int)
    requires
        0 <= n <= ps.len(),
    ensures
        port_lines(ps, n).len() == n,
        0 <= i < n ==> port_lines(ps, n)[i] == port_line(ps[i]),
    decreases n,
{
    if n > 0 {
        lemma_port_lines(ps, n - 1, i);
    }
}

/// The default device is marked, its name comes in a column of 22, and its kind last.
pub proof fn law_port_line(p: AudioPort)
    ensures
        p.is_default ==> port_line(p) == "  "@ + "✓"@ + " "@ + padded(p.name@, 22) + "  "@ + p.kind@,
        !p.is_default ==> port_line(p) == "  "@ + " "@ + " "@ + padded(p.name@, 22) + "  "@
            + p.kind@,
{
}

/// A connection is told with its address where both are known; the networks are counted
/// and listed in order below the heading.
pub proof fn law_net_report(s: WifiState, i: int)
    ensures
        net_report(s)[0] == "Wi-Fi:      "@ + on_off(s.enabled),
        (s.connected_ssid matches Some(ssid) && s.ip matches Some(ip) && net_report(s)[1]
            == "Connected:  "@ + ssid@ + "  ("@ + ip@ + ")"@) || ((s.connected_ssid is None
            || s.ip is None) && net_report(s)[1] == "Connected:  —"@),
        net_report(s)[2] == "\nNetworks ("@ + decimal(s.networks@.len()) + "):"@,
        0 <= i < s.networks@.len() ==> net_report(s)[4 + i] == network_line(s.networks@[i]),
        net_report(s).len() == 4 + s.networks@.len(),
{
    lemma_network_lines(s.networks@, s.networks@.len() as int, i);
}

proof fn lemma_network_lines(ns: Seq<WifiNetwork>, n: int, i: int)
    requires
        0 <= n <= ns.len(),
    ensures
        network_lines(ns, n).len() == n,
        0 <= i < n ==> network_lines(ns, n)[i] == network_line(ns[i]),
    decreases n,
{
    if n > 0 {
        lemma_network_lines(ns, n - 1, i);
    }
}

/// A network's columns: its name, its strength, its bars, whether it is secured, and the
/// address of its station, which is not cut.
pub proof fn law_network_line(n: WifiNetwork)
    requires
        n.ssid@.len() <= 22,
    ensures
        network_line(n).take(22) == padded(n.ssid@, 22),
        network_line(n).len() >= n.bssid@.len(),
        network_line(n).skip(network_line(n).len() - n.bssid@.len()) == n.bssid@,
        network_line(n) == padded(n.ssid@, 22) + " "@ + padded_left(
            signed_decimal(n.signal_dbm as int),
            5,
        ) + " "@ + padded_left(decimal(n.bars as nat), 4) + " "@ + padded(
            if n.secured {
                "yes"@
            } else {
                "no"@
            },
            8,
        ) + " "@ + n.bssid@,
{
    law_padded(n.ssid@, 22);
    assert(network_line(n).take(22) =~= padded(n.ssid@, 22));
    assert(network_line(n).skip(network_line(n).len() - n.bssid@.len()) =~= n.bssid@);
}

/// A device's columns: its name, its kind, whether it is paired and whether it is
/// connected, in this order, and its battery, a dash where it tells none.
pub proof fn law_bt_report(s: BtState, i: int, b: u8)
    ensures
        bt_report(s)[0] == "Bluetooth:    "@ + on_off(s.enabled),
        bt_report(s)[1] == "Discovering:  "@ + yes_no(s.discovering),
        0 <= i < s.devices@.len() ==> bt_report(s)[4 + i] == padded(s.devices@[i].name@, 22) + " "@
            + padded(s.devices@[i].kind@, 12) + " "@ + padded(yes_no(s.devices@[i].paired), 8)
            + " "@ + padded(yes_no(s.devices@[i].connected), 10) + " "@ + battery_text(
            s.devices@[i].battery,
        ),
        battery_text(Some(b)) == decimal(b as nat) + "%"@,
        battery_text(None) == "—"@,
        bt_report(s).len() == 4 + s.devices@.len(),
{
    lemma_device_lines(s.devices@, s.devices@.len() as int, i);
}

proof fn lemma_device_lines(ds: Seq<BtDevice>, n: int, i: int)
    requires
        0 <= n <= ds.len(),
    ensures
        device_lines(ds, n).len() == n,
        0 <= i < n ==> device_lines(ds, n)[i] == device_line(ds[i]),
    decreases n,
{
    if n > 0 {
        lemma_device_lines(ds, n - 1, i);
    }
}

/// Asked for one of both, muting comes to that whatever it is; asked for neither, or for
/// both, it is switched over, so that twice leaves it as it was.
pub proof fn law_muting(muted: bool)
    ensures
        muted_after(true, false, muted),
        !muted_after(false, true, muted),
        muted_after(false, false, muted) != muted,
        muted_after(true, true, muted) != muted,
        muted_after(false, false, muted_after(false, false, muted)) == muted,
{
}

} // verus!
