//! System controls behind the Control Center tiles.
//!
//! Every control goes through a standard command-line tool (`wpa_cli`, `ip`,
//! `bluetoothctl`, `wpctl`, `systemctl`). This module says which [`Invocation`]
//! a change takes and what the captured output of a query means; running the
//! tools is left to the caller. A query whose tool could not be run is handed in
//! as `None`.

use vstd::prelude::*;

use crate::config::{clamped, one, zero, Number, SIGN_BIT};
use crate::text::{
    after, before, begins, chars_of, decimal, decimal_of, find_text_from, is_hex_digit, is_str,
    is_str_ignoring_case, join_from, join_upto, lines, lines_of, mentions, opt_str, own, own_all,
    parse_signed, parse_unsigned, parted, parted_at, push_all, push_str, rfind_before, find_last,
    same_ignoring_case, signed, split_n, split_once, split_once_text, splitn, starts_with, str_eq,
    string_of, strings, strip_prefix, strip_run, strs, texts, trim, trimmed, unsigned, uppercase,
    without_prefix, without_run, words, words_of, is_digit, digit_value, find_from, is_whitespace,
    joined, law_decimal_reads_back, law_find_text, law_prefix, law_signed_reads_back,
    law_split_once, law_splitn_undoes_join, law_trim_blank, law_trim_keeps_head,
    law_trim_undoes_padding, law_white_space, law_words, lemma_find_from, lemma_no_prefix,
    ascii_lower_all, lemma_rfind_is, stands_at,
    signed_decimal,
};

verus! {

// ---------------------------------------------------------------------------
// Invocations
// ---------------------------------------------------------------------------

/// A program and its arguments.
#[derive(Debug, Clone, PartialEq, Eq)]
pub struct Invocation {
    pub program: String,
    pub args: Vec<String>,
}

pub struct InvocationView {
    pub program: Seq<char>,
    pub args: Seq<Seq<char>>,
}

impl View for Invocation {
    type V = InvocationView;

    open spec fn view(&self) -> InvocationView {
        InvocationView { program: self.program@, args: strings(self.args@) }
    }
}

pub open spec fn run(program: Seq<char>, args: Seq<Seq<char>>) -> InvocationView {
    InvocationView { program, args }
}

pub open spec fn opt_run(i: Option<Invocation>) -> Option<InvocationView> {
    match i {
        Some(i) => Some(i@),
        None => None,
    }
}

pub open spec fn runs(v: Seq<Invocation>) -> Seq<InvocationView> {
    v.map_values(|i: Invocation| i@)
}

fn invocation(program: &str, args: Vec<&str>) -> (r: Invocation)
    ensures
        r@ == run(program@, strs(args@)),
{
    Invocation { program: own(program), args: own_all(&args) }
}

/// What a query gives back: the trimmed standard output of its tool.
pub fn captured(stdout: Option<&str>) -> (r: Option<String>)
    ensures
        opt_str(r) == (match stdout {
            Some(s) => Some(trim(s@)),
            None => None,
        }),
{
    match stdout {
        Some(s) => {
            let s: Vec<char> = chars_of(s);
            Some(string_of(trimmed(s.as_slice())))
        },
        None => None,
    }
}

// ---------------------------------------------------------------------------
// Network devices
// ---------------------------------------------------------------------------

/// What `/sys/class/net/<name>` says of a device.
#[derive(Debug, Clone, PartialEq, Eq)]
pub struct NetEntry {
    pub name: String,
    /// Contents of the file `type`, where it can be read.
    pub kind: Option<String>,
    /// Whether there is a `wireless` directory.
    pub wireless: bool,
    /// Whether there is a `device` link (absent on virtual devices).
    pub device: bool,
}

/// The name of the first wireless device from index `i` on.
pub open spec fn first_wireless(v: Seq<NetEntry>, i: int) -> Option<Seq<char>>
    decreases v.len() - i,
{
    if i < 0 || i >= v.len() {
        None
    } else if v[i].wireless {
        Some(v[i].name@)
    } else {
        first_wireless(v, i + 1)
    }
}

/// Find the first wireless device (it has a `wireless/` subdirectory).
pub fn wifi_device_sysfs(entries: &Vec<NetEntry>) -> (r: Option<String>)
    ensures
        opt_str(r) == first_wireless(entries@, 0),
{
    let mut i: usize = 0;
    while i < entries.len()
        invariant
            i <= entries.len(),
            first_wireless(entries@, 0) == first_wireless(entries@, i as int),
        decreases entries.len() - i,
    {
        if entries[i].wireless {
            return Some(own(entries[i].name.as_str()));
        }
        i += 1;
    }
    None
}

/// A physical Ethernet device: not the loopback, of hardware type 1, not
/// wireless, and with a device behind it.
pub open spec fn is_ethernet(e: NetEntry) -> bool {
    &&& e.name@ != "lo"@
    &&& e.kind is Some
    &&& trim(e.kind->0@) == "1"@
    &&& !e.wireless
    &&& e.device
}

pub open spec fn first_ethernet(v: Seq<NetEntry>, i: int) -> Option<Seq<char>>
    decreases v.len() - i,
{
    if i < 0 || i >= v.len() {
        None
    } else if is_ethernet(v[i]) {
        Some(v[i].name@)
    } else {
        first_ethernet(v, i + 1)
    }
}

fn ethernet(e: &NetEntry) -> (r: bool)
    ensures
        r == is_ethernet(*e),
{
    if str_eq(e.name.as_str(), "lo") {
        return false;
    }
    match &e.kind {
        None => false,
        Some(kind) => {
            let kind: Vec<char> = chars_of(kind.as_str());
            is_str(trimmed(kind.as_slice()), "1") && !e.wireless && e.device
        },
    }
}

/// Find the first physical Ethernet device.
pub fn eth_device_sysfs(entries: &Vec<NetEntry>) -> (r: Option<String>)
    ensures
        opt_str(r) == first_ethernet(entries@, 0),
{
    let mut i: usize = 0;
    while i < entries.len()
        invariant
            i <= entries.len(),
            first_ethernet(entries@, 0) == first_ethernet(entries@, i as int),
        decreases entries.len() - i,
    {
        if ethernet(&entries[i]) {
            return Some(own(entries[i].name.as_str()));
        }
        i += 1;
    }
    None
}

/// Whether an `operstate` file tells of an active link.
pub open spec fn link_up(operstate: Option<&str>) -> bool {
    match operstate {
        Some(s) => trim(s@) == "up"@ || trim(s@) == "unknown"@,
        None => false,
    }
}

/// True when the Ethernet device has an active link, given its `operstate`.
pub fn ethernet_link_up(operstate: Option<&str>) -> (r: bool)
    ensures
        r == link_up(operstate),
{
    match operstate {
        Some(s) => {
            let s: Vec<char> = chars_of(s);
            let s: &[char] = trimmed(s.as_slice());
            is_str(s, "up") || is_str(s, "unknown")
        },
        None => false,
    }
}

/// The first device of a kind in the first `n` lines of `nmcli -t -f
/// DEVICE,TYPE device`, skipping p2p pseudo-devices.
pub open spec fn device_of_kind(ls: Seq<Seq<char>>, kind: Seq<char>, i: int) -> Option<Seq<char>>
    decreases ls.len() - i,
{
    if i < 0 || i >= ls.len() {
        None
    } else {
        match split_once(ls[i], ':') {
            Some((dev, ty)) => if ty == kind && find_text_from(dev, "p2p"@, 0) < 0 {
                Some(dev)
            } else {
                device_of_kind(ls, kind, i + 1)
            },
            None => device_of_kind(ls, kind, i + 1),
        }
    }
}

/// First device of `dev_type` ("wifi" / "ethernet") in the output of
/// `nmcli -t -f DEVICE,TYPE device`, skipping p2p pseudo-devices.
pub fn net_device(dev_type: &str, out: Option<&str>) -> (r: Option<String>)
    ensures
        opt_str(r) == (match out {
            Some(o) => device_of_kind(lines(o@), dev_type@, 0),
            None => None,
        }),
{
    match out {
        None => None,
        Some(o) => {
            let text: Vec<char> = chars_of(o);
            let ls: Vec<&[char]> = lines_of(text.as_slice());
            assert(texts(ls@).len() == ls.len());
            let mut i: usize = 0;
            while i < ls.len()
                invariant
                    i <= ls.len(),
                    out == Some(o),
                    texts(ls@) == lines(o@),
                    lines(o@).len() == ls.len(),
                    device_of_kind(lines(o@), dev_type@, 0) == device_of_kind(
                        lines(o@),
                        dev_type@,
                        i as int,
                    ),
                decreases ls.len() - i,
            {
                assert(lines(o@)[i as int] == ls@[i as int]@);
                if let Some((dev, ty)) = parted(ls[i], ':') {
                    if is_str(ty, dev_type) && !mentions(dev, "p2p") {
                        return Some(string_of(dev));
                    }
                }
                i += 1;
            }
            None
        },
    }
}

// ---------------------------------------------------------------------------
// Wi-Fi radio
// ---------------------------------------------------------------------------

/// Where wpa_supplicant keeps its control sockets.
pub open spec fn wpa_ctrl() -> Seq<char> {
    "/run/wpa_supplicant"@
}

/// The control socket of a device: wpa_supplicant manages the device when it
/// exists.
pub fn wpa_socket_exists(dev: &str) -> (r: String)
    ensures
        r@ == wpa_ctrl() + "/"@ + dev@,
{
    let mut v: Vec<char> = chars_of("/run/wpa_supplicant");
    push_str(&mut v, "/");
    push_str(&mut v, dev);
    string_of(v.as_slice())
}

pub open spec fn wpa_run(dev: Seq<char>, args: Seq<Seq<char>>) -> InvocationView {
    run("wpa_cli"@, seq!["-i"@, dev, "-p"@, wpa_ctrl()] + args)
}

/// A wpa_cli command for a device, unless its control socket is missing
/// (wpa_supplicant not managing the interface yet).
pub fn wpa_cli(dev: &str, socket: bool, args: Vec<&str>) -> (r: Option<Invocation>)
    ensures
        opt_run(r) == (if socket {
            Some(wpa_run(dev@, strs(args@)))
        } else {
            None
        }),
{
    if !socket {
        return None;
    }
    let ghost more = strs(args@);
    let mut full: Vec<&str> = vec!["-i", dev, "-p", "/run/wpa_supplicant"];
    let mut args = args;
    full.append(&mut args);
    assert(strs(full@) =~= seq!["-i"@, dev@, "-p"@, wpa_ctrl()] + more);
    Some(invocation("wpa_cli", full))
}

pub open spec fn hex_value_of(c: char) -> int {
    if is_digit(c) {
        digit_value(c)
    } else if 'a' <= c <= 'f' {
        c as int - 'a' as int + 10
    } else {
        c as int - 'A' as int + 10
    }
}

/// The number that hexadecimal digits stand for.
pub open spec fn hex_value(s: Seq<char>) -> int
    decreases s.len(),
{
    if s.len() == 0 {
        0
    } else {
        16 * hex_value(s.drop_last()) + hex_value_of(s.last())
    }
}

pub open spec fn all_hex(s: Seq<char>) -> bool {
    forall|i: int| 0 <= i < s.len() ==> is_hex_digit(#[trigger] s[i])
}

/// A hexadecimal number of 64 bits, with an optional plus sign.
pub open spec fn parse_hex(s: Seq<char>) -> Option<int> {
    let d = if s.len() > 0 && s[0] == '+' { s.skip(1) } else { s };
    if d.len() > 0 && all_hex(d) && hex_value(d) <= u64::MAX {
        Some(hex_value(d))
    } else {
        None
    }
}

/// The text without every `0x` at its start.
pub open spec fn strip_0x(s: Seq<char>) -> Seq<char>
    decreases s.len(),
{
    if s.len() >= 2 && s[0] == '0' && s[1] == 'x' {
        strip_0x(s.skip(2))
    } else {
        s
    }
}

proof fn lemma_hex_grows(s: Seq<char>, i: int)
    requires
        all_hex(s),
        0 <= i <= s.len(),
    ensures
        0 <= hex_value(s.take(i)) <= hex_value(s),
    decreases s.len(),
{
    if i < s.len() {
        let t = s.drop_last();
        assert(all_hex(t));
        assert(is_hex_digit(s.last()));
        assert(t.take(i) =~= s.take(i));
        lemma_hex_grows(t, i);
    } else {
        assert(s.take(i) =~= s);
        if s.len() > 0 {
            let t = s.drop_last();
            assert(all_hex(t));
            assert(is_hex_digit(s.last()));
            lemma_hex_grows(t, t.len() as int);
            assert(t.take(t.len() as int) =~= t);
        }
    }
}

fn hex(s: &[char]) -> (r: Option<u64>)
    ensures
        match r {
            Some(n) => parse_hex(s@) == Some(n as int),
            None => parse_hex(s@) is None,
        },
{
    let d: &[char] = if s.len() > 0 && s[0] == '+' {
        after(s, 1)
    } else {
        s
    };
    if d.len() == 0 {
        return None;
    }
    let mut n: u64 = 0;
    let mut i: usize = 0;
    while i < d.len()
        invariant
            i <= d.len(),
            d@ == (if s@.len() > 0 && s@[0] == '+' { s@.skip(1) } else { s@ }),
            d.len() > 0,
            forall|k: int| 0 <= k < i ==> is_hex_digit(d@[k]),
            n == hex_value(d@.take(i as int)),
        decreases d.len() - i,
    {
        let c: char = d[i];
        let v: u64 = if '0' <= c && c <= '9' {
            (c as u32 - '0' as u32) as u64
        } else if 'a' <= c && c <= 'f' {
            (c as u32 - 'a' as u32 + 10) as u64
        } else if 'A' <= c && c <= 'F' {
            (c as u32 - 'A' as u32 + 10) as u64
        } else {
            return None;
        };
        let ghost part = d@.take(i + 1);
        proof {
            assert(part.drop_last() =~= d@.take(i as int));
            assert(part.last() == c);
            if all_hex(d@) {
                lemma_hex_grows(d@, i + 1);
            }
        }
        if n > (u64::MAX - v) / 16 {
            assert(hex_value(part) > u64::MAX);
            return None;
        }
        n = n * 16 + v;
        i += 1;
    }
    assert(d@.take(d.len() as int) =~= d@);
    Some(n)
}

/// Whether a device's `flags` file has the lowest bit (IFF_UP) set.
pub open spec fn flags_up(flags: Option<&str>) -> bool {
    match flags {
        Some(s) => match parse_hex(strip_0x(trim(s@))) {
            Some(f) => f % 2 == 1,
            None => false,
        },
        None => false,
    }
}

/// True when the Wi-Fi interface has IFF_UP set, given its `flags` file.
pub fn wifi_enabled(flags: Option<&str>) -> (r: bool)
    ensures
        r == flags_up(flags),
{
    match flags {
        None => false,
        Some(s) => {
            let text: Vec<char> = chars_of(s);
            let whole: &[char] = trimmed(text.as_slice());
            let mut rest: &[char] = whole;
            while rest.len() >= 2 && rest[0] == '0' && rest[1] == 'x'
                invariant
                    strip_0x(whole@) == strip_0x(rest@),
                decreases rest.len(),
            {
                rest = after(rest, 2);
            }
            match hex(rest) {
                Some(f) => {
                    assert(f & 1 != 0 <==> f % 2 == 1) by (bit_vector);
                    f & 1 != 0
                },
                None => false,
            }
        },
    }
}

/// What switching the radio takes.
pub struct WifiSwitch {
    /// Write the default configuration of wpa_supplicant first.
    pub write_conf: bool,
    pub runs: Vec<Invocation>,
}

/// What switching the radio on or off runs. The supplicant is started only
/// where it does not manage the device yet, and stopped only where its process
/// id is known.
pub open spec fn wifi_switch_runs(
    dev: Seq<char>,
    on: bool,
    socket: bool,
    pid: Option<&str>,
) -> Seq<InvocationView> {
    if on {
        let up = run("ip"@, seq!["link"@, "set"@, dev, "up"@]);
        if socket {
            seq![up]
        } else {
            seq![
                up,
                run(
                    "wpa_supplicant"@,
                    seq![
                        "-B"@,
                        "-i"@,
                        dev,
                        "-c"@,
                        "/tmp/bacak-wpa.conf"@,
                        "-P"@,
                        "/tmp/wpa_"@ + dev + ".pid"@,
                    ],
                ),
            ]
        }
    } else {
        let down = run("ip"@, seq!["link"@, "set"@, dev, "down"@]);
        match pid_of(pid) {
            Some(n) => seq![run("kill"@, seq![decimal(n as nat)]), down],
            None => seq![down],
        }
    }
}

/// The process id in a pid file.
pub open spec fn pid_of(pid: Option<&str>) -> Option<int> {
    match pid {
        Some(s) => parse_unsigned(trim(s@), u32::MAX as int),
        None => None,
    }
}

/// Bring the Wi-Fi radio up (ip link + wpa_supplicant) or down.
///
/// `socket` and `conf` say whether the device's control socket and the
/// supplicant's configuration exist; `pid` is the contents of its pid file.
pub fn set_wifi(
    dev: Option<&str>,
    on: bool,
    socket: bool,
    conf: bool,
    pid: Option<&str>,
) -> (r: WifiSwitch)
    ensures
        match dev {
            Some(dev) => {
                &&& runs(r.runs@) == wifi_switch_runs(dev@, on, socket, pid)
                &&& r.write_conf == (on && !socket && !conf)
            },
            None => r.runs@.len() == 0 && !r.write_conf,
        },
{
    let mut list: Vec<Invocation> = Vec::new();
    let dev: &str = match dev {
        Some(dev) => dev,
        None => {
            return WifiSwitch { write_conf: false, runs: list };
        },
    };
    if on {
        let args: Vec<&str> = vec!["link", "set", dev, "up"];
        assert(strs(args@) =~= seq!["link"@, "set"@, dev@, "up"@]);
        list.push(invocation("ip", args));
        if !socket {
            // Start the supplicant for this interface if it is not running yet.
            let mut pid_file: Vec<char> = chars_of("/tmp/wpa_");
            push_str(&mut pid_file, dev);
            push_str(&mut pid_file, ".pid");
            let pid_file: String = string_of(pid_file.as_slice());
            let args: Vec<&str> = vec![
                "-B", "-i", dev, "-c", "/tmp/bacak-wpa.conf", "-P", pid_file.as_str(),
            ];
            assert(strs(args@) =~= seq![
                "-B"@,
                "-i"@,
                dev@,
                "-c"@,
                "/tmp/bacak-wpa.conf"@,
                "-P"@,
                "/tmp/wpa_"@ + dev@ + ".pid"@,
            ]);
            list.push(invocation("wpa_supplicant", args));
        }
        assert(runs(list@) =~= wifi_switch_runs(dev@, on, socket, pid));
        WifiSwitch { write_conf: !socket && !conf, runs: list }
    } else {
        if let Some(s) = pid {
            let s: Vec<char> = chars_of(s);
            if let Some(n) = unsigned(trimmed(s.as_slice()), 4294967295) {
                let digits: Vec<char> = decimal_of(n);
                let digits: String = string_of(digits.as_slice());
                let args: Vec<&str> = vec![digits.as_str()];
                assert(strs(args@) =~= seq![decimal(n as nat)]);
                list.push(invocation("kill", args));
            }
        }
        let args: Vec<&str> = vec!["link", "set", dev, "down"];
        assert(strs(args@) =~= seq!["link"@, "set"@, dev@, "down"@]);
        list.push(invocation("ip", args));
        assert(runs(list@) =~= wifi_switch_runs(dev@, on, socket, pid));
        WifiSwitch { write_conf: false, runs: list }
    }
}

// ---------------------------------------------------------------------------
// Wi-Fi networks
// ---------------------------------------------------------------------------

/// The network name in the first lines of `wpa_cli status` that gives one.
pub open spec fn status_ssid(ls: Seq<Seq<char>>, i: int) -> Option<Seq<char>>
    decreases ls.len() - i,
{
    if i < 0 || i >= ls.len() {
        None
    } else {
        match strip_prefix(ls[i], "ssid="@) {
            Some(v) => if trim(v).len() > 0 {
                Some(trim(v))
            } else {
                status_ssid(ls, i + 1)
            },
            None => status_ssid(ls, i + 1),
        }
    }
}

/// SSID of the currently-associated network, given the output of
/// `wpa_cli status`.
pub fn wifi_ssid(status: Option<&str>) -> (r: Option<String>)
    ensures
        opt_str(r) == (match status {
            Some(o) => status_ssid(lines(o@), 0),
            None => None,
        }),
{
    match status {
        None => None,
        Some(o) => {
            let text: Vec<char> = chars_of(o);
            let ls: Vec<&[char]> = lines_of(text.as_slice());
            assert(texts(ls@).len() == ls.len());
            let mut i: usize = 0;
            while i < ls.len()
                invariant
                    i <= ls.len(),
                    status == Some(o),
                    texts(ls@) == lines(o@),
                    lines(o@).len() == ls.len(),
                    status_ssid(lines(o@), 0) == status_ssid(lines(o@), i as int),
                decreases ls.len() - i,
            {
                assert(lines(o@)[i as int] == ls@[i as int]@);
                if let Some(v) = without_prefix(ls[i], "ssid=") {
                    let v: &[char] = trimmed(v);
                    if v.len() > 0 {
                        return Some(string_of(v));
                    }
                }
                i += 1;
            }
            None
        },
    }
}

/// One scanned Wi-Fi network.
#[derive(Debug, Clone, PartialEq, Eq)]
pub struct WifiNet {
    pub ssid: String,
    /// Signal strength 0–100.
    pub signal: u8,
    /// `true` if the network is encrypted (needs a password the first time).
    pub secured: bool,
    /// `true` if this is the currently-connected network.
    pub active: bool,
}

pub struct WifiNetView {
    pub ssid: Seq<char>,
    pub signal: int,
    pub secured: bool,
    pub active: bool,
}

impl View for WifiNet {
    type V = WifiNetView;

    open spec fn view(&self) -> WifiNetView {
        WifiNetView {
            ssid: self.ssid@,
            signal: self.signal as int,
            secured: self.secured,
            active: self.active,
        }
    }
}

pub open spec fn nets_view(v: Seq<WifiNet>) -> Seq<WifiNetView> {
    v.map_values(|n: WifiNet| n@)
}

/// The fields of a terse line from position `i` on, the first of which starts
/// with what `cur` holds already. A backslash takes the character behind it as
/// it is; a colon ends a field.
pub open spec fn terse_fields(s: Seq<char>, i: int, cur: Seq<char>) -> Seq<Seq<char>>
    decreases s.len() - i,
{
    if i < 0 || i >= s.len() {
        seq![cur]
    } else if s[i] == '\\' {
        if i + 1 < s.len() {
            terse_fields(s, i + 2, cur.push(s[i + 1]))
        } else {
            terse_fields(s, i + 1, cur.push('\\'))
        }
    } else if s[i] == ':' {
        seq![cur] + terse_fields(s, i + 1, seq![])
    } else {
        terse_fields(s, i + 1, cur.push(s[i]))
    }
}

pub open spec fn terse(line: Seq<char>) -> Seq<Seq<char>> {
    terse_fields(line, 0, seq![])
}

fn fields_of(line: &[char]) -> (r: Vec<String>)
    ensures
        strings(r@) == terse(line@),
{
    let mut fields: Vec<String> = Vec::new();
    let mut cur: Vec<char> = Vec::new();
    let mut i: usize = 0;
    assert(cur@ =~= seq![]);
    assert(strings(fields@) + terse(line@) =~= terse(line@));
    while i < line.len()
        invariant
            i <= line.len(),
            terse(line@) == strings(fields@) + terse_fields(line@, i as int, cur@),
        decreases line.len() - i,
    {
        let c: char = line[i];
        if c == '\\' {
            if i + 1 < line.len() {
                cur.push(line[i + 1]);
                i += 2;
            } else {
                cur.push('\\');
                i += 1;
            }
        } else if c == ':' {
            let ghost done = strings(fields@);
            fields.push(string_of(cur.as_slice()));
            assert(strings(fields@) =~= done.push(cur@));
            assert(done + (seq![cur@] + terse_fields(line@, i + 1, seq![])) =~= strings(fields@)
                + terse_fields(line@, i + 1, seq![]));
            cur = Vec::new();
            assert(cur@ =~= seq![]);
            i += 1;
        } else {
            cur.push(c);
            i += 1;
        }
    }
    let ghost done = strings(fields@);
    fields.push(string_of(cur.as_slice()));
    assert(strings(fields@) =~= done + seq![cur@]);
    fields
}

/// Split one `nmcli -t` (terse) line into its fields. nmcli escapes a literal
/// `:` inside a value as `\:` and a `\` as `\\`; the fields come unescaped.
pub fn split_terse(line: &str) -> (r: Vec<String>)
    ensures
        strings(r@) == terse(line@),
{
    let line: Vec<char> = chars_of(line);
    fields_of(line.as_slice())
}

/// The list with a network added, unless its name is empty or taken already.
pub open spec fn with_net(list: Seq<WifiNetView>, net: Option<WifiNetView>) -> Seq<WifiNetView> {
    match net {
        Some(n) => if n.ssid.len() > 0 && !has_ssid(list, n.ssid) {
            list.push(n)
        } else {
            list
        },
        None => list,
    }
}

pub open spec fn has_ssid(list: Seq<WifiNetView>, ssid: Seq<char>) -> bool {
    exists|i: int| 0 <= i < list.len() && (#[trigger] list[i]).ssid == ssid
}

/// How a list of networks is put in order.
#[derive(Debug, Clone, Copy, PartialEq, Eq, Structural)]
pub enum NetOrder {
    /// By falling strength.
    Strength,
    /// The connected network first, the others by falling strength.
    Connected,
}

/// Whether `a` is listed before `b`.
pub open spec fn ranks_above(a: WifiNetView, b: WifiNetView, by: NetOrder) -> bool {
    match by {
        NetOrder::Strength => a.signal > b.signal,
        NetOrder::Connected => (a.active && !b.active) || (a.active == b.active && a.signal
            > b.signal),
    }
}

/// Where `x` goes in a ranked list: behind everything it does not rank above.
pub open spec fn slot(list: Seq<WifiNetView>, x: WifiNetView, by: NetOrder, i: int) -> int
    decreases list.len() - i,
{
    if i < 0 || i >= list.len() || ranks_above(x, list[i], by) {
        i
    } else {
        slot(list, x, by, i + 1)
    }
}

/// The first `n` networks in rank order. Networks of equal rank keep the order
/// in which they came.
pub open spec fn ranked_upto(v: Seq<WifiNetView>, by: NetOrder, n: int) -> Seq<WifiNetView>
    decreases n,
{
    if n <= 0 {
        seq![]
    } else {
        let list = ranked_upto(v, by, n - 1);
        list.insert(slot(list, v[n - 1], by, 0), v[n - 1])
    }
}

/// The networks, strongest first, equally strong ones as they came.
pub open spec fn by_signal(v: Seq<WifiNetView>) -> Seq<WifiNetView> {
    ranked_upto(v, NetOrder::Strength, v.len() as int)
}

/// The networks, the connected one first, then strongest first, equal ones as
/// they came.
pub open spec fn connected_first(v: Seq<WifiNetView>) -> Seq<WifiNetView> {
    ranked_upto(v, NetOrder::Connected, v.len() as int)
}

fn add_net(nets: &mut Vec<WifiNet>, net: WifiNet)
    ensures
        nets_view(final(nets)@) == with_net(nets_view(old(nets)@), Some(net@)),
{
    if net.ssid.as_str().is_empty() {
        return;
    }
    let ghost list = nets_view(nets@);
    let mut i: usize = 0;
    while i < nets.len()
        invariant
            i <= nets.len(),
            *nets == *old(nets),
            list == nets_view(nets@),
            forall|k: int| 0 <= k < i ==> (#[trigger] list[k]).ssid != net.ssid@,
        decreases nets.len() - i,
    {
        assert(list[i as int].ssid == nets@[i as int].ssid@);
        if str_eq(nets[i].ssid.as_str(), net.ssid.as_str()) {
            return;
        }
        i += 1;
    }
    nets.push(net);
    assert(nets_view(nets@) =~= list.push(net@));
}

fn ranks_over(a: &WifiNet, b: &WifiNet, by: NetOrder) -> (r: bool)
    ensures
        r == ranks_above(a@, b@, by),
{
    match by {
        NetOrder::Strength => a.signal > b.signal,
        NetOrder::Connected => (a.active && !b.active) || (a.active == b.active && a.signal
            > b.signal),
    }
}

/// Puts the networks in rank order.
fn rank(nets: Vec<WifiNet>, by: NetOrder) -> (r: Vec<WifiNet>)
    ensures
        nets_view(r@) == ranked_upto(nets_view(nets@), by, nets@.len() as int),
{
    let ghost v = nets_view(nets@);
    let mut rest: Vec<WifiNet> = nets;
    let mut r: Vec<WifiNet> = Vec::new();
    let ghost mut n: int = 0;
    assert(nets_view(r@) =~= seq![]);
    assert(v.skip(0) =~= v);
    while rest.len() > 0
        invariant
            0 <= n <= v.len(),
            nets_view(rest@) == v.skip(n),
            nets_view(r@) == ranked_upto(v, by, n),
        decreases rest.len(),
    {
        let ghost before = rest@;
        assert(nets_view(before).len() == before.len());
        assert(v.skip(n)[0] == v[n]);
        let net: WifiNet = rest.remove(0);
        assert(nets_view(before)[0] == net@);
        assert forall|k: int| 0 <= k < rest@.len() implies nets_view(rest@)[k] == v.skip(n + 1)[k] by {
            assert(nets_view(before)[k + 1] == v.skip(n)[k + 1]);
        }
        assert(nets_view(rest@) =~= v.skip(n + 1));
        let ghost list = nets_view(r@);
        let mut at: usize = 0;
        while at < r.len() && !ranks_over(&net, &r[at], by)
            invariant
                at <= r.len(),
                list == nets_view(r@),
                slot(list, net@, by, 0) == slot(list, net@, by, at as int),
            decreases r.len() - at,
        {
            assert(list[at as int] == r@[at as int]@);
            at += 1;
        }
        proof {
            if at < r.len() {
                assert(list[at as int] == r@[at as int]@);
            }
        }
        r.insert(at, net);
        assert(nets_view(r@) =~= list.insert(at as int, net@));
        proof {
            n = n + 1;
        }
    }
    assert(nets_view(rest@).len() == 0);
    r
}

/// The network of one line of `nmcli -t -f IN-USE,SIGNAL,SECURITY,SSID`. The
/// name is the last field; its own colons come back by joining.
pub open spec fn nmcli_net(line: Seq<char>) -> Option<WifiNetView> {
    let f = terse(line);
    if f.len() < 4 {
        None
    } else {
        let sec = trim(f[2]);
        Some(
            WifiNetView {
                ssid: trim(join_upto(f, 3, f.len() as int, ":"@)),
                signal: match parse_unsigned(trim(f[1]), 255) {
                    Some(n) => n,
                    None => 0,
                },
                secured: sec.len() > 0 && sec != "--"@,
                active: trim(f[0]) == "*"@,
            },
        )
    }
}

pub open spec fn nmcli_nets(ls: Seq<Seq<char>>, n: int) -> Seq<WifiNetView>
    decreases n,
{
    if n <= 0 {
        seq![]
    } else {
        with_net(nmcli_nets(ls, n - 1), nmcli_net(ls[n - 1]))
    }
}

fn read_nmcli_net(line: &[char]) -> (r: Option<WifiNet>)
    ensures
        match r {
            Some(n) => nmcli_net(line@) == Some(n@),
            None => nmcli_net(line@) is None,
        },
{
    let f: Vec<String> = fields_of(line);
    assert(strings(f@).len() == f.len());
    if f.len() < 4 {
        return None;
    }
    assert(strings(f@)[0] == f@[0]@ && strings(f@)[1] == f@[1]@ && strings(f@)[2] == f@[2]@);
    let mark: Vec<char> = chars_of(f[0].as_str());
    let active: bool = is_str(trimmed(mark.as_slice()), "*");
    let level: Vec<char> = chars_of(f[1].as_str());
    let signal: u8 = match unsigned(trimmed(level.as_slice()), 255) {
        Some(n) => n as u8,
        None => 0,
    };
    let sec: Vec<char> = chars_of(f[2].as_str());
    let sec: &[char] = trimmed(sec.as_slice());
    let secured: bool = sec.len() > 0 && !is_str(sec, "--");
    let ssid: Vec<char> = join_from(&f, 3, ":");
    Some(WifiNet { ssid: string_of(trimmed(ssid.as_slice())), signal, secured, active })
}

/// Parse `nmcli -t -f IN-USE,SIGNAL,SECURITY,SSID dev wifi list` output into the
/// strongest-first, SSID-deduped network list.
pub fn parse_wifi_list(out: &str) -> (r: Vec<WifiNet>)
    ensures
        nets_view(r@) == by_signal(nmcli_nets(lines(out@), lines(out@).len() as int)),
{
    let text: Vec<char> = chars_of(out);
    let ls: Vec<&[char]> = lines_of(text.as_slice());
    let ghost spec_lines = lines(out@);
    assert(spec_lines.len() == ls.len());
    let mut nets: Vec<WifiNet> = Vec::new();
    let mut i: usize = 0;
    assert(nets_view(nets@) =~= seq![]);
    while i < ls.len()
        invariant
            i <= ls.len(),
            texts(ls@) == spec_lines,
            nets_view(nets@) == nmcli_nets(spec_lines, i as int),
        decreases ls.len() - i,
    {
        assert(spec_lines[i as int] == ls@[i as int]@);
        if let Some(net) = read_nmcli_net(ls[i]) {
            add_net(&mut nets, net);
        }
        i += 1;
    }
    rank(nets, NetOrder::Strength)
}

/// Signal quality of a strength in dBm: twice its distance from -100, kept
/// between 0 and 100.
pub open spec fn quality(dbm: int) -> int {
    let q = 2 * (dbm + 100);
    if q < 0 {
        0
    } else if q > 100 {
        100
    } else {
        q
    }
}

/// The network of one line of `wpa_cli scan_results`: address, frequency,
/// strength, flags and name, parted by tabs. The header is no network.
pub open spec fn wpa_net(line: Seq<char>, active_ssid: Option<&str>) -> Option<WifiNetView> {
    let parts = splitn(line, '\t', 5);
    if starts_with(line, "bssid"@) || parts.len() < 5 {
        None
    } else {
        let dbm = match parse_signed(trim(parts[2]), i32::MIN as int, i32::MAX as int) {
            Some(n) => n,
            None => -100,
        };
        let flags = trim(parts[3]);
        let ssid = trim(parts[4]);
        Some(
            WifiNetView {
                ssid,
                signal: quality(dbm),
                secured: find_text_from(flags, "WPA"@, 0) >= 0 || find_text_from(flags, "WEP"@, 0)
                    >= 0,
                active: match active_ssid {
                    Some(a) => a@ == ssid,
                    None => false,
                },
            },
        )
    }
}

pub open spec fn wpa_nets(ls: Seq<Seq<char>>, active_ssid: Option<&str>, n: int) -> Seq<WifiNetView>
    decreases n,
{
    if n <= 0 {
        seq![]
    } else {
        with_net(wpa_nets(ls, active_ssid, n - 1), wpa_net(ls[n - 1], active_ssid))
    }
}

fn read_wpa_net(line: &[char], active_ssid: Option<&str>) -> (r: Option<WifiNet>)
    ensures
        match r {
            Some(n) => wpa_net(line@, active_ssid) == Some(n@),
            None => wpa_net(line@, active_ssid) is None,
        },
{
    if begins(line, "bssid") {
        return None;
    }
    let parts: Vec<&[char]> = split_n(line, '\t', 5);
    assert(texts(parts@).len() == parts.len());
    if parts.len() < 5 {
        return None;
    }
    assert(texts(parts@)[2] == parts@[2]@ && texts(parts@)[3] == parts@[3]@ && texts(parts@)[4]
        == parts@[4]@);
    let dbm: i32 = match signed(trimmed(parts[2])) {
        Some(n) => n,
        None => -100,
    };
    let q: i64 = 2 * (dbm as i64 + 100);
    let signal: u8 = if q < 0 {
        0
    } else if q > 100 {
        100
    } else {
        q as u8
    };
    let flags: &[char] = trimmed(parts[3]);
    let secured: bool = mentions(flags, "WPA") || mentions(flags, "WEP");
    let ssid: &[char] = trimmed(parts[4]);
    let active: bool = match active_ssid {
        Some(a) => is_str(ssid, a),
        None => false,
    };
    Some(WifiNet { ssid: string_of(ssid), signal, secured, active })
}

/// Parse `wpa_cli scan_results` output (tab-separated, first line is header).
/// Format: BSSID\tFREQ\tSIGNAL(dBm)\tFLAGS\tSSID
pub fn parse_wpa_scan(out: &str, active_ssid: Option<&str>) -> (r: Vec<WifiNet>)
    ensures
        nets_view(r@) == connected_first(wpa_nets(lines(out@), active_ssid, lines(out@).len() as int)),
{
    let text: Vec<char> = chars_of(out);
    let ls: Vec<&[char]> = lines_of(text.as_slice());
    let ghost spec_lines = lines(out@);
    assert(spec_lines.len() == ls.len());
    let mut nets: Vec<WifiNet> = Vec::new();
    let mut i: usize = 0;
    assert(nets_view(nets@) =~= seq![]);
    while i < ls.len()
        invariant
            i <= ls.len(),
            texts(ls@) == spec_lines,
            nets_view(nets@) == wpa_nets(spec_lines, active_ssid, i as int),
        decreases ls.len() - i,
    {
        assert(spec_lines[i as int] == ls@[i as int]@);
        if let Some(net) = read_wpa_net(ls[i], active_ssid) {
            add_net(&mut nets, net);
        }
        i += 1;
    }
    rank(nets, NetOrder::Connected)
}

/// The networks of wpa_supplicant's cached scan results; none where they could
/// not be queried.
pub fn wifi_scan_cached(results: Option<&str>, active_ssid: Option<&str>) -> (r: Vec<WifiNet>)
    ensures
        nets_view(r@) == (match results {
            Some(o) => connected_first(wpa_nets(lines(o@), active_ssid, lines(o@).len() as int)),
            None => seq![],
        }),
{
    match results {
        Some(o) => parse_wpa_scan(o, active_ssid),
        None => {
            let r: Vec<WifiNet> = Vec::new();
            assert(nets_view(r@) =~= seq![]);
            r
        },
    }
}

/// Ask wpa_supplicant to start a background scan of the Wi-Fi device.
pub fn wifi_rescan_trigger(dev: Option<&str>, socket: bool) -> (r: Option<Invocation>)
    ensures
        opt_run(r) == (match dev {
            Some(dev) if socket => Some(wpa_run(dev@, seq!["scan"@])),
            _ => None,
        }),
{
    match dev {
        Some(dev) => {
            let args: Vec<&str> = vec!["scan"];
            assert(strs(args@) =~= seq!["scan"@]);
            wpa_cli(dev, socket, args)
        },
        None => None,
    }
}

// ---------------------------------------------------------------------------
// Laws of the network list
// ---------------------------------------------------------------------------

proof fn lemma_slot(list: Seq<WifiNetView>, x: WifiNetView, by: NetOrder, i: int)
    requires
        0 <= i <= list.len(),
        forall|k: int| 0 <= k < i ==> !ranks_above(x, #[trigger] list[k], by),
    ensures
        i <= slot(list, x, by, i) <= list.len(),
        slot(list, x, by, i) < list.len() ==> ranks_above(x, list[slot(list, x, by, i)], by),
        forall|k: int| 0 <= k < slot(list, x, by, i) ==> !ranks_above(x, #[trigger] list[k], by),
    decreases list.len() - i,
{
    if i < list.len() && !ranks_above(x, list[i], by) {
        lemma_slot(list, x, by, i + 1);
    }
}

/// Whether no network ranks above one that is listed before it.
pub open spec fn in_rank_order(v: Seq<WifiNetView>, by: NetOrder) -> bool {
    forall|i: int, j: int| 0 <= i < j < v.len() ==> !ranks_above(
        #[trigger] v[j],
        #[trigger] v[i],
        by,
    )
}

proof fn lemma_ranked_upto(v: Seq<WifiNetView>, by: NetOrder, n: int)
    requires
        0 <= n <= v.len(),
    ensures
        in_rank_order(ranked_upto(v, by, n), by),
        ranked_upto(v, by, n).len() == n,
        ranked_upto(v, by, n).to_multiset() == v.take(n).to_multiset(),
    decreases n,
{
    broadcast use vstd::seq_lib::group_to_multiset_ensures;

    if n > 0 {
        lemma_ranked_upto(v, by, n - 1);
        let list = ranked_upto(v, by, n - 1);
        let x = v[n - 1];
        lemma_slot(list, x, by, 0);
        let at = slot(list, x, by, 0);
        let r = list.insert(at, x);
        assert forall|i: int, j: int| 0 <= i < j < r.len() implies !ranks_above(
            #[trigger] r[j],
            #[trigger] r[i],
            by,
        ) by {
            if j < at {
                assert(r[i] == list[i] && r[j] == list[j]);
            } else if j == at {
                assert(r[i] == list[i]);
            } else if i < at {
                assert(r[i] == list[i] && r[j] == list[j - 1]);
            } else if i == at {
                if at < list.len() {
                    assert(r[j] == list[j - 1]);
                    assert(at < j - 1 ==> !ranks_above(list[j - 1], list[at], by));
                }
            } else {
                assert(r[i] == list[i - 1] && r[j] == list[j - 1]);
            }
        }
        assert(v.take(n) =~= v.take(n - 1).push(x));
    } else {
        assert(v.take(0) =~= Seq::<WifiNetView>::empty());
    }
}

/// The list of a scan by nmcli loses and adds no network, and the strength never
/// rises along it.
pub proof fn law_strongest_first(v: Seq<WifiNetView>)
    ensures
        forall|i: int, j: int|
            0 <= i < j < by_signal(v).len() ==> (#[trigger] by_signal(v)[i]).signal >= (
            #[trigger] by_signal(v)[j]).signal,
        by_signal(v).to_multiset() == v.to_multiset(),
{
    lemma_ranked_upto(v, NetOrder::Strength, v.len() as int);
    assert(v.take(v.len() as int) =~= v);
    assert forall|i: int, j: int| 0 <= i < j < by_signal(v).len() implies (#[trigger] by_signal(
        v,
    )[i]).signal >= (#[trigger] by_signal(v)[j]).signal by {
        assert(!ranks_above(by_signal(v)[j], by_signal(v)[i], NetOrder::Strength));
    }
}

/// The list of cached scan results loses and adds no network, and lists the
/// connected one first and stronger ones before weaker ones.
pub proof fn law_ranked(v: Seq<WifiNetView>)
    ensures
        in_rank_order(connected_first(v), NetOrder::Connected),
        connected_first(v).to_multiset() == v.to_multiset(),
{
    lemma_ranked_upto(v, NetOrder::Connected, v.len() as int);
    assert(v.take(v.len() as int) =~= v);
}

/// Whether every network has a name and no name occurs twice.
pub open spec fn names_distinct(v: Seq<WifiNetView>) -> bool {
    &&& forall|i: int| 0 <= i < v.len() ==> (#[trigger] v[i]).ssid.len() > 0
    &&& forall|i: int, j: int|
        0 <= i < j < v.len() ==> (#[trigger] v[i]).ssid != (#[trigger] v[j]).ssid
}

proof fn lemma_nmcli_distinct(ls: Seq<Seq<char>>, n: int)
    ensures
        names_distinct(nmcli_nets(ls, n)),
    decreases n,
{
    if n > 0 {
        lemma_nmcli_distinct(ls, n - 1);
    }
}

proof fn lemma_wpa_distinct(ls: Seq<Seq<char>>, active: Option<&str>, n: int)
    ensures
        names_distinct(wpa_nets(ls, active, n)),
    decreases n,
{
    if n > 0 {
        lemma_wpa_distinct(ls, active, n - 1);
    }
}

proof fn lemma_ranked_distinct(v: Seq<WifiNetView>, by: NetOrder, n: int)
    requires
        names_distinct(v),
        0 <= n <= v.len(),
    ensures
        names_distinct(ranked_upto(v, by, n)),
        forall|i: int|
            0 <= i < ranked_upto(v, by, n).len() ==> exists|k: int|
                0 <= k < n && #[trigger] v[k] == #[trigger] ranked_upto(v, by, n)[i],
    decreases n,
{
    if n > 0 {
        lemma_ranked_distinct(v, by, n - 1);
        let list = ranked_upto(v, by, n - 1);
        let x = v[n - 1];
        lemma_slot(list, x, by, 0);
        let at = slot(list, x, by, 0);
        let r = list.insert(at, x);
        assert forall|i: int| 0 <= i < r.len() implies exists|k: int|
            0 <= k < n && #[trigger] v[k] == #[trigger] r[i] by {
            if i < at {
                assert(r[i] == list[i]);
            } else if i == at {
                assert(r[i] == v[n - 1]);
            } else {
                assert(r[i] == list[i - 1]);
            }
        }
        assert forall|i: int| 0 <= i < r.len() implies (#[trigger] r[i]).ssid.len() > 0 by {
            let k = choose|k: int| 0 <= k < n && #[trigger] v[k] == r[i];
        }
        assert forall|i: int| 0 <= i < list.len() implies (#[trigger] list[i]).ssid != x.ssid by {
            let k = choose|k: int| 0 <= k < n - 1 && #[trigger] v[k] == list[i];
        }
        assert forall|i: int, j: int| 0 <= i < j < r.len() implies (#[trigger] r[i]).ssid
            != (#[trigger] r[j]).ssid by {
            let a = if i < at { i } else { i - 1 };
            let b = if j < at { j } else { j - 1 };
            if i != at {
                assert(r[i] == list[a]);
            }
            if j != at {
                assert(r[j] == list[b]);
            }
        }
    }
}

/// A scan lists every network once, under a name that is not empty.
pub proof fn law_networks_distinct(out: Seq<char>, active: Option<&str>)
    ensures
        names_distinct(by_signal(nmcli_nets(lines(out), lines(out).len() as int))),
        names_distinct(connected_first(wpa_nets(lines(out), active, lines(out).len() as int))),
{
    let n = lines(out).len() as int;
    lemma_nmcli_distinct(lines(out), n);
    lemma_wpa_distinct(lines(out), active, n);
    lemma_ranked_distinct(
        nmcli_nets(lines(out), n),
        NetOrder::Strength,
        nmcli_nets(lines(out), n).len() as int,
    );
    lemma_ranked_distinct(
        wpa_nets(lines(out), active, n),
        NetOrder::Connected,
        wpa_nets(lines(out), active, n).len() as int,
    );
}

// ---------------------------------------------------------------------------
// Connecting
// ---------------------------------------------------------------------------

/// How a connection attempt goes on.
pub enum ConnectStep {
    /// Run this query and hand its output to [`wifi_connect_added`].
    Add(Invocation),
    /// Run these, then poll the status through [`wifi_connect_polled`].
    Setup { net_id: String, runs: Vec<Invocation> },
    /// Wait and poll again.
    Again,
    /// Run these; the attempt is over, with this message.
    Done { runs: Vec<Invocation>, ok: bool, message: String },
}

pub enum ConnectStepView {
    Add(InvocationView),
    Setup { net_id: Seq<char>, runs: Seq<InvocationView> },
    Again,
    Done { runs: Seq<InvocationView>, ok: bool, message: Seq<char> },
}

impl View for ConnectStep {
    type V = ConnectStepView;

    open spec fn view(&self) -> ConnectStepView {
        match *self {
            ConnectStep::Add(i) => ConnectStepView::Add(i@),
            ConnectStep::Setup { net_id, runs: r } => ConnectStepView::Setup {
                net_id: net_id@,
                runs: runs(r@),
            },
            ConnectStep::Again => ConnectStepView::Again,
            ConnectStep::Done { runs: r, ok, message } => ConnectStepView::Done {
                runs: runs(r@),
                ok,
                message: message@,
            },
        }
    }
}

/// How many times the status is polled, every half a second.
pub const CONNECT_POLLS: u32 = 20;

fn refused(message: String) -> (r: ConnectStep)
    ensures
        r@ == (ConnectStepView::Done { runs: seq![], ok: false, message: message@ }),
{
    let list: Vec<Invocation> = Vec::new();
    assert(runs(list@) =~= seq![]);
    ConnectStep::Done { runs: list, ok: false, message }
}

/// Start connecting: add a network slot. Fails without a Wi-Fi device, and where
/// wpa_supplicant does not manage it.
pub fn wifi_connect(dev: Option<&str>, socket: bool) -> (r: ConnectStep)
    ensures
        r@ == (match dev {
            None => ConnectStepView::Done {
                runs: seq![],
                ok: false,
                message: "Wi-Fi arayüzü bulunamadı"@,
            },
            Some(dev) => if socket {
                ConnectStepView::Add(wpa_run(dev@, seq!["add_network"@]))
            } else {
                ConnectStepView::Done {
                    runs: seq![],
                    ok: false,
                    message: "wpa_supplicant bağlantı soketi yok — Wi-Fi etkinleştirin"@,
                }
            },
        }),
{
    match dev {
        None => refused(own("Wi-Fi arayüzü bulunamadı")),
        Some(dev) => {
            let args: Vec<&str> = vec!["add_network"];
            assert(strs(args@) =~= seq!["add_network"@]);
            match wpa_cli(dev, socket, args) {
                Some(i) => ConnectStep::Add(i),
                None => refused(own("wpa_supplicant bağlantı soketi yok — Wi-Fi etkinleştirin")),
            }
        },
    }
}

/// The first `n` characters with a backslash before every quote.
pub open spec fn quoted_upto(s: Seq<char>, n: int) -> Seq<char>
    decreases n,
{
    if n <= 0 {
        seq!['"']
    } else if s[n - 1] == '"' {
        quoted_upto(s, n - 1) + seq!['\\', '"']
    } else {
        quoted_upto(s, n - 1).push(s[n - 1])
    }
}

/// A value in double quotes, with a backslash before every quote inside.
pub open spec fn quoted(s: Seq<char>) -> Seq<char> {
    quoted_upto(s, s.len() as int).push('"')
}

fn quote(s: &str) -> (r: String)
    ensures
        r@ == quoted(s@),
{
    let s: Vec<char> = chars_of(s);
    let mut v: Vec<char> = Vec::new();
    v.push('"');
    let mut i: usize = 0;
    assert(v@ =~= seq!['"']);
    while i < s.len()
        invariant
            i <= s.len(),
            v@ == quoted_upto(s@, i as int),
        decreases s.len() - i,
    {
        if s[i] == '"' {
            v.push('\\');
            v.push('"');
            assert(v@ =~= quoted_upto(s@, i as int) + seq!['\\', '"']);
        } else {
            v.push(s[i]);
        }
        i += 1;
    }
    v.push('"');
    string_of(v.as_slice())
}

/// The key to set: the password, or none for an open network.
pub open spec fn key_run(dev: Seq<char>, id: Seq<char>, password: Option<&str>) -> InvocationView {
    match password {
        Some(pw) if pw@.len() > 0 => wpa_run(dev, seq!["set_network"@, id, "psk"@, quoted(pw@)]),
        _ => wpa_run(dev, seq!["set_network"@, id, "key_mgmt"@, "NONE"@]),
    }
}

/// Setting up the slot `id`: its name, its key, then selecting and saving it.
pub open spec fn setup_runs(
    dev: Seq<char>,
    id: Seq<char>,
    ssid: Seq<char>,
    password: Option<&str>,
) -> Seq<InvocationView> {
    seq![
        wpa_run(dev, seq!["set_network"@, id, "ssid"@, quoted(ssid)]),
        key_run(dev, id, password),
        wpa_run(dev, seq!["select_network"@, id]),
        wpa_run(dev, seq!["save_config"@]),
    ]
}

fn wpa(dev: &str, args: Vec<&str>) -> (r: Invocation)
    ensures
        r@ == wpa_run(dev@, strs(args@)),
{
    let ghost more = strs(args@);
    let mut full: Vec<&str> = vec!["-i", dev, "-p", "/run/wpa_supplicant"];
    let mut args = args;
    full.append(&mut args);
    assert(strs(full@) =~= seq!["-i"@, dev@, "-p"@, wpa_ctrl()] + more);
    invocation("wpa_cli", full)
}

/// Go on once a slot was asked for: `id_out` is the answer, a slot number.
pub fn wifi_connect_added(
    dev: &str,
    ssid: &str,
    password: Option<&str>,
    id_out: Option<&str>,
) -> (r: ConnectStep)
    ensures
        r@ == (match id_out {
            None => ConnectStepView::Done { runs: seq![], ok: false, message: "wpa_cli hatası"@ },
            Some(out) => if parse_unsigned(trim(out@), u32::MAX as int) is None {
                ConnectStepView::Done {
                    runs: seq![],
                    ok: false,
                    message: "Ağ eklenemedi: "@ + trim(out@),
                }
            } else {
                ConnectStepView::Setup {
                    net_id: trim(out@),
                    runs: setup_runs(dev@, trim(out@), ssid@, password),
                }
            },
        }),
{
    let out: &str = match id_out {
        None => {
            return refused(own("wpa_cli hatası"));
        },
        Some(out) => out,
    };
    let text: Vec<char> = chars_of(out);
    let id: &[char] = trimmed(text.as_slice());
    if unsigned(id, 4294967295).is_none() {
        let mut message: Vec<char> = chars_of("Ağ eklenemedi: ");
        push_all(&mut message, id);
        return refused(string_of(message.as_slice()));
    }
    let net_id: String = string_of(id);
    let id: &str = net_id.as_str();
    let mut list: Vec<Invocation> = Vec::new();
    // The name must be double-quoted.
    let name: String = quote(ssid);
    let args: Vec<&str> = vec!["set_network", id, "ssid", name.as_str()];
    assert(strs(args@) =~= seq!["set_network"@, id@, "ssid"@, quoted(ssid@)]);
    list.push(wpa(dev, args));
    let ghost first = list@;
    let secret: Option<&str> = match password {
        Some(pw) => if pw.is_empty() {
            None
        } else {
            Some(pw)
        },
        None => None,
    };
    match secret {
        Some(pw) => {
            let psk: String = quote(pw);
            let args: Vec<&str> = vec!["set_network", id, "psk", psk.as_str()];
            assert(strs(args@) =~= seq!["set_network"@, id@, "psk"@, quoted(pw@)]);
            list.push(wpa(dev, args));
        },
        None => {
            let args: Vec<&str> = vec!["set_network", id, "key_mgmt", "NONE"];
            assert(strs(args@) =~= seq!["set_network"@, id@, "key_mgmt"@, "NONE"@]);
            list.push(wpa(dev, args));
        },
    }
    let args: Vec<&str> = vec!["select_network", id];
    assert(strs(args@) =~= seq!["select_network"@, id@]);
    list.push(wpa(dev, args));
    let args: Vec<&str> = vec!["save_config"];
    assert(strs(args@) =~= seq!["save_config"@]);
    list.push(wpa(dev, args));
    assert(runs(list@) =~= setup_runs(dev@, id@, ssid@, password));
    ConnectStep::Setup { net_id, runs: list }
}

pub open spec fn opt_view(o: Option<&str>) -> Option<Seq<char>> {
    match o {
        Some(s) => Some(s@),
        None => None,
    }
}

/// What follows a poll of the status.
pub open spec fn polled_step(
    dev: Seq<char>,
    ssid: Seq<char>,
    net_id: Seq<char>,
    polls: int,
    status: Option<Seq<char>>,
) -> ConnectStepView {
    if status is Some && find_text_from(status->0, "wpa_state=COMPLETED"@, 0) >= 0 {
        ConnectStepView::Done {
            runs: seq![run("dhcpcd"@, seq!["-n"@, dev])],
            ok: true,
            message: "Bağlandı: "@ + ssid,
        }
    } else if polls >= CONNECT_POLLS {
        ConnectStepView::Done {
            runs: seq![wpa_run(dev, seq!["remove_network"@, net_id])],
            ok: false,
            message: "Bağlanılamadı"@,
        }
    } else {
        ConnectStepView::Again
    }
}

/// Go on after the status was polled `polls` times: `status` is what the last
/// poll answered. The connection stands once wpa_supplicant says so, and then
/// gets its address; after the last poll the slot is given up.
pub fn wifi_connect_polled(
    dev: &str,
    ssid: &str,
    net_id: &str,
    polls: u32,
    status: Option<&str>,
) -> (r: ConnectStep)
    ensures
        r@ == (if status is Some && find_text_from(status->0@, "wpa_state=COMPLETED"@, 0) >= 0 {
            ConnectStepView::Done {
                runs: seq![run("dhcpcd"@, seq!["-n"@, dev@])],
                ok: true,
                message: "Bağlandı: "@ + ssid@,
            }
        } else if polls >= CONNECT_POLLS {
            ConnectStepView::Done {
                runs: seq![wpa_run(dev@, seq!["remove_network"@, net_id@])],
                ok: false,
                message: "Bağlanılamadı"@,
            }
        } else {
            ConnectStepView::Again
        }),
        r@ == polled_step(dev@, ssid@, net_id@, polls as int, opt_view(status)),
{
    let mut list: Vec<Invocation> = Vec::new();
    if let Some(out) = status {
        let out: Vec<char> = chars_of(out);
        if mentions(out.as_slice(), "wpa_state=COMPLETED") {
            // Request an address for the new connection.
            let args: Vec<&str> = vec!["-n", dev];
            assert(strs(args@) =~= seq!["-n"@, dev@]);
            list.push(invocation("dhcpcd", args));
            assert(runs(list@) =~= seq![run("dhcpcd"@, seq!["-n"@, dev@])]);
            let mut message: Vec<char> = chars_of("Bağlandı: ");
            push_str(&mut message, ssid);
            return ConnectStep::Done {
                runs: list,
                ok: true,
                message: string_of(message.as_slice()),
            };
        }
    }
    if polls >= CONNECT_POLLS {
        let args: Vec<&str> = vec!["remove_network", net_id];
        assert(strs(args@) =~= seq!["remove_network"@, net_id@]);
        list.push(wpa(dev, args));
        assert(runs(list@) =~= seq![wpa_run(dev@, seq!["remove_network"@, net_id@])]);
        return ConnectStep::Done { runs: list, ok: false, message: own("Bağlanılamadı") };
    }
    ConnectStep::Again
}

// ---------------------------------------------------------------------------
// Connection details
// ---------------------------------------------------------------------------

/// Details of a network connection, for the per-network settings screen.
#[derive(Debug, Clone, PartialEq, Eq)]
pub struct WifiDetails {
    /// NetworkManager connection name (used for `connection modify`). Empty when
    /// the device is unmanaged (e.g. an ifupdown/static Ethernet).
    pub conn: String,
    pub autoconnect: bool,
    /// `true` = DHCP (ipv4.method auto), `false` = manual/static.
    pub dhcp: bool,
    pub mac: String,
    pub ipv4: String,
    pub ipv6: String,
    pub gateway: String,
    pub dns: String,
    /// Link is up / carrying (GENERAL.STATE ≥ 100). Drives the Ethernet on/off.
    pub connected: bool,
    /// NetworkManager is managing the device (`GENERAL.NM-MANAGED`).
    pub managed: bool,
    /// The device name (e.g. "enp3s0") — needed for link up/down.
    pub device: String,
}

pub struct WifiDetailsView {
    pub conn: Seq<char>,
    pub autoconnect: bool,
    pub dhcp: bool,
    pub mac: Seq<char>,
    pub ipv4: Seq<char>,
    pub ipv6: Seq<char>,
    pub gateway: Seq<char>,
    pub dns: Seq<char>,
    pub connected: bool,
    pub managed: bool,
    pub device: Seq<char>,
}

impl View for WifiDetails {
    type V = WifiDetailsView;

    open spec fn view(&self) -> WifiDetailsView {
        WifiDetailsView {
            conn: self.conn@,
            autoconnect: self.autoconnect,
            dhcp: self.dhcp,
            mac: self.mac@,
            ipv4: self.ipv4@,
            ipv6: self.ipv6@,
            gateway: self.gateway@,
            dns: self.dns@,
            connected: self.connected,
            managed: self.managed,
            device: self.device@,
        }
    }
}

pub open spec fn opt_details(d: Option<WifiDetails>) -> Option<WifiDetailsView> {
    match d {
        Some(d) => Some(d@),
        None => None,
    }
}

/// Nothing known of a device yet.
pub open spec fn no_details(device: Seq<char>) -> WifiDetailsView {
    WifiDetailsView {
        conn: seq![],
        autoconnect: false,
        dhcp: false,
        mac: seq![],
        ipv4: seq![],
        ipv6: seq![],
        gateway: seq![],
        dns: seq![],
        connected: false,
        managed: false,
        device,
    }
}

impl Default for WifiDetails {
    fn default() -> (r: WifiDetails)
        ensures
            r@ == no_details(seq![]),
    {
        let r = WifiDetails {
            conn: String::new(),
            autoconnect: false,
            dhcp: false,
            mac: String::new(),
            ipv4: String::new(),
            ipv6: String::new(),
            gateway: String::new(),
            dns: String::new(),
            connected: false,
            managed: false,
            device: String::new(),
        };
        assert(r.conn@ =~= seq![]);
        r
    }
}

/// The text from position `i` on, unescaped: nmcli writes `:` as `\:` and `\`
/// as `\\`; a backslash before anything else stands for itself.
pub open spec fn unescaped_from(s: Seq<char>, i: int) -> Seq<char>
    decreases s.len() - i,
{
    if i < 0 || i >= s.len() {
        seq![]
    } else if s[i] == '\\' && i + 1 < s.len() && (s[i + 1] == ':' || s[i + 1] == '\\') {
        seq![s[i + 1]] + unescaped_from(s, i + 2)
    } else {
        seq![s[i]] + unescaped_from(s, i + 1)
    }
}

pub open spec fn unescaped(s: Seq<char>) -> Seq<char> {
    unescaped_from(s, 0)
}

/// nmcli terse mode escapes `:` as `\:` and `\` as `\\` in values.
/// Unescape after splitting on the first raw `:` (the key never contains `:`).
pub fn nmcli_unescape(s: &[char]) -> (r: Vec<char>)
    ensures
        r@ == unescaped(s@),
{
    let mut out: Vec<char> = Vec::new();
    let mut i: usize = 0;
    assert(out@ + unescaped(s@) =~= unescaped(s@));
    while i < s.len()
        invariant
            i <= s.len(),
            unescaped(s@) == out@ + unescaped_from(s@, i as int),
        decreases s.len() - i,
    {
        let ghost done = out@;
        if s[i] == '\\' && i + 1 < s.len() && (s[i + 1] == ':' || s[i + 1] == '\\') {
            out.push(s[i + 1]);
            assert(done + (seq![s@[i + 1]] + unescaped_from(s@, i + 2)) =~= out@ + unescaped_from(
                s@,
                i + 2,
            ));
            i += 2;
        } else {
            out.push(s[i]);
            assert(done + (seq![s@[i as int]] + unescaped_from(s@, i + 1)) =~= out@
                + unescaped_from(s@, i + 1));
            i += 1;
        }
    }
    assert(out@ + seq![] =~= out@);
    out
}

/// What one line of `nmcli -t … device show` adds. Of addresses and name
/// servers the first is kept.
pub open spec fn with_show_line(d: WifiDetailsView, line: Seq<char>) -> WifiDetailsView {
    match split_once(line, ':') {
        None => d,
        Some((k, raw)) => {
            let v = unescaped(raw);
            if k == "GENERAL.HWADDR"@ {
                WifiDetailsView { mac: v, ..d }
            } else if k == "GENERAL.CONNECTION"@ {
                WifiDetailsView { conn: v, ..d }
            } else if k == "GENERAL.STATE"@ {
                WifiDetailsView { connected: starts_with(v, "100"@), ..d }
            } else if k == "GENERAL.NM-MANAGED"@ {
                WifiDetailsView { managed: v == "yes"@, ..d }
            } else if starts_with(k, "IP4.ADDRESS"@) && d.ipv4.len() == 0 {
                WifiDetailsView { ipv4: v, ..d }
            } else if starts_with(k, "IP6.ADDRESS"@) && d.ipv6.len() == 0 {
                WifiDetailsView { ipv6: v, ..d }
            } else if k == "IP4.GATEWAY"@ {
                WifiDetailsView { gateway: v, ..d }
            } else if starts_with(k, "IP4.DNS"@) && d.dns.len() == 0 {
                WifiDetailsView { dns: v, ..d }
            } else {
                d
            }
        },
    }
}

pub open spec fn shown_upto(dev: Seq<char>, ls: Seq<Seq<char>>, n: int) -> WifiDetailsView
    decreases n,
{
    if n <= 0 {
        no_details(dev)
    } else {
        with_show_line(shown_upto(dev, ls, n - 1), ls[n - 1])
    }
}

/// What one line of `nmcli -t … connection show` adds.
pub open spec fn with_prop_line(d: WifiDetailsView, line: Seq<char>) -> WifiDetailsView {
    match split_once(line, ':') {
        None => d,
        Some((k, raw)) => {
            let v = unescaped(raw);
            if k == "connection.autoconnect"@ {
                WifiDetailsView { autoconnect: v == "yes"@, ..d }
            } else if k == "ipv4.method"@ {
                WifiDetailsView { dhcp: v == "auto"@, ..d }
            } else {
                d
            }
        },
    }
}

pub open spec fn props_upto(d: WifiDetailsView, ls: Seq<Seq<char>>, n: int) -> WifiDetailsView
    decreases n,
{
    if n <= 0 {
        d
    } else {
        with_prop_line(props_upto(d, ls, n - 1), ls[n - 1])
    }
}

/// What `nmcli device show` says of a device; nothing where it has no hardware
/// address (not a real device).
pub open spec fn shown_device(dev: Seq<char>, show: Option<&str>) -> Option<WifiDetailsView> {
    match show {
        None => None,
        Some(o) => {
            let d = shown_upto(dev, lines(o@), lines(o@).len() as int);
            if d.mac.len() == 0 {
                None
            } else {
                Some(d)
            }
        },
    }
}

fn read_show_line(d: &mut WifiDetails, line: &[char])
    ensures
        final(d)@ == with_show_line(old(d)@, line@),
{
    if let Some((k, raw)) = parted(line, ':') {
        let v: Vec<char> = nmcli_unescape(raw);
        let v: &[char] = v.as_slice();
        if is_str(k, "GENERAL.HWADDR") {
            d.mac = string_of(v);
        } else if is_str(k, "GENERAL.CONNECTION") {
            d.conn = string_of(v);
        } else if is_str(k, "GENERAL.STATE") {
            // "100 (connected)" → connected; "10 (unmanaged)"/"20"/"30" → not.
            d.connected = begins(v, "100");
        } else if is_str(k, "GENERAL.NM-MANAGED") {
            d.managed = is_str(v, "yes");
        } else if begins(k, "IP4.ADDRESS") && d.ipv4.as_str().is_empty() {
            d.ipv4 = string_of(v);
        } else if begins(k, "IP6.ADDRESS") && d.ipv6.as_str().is_empty() {
            d.ipv6 = string_of(v);
        } else if is_str(k, "IP4.GATEWAY") {
            d.gateway = string_of(v);
        } else if begins(k, "IP4.DNS") && d.dns.as_str().is_empty() {
            d.dns = string_of(v);
        }
    }
}

fn read_prop_line(d: &mut WifiDetails, line: &[char])
    ensures
        final(d)@ == with_prop_line(old(d)@, line@),
{
    if let Some((k, raw)) = parted(line, ':') {
        let v: Vec<char> = nmcli_unescape(raw);
        let v: &[char] = v.as_slice();
        if is_str(k, "connection.autoconnect") {
            d.autoconnect = is_str(v, "yes");
        } else if is_str(k, "ipv4.method") {
            d.dhcp = is_str(v, "auto");
        }
    }
}

/// What `nmcli -t -f … device show <dev>` says of a device.
pub fn device_details(dev: &str, show: Option<&str>) -> (r: Option<WifiDetails>)
    ensures
        opt_details(r) == shown_device(dev@, show),
{
    let o: &str = match show {
        None => {
            return None;
        },
        Some(o) => o,
    };
    let text: Vec<char> = chars_of(o);
    let ls: Vec<&[char]> = lines_of(text.as_slice());
    assert(texts(ls@).len() == ls.len());
    let mut d: WifiDetails = WifiDetails::default();
    d.device = own(dev);
    let mut i: usize = 0;
    while i < ls.len()
        invariant
            i <= ls.len(),
            texts(ls@) == lines(o@),
            d@ == shown_upto(dev@, lines(o@), i as int),
        decreases ls.len() - i,
    {
        assert(lines(o@)[i as int] == ls@[i as int]@);
        read_show_line(&mut d, ls[i]);
        i += 1;
    }
    if d.mac.as_str().is_empty() {
        None
    } else {
        Some(d)
    }
}

/// The active connection's details for a device, from the outputs of `nmcli
/// device show` and, where it names a connection, of `nmcli connection show` for
/// that connection. `None` if the device is not known.
pub fn details_for_device(dev: &str, show: Option<&str>, props: Option<&str>) -> (r: Option<
    WifiDetails,
>)
    ensures
        opt_details(r) == (match shown_device(dev@, show) {
            None => None,
            Some(d) => match props {
                Some(p) if d.conn.len() > 0 => Some(
                    props_upto(d, lines(p@), lines(p@).len() as int),
                ),
                _ => Some(d),
            },
        }),
{
    let mut d: WifiDetails = match device_details(dev, show) {
        None => {
            return None;
        },
        Some(d) => d,
    };
    // Connection-level props only exist when there is an active profile.
    if !d.conn.as_str().is_empty() {
        if let Some(p) = props {
            let ghost shown = d@;
            let text: Vec<char> = chars_of(p);
            let ls: Vec<&[char]> = lines_of(text.as_slice());
            assert(texts(ls@).len() == ls.len());
            let mut i: usize = 0;
            while i < ls.len()
                invariant
                    i <= ls.len(),
                    texts(ls@) == lines(p@),
                    d@ == props_upto(shown, lines(p@), i as int),
                decreases ls.len() - i,
            {
                assert(lines(p@)[i as int] == ls@[i as int]@);
                read_prop_line(&mut d, ls[i]);
                i += 1;
            }
        }
    }
    Some(d)
}

/// Bring the Ethernet link up or down via `ip link set`.
pub fn ethernet_set_link(dev: Option<&str>, on: bool) -> (r: Option<Invocation>)
    ensures
        opt_run(r) == (match dev {
            Some(dev) => Some(
                run(
                    "ip"@,
                    seq![
                        "link"@,
                        "set"@,
                        dev@,
                        if on {
                            "up"@
                        } else {
                            "down"@
                        },
                    ],
                ),
            ),
            None => None,
        }),
{
    match dev {
        Some(dev) => {
            let args: Vec<&str> = vec!["link", "set", dev, if on { "up" } else { "down" }];
            assert(strs(args@) =~= seq![
                "link"@,
                "set"@,
                dev@,
                if on {
                    "up"@
                } else {
                    "down"@
                },
            ]);
            Some(invocation("ip", args))
        },
        None => None,
    }
}

/// The second word of a line of `ip addr show` that starts with `family`.
pub open spec fn second_word(line: Seq<char>) -> Option<Seq<char>> {
    if words(line).len() > 1 {
        Some(words(line)[1])
    } else {
        None
    }
}

/// First IPv4 and IPv6 address in the first `n` lines of `ip addr show`.
pub open spec fn addresses_upto(ls: Seq<Seq<char>>, n: int) -> (Seq<char>, Seq<char>)
    decreases n,
{
    if n <= 0 {
        (seq![], seq![])
    } else {
        let (v4, v6) = addresses_upto(ls, n - 1);
        let t = trim(ls[n - 1]);
        if starts_with(t, "inet "@) && v4.len() == 0 {
            match second_word(t) {
                Some(a) => (a, v6),
                None => (v4, v6),
            }
        } else if starts_with(t, "inet6 "@) && v6.len() == 0 {
            match second_word(t) {
                Some(a) => (v4, a),
                None => (v4, v6),
            }
        } else {
            (v4, v6)
        }
    }
}

pub open spec fn addresses(out: Option<&str>) -> (Seq<char>, Seq<char>) {
    match out {
        Some(o) => addresses_upto(lines(o@), lines(o@).len() as int),
        None => (seq![], seq![]),
    }
}

fn read_addresses(out: Option<&str>) -> (r: (String, String))
    ensures
        (r.0@, r.1@) == addresses(out),
{
    let mut v4: String = String::new();
    let mut v6: String = String::new();
    assert(v4@ =~= seq![]);
    assert(v6@ =~= seq![]);
    if let Some(o) = out {
        let text: Vec<char> = chars_of(o);
        let ls: Vec<&[char]> = lines_of(text.as_slice());
        assert(texts(ls@).len() == ls.len());
        let mut i: usize = 0;
        while i < ls.len()
            invariant
                i <= ls.len(),
                texts(ls@) == lines(o@),
                (v4@, v6@) == addresses_upto(lines(o@), i as int),
            decreases ls.len() - i,
        {
            assert(lines(o@)[i as int] == ls@[i as int]@);
            let t: &[char] = trimmed(ls[i]);
            let w: Vec<&[char]> = words_of(t);
            assert(texts(w@).len() == w.len());
            if begins(t, "inet ") && v4.as_str().is_empty() {
                if w.len() > 1 {
                    assert(texts(w@)[1] == w@[1]@);
                    v4 = string_of(w[1]);
                }
            } else if begins(t, "inet6 ") && v6.as_str().is_empty() {
                if w.len() > 1 {
                    assert(texts(w@)[1] == w@[1]@);
                    v6 = string_of(w[1]);
                }
            }
            i += 1;
        }
    }
    (v4, v6)
}

/// The gateway in the first `n` lines of `ip route show default`: the last line
/// `default via <gateway>` decides.
pub open spec fn gateway_upto(ls: Seq<Seq<char>>, n: int) -> Seq<char>
    decreases n,
{
    if n <= 0 {
        seq![]
    } else {
        let w = words(ls[n - 1]);
        if w.len() > 2 && w[0] == "default"@ && w[1] == "via"@ {
            w[2]
        } else {
            gateway_upto(ls, n - 1)
        }
    }
}

pub open spec fn gateway(out: Option<&str>) -> Seq<char> {
    match out {
        Some(o) => gateway_upto(lines(o@), lines(o@).len() as int),
        None => seq![],
    }
}

fn read_gateway(out: Option<&str>) -> (r: String)
    ensures
        r@ == gateway(out),
{
    let mut gw: String = String::new();
    assert(gw@ =~= seq![]);
    if let Some(o) = out {
        let text: Vec<char> = chars_of(o);
        let ls: Vec<&[char]> = lines_of(text.as_slice());
        assert(texts(ls@).len() == ls.len());
        let mut i: usize = 0;
        while i < ls.len()
            invariant
                i <= ls.len(),
                texts(ls@) == lines(o@),
                gw@ == gateway_upto(lines(o@), i as int),
            decreases ls.len() - i,
        {
            assert(lines(o@)[i as int] == ls@[i as int]@);
            let w: Vec<&[char]> = words_of(ls[i]);
            assert(texts(w@).len() == w.len());
            if w.len() > 2 {
                assert(texts(w@)[0] == w@[0]@ && texts(w@)[1] == w@[1]@ && texts(w@)[2]
                    == w@[2]@);
                if is_str(w[0], "default") && is_str(w[1], "via") {
                    gw = string_of(w[2]);
                }
            }
            i += 1;
        }
    }
    gw
}

/// The first name server of `resolv.conf` from line `i` on.
pub open spec fn name_server(ls: Seq<Seq<char>>, i: int) -> Seq<char>
    decreases ls.len() - i,
{
    if i < 0 || i >= ls.len() {
        seq![]
    } else {
        match strip_prefix(trim(ls[i]), "nameserver"@) {
            Some(rest) => {
                let ns = trim(rest);
                if ns.len() > 0 && ns[0] != '#' {
                    ns
                } else {
                    name_server(ls, i + 1)
                }
            },
            None => name_server(ls, i + 1),
        }
    }
}

fn read_name_server(resolv: Option<&str>) -> (r: String)
    ensures
        r@ == (match resolv {
            Some(o) => name_server(lines(o@), 0),
            None => seq![],
        }),
{
    if let Some(o) = resolv {
        let text: Vec<char> = chars_of(o);
        let ls: Vec<&[char]> = lines_of(text.as_slice());
        assert(texts(ls@).len() == ls.len());
        let mut i: usize = 0;
        while i < ls.len()
            invariant
                i <= ls.len(),
                resolv == Some(o),
                texts(ls@) == lines(o@),
                lines(o@).len() == ls.len(),
                name_server(lines(o@), 0) == name_server(lines(o@), i as int),
            decreases ls.len() - i,
        {
            assert(lines(o@)[i as int] == ls@[i as int]@);
            if let Some(rest) = without_prefix(trimmed(ls[i]), "nameserver") {
                let ns: &[char] = trimmed(rest);
                if ns.len() > 0 && ns[0] != '#' {
                    return string_of(ns);
                }
            }
            i += 1;
        }
    }
    let none: String = String::new();
    assert(none@ =~= seq![]);
    none
}

/// The hardware address in a device's `address` file, in upper case; empty
/// where it cannot be read.
pub open spec fn hardware_address(address: Option<&str>) -> Seq<char> {
    match address {
        Some(a) => uppercase(trim(a@)),
        None => seq![],
    }
}

fn read_address(address: Option<&str>) -> (r: String)
    ensures
        r@ == hardware_address(address),
{
    match address {
        Some(a) => {
            let a: Vec<char> = chars_of(a);
            let a: String = string_of(trimmed(a.as_slice()));
            a.as_str().to_uppercase()
        },
        None => {
            let none: String = String::new();
            assert(none@ =~= seq![]);
            none
        },
    }
}

/// Last name and completion in the first `n` lines of `wpa_cli status`.
pub open spec fn association_upto(ls: Seq<Seq<char>>, n: int) -> (Seq<char>, bool)
    decreases n,
{
    if n <= 0 {
        (seq![], false)
    } else {
        let (ssid, done) = association_upto(ls, n - 1);
        let line = ls[n - 1];
        (
            match strip_prefix(line, "ssid="@) {
                Some(v) => trim(v),
                None => ssid,
            },
            done || trim(line) == "wpa_state=COMPLETED"@,
        )
    }
}

/// The details of an associated Wi-Fi device with hardware address `mac`.
pub open spec fn wifi_details_spec(
    dev: Seq<char>,
    mac: Seq<char>,
    status: Seq<char>,
    addr: Option<&str>,
    route: Option<&str>,
) -> WifiDetailsView {
    let (ssid, done) = association_upto(lines(status), lines(status).len() as int);
    let (v4, v6) = addresses(addr);
    WifiDetailsView {
        conn: ssid,
        autoconnect: true,
        dhcp: true,
        mac,
        ipv4: v4,
        ipv6: v6,
        gateway: gateway(route),
        dns: seq![],
        connected: done,
        managed: true,
        device: dev,
    }
}

/// The details of an associated Wi-Fi device, once its hardware address is
/// known.
pub fn wifi_details_with(
    dev: &str,
    mac: String,
    status: &str,
    addr: Option<&str>,
    route: Option<&str>,
) -> (r: WifiDetails)
    ensures
        r@ == wifi_details_spec(dev@, mac@, status@, addr, route),
{
    let text: Vec<char> = chars_of(status);
    let ls: Vec<&[char]> = lines_of(text.as_slice());
    assert(texts(ls@).len() == ls.len());
    let mut ssid: String = String::new();
    let mut connected: bool = false;
    assert(ssid@ =~= seq![]);
    let mut i: usize = 0;
    while i < ls.len()
        invariant
            i <= ls.len(),
            texts(ls@) == lines(status@),
            (ssid@, connected) == association_upto(lines(status@), i as int),
        decreases ls.len() - i,
    {
        assert(lines(status@)[i as int] == ls@[i as int]@);
        if let Some(v) = without_prefix(ls[i], "ssid=") {
            ssid = string_of(trimmed(v));
        }
        if is_str(trimmed(ls[i]), "wpa_state=COMPLETED") {
            connected = true;
        }
        i += 1;
    }
    let (ipv4, ipv6) = read_addresses(addr);
    let dns: String = String::new();
    assert(dns@ =~= seq![]);
    WifiDetails {
        device: own(dev),
        mac,
        conn: ssid,
        autoconnect: true,
        dhcp: true,
        ipv4,
        ipv6,
        gateway: read_gateway(route),
        dns,
        connected,
        managed: true,
    }
}

/// Details of the active Wi-Fi connection, from the device's `address` file and
/// the outputs of `wpa_cli status`, `ip addr show` and `ip route show default`.
pub fn wifi_details(
    dev: Option<&str>,
    address: Option<&str>,
    status: Option<&str>,
    addr: Option<&str>,
    route: Option<&str>,
) -> (r: Option<WifiDetails>)
    ensures
        opt_details(r) == (match (dev, status) {
            (Some(dev), Some(status)) => Some(
                wifi_details_spec(dev@, hardware_address(address), status@, addr, route),
            ),
            _ => None,
        }),
{
    match (dev, status) {
        (Some(dev), Some(status)) => Some(
            wifi_details_with(dev, read_address(address), status, addr, route),
        ),
        _ => None,
    }
}

/// The details of an Ethernet device with hardware address `mac`; a device
/// without one has none.
pub open spec fn ethernet_details_spec(
    dev: Seq<char>,
    mac: Seq<char>,
    operstate: Option<&str>,
    addr: Option<&str>,
    route: Option<&str>,
    resolv: Option<&str>,
) -> Option<WifiDetailsView> {
    let (v4, v6) = addresses(addr);
    if mac.len() == 0 {
        None
    } else {
        Some(
            WifiDetailsView {
                conn: seq![],
                autoconnect: false,
                dhcp: true,
                mac,
                ipv4: v4,
                ipv6: v6,
                gateway: gateway(route),
                dns: match resolv {
                    Some(o) => name_server(lines(o@), 0),
                    None => seq![],
                },
                connected: link_up(operstate),
                managed: false,
                device: dev,
            },
        )
    }
}

/// The details of an Ethernet device, once its hardware address is known.
pub fn ethernet_details_with(
    dev: &str,
    mac: String,
    operstate: Option<&str>,
    addr: Option<&str>,
    route: Option<&str>,
    resolv: Option<&str>,
) -> (r: Option<WifiDetails>)
    ensures
        opt_details(r) == ethernet_details_spec(dev@, mac@, operstate, addr, route, resolv),
{
    if mac.as_str().is_empty() {
        return None;
    }
    let (ipv4, ipv6) = read_addresses(addr);
    let conn: String = String::new();
    assert(conn@ =~= seq![]);
    Some(
        WifiDetails {
            device: own(dev),
            mac,
            conn,
            autoconnect: false,
            dhcp: true,
            ipv4,
            ipv6,
            gateway: read_gateway(route),
            dns: read_name_server(resolv),
            connected: ethernet_link_up(operstate),
            managed: false,
        },
    )
}

/// Details of the Ethernet interface, from its files `address` and `operstate`,
/// the outputs of `ip addr show` and `ip route show default`, and resolv.conf.
/// Works without NetworkManager.
pub fn ethernet_details(
    dev: Option<&str>,
    address: Option<&str>,
    operstate: Option<&str>,
    addr: Option<&str>,
    route: Option<&str>,
    resolv: Option<&str>,
) -> (r: Option<WifiDetails>)
    ensures
        opt_details(r) == (match dev {
            Some(dev) => ethernet_details_spec(
                dev@,
                hardware_address(address),
                operstate,
                addr,
                route,
                resolv,
            ),
            None => None,
        }),
{
    match dev {
        Some(dev) => ethernet_details_with(
            dev,
            read_address(address),
            operstate,
            addr,
            route,
            resolv,
        ),
        None => None,
    }
}

/// What is known of the network devices when a details screen opens.
pub struct NetFacts<'a> {
    pub dev: Option<&'a str>,
    pub address: Option<&'a str>,
    pub operstate: Option<&'a str>,
    pub status: Option<&'a str>,
    pub addr: Option<&'a str>,
    pub route: Option<&'a str>,
    pub resolv: Option<&'a str>,
}

/// Convenience: details for the wifi/ethernet device by kind.
pub fn net_details(eth: bool, f: &NetFacts) -> (r: Option<WifiDetails>)
    ensures
        opt_details(r) == (match f.dev {
            None => None,
            Some(dev) => if eth {
                ethernet_details_spec(
                    dev@,
                    hardware_address(f.address),
                    f.operstate,
                    f.addr,
                    f.route,
                    f.resolv,
                )
            } else {
                match f.status {
                    Some(status) => Some(
                        wifi_details_spec(
                            dev@,
                            hardware_address(f.address),
                            status@,
                            f.addr,
                            f.route,
                        ),
                    ),
                    None => None,
                }
            },
        }),
{
    if eth {
        ethernet_details(f.dev, f.address, f.operstate, f.addr, f.route, f.resolv)
    } else {
        wifi_details(f.dev, f.address, f.status, f.addr, f.route)
    }
}

/// Toggle auto-reconnect for a saved wpa_supplicant network: nothing to run,
/// saved networks always reconnect.
pub fn wifi_set_autoconnect(conn: &str, on: bool) -> (r: Option<Invocation>)
    ensures
        r is None,
{
    None
}

/// Switch to DHCP: runs dhcpcd on the Wi-Fi device.
pub fn wifi_set_dhcp(dev: Option<&str>) -> (r: Option<Invocation>)
    ensures
        opt_run(r) == (match dev {
            Some(dev) => Some(run("dhcpcd"@, seq!["-n"@, dev@])),
            None => None,
        }),
{
    match dev {
        Some(dev) => {
            let args: Vec<&str> = vec!["-n", dev];
            assert(strs(args@) =~= seq!["-n"@, dev@]);
            Some(invocation("dhcpcd", args))
        },
        None => None,
    }
}

/// Switch to a static address via `ip addr` and, where a gateway is given,
/// `ip route`. `None` without a Wi-Fi device.
pub fn wifi_set_static(dev: Option<&str>, ip_prefix: &str, gateway: &str) -> (r: Option<
    Vec<Invocation>,
>)
    ensures
        match (dev, r) {
            (Some(dev), Some(list)) => {
                let add = run("ip"@, seq!["addr"@, "add"@, ip_prefix@, "dev"@, dev@]);
                runs(list@) == (if gateway@.len() == 0 {
                    seq![add]
                } else {
                    seq![
                        add,
                        run(
                            "ip"@,
                            seq![
                                "route"@,
                                "replace"@,
                                "default"@,
                                "via"@,
                                gateway@,
                                "dev"@,
                                dev@,
                            ],
                        ),
                    ]
                })
            },
            (None, None) => true,
            _ => false,
        },
{
    let dev: &str = match dev {
        Some(dev) => dev,
        None => {
            return None;
        },
    };
    let mut list: Vec<Invocation> = Vec::new();
    let args: Vec<&str> = vec!["addr", "add", ip_prefix, "dev", dev];
    assert(strs(args@) =~= seq!["addr"@, "add"@, ip_prefix@, "dev"@, dev@]);
    list.push(invocation("ip", args));
    let ghost add = run("ip"@, seq!["addr"@, "add"@, ip_prefix@, "dev"@, dev@]);
    assert(runs(list@) =~= seq![add]);
    if !gateway.is_empty() {
        let args: Vec<&str> = vec!["route", "replace", "default", "via", gateway, "dev", dev];
        let ghost words = seq!["route"@, "replace"@, "default"@, "via"@, gateway@, "dev"@, dev@];
        assert(strs(args@) =~= words);
        list.push(invocation("ip", args));
        assert(runs(list@) =~= seq![add, run("ip"@, words)]);
    }
    Some(list)
}

// ---------------------------------------------------------------------------
// Bluetooth power
// ---------------------------------------------------------------------------

/// Whether a line from index `i` on says that the adapter is powered.
pub open spec fn says_powered(ls: Seq<Seq<char>>, i: int) -> bool
    decreases ls.len() - i,
{
    if i < 0 || i >= ls.len() {
        false
    } else {
        same_ignoring_case(trim(ls[i]), "Powered: yes"@) || says_powered(ls, i + 1)
    }
}

/// Whether the adapter is on, given the output of `bluetoothctl show`.
pub fn bt_enabled(show: Option<&str>) -> (r: bool)
    ensures
        r == (match show {
            Some(o) => says_powered(lines(o@), 0),
            None => false,
        }),
{
    if let Some(o) = show {
        let text: Vec<char> = chars_of(o);
        let ls: Vec<&[char]> = lines_of(text.as_slice());
        assert(texts(ls@).len() == ls.len());
        let mut i: usize = 0;
        while i < ls.len()
            invariant
                i <= ls.len(),
                show == Some(o),
                texts(ls@) == lines(o@),
                lines(o@).len() == ls.len(),
                says_powered(lines(o@), 0) == says_powered(lines(o@), i as int),
            decreases ls.len() - i,
        {
            assert(lines(o@)[i as int] == ls@[i as int]@);
            if is_str_ignoring_case(trimmed(ls[i]), "Powered: yes") {
                return true;
            }
            i += 1;
        }
    }
    false
}

/// Switch the Bluetooth adapter.
pub fn set_bt(on: bool) -> (r: Invocation)
    ensures
        r@ == run(
            "bluetoothctl"@,
            seq![
                "power"@,
                if on {
                    "on"@
                } else {
                    "off"@
                },
            ],
        ),
{
    let args: Vec<&str> = vec!["power", if on { "on" } else { "off" }];
    assert(strs(args@) =~= seq![
        "power"@,
        if on {
            "on"@
        } else {
            "off"@
        },
    ]);
    invocation("bluetoothctl", args)
}

// ---------------------------------------------------------------------------
// Audio
// ---------------------------------------------------------------------------

/// Whether the output of `wpctl get-volume` says that the device is muted, e.g.
/// "Volume: 0.55 [MUTED]".
pub fn is_muted(out: Option<&str>) -> (r: bool)
    ensures
        r == (out is Some && find_text_from(out->0@, "[MUTED]"@, 0) >= 0),
{
    match out {
        Some(o) => {
            let o: Vec<char> = chars_of(o);
            mentions(o.as_slice(), "[MUTED]")
        },
        None => false,
    }
}

/// The first number from index `i` on; a word that says it is none is passed
/// over.
pub open spec fn first_number(read: Seq<Option<Number>>, i: int) -> Option<Number>
    decreases read.len() - i,
{
    if i < 0 || i >= read.len() {
        None
    } else if read[i] is Some && !read[i]->0.nan() {
        read[i]
    } else {
        first_number(read, i + 1)
    }
}

/// The level that the words of an output give, kept between nothing and all;
/// `fallback` where none of them is a number.
pub open spec fn level_of(read: Seq<Option<Number>>, fallback: Number) -> Number {
    clamped(
        match first_number(read, 0) {
            Some(n) => n,
            None => fallback,
        },
        Number { bits: 0 },
        Number { bits: 0x3f80_0000 },
    )
}

fn level(read: &Vec<Option<Number>>, fallback: Number) -> (r: Number)
    ensures
        r == level_of(read@, fallback),
{
    let mut n: Number = fallback;
    let mut i: usize = 0;
    while i < read.len()
        invariant_except_break
            i <= read.len(),
            n == fallback,
            first_number(read@, 0) == first_number(read@, i as int),
        ensures
            n == (match first_number(read@, 0) {
                Some(m) => m,
                None => fallback,
            }),
        decreases read.len() - i,
    {
        if let Some(v) = read[i] {
            if !v.is_nan() {
                n = v;
                break;
            }
        }
        i += 1;
    }
    let lo = Number { bits: 0 };
    let hi = Number { bits: 0x3f80_0000 };
    assert(lo.le(hi)) by {
        assert(0u32 as int % SIGN_BIT as int == 0);
        assert(0x3f80_0000u32 as int % SIGN_BIT as int == 0x3f80_0000);
    }
    n.clamp(lo, hi)
}

/// Whether a number is a level: between nothing and all.
pub open spec fn is_level(n: Number) -> bool {
    zero().le(n) && n.le(one())
}

/// A level is between nothing and all, whatever the output says.
pub proof fn law_level_in_range(read: Seq<Option<Number>>, fallback: Number)
    requires
        !fallback.nan(),
    ensures
        is_level(level_of(read, fallback)),
{
    lemma_first_number(read, 0);
}

proof fn lemma_is_level(n: Number)
    requires
        n.bits <= 0x3f80_0000,
    ensures
        is_level(n),
{
}

proof fn lemma_first_number(read: Seq<Option<Number>>, i: int)
    ensures
        first_number(read, i) matches Some(n) ==> !n.nan(),
    decreases read.len() - i,
{
    if 0 <= i < read.len() {
        lemma_first_number(read, i + 1);
    }
}

/// The output level and whether it is muted, from the output of `wpctl
/// get-volume` and what its words read as. Half where it cannot be told, so that
/// the slider has a sane place to start.
pub fn volume(out: Option<&str>, read: &Vec<Option<Number>>) -> (r: (Number, bool))
    ensures
        r.0 == (if out is Some {
            level_of(read@, Number { bits: 0x3f00_0000 })
        } else {
            Number { bits: 0x3f00_0000 }
        }),
        is_level(r.0),
        r.1 == (out is Some && find_text_from(out->0@, "[MUTED]"@, 0) >= 0),
{
    let half = Number { bits: 0x3f00_0000 };
    proof {
        lemma_is_level(half);
        law_level_in_range(read@, half);
    }
    if out.is_none() {
        return (half, false);
    }
    (level(read, half), is_muted(out))
}

/// The same for the default microphone, three quarters where it cannot be told.
pub fn mic_volume(out: Option<&str>, read: &Vec<Option<Number>>) -> (r: (Number, bool))
    ensures
        r.0 == (if out is Some {
            level_of(read@, Number { bits: 0x3f40_0000 })
        } else {
            Number { bits: 0x3f40_0000 }
        }),
        is_level(r.0),
        r.1 == (out is Some && find_text_from(out->0@, "[MUTED]"@, 0) >= 0),
{
    let most = Number { bits: 0x3f40_0000 };
    proof {
        lemma_is_level(most);
        law_level_in_range(read@, most);
    }
    if out.is_none() {
        return (most, false);
    }
    (level(read, most), is_muted(out))
}

/// Set the output volume to a level that is written out already.
pub fn set_volume(level: &str) -> (r: Invocation)
    ensures
        r@ == run("wpctl"@, seq!["set-volume"@, "@DEFAULT_AUDIO_SINK@"@, level@]),
{
    let args: Vec<&str> = vec!["set-volume", "@DEFAULT_AUDIO_SINK@", level];
    assert(strs(args@) =~= seq!["set-volume"@, "@DEFAULT_AUDIO_SINK@"@, level@]);
    invocation("wpctl", args)
}

/// Set the microphone volume to a level that is written out already.
pub fn set_mic_volume(level: &str) -> (r: Invocation)
    ensures
        r@ == run("wpctl"@, seq!["set-volume"@, "@DEFAULT_AUDIO_SOURCE@"@, level@]),
{
    let args: Vec<&str> = vec!["set-volume", "@DEFAULT_AUDIO_SOURCE@", level];
    assert(strs(args@) =~= seq!["set-volume"@, "@DEFAULT_AUDIO_SOURCE@"@, level@]);
    invocation("wpctl", args)
}

/// Mute or unmute the default output.
pub fn set_mute(mute: bool) -> (r: Invocation)
    ensures
        r@ == run(
            "wpctl"@,
            seq![
                "set-mute"@,
                "@DEFAULT_AUDIO_SINK@"@,
                if mute {
                    "1"@
                } else {
                    "0"@
                },
            ],
        ),
{
    let args: Vec<&str> = vec!["set-mute", "@DEFAULT_AUDIO_SINK@", if mute { "1" } else { "0" }];
    assert(strs(args@) =~= seq![
        "set-mute"@,
        "@DEFAULT_AUDIO_SINK@"@,
        if mute {
            "1"@
        } else {
            "0"@
        },
    ]);
    invocation("wpctl", args)
}

/// An audio device, output or input.
#[derive(Debug, Clone, PartialEq, Eq)]
pub struct AudioSink {
    pub id: String,
    pub name: String,
    pub is_default: bool,
}

pub struct AudioSinkView {
    pub id: Seq<char>,
    pub name: Seq<char>,
    pub is_default: bool,
}

impl View for AudioSink {
    type V = AudioSinkView;

    open spec fn view(&self) -> AudioSinkView {
        AudioSinkView { id: self.id@, name: self.name@, is_default: self.is_default }
    }
}

pub open spec fn sinks_view(v: Seq<AudioSink>) -> Seq<AudioSinkView> {
    v.map_values(|s: AudioSink| s@)
}

pub open spec fn is_box_char(c: char) -> bool {
    c == '│' || c == '├' || c == '─' || c == '└'
}

/// The first `n` characters without the characters that draw the tree.
pub open spec fn unboxed_upto(s: Seq<char>, n: int) -> Seq<char>
    decreases n,
{
    if n <= 0 {
        seq![]
    } else if is_box_char(s[n - 1]) {
        unboxed_upto(s, n - 1)
    } else {
        unboxed_upto(s, n - 1).push(s[n - 1])
    }
}

fn unbox(s: &[char]) -> (r: Vec<char>)
    ensures
        r@ == unboxed_upto(s@, s@.len() as int),
{
    let mut r: Vec<char> = Vec::new();
    let mut i: usize = 0;
    assert(r@ =~= seq![]);
    while i < s.len()
        invariant
            i <= s.len(),
            r@ == unboxed_upto(s@, i as int),
        decreases s.len() - i,
    {
        let c: char = s[i];
        if !(c == '│' || c == '├' || c == '─' || c == '└') {
            r.push(c);
        }
        i += 1;
    }
    r
}

/// The name of a device without the volume in brackets behind it.
pub open spec fn device_name(name_part: Seq<char>) -> Seq<char> {
    let pos = rfind_before(name_part, '[', name_part.len() as int);
    if pos >= 0 {
        trim(name_part.take(pos))
    } else {
        name_part
    }
}

/// The device of a line `<id>. [*] <name> [vol: …]`; the star marks the default.
pub open spec fn audio_device(line: Seq<char>) -> Option<AudioSinkView> {
    let t = trim(unboxed_upto(line, line.len() as int));
    match split_once_text(t, ". "@) {
        None => None,
        Some((a, b)) => {
            let id = trim(a);
            let rest = trim(b);
            if parse_unsigned(id, u32::MAX as int) is None || rest.len() == 0 {
                None
            } else {
                let name = device_name(trim(strip_run(rest, '*')));
                Some(
                    AudioSinkView {
                        id,
                        name: if name.len() == 0 {
                            "Cihaz "@ + id
                        } else {
                            name
                        },
                        is_default: rest[0] == '*',
                    },
                )
            }
        },
    }
}

fn read_audio_device(line: &[char]) -> (r: Option<AudioSink>)
    ensures
        match r {
            Some(d) => audio_device(line@) == Some(d@),
            None => audio_device(line@) is None,
        },
{
    let clean: Vec<char> = unbox(line);
    let t: &[char] = trimmed(clean.as_slice());
    match parted_at(t, ". ") {
        None => None,
        Some((a, b)) => {
            let id: &[char] = trimmed(a);
            let rest: &[char] = trimmed(b);
            if unsigned(id, 4294967295).is_none() || rest.len() == 0 {
                return None;
            }
            let is_default: bool = rest[0] == '*';
            let name_part: &[char] = trimmed(without_run(rest, '*'));
            let name: &[char] = match find_last(name_part, '[') {
                Some(pos) => trimmed(before(name_part, pos)),
                None => name_part,
            };
            let name: String = if name.len() == 0 {
                let mut v: Vec<char> = chars_of("Cihaz ");
                push_all(&mut v, id);
                string_of(v.as_slice())
            } else {
                string_of(name)
            };
            Some(AudioSink { id: string_of(id), name, is_default })
        },
    }
}

/// Whether a line of `wpctl status` opens the section of sinks (of sources).
pub open spec fn opens_section(line: Seq<char>, sinks: bool) -> bool {
    find_text_from(
        line,
        if sinks {
            "Sinks:"@
        } else {
            "Sources:"@
        },
        0,
    ) >= 0
}

/// Whether a line is the header of another section.
pub open spec fn closes_section(line: Seq<char>, sinks: bool) -> bool {
    ||| find_text_from(
        line,
        if sinks {
            "Sources:"@
        } else {
            "Sinks:"@
        },
        0,
    ) >= 0
    ||| find_text_from(line, "Filters:"@, 0) >= 0
    ||| find_text_from(line, "Chains:"@, 0) >= 0
}

/// The devices of the section from line `i` on. `inside` says that the section
/// has been opened; the header of another section ends it for good.
pub open spec fn section_devices(
    ls: Seq<Seq<char>>,
    sinks: bool,
    inside: bool,
    i: int,
) -> Seq<AudioSinkView>
    decreases ls.len() - i,
{
    if i < 0 || i >= ls.len() {
        seq![]
    } else if opens_section(ls[i], sinks) {
        section_devices(ls, sinks, true, i + 1)
    } else if !inside {
        section_devices(ls, sinks, inside, i + 1)
    } else if closes_section(ls[i], sinks) {
        seq![]
    } else {
        match audio_device(ls[i]) {
            Some(d) => seq![d] + section_devices(ls, sinks, inside, i + 1),
            None => section_devices(ls, sinks, inside, i + 1),
        }
    }
}

pub open spec fn listed_devices(status: Option<&str>, sinks: bool) -> Seq<AudioSinkView> {
    match status {
        Some(o) => section_devices(lines(o@), sinks, false, 0),
        None => seq![],
    }
}

fn list_section(status: Option<&str>, sinks: bool) -> (r: Vec<AudioSink>)
    ensures
        sinks_view(r@) == listed_devices(status, sinks),
{
    let mut r: Vec<AudioSink> = Vec::new();
    assert(sinks_view(r@) =~= seq![]);
    let o: &str = match status {
        Some(o) => o,
        None => {
            return r;
        },
    };
    let text: Vec<char> = chars_of(o);
    let ls: Vec<&[char]> = lines_of(text.as_slice());
    assert(texts(ls@).len() == ls.len());
    let mut inside: bool = false;
    let mut i: usize = 0;
    let ghost all = section_devices(lines(o@), sinks, false, 0);
    assert(sinks_view(r@) + all =~= all);
    while i < ls.len()
        invariant_except_break
            i <= ls.len(),
            texts(ls@) == lines(o@),
            lines(o@).len() == ls.len(),
            all == sinks_view(r@) + section_devices(lines(o@), sinks, inside, i as int),
        ensures
            all == sinks_view(r@),
        decreases ls.len() - i,
    {
        assert(lines(o@)[i as int] == ls@[i as int]@);
        let line: &[char] = ls[i];
        let opens: bool = if sinks {
            mentions(line, "Sinks:")
        } else {
            mentions(line, "Sources:")
        };
        let closes: bool = mentions(line, "Filters:") || mentions(line, "Chains:") || (if sinks {
            mentions(line, "Sources:")
        } else {
            mentions(line, "Sinks:")
        });
        if opens {
            inside = true;
        } else if inside {
            if closes {
                assert(sinks_view(r@) + seq![] =~= sinks_view(r@));
                break;
            }
            let ghost done = sinks_view(r@);
            if let Some(d) = read_audio_device(line) {
                let ghost rest = section_devices(lines(o@), sinks, inside, i + 1);
                r.push(d);
                assert(sinks_view(r@) =~= done.push(d@));
                assert(done + (seq![d@] + rest) =~= sinks_view(r@) + rest);
            }
        }
        i += 1;
        assert(i == ls.len() ==> sinks_view(r@) + seq![] =~= sinks_view(r@));
    }
    r
}

/// List available audio output sinks by parsing `wpctl status`. Empty where
/// wpctl is unavailable or has no sinks.
pub fn list_sinks(status: Option<&str>) -> (r: Vec<AudioSink>)
    ensures
        sinks_view(r@) == listed_devices(status, true),
{
    list_section(status, true)
}

/// List available audio input sources by parsing `wpctl status`.
pub fn list_sources(status: Option<&str>) -> (r: Vec<AudioSink>)
    ensures
        sinks_view(r@) == listed_devices(status, false),
{
    list_section(status, false)
}

/// Set the WirePlumber default audio input source by node ID. Running streams
/// are moved by [`move_streams`].
pub fn set_default_source(id: &str) -> (r: Invocation)
    ensures
        r@ == run("wpctl"@, seq!["set-default"@, id@]),
{
    let args: Vec<&str> = vec!["set-default", id];
    assert(strs(args@) =~= seq!["set-default"@, id@]);
    invocation("wpctl", args)
}

/// Set the WirePlumber default audio output sink by node ID. Running streams
/// are moved by [`move_streams`], so they switch without restarting the apps.
pub fn set_default_sink(id: &str) -> (r: Invocation)
    ensures
        r@ == run("wpctl"@, seq!["set-default"@, id@]),
{
    let args: Vec<&str> = vec!["set-default", id];
    assert(strs(args@) =~= seq!["set-default"@, id@]);
    invocation("wpctl", args)
}

pub open spec fn move_verb(sinks: bool) -> Seq<char> {
    if sinks {
        "move-sink-input"@
    } else {
        "move-source-output"@
    }
}

/// Moving each stream listed from line `i` on to the device `name`.
pub open spec fn moves_from(ls: Seq<Seq<char>>, sinks: bool, name: Seq<char>, i: int) -> Seq<
    InvocationView,
>
    decreases ls.len() - i,
{
    if i < 0 || i >= ls.len() {
        seq![]
    } else if words(ls[i]).len() > 0 {
        seq![run("pactl"@, seq![move_verb(sinks), words(ls[i])[0], name])] + moves_from(
            ls,
            sinks,
            name,
            i + 1,
        )
    } else {
        moves_from(ls, sinks, name, i + 1)
    }
}

/// Moves every running stream to the new default device. `name` is what
/// `pactl get-default-sink` (`-source`) says and `streams` the output of `pactl
/// list short sink-inputs` (`source-outputs`).
pub fn move_streams(sinks: bool, name: Option<&str>, streams: Option<&str>) -> (r: Vec<Invocation>)
    ensures
        runs(r@) == (match (name, streams) {
            (Some(name), Some(o)) if trim(name@).len() > 0 => moves_from(
                lines(o@),
                sinks,
                trim(name@),
                0,
            ),
            _ => seq![],
        }),
{
    let mut r: Vec<Invocation> = Vec::new();
    assert(runs(r@) =~= seq![]);
    let (name, o) = match (name, streams) {
        (Some(name), Some(o)) => (name, o),
        _ => {
            return r;
        },
    };
    let name: Vec<char> = chars_of(name);
    let name: &[char] = trimmed(name.as_slice());
    if name.len() == 0 {
        return r;
    }
    let name: String = string_of(name);
    let text: Vec<char> = chars_of(o);
    let ls: Vec<&[char]> = lines_of(text.as_slice());
    assert(texts(ls@).len() == ls.len());
    let mut i: usize = 0;
    let ghost all = moves_from(lines(o@), sinks, name@, 0);
    assert(runs(r@) + all =~= all);
    while i < ls.len()
        invariant
            i <= ls.len(),
            texts(ls@) == lines(o@),
            lines(o@).len() == ls.len(),
            all == runs(r@) + moves_from(lines(o@), sinks, name@, i as int),
        decreases ls.len() - i,
    {
        assert(lines(o@)[i as int] == ls@[i as int]@);
        let w: Vec<&[char]> = words_of(ls[i]);
        assert(texts(w@).len() == w.len());
        if w.len() > 0 {
            assert(texts(w@)[0] == w@[0]@);
            let stream: String = string_of(w[0]);
            let verb: &str = if sinks {
                "move-sink-input"
            } else {
                "move-source-output"
            };
            let args: Vec<&str> = vec![verb, stream.as_str(), name.as_str()];
            assert(strs(args@) =~= seq![move_verb(sinks), stream@, name@]);
            let ghost done = runs(r@);
            let ghost rest = moves_from(lines(o@), sinks, name@, i + 1);
            let one: Invocation = invocation("pactl", args);
            r.push(one);
            assert(runs(r@) =~= done.push(one@));
            assert(done + (seq![one@] + rest) =~= runs(r@) + rest);
        }
        i += 1;
    }
    assert(runs(r@) + seq![] =~= runs(r@));
    r
}

// ---------------------------------------------------------------------------
// Power and clock
// ---------------------------------------------------------------------------

/// Switch the machine off.
pub fn power_off() -> (r: Invocation)
    ensures
        r@ == run("systemctl"@, seq!["poweroff"@]),
{
    let args: Vec<&str> = vec!["poweroff"];
    assert(strs(args@) =~= seq!["poweroff"@]);
    invocation("systemctl", args)
}

/// Restart the machine.
pub fn reboot() -> (r: Invocation)
    ensures
        r@ == run("systemctl"@, seq!["reboot"@]),
{
    let args: Vec<&str> = vec!["reboot"];
    assert(strs(args@) =~= seq!["reboot"@]);
    invocation("systemctl", args)
}

/// The query behind the clock: localised "HH:MM · Weekday DD Month" via date(1).
pub fn datetime_query() -> (r: Invocation)
    ensures
        r@ == run("date"@, seq!["+%H:%M  ·  %A, %d %B"@]),
{
    let args: Vec<&str> = vec!["+%H:%M  ·  %A, %d %B"];
    assert(strs(args@) =~= seq!["+%H:%M  ·  %A, %d %B"@]);
    invocation("date", args)
}

/// The clock's header line; the empty string where `date` could not be run.
pub fn datetime(out: Option<&str>) -> (r: String)
    ensures
        r@ == (match out {
            Some(o) => trim(o@),
            None => seq![],
        }),
{
    match captured(out) {
        Some(o) => o,
        None => {
            let none: String = String::new();
            assert(none@ =~= seq![]);
            none
        },
    }
}

// ---------------------------------------------------------------------------
// Laws of nmcli's escaping
// ---------------------------------------------------------------------------

/// How nmcli writes a value: a backslash before every colon and backslash.
pub open spec fn nmcli_escaped(s: Seq<char>) -> Seq<char>
    decreases s.len(),
{
    if s.len() == 0 {
        seq![]
    } else if s[0] == ':' || s[0] == '\\' {
        seq!['\\', s[0]] + nmcli_escaped(s.skip(1))
    } else {
        seq![s[0]] + nmcli_escaped(s.skip(1))
    }
}

/// How nmcli writes a terse line: the escaped values, parted by colons.
pub open spec fn terse_line(fields: Seq<Seq<char>>) -> Seq<char>
    decreases fields.len(),
{
    if fields.len() == 0 {
        seq![]
    } else if fields.len() == 1 {
        nmcli_escaped(fields[0])
    } else {
        nmcli_escaped(fields[0]) + seq![':'] + terse_line(fields.skip(1))
    }
}

proof fn lemma_unescape(pre: Seq<char>, s: Seq<char>)
    ensures
        unescaped_from(pre + nmcli_escaped(s), pre.len() as int) == s,
    decreases s.len(),
{
    let e = nmcli_escaped(s);
    let whole = pre + e;
    if s.len() > 0 {
        let rest = s.skip(1);
        if s[0] == ':' || s[0] == '\\' {
            let pre2 = pre + seq!['\\', s[0]];
            assert(whole =~= pre2 + nmcli_escaped(rest));
            assert(whole[pre.len() as int] == '\\' && whole[pre.len() as int + 1] == s[0]);
            lemma_unescape(pre2, rest);
        } else {
            let pre2 = pre + seq![s[0]];
            assert(whole =~= pre2 + nmcli_escaped(rest));
            assert(whole[pre.len() as int] == s[0]);
            lemma_unescape(pre2, rest);
        }
        assert(s =~= seq![s[0]] + rest);
    } else {
        assert(whole =~= pre);
        assert(s =~= seq![]);
    }
}

/// Unescaping gives back what nmcli escaped.
pub proof fn law_unescape(value: Seq<char>)
    ensures
        unescaped(nmcli_escaped(value)) == value,
{
    lemma_unescape(seq![], value);
    assert(seq![] + nmcli_escaped(value) =~= nmcli_escaped(value));
}

proof fn lemma_terse_field(pre: Seq<char>, s: Seq<char>, post: Seq<char>, cur: Seq<char>)
    ensures
        terse_fields(pre + nmcli_escaped(s) + post, pre.len() as int, cur) == terse_fields(
            pre + nmcli_escaped(s) + post,
            (pre.len() + nmcli_escaped(s).len()) as int,
            cur + s,
        ),
    decreases s.len(),
{
    let whole = pre + nmcli_escaped(s) + post;
    if s.len() > 0 {
        let rest = s.skip(1);
        let head = if s[0] == ':' || s[0] == '\\' {
            seq!['\\', s[0]]
        } else {
            seq![s[0]]
        };
        let pre2 = pre + head;
        assert(nmcli_escaped(s) =~= head + nmcli_escaped(rest));
        assert(whole =~= pre2 + nmcli_escaped(rest) + post);
        assert(whole[pre.len() as int] == head[0]);
        if head.len() == 2 {
            assert(whole[pre.len() as int + 1] == s[0]);
        }
        lemma_terse_field(pre2, rest, post, cur.push(s[0]));
        assert(cur.push(s[0]) + rest =~= cur + s);
    } else {
        assert(cur + s =~= cur);
    }
}

proof fn lemma_terse_line(pre: Seq<char>, fields: Seq<Seq<char>>)
    requires
        fields.len() > 0,
    ensures
        terse_fields(pre + terse_line(fields), pre.len() as int, seq![]) == fields,
    decreases fields.len(),
{
    let f = fields[0];
    let e = nmcli_escaped(f);
    let whole = pre + terse_line(fields);
    if fields.len() == 1 {
        lemma_terse_field(pre, f, seq![], seq![]);
        assert(pre + e + seq![] =~= whole);
        assert(seq![] + f =~= f);
        assert(fields =~= seq![f]);
    } else {
        let rest = fields.skip(1);
        let post = seq![':'] + terse_line(rest);
        assert(pre + e + post =~= whole);
        lemma_terse_field(pre, f, post, seq![]);
        assert(seq![] + f =~= f);
        let pre2 = pre + e + seq![':'];
        assert(whole =~= pre2 + terse_line(rest));
        assert(whole[(pre.len() + e.len()) as int] == ':');
        lemma_terse_line(pre2, rest);
        assert(fields =~= seq![f] + rest);
    }
}

/// Splitting a terse line gives back the fields it was written from.
pub proof fn law_terse_round_trip(fields: Seq<Seq<char>>)
    requires
        fields.len() > 0,
    ensures
        terse(terse_line(fields)) == fields,
{
    lemma_terse_line(seq![], fields);
    assert(seq![] + terse_line(fields) =~= terse_line(fields));
}

// ---------------------------------------------------------------------------
// Laws of scan lines
// ---------------------------------------------------------------------------

/// Whether a text can stand in a column as it is: it holds no tab and does not
/// begin or end in white space.
pub open spec fn is_column(s: Seq<char>) -> bool {
    &&& s.len() > 0
    &&& !s.contains('\t')
    &&& !is_whitespace(s[0])
    &&& !is_whitespace(s.last())
}

/// A line of `wpa_cli scan_results`, written from its columns.
pub open spec fn scan_line(
    bssid: Seq<char>,
    frequency: Seq<char>,
    dbm: int,
    flags: Seq<char>,
    ssid: Seq<char>,
) -> Seq<char> {
    bssid + seq!['\t'] + frequency + seq!['\t'] + signed_decimal(dbm) + seq!['\t'] + flags
        + seq!['\t'] + ssid
}

proof fn lemma_number_column(n: int)
    ensures
        is_column(signed_decimal(n)),
        trim(signed_decimal(n)) == signed_decimal(n),
{
    law_signed_reads_back(n, n, n);
    let d = signed_decimal(n);
    assert forall|i: int| 0 <= i < d.len() implies !is_whitespace(#[trigger] d[i]) && d[i]
        != '\t' by {
        law_white_space(d[i]);
    }
    assert(!is_whitespace(d[0]) && !is_whitespace(d.last()));
    lemma_column_trimmed(d);
}

proof fn lemma_column_trimmed(s: Seq<char>)
    requires
        s.len() > 0,
        !is_whitespace(s[0]),
        !is_whitespace(s.last()),
    ensures
        trim(s) == s,
{
    law_trim_undoes_padding(seq![], s, seq![]);
    assert(Seq::<char>::empty() + s + Seq::<char>::empty() =~= s);
}

/// A line of a scan is read back column by column: its name is the network's, its
/// strength counts twice from -100 dBm on up to 100, its flags say whether a key is
/// asked for, and the network is in use where its name is the associated one.
pub proof fn law_scan_line(
    bssid: Seq<char>,
    frequency: Seq<char>,
    dbm: int,
    flags: Seq<char>,
    ssid: Seq<char>,
    active: Option<&str>,
)
    requires
        is_column(bssid),
        bssid[0] != 'b',
        is_column(frequency),
        is_column(flags),
        ssid.len() > 0,
        !is_whitespace(ssid[0]),
        !is_whitespace(ssid.last()),
        -0x8000_0000 <= dbm <= 0x7fff_ffff,
    ensures
        wpa_net(scan_line(bssid, frequency, dbm, flags, ssid), active) matches Some(net) && {
            &&& net.ssid == ssid
            &&& dbm <= -100 ==> net.signal == 0
            &&& -100 <= dbm <= -50 ==> net.signal == 2 * (dbm + 100)
            &&& dbm >= -50 ==> net.signal == 100
            &&& net.active == (active matches Some(a) && a@ == ssid)
            &&& net.secured ==> find_text_from(flags, "WPA"@, 0) >= 0 || find_text_from(
                flags,
                "WEP"@,
                0,
            ) >= 0
        },
{
    reveal_strlit("bssid");
    let v = seq![bssid, frequency, signed_decimal(dbm), flags];
    let line = scan_line(bssid, frequency, dbm, flags, ssid);
    lemma_number_column(dbm);
    law_signed_reads_back(dbm, i32::MIN as int, i32::MAX as int);
    lemma_column_trimmed(flags);
    lemma_column_trimmed(ssid);
    law_splitn_undoes_join(v, '\t', ssid);
    reveal_with_fuel(joined, 5);
    let v1 = v.skip(1);
    let v2 = v1.skip(1);
    let v3 = v2.skip(1);
    assert(v3.skip(1) =~= seq![]);
    assert(v1[0] == frequency && v2[0] == signed_decimal(dbm) && v3[0] == flags);
    assert(joined(v, '\t', ssid) =~= line);
    assert(line[0] == bssid[0]);
    assert(!starts_with(line, "bssid"@)) by {
        if starts_with(line, "bssid"@) {
            assert(line.subrange(0, 5)[0] == 'b');
        }
    }
    assert(splitn(line, '\t', 5) == v.push(ssid));
}

/// The signal of a scan line is monotone in its strength: of two lines that differ
/// in it alone the stronger one's network has no smaller signal, and between -100 and
/// -50 dBm each dBm is worth 2.
pub proof fn law_stronger_line_stronger_signal(
    bssid: Seq<char>,
    frequency: Seq<char>,
    a: int,
    b: int,
    flags: Seq<char>,
    ssid: Seq<char>,
    active: Option<&str>,
)
    requires
        is_column(bssid),
        bssid[0] != 'b',
        is_column(frequency),
        is_column(flags),
        ssid.len() > 0,
        !is_whitespace(ssid[0]),
        !is_whitespace(ssid.last()),
        -0x8000_0000 <= a <= b <= 0x7fff_ffff,
    ensures
        wpa_net(scan_line(bssid, frequency, a, flags, ssid), active) matches Some(weak)
            && wpa_net(scan_line(bssid, frequency, b, flags, ssid), active) matches Some(strong) && {
            &&& weak.signal <= strong.signal
            &&& -100 <= a && b <= -50 ==> strong.signal - weak.signal == 2 * (b - a)
            &&& weak.ssid == strong.ssid
            &&& weak.secured == strong.secured
            &&& weak.active == strong.active
        },
{
    law_scan_line(bssid, frequency, a, flags, ssid, active);
    law_scan_line(bssid, frequency, b, flags, ssid, active);
    lemma_secured(bssid, frequency, a, flags, ssid, active);
    lemma_secured(bssid, frequency, b, flags, ssid, active);
}

proof fn lemma_secured(
    bssid: Seq<char>,
    frequency: Seq<char>,
    dbm: int,
    flags: Seq<char>,
    ssid: Seq<char>,
    active: Option<&str>,
)
    requires
        is_column(bssid),
        bssid[0] != 'b',
        is_column(frequency),
        is_column(flags),
    ensures
        wpa_net(scan_line(bssid, frequency, dbm, flags, ssid), active) matches Some(net)
            && net.secured == (find_text_from(flags, "WPA"@, 0) >= 0 || find_text_from(
            flags,
            "WEP"@,
            0,
        ) >= 0),
{
    reveal_strlit("bssid");
    let v = seq![bssid, frequency, signed_decimal(dbm), flags];
    let line = scan_line(bssid, frequency, dbm, flags, ssid);
    lemma_number_column(dbm);
    lemma_column_trimmed(flags);
    law_splitn_undoes_join(v, '\t', ssid);
    reveal_with_fuel(joined, 5);
    let v1 = v.skip(1);
    let v2 = v1.skip(1);
    let v3 = v2.skip(1);
    assert(v3.skip(1) =~= seq![]);
    assert(v1[0] == frequency && v2[0] == signed_decimal(dbm) && v3[0] == flags);
    assert(joined(v, '\t', ssid) =~= line);
    assert(line[0] == bssid[0]);
    assert(!starts_with(line, "bssid"@)) by {
        if starts_with(line, "bssid"@) {
            assert(line.subrange(0, 5)[0] == 'b');
        }
    }
    assert(splitn(line, '\t', 5) == v.push(ssid));
}

/// A network whose flags name WPA or WEP anywhere asks for a key; one without
/// flags does not.
pub proof fn law_scan_line_security(
    bssid: Seq<char>,
    frequency: Seq<char>,
    dbm: int,
    before: Seq<char>,
    after: Seq<char>,
    ssid: Seq<char>,
    active: Option<&str>,
)
    requires
        is_column(bssid),
        bssid[0] != 'b',
        is_column(frequency),
        is_column(before + "WPA"@ + after),
        is_column(before + "WEP"@ + after),
    ensures
        wpa_net(scan_line(bssid, frequency, dbm, before + "WPA"@ + after, ssid), active) matches Some(n)
            && n.secured,
        wpa_net(scan_line(bssid, frequency, dbm, before + "WEP"@ + after, ssid), active) matches Some(n)
            && n.secured,
        wpa_net(scan_line(bssid, frequency, dbm, "[ESS]"@, ssid), active) matches Some(n)
            && !n.secured,
{
    reveal_strlit("[ESS]");
    reveal_strlit("WPA");
    reveal_strlit("WEP");
    lemma_secured(bssid, frequency, dbm, before + "WPA"@ + after, ssid, active);
    lemma_secured(bssid, frequency, dbm, before + "WEP"@ + after, ssid, active);
    law_find_text(before, "WPA"@, after);
    law_find_text(before, "WEP"@, after);
    let ess = "[ESS]"@;
    law_white_space('[');
    law_white_space(']');
    assert(is_column(ess));
    lemma_secured(bssid, frequency, dbm, ess, ssid, active);
    reveal_with_fuel(find_text_from, 7);
    assert(ess.subrange(0, 3)[0] == '[');
    assert(ess.subrange(1, 4)[0] == 'E');
    assert(ess.subrange(2, 5)[0] == 'S');
}

/// A line of `wpa_cli scan_results` with fewer than five columns, and its header,
/// are no network.
pub proof fn law_not_a_scan_line(line: Seq<char>, rest: Seq<char>, active: Option<&str>)
    requires
        !line.contains('\t'),
    ensures
        wpa_net(line, active) is None,
        wpa_net("bssid"@ + rest, active) is None,
{
    reveal_with_fuel(splitn, 2);
    assert(splitn(line, '\t', 5).len() < 5) by {
        lemma_find_from(line, '\t', 0);
        let i = find_from(line, '\t', 0);
        if i < line.len() {
            assert(line.contains(line[i]));
        }
    }
    law_prefix("bssid"@, rest);
}

/// A line of `nmcli -t -f IN-USE,SIGNAL,SECURITY,SSID` is read back field by field.
#[verifier::rlimit(30)]
pub proof fn law_nmcli_line(in_use: bool, signal: nat, security: Seq<char>, ssid: Seq<char>)
    requires
        signal <= 100,
        ssid.len() > 0,
        !is_whitespace(ssid[0]),
        !is_whitespace(ssid.last()),
        security.len() > 0 ==> !is_whitespace(security[0]) && !is_whitespace(security.last()),
    ensures
        nmcli_net(
            terse_line(
                seq![
                    if in_use {
                        "*"@
                    } else {
                        " "@
                    },
                    decimal(signal),
                    security,
                    ssid,
                ],
            ),
        ) == Some(
            (WifiNetView {
                ssid,
                signal: signal as int,
                secured: security.len() > 0 && security != "--"@,
                active: in_use,
            }),
        ),
{
    reveal_strlit("*");
    reveal_strlit(" ");
    reveal_strlit("");
    reveal_strlit("--");
    let f = seq![
        if in_use {
            "*"@
        } else {
            " "@
        },
        decimal(signal),
        security,
        ssid,
    ];
    law_terse_round_trip(f);
    law_decimal_reads_back(signal, u8::MAX as int);
    lemma_number_column(signal as int);
    assert(signed_decimal(signal as int) == decimal(signal));
    lemma_column_trimmed(ssid);
    if security.len() > 0 {
        lemma_column_trimmed(security);
    }
    law_white_space('*');
    lemma_column_trimmed("*"@);
    law_white_space(' ');
    law_trim_blank(" "@);
    law_trim_blank(seq![]);
    assert(security.len() == 0 ==> security =~= seq![]);
    reveal_with_fuel(join_upto, 3);
    assert(join_upto(f, 3, 4, ":"@) =~= ssid);
}

// ---------------------------------------------------------------------------
// Laws of the devices and their details
// ---------------------------------------------------------------------------

/// The device that is found is wireless, and none before it is; where there is none,
/// none is found.
pub proof fn law_first_wireless(v: Seq<NetEntry>, i: int, k: int)
    requires
        0 <= i <= k < v.len(),
        v[k].wireless,
        forall|j: int| i <= j < k ==> !(#[trigger] v[j]).wireless,
    ensures
        first_wireless(v, i) == Some(v[k].name@),
    decreases k - i,
{
    if i < k {
        assert(!v[i].wireless);
        law_first_wireless(v, i + 1, k);
    }
}

/// Only a wired device with hardware behind it counts as Ethernet: neither the loopback,
/// nor a wireless one, nor one of another type, nor a virtual one.
pub proof fn law_ethernet(e: NetEntry)
    ensures
        e.wireless ==> !is_ethernet(e),
        !e.device ==> !is_ethernet(e),
        e.kind is None ==> !is_ethernet(e),
        e.name@ == "lo"@ ==> !is_ethernet(e),
        e.device && !e.wireless && e.name@ != "lo"@ && (e.kind matches Some(k) && k@ == "1\n"@)
            ==> is_ethernet(e),
        e.kind matches Some(k) && k@ == "772\n"@ ==> !is_ethernet(e),
{
    reveal_strlit("1\n");
    reveal_strlit("772\n");
    reveal_strlit("1");
    law_white_space('1');
    law_white_space('7');
    law_white_space('2');
    law_white_space('\n');
    law_trim_undoes_padding(seq![], seq!['1'], seq!['\n']);
    law_trim_undoes_padding(seq![], seq!['7', '7', '2'], seq!['\n']);
    assert(Seq::<char>::empty() + seq!['1'] + seq!['\n'] =~= "1\n"@);
    assert(Seq::<char>::empty() + seq!['7', '7', '2'] + seq!['\n'] =~= "772\n"@);
    assert("1"@ =~= seq!['1']);
}

/// A link is taken for active where its state is `up` or `unknown`, and for nothing
/// else.
#[verifier::rlimit(30)]
pub proof fn law_link_state(s: &str)
    ensures
        s@ == "up\n"@ ==> link_up(Some(s)),
        s@ == "unknown\n"@ ==> link_up(Some(s)),
        s@ == "down\n"@ ==> !link_up(Some(s)),
        s@ == "dormant\n"@ ==> !link_up(Some(s)),
        !link_up(None),
{
    reveal_strlit("up");
    reveal_strlit("unknown");
    reveal_strlit("up\n");
    reveal_strlit("unknown\n");
    reveal_strlit("down\n");
    reveal_strlit("dormant\n");
    law_white_space('u');
    law_white_space('p');
    law_white_space('n');
    law_white_space('d');
    law_white_space('t');
    law_white_space('\n');
    law_trim_undoes_padding(seq![], "up"@, seq!['\n']);
    law_trim_undoes_padding(seq![], "unknown"@, seq!['\n']);
    law_trim_undoes_padding(seq![], "down\n"@.take(4), seq!['\n']);
    law_trim_undoes_padding(seq![], "dormant\n"@.take(7), seq!['\n']);
    assert(Seq::<char>::empty() + "up"@ + seq!['\n'] =~= "up\n"@);
    assert(Seq::<char>::empty() + "unknown"@ + seq!['\n'] =~= "unknown\n"@);
    assert(Seq::<char>::empty() + "down\n"@.take(4) + seq!['\n'] =~= "down\n"@);
    assert(Seq::<char>::empty() + "dormant\n"@.take(7) + seq!['\n'] =~= "dormant\n"@);
    assert("up"@.len() == 2 && "unknown"@.len() == 7);
    assert("dormant\n"@.take(7)[0] == 'd' && "unknown"@[0] == 'u');
}

/// In a list of devices the one of the wanted type is found, behind devices of other
/// types and pseudo-devices, by the name before the colon.
pub proof fn law_device_of_kind(ls: Seq<Seq<char>>, dev: Seq<char>, kind: Seq<char>, other: Seq<char>, i: int)
    requires
        0 <= i < ls.len(),
        !dev.contains(':'),
        kind != other,
    ensures
        ls[i] == dev + seq![':'] + kind && find_text_from(dev, "p2p"@, 0) < 0 ==> device_of_kind(
            ls,
            kind,
            i,
        ) == Some(dev),
        ls[i] == dev + seq![':'] + kind && find_text_from(dev, "p2p"@, 0) >= 0 ==> device_of_kind(
            ls,
            kind,
            i,
        ) == device_of_kind(ls, kind, i + 1),
        ls[i] == dev + seq![':'] + other ==> device_of_kind(ls, kind, i) == device_of_kind(
            ls,
            kind,
            i + 1,
        ),
        device_of_kind(ls, kind, ls.len() as int) is None,
{
    law_split_once(dev, ':', kind);
    law_split_once(dev, ':', other);
}

/// A command for a device goes to the supplicant by the device's name, with the control
/// directory before it and the command's words behind.
pub proof fn law_wpa_run(dev: Seq<char>, args: Seq<Seq<char>>)
    ensures
        wpa_run(dev, args).program == "wpa_cli"@,
        wpa_run(dev, args).args.take(4) == seq!["-i"@, dev, "-p"@, "/run/wpa_supplicant"@],
        wpa_run(dev, args).args.skip(4) == args,
{
    assert(wpa_run(dev, args).args.skip(4) =~= args);
    assert(wpa_run(dev, args).args.take(4) =~= seq!["-i"@, dev, "-p"@, "/run/wpa_supplicant"@]);
}

/// The number a flags file holds counts by its last hexadecimal digit: an odd one means
/// that the device is up.
pub proof fn law_flags(digits: Seq<char>, last: char, s: &str)
    requires
        s@ == seq!['0', 'x'] + digits + seq![last] + seq!['\n'],
        digits.len() <= 14,
        digits.len() > 0 ==> digits[0] == '1',
        forall|i: int| 0 <= i < digits.len() ==> '0' <= #[trigger] digits[i] <= '9',
        '0' <= last <= '9' || 'a' <= last <= 'f',
    ensures
        flags_up(Some(s)) == (last == '1' || last == '3' || last == '5' || last == '7' || last == '9'
            || last == 'b' || last == 'd' || last == 'f'),
        !flags_up(None),
{
    let core = seq!['0', 'x'] + digits + seq![last];
    law_white_space('0');
    law_white_space(last);
    law_white_space('\n');
    law_trim_undoes_padding(seq![], core, seq!['\n']);
    assert(Seq::<char>::empty() + core + seq!['\n'] =~= s@);
    let d = digits + seq![last];
    assert(core.skip(2) =~= d);
    assert(strip_0x(core) == strip_0x(d));
    assert(strip_0x(d) == d) by {
        if d.len() >= 2 {
            if digits.len() >= 1 {
                assert(d[0] == '1');
            }
        }
    }
    assert forall|i: int| 0 <= i < d.len() implies is_hex_digit(#[trigger] d[i]) by {
        if i < digits.len() {
            assert(d[i] == digits[i]);
        }
    }
    lemma_hex_bound(d);
    assert(d.drop_last() =~= digits);
    assert(d.last() == last);
    lemma_hex_small(d);
}

proof fn lemma_hex_bound(d: Seq<char>)
    requires
        all_hex(d),
    ensures
        0 <= hex_value(d),
    decreases d.len(),
{
    if d.len() > 0 {
        assert(is_hex_digit(d.last()));
        lemma_hex_bound(d.drop_last());
    }
}

proof fn lemma_hex_small(d: Seq<char>)
    requires
        all_hex(d),
        d.len() <= 16,
    ensures
        hex_value(d) <= u64::MAX,
{
    lemma_hex_power(d);
    lemma_sixteens(d.len());
}

spec fn sixteens(n: nat) -> int
    decreases n,
{
    if n == 0 {
        1
    } else {
        16 * sixteens((n - 1) as nat)
    }
}

proof fn lemma_hex_power(d: Seq<char>)
    requires
        all_hex(d),
    ensures
        0 <= hex_value(d) < sixteens(d.len()),
    decreases d.len(),
{
    if d.len() > 0 {
        assert(is_hex_digit(d.last()));
        lemma_hex_power(d.drop_last());
    }
}

proof fn lemma_sixteens(n: nat)
    requires
        n <= 16,
    ensures
        sixteens(n) <= 0x1_0000_0000_0000_0000,
{
    reveal_with_fuel(sixteens, 17);
}

/// Switching the radio on sets the link up, and starts the supplicant only where it is
/// not there yet; switching it off ends it first, where its process is known, and then
/// sets the link down.
pub proof fn law_wifi_switch(dev: Seq<char>, pid: &str, n: nat)
    requires
        n <= 0xffff_ffff,
        pid@ == decimal(n) + seq!['\n'],
    ensures
        wifi_switch_runs(dev, true, true, Some(pid)) == seq![
            run("ip"@, seq!["link"@, "set"@, dev, "up"@]),
        ],
        wifi_switch_runs(dev, true, false, Some(pid)).len() == 2,
        wifi_switch_runs(dev, true, false, Some(pid))[0] == run(
            "ip"@,
            seq!["link"@, "set"@, dev, "up"@],
        ),
        wifi_switch_runs(dev, true, false, Some(pid))[1].program == "wpa_supplicant"@,
        wifi_switch_runs(dev, true, false, Some(pid))[1].args[2] == dev,
        wifi_switch_runs(dev, true, false, Some(pid))[1].args[6] == "/tmp/wpa_"@ + dev + ".pid"@,
        wifi_switch_runs(dev, false, true, Some(pid)) == seq![
            run("kill"@, seq![decimal(n)]),
            run("ip"@, seq!["link"@, "set"@, dev, "down"@]),
        ],
        wifi_switch_runs(dev, false, true, None) == seq![
            run("ip"@, seq!["link"@, "set"@, dev, "down"@]),
        ],
{
    lemma_number_column(n as int);
    law_decimal_reads_back(n, u32::MAX as int);
    law_white_space('\n');
    assert(signed_decimal(n as int) == decimal(n));
    law_trim_undoes_padding(seq![], decimal(n), seq!['\n']);
    assert(Seq::<char>::empty() + decimal(n) + seq!['\n'] =~= pid@);
}

/// The associated network is named by its own line; the address line, which ends in the
/// same word, and lines without a name are passed over.
pub proof fn law_status_ssid(ls: Seq<Seq<char>>, i: int, ssid: Seq<char>, rest: Seq<char>)
    requires
        0 <= i < ls.len(),
        ssid.len() > 0,
        !is_whitespace(ssid[0]),
        !is_whitespace(ssid.last()),
    ensures
        ls[i] == "ssid="@ + ssid ==> status_ssid(ls, i) == Some(ssid),
        ls[i] == "bssid="@ + rest ==> status_ssid(ls, i) == status_ssid(ls, i + 1),
        ls[i] == "ssid="@ ==> status_ssid(ls, i) == status_ssid(ls, i + 1),
        status_ssid(ls, ls.len() as int) is None,
{
    reveal_strlit("ssid=");
    reveal_strlit("bssid=");
    law_prefix("ssid="@, ssid);
    law_prefix("ssid="@, seq![]);
    assert("ssid="@ + Seq::<char>::empty() =~= "ssid="@);
    law_trim_blank(seq![]);
    lemma_column_trimmed(ssid);
    lemma_no_prefix("bssid="@ + rest, "ssid="@, 0);
}

/// A stronger network is listed before a weaker one, and where the connected ones come
/// first, before every other one whatever its strength.
pub proof fn law_ranks(a: WifiNetView, b: WifiNetView)
    ensures
        a.signal > b.signal ==> ranks_above(a, b, NetOrder::Strength) && !ranks_above(
            b,
            a,
            NetOrder::Strength,
        ),
        a.active && !b.active ==> ranks_above(a, b, NetOrder::Connected) && !ranks_above(
            b,
            a,
            NetOrder::Connected,
        ),
        a.active == b.active && a.signal > b.signal ==> ranks_above(
            a,
            b,
            NetOrder::Connected,
        ) && !ranks_above(b, a, NetOrder::Connected),
{
}

/// A network is listed by its name once: the first line of that name stays, and one
/// without a name is not listed.
pub proof fn law_first_of_a_name(list: Seq<WifiNetView>, net: WifiNetView, k: int)
    ensures
        net.ssid.len() == 0 ==> with_net(list, Some(net)) == list,
        0 <= k < list.len() && list[k].ssid == net.ssid ==> with_net(list, Some(net)) == list,
        net.ssid.len() > 0 && (forall|i: int|
            0 <= i < list.len() ==> (#[trigger] list[i]).ssid != net.ssid) ==> with_net(
            list,
            Some(net),
        ) == list.push(net),
        with_net(list, None) == list,
{
}

/// A value in quotes is the value with a quote at each end, as long as it holds none.
pub proof fn law_quoted(s: Seq<char>)
    requires
        !s.contains('"'),
    ensures
        quoted(s) == seq!['"'] + s + seq!['"'],
{
    lemma_quoted_plain(s, s.len() as int);
    assert(s.take(s.len() as int) =~= s);
    assert(quoted(s) =~= seq!['"'] + s + seq!['"']);
}

proof fn lemma_quoted_plain(s: Seq<char>, n: int)
    requires
        0 <= n <= s.len(),
        !s.contains('"'),
    ensures
        quoted_upto(s, n) == seq!['"'] + s.take(n),
    decreases n,
{
    if n > 0 {
        lemma_quoted_plain(s, n - 1);
        assert(s.contains(s[n - 1]));
        assert((seq!['"'] + s.take(n - 1)).push(s[n - 1]) =~= seq!['"'] + s.take(n));
    } else {
        assert(seq!['"'] + s.take(0) =~= seq!['"']);
    }
}

/// Every quote inside a value has a backslash before it, so that none ends the value.
pub proof fn law_quotes_are_escaped(a: Seq<char>, b: Seq<char>)
    requires
        !a.contains('"'),
        !b.contains('"'),
    ensures
        quoted(a + seq!['"'] + b) == seq!['"'] + a + seq!['\\', '"'] + b + seq!['"'],
{
    let s = a + seq!['"'] + b;
    let n = a.len() as int;
    lemma_quoted_prefix(s, a, n);
    lemma_quoted_plain(a, n);
    assert(a.take(n) =~= a);
    assert(s[n] == '"');
    lemma_quoted_tail(s, b, n + 1, b.len() as int);
    assert(b.take(b.len() as int) =~= b);
    assert(quoted(s) =~= seq!['"'] + a + seq!['\\', '"'] + b + seq!['"']);
}

proof fn lemma_quoted_prefix(s: Seq<char>, a: Seq<char>, n: int)
    requires
        0 <= n <= a.len() <= s.len(),
        forall|k: int| 0 <= k < n ==> s[k] == a[k],
    ensures
        quoted_upto(s, n) == quoted_upto(a, n),
    decreases n,
{
    if n > 0 {
        lemma_quoted_prefix(s, a, n - 1);
    }
}

proof fn lemma_quoted_tail(s: Seq<char>, b: Seq<char>, at: int, n: int)
    requires
        0 <= at,
        0 <= n <= b.len(),
        at + b.len() == s.len(),
        forall|k: int| 0 <= k < b.len() ==> s[at + k] == #[trigger] b[k],
        !b.contains('"'),
    ensures
        quoted_upto(s, at + n) == quoted_upto(s, at) + b.take(n),
    decreases n,
{
    if n > 0 {
        lemma_quoted_tail(s, b, at, n - 1);
        assert(b.contains(b[n - 1]));
        assert(s[at + (n - 1)] == b[n - 1]);
        assert((quoted_upto(s, at) + b.take(n - 1)).push(b[n - 1]) =~= quoted_upto(s, at)
            + b.take(n));
    } else {
        assert(quoted_upto(s, at) + b.take(0) =~= quoted_upto(s, at));
    }
}

/// A new network gets its name first, then its key, is then selected, and saved last; an
/// open one is set to need no key.
pub proof fn law_setup(dev: Seq<char>, id: Seq<char>, ssid: Seq<char>, pw: &str)
    ensures
        setup_runs(dev, id, ssid, Some(pw)).len() == 4,
        setup_runs(dev, id, ssid, Some(pw))[0] == wpa_run(
            dev,
            seq!["set_network"@, id, "ssid"@, quoted(ssid)],
        ),
        pw@.len() > 0 ==> setup_runs(dev, id, ssid, Some(pw))[1] == wpa_run(
            dev,
            seq!["set_network"@, id, "psk"@, quoted(pw@)],
        ),
        pw@.len() == 0 ==> setup_runs(dev, id, ssid, Some(pw))[1] == wpa_run(
            dev,
            seq!["set_network"@, id, "key_mgmt"@, "NONE"@],
        ),
        setup_runs(dev, id, ssid, None)[1] == wpa_run(
            dev,
            seq!["set_network"@, id, "key_mgmt"@, "NONE"@],
        ),
        setup_runs(dev, id, ssid, Some(pw))[2] == wpa_run(dev, seq!["select_network"@, id]),
        setup_runs(dev, id, ssid, Some(pw))[3] == wpa_run(dev, seq!["save_config"@]),
{
}

/// Where the names of the properties part.
#[verifier::rlimit(30)]
proof fn lemma_show_keys()
    ensures
        "GENERAL.HWADDR"@.len() == 14,
        !"GENERAL.HWADDR"@.contains(':'),
        "GENERAL.CONNECTION"@.len() == 18,
        !"GENERAL.CONNECTION"@.contains(':'),
        "GENERAL.STATE"@.len() == 13,
        !"GENERAL.STATE"@.contains(':'),
        "GENERAL.NM-MANAGED"@.len() == 18,
        !"GENERAL.NM-MANAGED"@.contains(':'),
        "IP4.ADDRESS"@.len() == 11,
        !"IP4.ADDRESS"@.contains(':'),
        "IP6.ADDRESS"@.len() == 11,
        !"IP6.ADDRESS"@.contains(':'),
        "IP4.GATEWAY"@.len() == 11,
        !"IP4.GATEWAY"@.contains(':'),
        "IP4.DNS"@.len() == 7,
        !"IP4.DNS"@.contains(':'),
        "IP4.ADDRESS[1]"@.len() == 14,
        !"IP4.ADDRESS[1]"@.contains(':'),
        "IP6.ADDRESS[1]"@.len() == 14,
        !"IP6.ADDRESS[1]"@.contains(':'),
        "IP4.DNS[1]"@.len() == 10,
        !"IP4.DNS[1]"@.contains(':'),
        "GENERAL.HWADDR"@[0] == 'G',
        "GENERAL.CONNECTION"@[8] == 'C' && "GENERAL.NM-MANAGED"@[8] == 'N',
        "IP4.ADDRESS[1]"@.take(11) == "IP4.ADDRESS"@,
        "IP6.ADDRESS[1]"@.take(11) == "IP6.ADDRESS"@,
        "IP4.DNS[1]"@.take(7) == "IP4.DNS"@,
        "IP4.ADDRESS[1]"@[0] == 'I' && "IP6.ADDRESS[1]"@[0] == 'I',
        "IP6.ADDRESS[1]"@[2] == '6' && "IP4.ADDRESS"@[2] == '4' && "IP4.DNS[1]"@[2] == '4',
        "IP6.ADDRESS"@[2] == '6' && "IP4.GATEWAY"@[2] == '4',
        "IP4.DNS[1]"@[4] == 'D' && "IP4.ADDRESS"@[4] == 'A' && "IP4.GATEWAY"@[4] == 'G',
{
    reveal_strlit("GENERAL.HWADDR");
    reveal_strlit("GENERAL.CONNECTION");
    reveal_strlit("GENERAL.STATE");
    reveal_strlit("GENERAL.NM-MANAGED");
    reveal_strlit("IP4.ADDRESS");
    reveal_strlit("IP6.ADDRESS");
    reveal_strlit("IP4.GATEWAY");
    reveal_strlit("IP4.DNS");
    reveal_strlit("IP4.ADDRESS[1]");
    reveal_strlit("IP6.ADDRESS[1]");
    reveal_strlit("IP4.DNS[1]");
    assert("IP4.ADDRESS[1]"@.take(11) =~= "IP4.ADDRESS"@);
    assert("IP6.ADDRESS[1]"@.take(11) =~= "IP6.ADDRESS"@);
    assert("IP4.DNS[1]"@.take(7) =~= "IP4.DNS"@);
}

/// Each property of a device is read from the line that carries its name; the value may
/// hold colons, which the tool escapes. Of the addresses and name servers the first is
/// kept.
#[verifier::rlimit(30)]
pub proof fn law_show_lines(d: WifiDetailsView, value: Seq<char>)
    ensures
        with_show_line(d, "GENERAL.HWADDR"@ + seq![':'] + nmcli_escaped(value)) == (
        WifiDetailsView { mac: value, ..d }),
        with_show_line(d, "GENERAL.CONNECTION"@ + seq![':'] + nmcli_escaped(value)) == (
        WifiDetailsView { conn: value, ..d }),
        with_show_line(d, "IP4.GATEWAY"@ + seq![':'] + nmcli_escaped(value)) == (WifiDetailsView {
            gateway: value,
            ..d
        }),
        with_show_line(d, "IP4.ADDRESS[1]"@ + seq![':'] + nmcli_escaped(value)) == (
        WifiDetailsView {
            ipv4: if d.ipv4.len() == 0 {
                value
            } else {
                d.ipv4
            },
            ..d
        }),
        with_show_line(d, "IP6.ADDRESS[1]"@ + seq![':'] + nmcli_escaped(value)) == (
        WifiDetailsView {
            ipv6: if d.ipv6.len() == 0 {
                value
            } else {
                d.ipv6
            },
            ..d
        }),
        with_show_line(d, "IP4.DNS[1]"@ + seq![':'] + nmcli_escaped(value)) == (WifiDetailsView {
            dns: if d.dns.len() == 0 {
                value
            } else {
                d.dns
            },
            ..d
        }),
{
    lemma_show_keys();
    law_unescape(value);
    let e = nmcli_escaped(value);
    law_split_once("GENERAL.HWADDR"@, ':', e);
    law_split_once("GENERAL.CONNECTION"@, ':', e);
    law_split_once("IP4.GATEWAY"@, ':', e);
    law_split_once("IP4.ADDRESS[1]"@, ':', e);
    law_split_once("IP6.ADDRESS[1]"@, ':', e);
    law_split_once("IP4.DNS[1]"@, ':', e);
    lemma_no_prefix("IP4.GATEWAY"@, "IP4.ADDRESS"@, 4);
    lemma_no_prefix("IP4.GATEWAY"@, "IP6.ADDRESS"@, 2);
    lemma_no_prefix("IP6.ADDRESS[1]"@, "IP4.ADDRESS"@, 2);
    lemma_no_prefix("IP6.ADDRESS[1]"@, "IP4.DNS"@, 2);
    lemma_no_prefix("IP4.ADDRESS[1]"@, "IP6.ADDRESS"@, 2);
    lemma_no_prefix("IP4.ADDRESS[1]"@, "IP4.DNS"@, 4);
    lemma_no_prefix("IP4.DNS[1]"@, "IP4.ADDRESS"@, 4);
    lemma_no_prefix("IP4.DNS[1]"@, "IP6.ADDRESS"@, 2);
    assert("IP4.ADDRESS[1]"@.subrange(0, 11) =~= "IP4.ADDRESS[1]"@.take(11));
    assert("IP6.ADDRESS[1]"@.subrange(0, 11) =~= "IP6.ADDRESS[1]"@.take(11));
    assert("IP4.DNS[1]"@.subrange(0, 7) =~= "IP4.DNS[1]"@.take(7));
    assert("GENERAL.HWADDR"@.len() == 14 && "IP4.ADDRESS[1]"@.len() == 14);
}

/// A device is connected where its state begins with 100, and managed where that is
/// answered with yes.
#[verifier::rlimit(30)]
pub proof fn law_state_lines(d: WifiDetailsView, rest: Seq<char>)
    requires
        !rest.contains(':'),
        !rest.contains('\\'),
    ensures
        with_show_line(d, "GENERAL.STATE"@ + seq![':'] + ("100"@ + rest)) == (WifiDetailsView {
            connected: true,
            ..d
        }),
        with_show_line(d, "GENERAL.STATE"@ + seq![':'] + ("30"@ + rest)) == (WifiDetailsView {
            connected: false,
            ..d
        }),
        with_show_line(d, "GENERAL.NM-MANAGED"@ + seq![':'] + "yes"@) == (WifiDetailsView {
            managed: true,
            ..d
        }),
        with_show_line(d, "GENERAL.NM-MANAGED"@ + seq![':'] + "no"@) == (WifiDetailsView {
            managed: false,
            ..d
        }),
{
    lemma_show_keys();
    reveal_strlit("100");
    reveal_strlit("30");
    reveal_strlit("yes");
    reveal_strlit("no");
    law_split_once("GENERAL.STATE"@, ':', "100"@ + rest);
    law_split_once("GENERAL.STATE"@, ':', "30"@ + rest);
    law_split_once("GENERAL.NM-MANAGED"@, ':', "yes"@);
    law_split_once("GENERAL.NM-MANAGED"@, ':', "no"@);
    lemma_no_escapes("100"@ + rest, 0);
    lemma_no_escapes("30"@ + rest, 0);
    lemma_no_escapes("yes"@, 0);
    lemma_no_escapes("no"@, 0);
    law_prefix("100"@, rest);
    lemma_no_prefix("30"@ + rest, "100"@, 0);
    assert(("100"@ + rest).skip(0) =~= "100"@ + rest);
    assert(("30"@ + rest).skip(0) =~= "30"@ + rest);
    assert("yes"@.skip(0) =~= "yes"@);
    assert("no"@.skip(0) =~= "no"@);
    assert("yes"@.len() == 3 && "no"@.len() == 2);
}

proof fn lemma_no_escapes(s: Seq<char>, i: int)
    requires
        0 <= i <= s.len(),
        forall|k: int| 0 <= k < s.len() ==> #[trigger] s[k] != '\\',
    ensures
        unescaped_from(s, i) == s.skip(i),
    decreases s.len() - i,
{
    if i < s.len() {
        assert(s[i] != '\\');
        lemma_no_escapes(s, i + 1);
        assert(seq![s[i]] + s.skip(i + 1) =~= s.skip(i));
    } else {
        assert(s.skip(i) =~= seq![]);
    }
}

/// A connection comes back by itself where that is answered with yes, and has its
/// address from the network where the method is automatic.
#[verifier::rlimit(30)]
pub proof fn law_prop_lines(d: WifiDetailsView)
    ensures
        with_prop_line(d, "connection.autoconnect"@ + seq![':'] + "yes"@) == (WifiDetailsView {
            autoconnect: true,
            ..d
        }),
        with_prop_line(d, "connection.autoconnect"@ + seq![':'] + "no"@) == (WifiDetailsView {
            autoconnect: false,
            ..d
        }),
        with_prop_line(d, "ipv4.method"@ + seq![':'] + "auto"@) == (WifiDetailsView {
            dhcp: true,
            ..d
        }),
        with_prop_line(d, "ipv4.method"@ + seq![':'] + "manual"@) == (WifiDetailsView {
            dhcp: false,
            ..d
        }),
{
    reveal_strlit("connection.autoconnect");
    reveal_strlit("ipv4.method");
    reveal_strlit("yes");
    reveal_strlit("no");
    reveal_strlit("auto");
    reveal_strlit("manual");
    assert("connection.autoconnect"@.len() == 22 && "ipv4.method"@.len() == 11);
    assert("yes"@.len() == 3 && "no"@.len() == 2 && "auto"@.len() == 4 && "manual"@.len() == 6);
    law_split_once("connection.autoconnect"@, ':', "yes"@);
    law_split_once("connection.autoconnect"@, ':', "no"@);
    law_split_once("ipv4.method"@, ':', "auto"@);
    law_split_once("ipv4.method"@, ':', "manual"@);
    lemma_no_escapes("yes"@, 0);
    lemma_no_escapes("no"@, 0);
    lemma_no_escapes("auto"@, 0);
    lemma_no_escapes("manual"@, 0);
    assert("yes"@.skip(0) =~= "yes"@ && "no"@.skip(0) =~= "no"@ && "auto"@.skip(0) =~= "auto"@
        && "manual"@.skip(0) =~= "manual"@);
}

/// An address is the word behind its family, and the first of each family is kept.
#[verifier::rlimit(30)]
pub proof fn law_address_lines(ls: Seq<Seq<char>>, n: int, a: Seq<char>, rest: Seq<char>)
    requires
        0 < n <= ls.len(),
        a.len() > 0,
        forall|i: int| 0 <= i < a.len() ==> !is_whitespace(#[trigger] a[i]),
        rest.len() > 1,
        rest[0] == ' ',
        !is_whitespace(rest.last()),
    ensures
        ls[n - 1] == "    "@ + ("inet "@ + a + rest) ==> addresses_upto(ls, n) == (
            if addresses_upto(ls, n - 1).0.len() == 0 {
                a
            } else {
                addresses_upto(ls, n - 1).0
            },
            addresses_upto(ls, n - 1).1,
        ),
        ls[n - 1] == "    "@ + ("inet6 "@ + a + rest) ==> addresses_upto(ls, n) == (
            addresses_upto(ls, n - 1).0,
            if addresses_upto(ls, n - 1).1.len() == 0 {
                a
            } else {
                addresses_upto(ls, n - 1).1
            },
        ),
        addresses(None) == (Seq::<char>::empty(), Seq::<char>::empty()),
{
    reveal_strlit("    ");
    reveal_strlit("inet ");
    reveal_strlit("inet6 ");
    law_white_space('i');
    law_white_space('n');
    law_white_space('e');
    law_white_space('t');
    law_white_space('6');
    law_white_space(' ');
    let four = "inet "@ + a + rest;
    let six = "inet6 "@ + a + rest;
    assert(four.last() == rest.last() && six.last() == rest.last());
    law_trim_undoes_padding("    "@, four, seq![]);
    law_trim_undoes_padding("    "@, six, seq![]);
    assert("    "@ + four + Seq::<char>::empty() =~= "    "@ + four);
    assert("    "@ + six + Seq::<char>::empty() =~= "    "@ + six);
    law_prefix("inet "@, a + rest);
    law_prefix("inet6 "@, a + rest);
    assert("inet "@ + (a + rest) =~= four);
    assert("inet6 "@ + (a + rest) =~= six);
    lemma_no_prefix(four, "inet6 "@, 4);
    lemma_no_prefix(six, "inet "@, 4);
    lemma_second_word("inet "@.take(4), a, rest);
    lemma_second_word("inet6 "@.take(5), a, rest);
    assert("inet "@.take(4) + seq![' '] + a + rest =~= four);
    assert("inet6 "@.take(5) + seq![' '] + a + rest =~= six);
}

proof fn lemma_second_word(first: Seq<char>, second: Seq<char>, rest: Seq<char>)
    requires
        first.len() > 0,
        second.len() > 0,
        forall|i: int| 0 <= i < first.len() ==> !is_whitespace(#[trigger] first[i]),
        forall|i: int| 0 <= i < second.len() ==> !is_whitespace(#[trigger] second[i]),
        rest.len() > 0 ==> is_whitespace(rest[0]),
    ensures
        words(first + seq![' '] + second + rest).len() >= 2,
        words(first + seq![' '] + second + rest)[0] == first,
        words(first + seq![' '] + second + rest)[1] == second,
{
    law_white_space(' ');
    let tail = seq![' '] + second + rest;
    law_words(seq![' '], second, rest);
    law_words(seq![], first, tail);
    assert(Seq::<char>::empty() + first + tail =~= first + seq![' '] + second + rest);
}

/// The gateway is the word behind `default via`; another route does not name one.
pub proof fn law_gateway_lines(ls: Seq<Seq<char>>, n: int, g: Seq<char>, rest: Seq<char>)
    requires
        0 < n <= ls.len(),
        g.len() > 0,
        forall|i: int| 0 <= i < g.len() ==> !is_whitespace(#[trigger] g[i]),
        rest.len() > 0 ==> rest[0] == ' ',
    ensures
        ls[n - 1] == "default"@ + seq![' '] + "via"@ + (seq![' '] + g + rest) ==> gateway_upto(ls, n)
            == g,
        ls[n - 1] == g + rest && g != "default"@ ==> gateway_upto(ls, n) == gateway_upto(ls, n - 1),
        gateway_upto(ls, 0).len() == 0,
        gateway(None).len() == 0,
{
    reveal_strlit("default");
    reveal_strlit("via");
    law_white_space(' ');
    lemma_letters("default"@);
    lemma_letters("via"@);
    let tail = seq![' '] + g + rest;
    law_words(seq![' '], g, rest);
    law_words(seq![' '], "via"@, tail);
    law_words(seq![], "default"@, seq![' '] + "via"@ + tail);
    assert(Seq::<char>::empty() + "default"@ + (seq![' '] + "via"@ + tail) =~= "default"@ + seq![
        ' ',
    ] + "via"@ + tail);
    law_words(seq![], g, rest);
    assert(Seq::<char>::empty() + g + rest =~= g + rest);
}

proof fn lemma_letters(s: Seq<char>)
    requires
        forall|i: int| 0 <= i < s.len() ==> 'a' <= #[trigger] s[i] <= 'z',
    ensures
        forall|i: int| 0 <= i < s.len() ==> !is_whitespace(#[trigger] s[i]),
{
    assert forall|i: int| 0 <= i < s.len() implies !is_whitespace(#[trigger] s[i]) by {
        law_white_space(s[i]);
    }
}

/// The first name server that is named counts; comments and other lines do not.
pub proof fn law_name_server(ls: Seq<Seq<char>>, i: int, ns: Seq<char>)
    requires
        0 <= i < ls.len(),
        ns.len() > 0,
        ns[0] != '#',
        !is_whitespace(ns[0]),
        !is_whitespace(ns.last()),
    ensures
        ls[i] == "nameserver"@ + (seq![' '] + ns) ==> name_server(ls, i) == ns,
        ls[i].len() > 0 && ls[i][0] == '#' ==> name_server(ls, i) == name_server(ls, i + 1),
        name_server(ls, ls.len() as int).len() == 0,
{
    reveal_strlit("nameserver");
    law_white_space('n');
    law_white_space(' ');
    law_white_space('#');
    let line = "nameserver"@ + (seq![' '] + ns);
    assert(line.last() == ns.last());
    lemma_column_trimmed(line);
    law_prefix("nameserver"@, seq![' '] + ns);
    law_trim_undoes_padding(seq![' '], ns, seq![]);
    assert(seq![' '] + ns + Seq::<char>::empty() =~= seq![' '] + ns);
    if ls[i].len() > 0 && ls[i][0] == '#' {
        law_trim_keeps_head(ls[i]);
        lemma_no_prefix(trim(ls[i]), "nameserver"@, 0);
    }
}


/// The association stands once the supplicant says that it is complete, and is named by
/// the last name that is told.
#[verifier::rlimit(30)]
pub proof fn law_association_lines(ls: Seq<Seq<char>>, n: int, ssid: Seq<char>)
    requires
        0 < n <= ls.len(),
        ssid.len() > 0,
        !is_whitespace(ssid[0]),
        !is_whitespace(ssid.last()),
    ensures
        ls[n - 1] == "ssid="@ + ssid ==> association_upto(ls, n) == (
            ssid,
            association_upto(ls, n - 1).1,
        ),
        ls[n - 1] == "wpa_state=COMPLETED"@ ==> association_upto(ls, n) == (
            association_upto(ls, n - 1).0,
            true,
        ),
        ls[n - 1] == "wpa_state=SCANNING"@ ==> association_upto(ls, n) == association_upto(
            ls,
            n - 1,
        ),
        association_upto(ls, 0) == (Seq::<char>::empty(), false),
{
    reveal_strlit("ssid=");
    reveal_strlit("wpa_state=COMPLETED");
    reveal_strlit("wpa_state=SCANNING");
    law_white_space('s');
    law_white_space('w');
    law_white_space('D');
    law_white_space('G');
    law_prefix("ssid="@, ssid);
    lemma_column_trimmed(ssid);
    let line = "ssid="@ + ssid;
    assert(line.last() == ssid.last());
    lemma_column_trimmed(line);
    assert(line[0] == 's' && "wpa_state=COMPLETED"@[0] == 'w');
    lemma_column_trimmed("wpa_state=COMPLETED"@);
    lemma_column_trimmed("wpa_state=SCANNING"@);
    assert("wpa_state=COMPLETED"@.len() == 19 && "wpa_state=SCANNING"@.len() == 18);
    lemma_no_prefix("wpa_state=COMPLETED"@, "ssid="@, 0);
    lemma_no_prefix("wpa_state=SCANNING"@, "ssid="@, 0);
}

/// What is known of an associated device comes from what was asked for each: its name
/// and state from the supplicant, its addresses and its gateway from the kernel.
pub proof fn law_details(
    dev: Seq<char>,
    mac: Seq<char>,
    status: Seq<char>,
    addr: Option<&str>,
    route: Option<&str>,
    resolv: Option<&str>,
    state: Option<&str>,
)
    ensures
        ({
            let d = wifi_details_spec(dev, mac, status, addr, route);
            &&& d.device == dev && d.mac == mac
            &&& d.conn == association_upto(lines(status), lines(status).len() as int).0
            &&& d.connected == association_upto(lines(status), lines(status).len() as int).1
            &&& d.ipv4 == addresses(addr).0 && d.ipv6 == addresses(addr).1
            &&& d.gateway == gateway(route)
            &&& d.managed && d.dhcp && d.autoconnect
        }),
        mac.len() == 0 ==> ethernet_details_spec(dev, mac, state, addr, route, resolv) is None,
        mac.len() > 0 ==> (ethernet_details_spec(dev, mac, state, addr, route, resolv) matches Some(d)
            && d.device == dev && d.mac == mac && d.ipv4 == addresses(addr).0 && d.ipv6
            == addresses(addr).1 && d.gateway == gateway(route) && d.connected == link_up(state)
            && !d.managed && d.dhcp && !d.autoconnect),
{
}

/// The adapter is on just where some line says that it is powered.
pub proof fn law_powered(ls: Seq<Seq<char>>, i: int, k: int)
    requires
        0 <= i <= ls.len(),
    ensures
        i <= k < ls.len() && trim(ls[k]) == "Powered: yes"@ ==> says_powered(ls, i),
        (forall|j: int| i <= j < ls.len() ==> #[trigger] trim(ls[j]) == "Powered: no"@)
            ==> !says_powered(ls, i),
    decreases ls.len() - i,
{
    reveal_strlit("Powered: yes");
    reveal_strlit("Powered: no");
    if i < ls.len() {
        law_powered(ls, i + 1, k);
        if trim(ls[i]) == "Powered: no"@ {
            assert(ascii_lower_all("Powered: no"@).len() == 11);
            assert(ascii_lower_all("Powered: yes"@).len() == 12);
        }
    }
}

/// The level is the first word that is a number, whatever stands before it.
pub proof fn law_first_number(read: Seq<Option<Number>>, i: int, k: int)
    requires
        0 <= i <= k < read.len(),
        read[k] is Some,
        !read[k]->0.nan(),
        forall|j: int| i <= j < k ==> #[trigger] read[j] is None,
    ensures
        first_number(read, i) == read[k],
    decreases k - i,
{
    if i < k {
        assert(read[i] is None);
        law_first_number(read, i + 1, k);
    }
}

/// A section begins at its own header; before it nothing is listed, and the header of
/// another section ends it.
pub proof fn law_sections(ls: Seq<Seq<char>>, i: int, before: Seq<char>, after: Seq<char>)
    requires
        0 <= i < ls.len(),
    ensures
        ls[i] == before + "Sinks:"@ + after ==> section_devices(ls, true, false, i)
            == section_devices(ls, true, true, i + 1),
        ls[i] == before + "Sources:"@ + after ==> section_devices(ls, false, false, i)
            == section_devices(ls, false, true, i + 1),
        ls[i] == before + "Sources:"@ + after && find_text_from(ls[i], "Sinks:"@, 0) < 0
            ==> section_devices(ls, true, true, i).len() == 0,
        ls[i] == before + "Sinks:"@ + after && find_text_from(ls[i], "Sources:"@, 0) < 0
            ==> section_devices(ls, false, true, i).len() == 0,
        ls[i] == before + "Filters:"@ + after && find_text_from(ls[i], "Sinks:"@, 0) < 0
            ==> section_devices(ls, true, true, i).len() == 0,
        find_text_from(ls[i], "Sinks:"@, 0) < 0 ==> section_devices(ls, true, false, i)
            == section_devices(ls, true, false, i + 1),
        section_devices(ls, true, true, ls.len() as int).len() == 0,
{
    law_find_text(before, "Sinks:"@, after);
    law_find_text(before, "Sources:"@, after);
    law_find_text(before, "Filters:"@, after);
}

/// A line of a section that tells of a device lists it, before those of the lines that
/// follow; one that does not is passed over.
pub proof fn law_section_lines(ls: Seq<Seq<char>>, sinks: bool, i: int)
    requires
        0 <= i < ls.len(),
        find_text_from(ls[i], "Sinks:"@, 0) < 0,
        find_text_from(ls[i], "Sources:"@, 0) < 0,
        find_text_from(ls[i], "Filters:"@, 0) < 0,
        find_text_from(ls[i], "Chains:"@, 0) < 0,
    ensures
        audio_device(ls[i]) matches Some(d) ==> section_devices(ls, sinks, true, i) == seq![d]
            + section_devices(ls, sinks, true, i + 1),
        audio_device(ls[i]) is None ==> section_devices(ls, sinks, true, i) == section_devices(
            ls,
            sinks,
            true,
            i + 1,
        ),
{
}

/// The line of a device is read back: its number, its name without the volume behind it,
/// and whether it is the default, which the star marks. The lines that draw the tree do
/// not count.
#[verifier::rlimit(30)]
pub proof fn law_audio_line(id: nat, name: Seq<char>, volume: Seq<char>, default: bool)
    requires
        id <= 0xffff_ffff,
        name.len() > 0,
        !is_whitespace(name[0]),
        !is_whitespace(name.last()),
        name[0] != '*',
        !name.contains('│') && !name.contains('├') && !name.contains('─') && !name.contains('└'),
        !volume.contains('│') && !volume.contains('├') && !volume.contains('─') && !volume.contains(
            '└',
        ),
        !volume.contains('['),
        volume.len() > 0,
        !is_whitespace(volume.last()),
    ensures
        audio_device(
            seq![' ', '│', ' '] + decimal(id) + seq!['.', ' '] + (if default {
                seq!['*', ' ']
            } else {
                seq![]
            }) + name + seq![' ', '['] + volume,
        ) == Some((AudioSinkView { id: decimal(id), name, is_default: default })),
{
    reveal_strlit(". ");
    law_white_space('*');
    let num = decimal(id);
    let mark: Seq<char> = if default {
        seq!['*', ' ']
    } else {
        seq![]
    };
    let bare = name + seq![' ', '['] + volume;
    let rest = mark + bare;
    let plain = num + seq!['.', ' '] + rest;
    let line = seq![' ', '│', ' '] + num + seq!['.', ' '] + mark + name + seq![' ', '['] + volume;
    lemma_number_column(id as int);
    law_decimal_reads_back(id, u32::MAX as int);
    assert(signed_decimal(id as int) == num);
    assert(mark + name + seq![' ', '['] + volume =~= rest);
    assert(trim(unboxed_upto(line, line.len() as int)) == plain) by {
        assert forall|k: int| 0 <= k < plain.len() implies !is_box_char(#[trigger] plain[k]) by {
            lemma_plain_char(num, mark, name, volume, k);
        }
        assert(plain[0] == num[0] && plain.last() == volume.last());
        assert(line =~= seq![' ', '│'] + (seq![' '] + plain));
        lemma_audio_plain(plain);
    }
    assert(". "@ =~= seq!['.', ' ']);
    lemma_first_dot(num, rest);
    assert(trim(rest) == rest) by {
        assert(rest[0] == (if default {
            '*'
        } else {
            name[0]
        }));
        assert(rest.last() == volume.last());
        lemma_column_trimmed(rest);
    }
    assert(rest[0] == '*' <==> default);
    assert(bare.last() == volume.last());
    lemma_star(mark, bare, default);
    lemma_audio_name(name, volume);
}

proof fn lemma_audio_plain(plain: Seq<char>)
    requires
        plain.len() > 0,
        !is_whitespace(plain[0]),
        !is_whitespace(plain.last()),
        forall|k: int| 0 <= k < plain.len() ==> !is_box_char(#[trigger] plain[k]),
    ensures
        ({
            let line = seq![' ', '│'] + (seq![' '] + plain);
            trim(unboxed_upto(line, line.len() as int)) == plain
        }),
{
    law_white_space(' ');
    let spaced = seq![' '] + plain;
    let line = seq![' ', '│'] + spaced;
    assert forall|k: int| 0 <= k < spaced.len() implies !is_box_char(#[trigger] spaced[k]) by {
        if k > 0 {
            assert(spaced[k] == plain[k - 1]);
        }
    }
    lemma_unboxed(line, spaced, 2, spaced.len() as int);
    reveal_with_fuel(unboxed_upto, 3);
    assert(unboxed_upto(line, 2) =~= seq![' ']);
    assert(spaced.take(spaced.len() as int) =~= spaced);
    let u = seq![' '] + spaced;
    assert(unboxed_upto(line, line.len() as int) =~= u);
    assert(u =~= seq![' ', ' '] + plain + Seq::<char>::empty());
    law_trim_undoes_padding(seq![' ', ' '], plain, seq![]);
}

proof fn lemma_audio_name(name: Seq<char>, volume: Seq<char>)
    requires
        name.len() > 0,
        !is_whitespace(name[0]),
        !is_whitespace(name.last()),
        !volume.contains('['),
    ensures
        device_name(name + seq![' ', '['] + volume) == name,
{
    law_white_space(' ');
    let bare = name + seq![' ', '['] + volume;
    let p = name.len() as int + 1;
    assert(bare[p] == '[');
    assert forall|k: int| p < k < bare.len() implies bare[k] != '[' by {
        assert(bare[k] == volume[k - p - 1]);
        assert(volume.contains(bare[k]));
    }
    lemma_rfind_is(bare, '[', bare.len() as int, p);
    assert(bare.take(p) =~= Seq::<char>::empty() + name + seq![' ']);
    law_trim_undoes_padding(seq![], name, seq![' ']);
}

proof fn lemma_plain_char(num: Seq<char>, mark: Seq<char>, name: Seq<char>, volume: Seq<char>, k: int)
    requires
        forall|i: int| 0 <= i < num.len() ==> '0' <= #[trigger] num[i] <= '9',
        mark == seq!['*', ' '] || mark == Seq::<char>::empty(),
        !name.contains('│') && !name.contains('├') && !name.contains('─') && !name.contains('└'),
        !volume.contains('│') && !volume.contains('├') && !volume.contains('─') && !volume.contains(
            '└',
        ),
        0 <= k < (num + seq!['.', ' '] + (mark + (name + seq![' ', '['] + volume))).len(),
    ensures
        !is_box_char((num + seq!['.', ' '] + (mark + (name + seq![' ', '['] + volume)))[k]),
{
    let rest = mark + (name + seq![' ', '['] + volume);
    let all = num + seq!['.', ' '] + rest;
    let a = num.len() as int;
    let b = a + 2 + mark.len();
    let c = b + name.len();
    if k < a {
        assert(all[k] == num[k]);
    } else if k < a + 2 {
        assert(all[k] == seq!['.', ' '][k - a]);
    } else if k < b {
        assert(all[k] == mark[k - a - 2]);
    } else if k < c {
        assert(all[k] == name[k - b]);
        assert(name.contains(all[k]));
    } else if k < c + 2 {
        assert(all[k] == seq![' ', '['][k - c]);
    } else {
        assert(all[k] == volume[k - c - 2]);
        assert(volume.contains(all[k]));
    }
}

proof fn lemma_unboxed(line: Seq<char>, b: Seq<char>, at: int, n: int)
    requires
        0 <= at,
        0 <= n <= b.len(),
        at + b.len() == line.len(),
        forall|k: int| 0 <= k < b.len() ==> line[at + k] == #[trigger] b[k],
        forall|k: int| 0 <= k < b.len() ==> !is_box_char(#[trigger] b[k]),
    ensures
        unboxed_upto(line, at + n) == unboxed_upto(line, at) + b.take(n),
    decreases n,
{
    if n > 0 {
        lemma_unboxed(line, b, at, n - 1);
        assert(line[at + (n - 1)] == b[n - 1]);
        assert((unboxed_upto(line, at) + b.take(n - 1)).push(b[n - 1]) =~= unboxed_upto(line, at)
            + b.take(n));
    } else {
        assert(unboxed_upto(line, at) + b.take(0) =~= unboxed_upto(line, at));
    }
}

proof fn lemma_first_dot(num: Seq<char>, rest: Seq<char>)
    requires
        forall|i: int| 0 <= i < num.len() ==> '0' <= #[trigger] num[i] <= '9',
    ensures
        split_once_text(num + seq!['.', ' '] + rest, seq!['.', ' ']) == Some((num, rest)),
{
    let s = num + seq!['.', ' '] + rest;
    let sep = seq!['.', ' '];
    let n = num.len() as int;
    assert(s.subrange(n, n + 2) =~= sep);
    assert forall|k: int| 0 <= k < n implies !stands_at(s, sep, k) by {
        if stands_at(s, sep, k) {
            assert(s.subrange(k, k + 2)[0] == s[k]);
            assert(s[k] == num[k]);
        }
    }
    lemma_first_place(s, sep, 0, n);
    assert(s.take(n) =~= num);
    assert(s.skip(n + 2) =~= rest);
}

proof fn lemma_first_place(s: Seq<char>, sep: Seq<char>, i: int, n: int)
    requires
        0 <= i <= n,
        stands_at(s, sep, n),
        forall|k: int| i <= k < n ==> !stands_at(s, sep, k),
    ensures
        find_text_from(s, sep, i) == n,
    decreases n - i,
{
    if i < n {
        assert(!stands_at(s, sep, i));
        lemma_first_place(s, sep, i + 1, n);
    }
}

proof fn lemma_star(mark: Seq<char>, bare: Seq<char>, default: bool)
    requires
        mark == (if default {
            seq!['*', ' ']
        } else {
            Seq::<char>::empty()
        }),
        bare.len() > 0,
        bare[0] != '*',
        !is_whitespace(bare[0]),
        !is_whitespace(bare.last()),
    ensures
        trim(strip_run(mark + bare, '*')) == bare,
{
    law_white_space(' ');
    lemma_column_trimmed(bare);
    reveal_with_fuel(strip_run, 3);
    if default {
        let s = mark + bare;
        assert(s[0] == '*');
        assert(s.skip(1) =~= seq![' '] + bare);
        assert((seq![' '] + bare)[0] == ' ');
        law_trim_undoes_padding(seq![' '], bare, seq![]);
        assert(seq![' '] + bare + Seq::<char>::empty() =~= seq![' '] + bare);
    } else {
        assert(mark + bare =~= bare);
    }
}

/// Each listed stream is moved, by its number, to the device that is named: an output to
/// a sink, an input to a source.
pub proof fn law_moves(ls: Seq<Seq<char>>, i: int, number: Seq<char>, rest: Seq<char>, name: Seq<char>)
    requires
        0 <= i < ls.len(),
        number.len() > 0,
        forall|k: int| 0 <= k < number.len() ==> !is_whitespace(#[trigger] number[k]),
        rest.len() > 0 ==> is_whitespace(rest[0]),
    ensures
        ls[i] == number + rest ==> moves_from(ls, true, name, i) == seq![
            run("pactl"@, seq!["move-sink-input"@, number, name]),
        ] + moves_from(ls, true, name, i + 1),
        ls[i] == number + rest ==> moves_from(ls, false, name, i) == seq![
            run("pactl"@, seq!["move-source-output"@, number, name]),
        ] + moves_from(ls, false, name, i + 1),
        moves_from(ls, true, name, ls.len() as int).len() == 0,
{
    law_words(seq![], number, rest);
    assert(Seq::<char>::empty() + number + rest =~= number + rest);
}

/// The first device that is Ethernet is found, and none where none is.
pub proof fn law_first_ethernet(v: Seq<NetEntry>, i: int, k: int)
    requires
        0 <= i <= k < v.len(),
        is_ethernet(v[k]),
        forall|j: int| i <= j < k ==> !is_ethernet(#[trigger] v[j]),
    ensures
        first_ethernet(v, i) == Some(v[k].name@),
        first_ethernet(v, v.len() as int) is None,
    decreases k - i,
{
    if i < k {
        assert(!is_ethernet(v[i]));
        law_first_ethernet(v, i + 1, k);
    }
}

/// Details are gathered line by line from nothing on; a device without a hardware
/// address is not one.
pub proof fn law_gathered(dev: Seq<char>, ls: Seq<Seq<char>>, n: int, d: WifiDetailsView)
    requires
        0 < n <= ls.len(),
    ensures
        shown_upto(dev, ls, 0).device == dev,
        shown_upto(dev, ls, 0).mac.len() == 0 && shown_upto(dev, ls, 0).ipv4.len() == 0
            && !shown_upto(dev, ls, 0).connected && !shown_upto(dev, ls, 0).managed
            && !shown_upto(dev, ls, 0).dhcp && !shown_upto(dev, ls, 0).autoconnect,
        shown_upto(dev, ls, n) == with_show_line(shown_upto(dev, ls, n - 1), ls[n - 1]),
        props_upto(d, ls, n) == with_prop_line(props_upto(d, ls, n - 1), ls[n - 1]),
        props_upto(d, ls, 0) == d,
        shown_device(dev, None) is None,
        hardware_address(None).len() == 0,
        listed_devices(None, true).len() == 0,
{
}

/// A connection that is complete is one, however late, and asks for an address; it is
/// given up after 20 polls and not before, and its slot is removed.
pub proof fn law_polls(dev: Seq<char>, ssid: Seq<char>, id: Seq<char>, polls: int, a: Seq<char>, b: Seq<char>)
    ensures
        polled_step(dev, ssid, id, polls, Some(a + "wpa_state=COMPLETED"@ + b)) matches
            ConnectStepView::Done { runs, ok, message } && ok && runs == seq![
            run("dhcpcd"@, seq!["-n"@, dev]),
        ] && message == "Bağlandı: "@ + ssid,
        polls < 20 ==> polled_step(dev, ssid, id, polls, None) == ConnectStepView::Again,
        polls >= 20 ==> (polled_step(dev, ssid, id, polls, None) matches ConnectStepView::Done {
            runs,
            ok,
            message,
        } && !ok && runs == seq![wpa_run(dev, seq!["remove_network"@, id])]),
{
    law_find_text(a, "wpa_state=COMPLETED"@, b);
}

} // verus!
