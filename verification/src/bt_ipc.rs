//! The line protocol between the settings application and the Bluetooth module.
//!
//! Each line is one JSON message on the socket `$XDG_RUNTIME_DIR/bacak-bt.sock`.
//!
//! Compositor → client (events):
//!   {"t":"powered","on":true}
//!   {"t":"scanning","on":true}
//!   {"t":"devices","list":[{"mac":"..","name":"..","paired":true,"connected":false}]}
//!   {"t":"pairing","device":"Redmi Note 8","passkey":"123456"}
//!   {"t":"toast","msg":"Eşleşti"}
//!
//! Client → compositor (commands):
//!   {"cmd":"power","on":true}
//!   {"cmd":"scan","on":true}
//!   {"cmd":"pair","mac":"E8:5A:8B:26:C0:32"}
//!   {"cmd":"connect","mac":"..."}
//!   {"cmd":"disconnect","mac":"..."}
//!   {"cmd":"forget","mac":"..."}
//!   {"cmd":"confirm","accept":true}
//!   {"cmd":"get_state"}

use std::collections::VecDeque;
use vstd::prelude::*;
use vstd::slice::slice_subrange;

use crate::json::{
    escape, escaped, is_control, law_escaped_reads_back, lemma_plain, printable, quoted, written,
    written_fields, written_items, Json,
};
use crate::text::{
    bool_text, chars_of, find, find_from, find_text, find_text_from, join_path, lemma_find_is,
    lemma_text_is, lemma_text_nowhere, lemma_trim_tight, mentions, opt_str, path_join, push_all,
    push_bool, push_str, stands_at, string_of, trim, trimmed, law_find_text,
};

verus! {

/// A command of a client.
#[derive(Debug, Clone, PartialEq, Eq)]
pub enum IpcCmd {
    Power(bool),
    Scan(bool),
    Pair(String),
    Connect(String),
    Disconnect(String),
    Forget(String),
    Confirm(bool),
    GetState,
}

/// An [`IpcCmd`] with its strings taken as character sequences.
pub enum IpcCmdView {
    Power(bool),
    Scan(bool),
    Pair(Seq<char>),
    Connect(Seq<char>),
    Disconnect(Seq<char>),
    Forget(Seq<char>),
    Confirm(bool),
    GetState,
}

impl View for IpcCmd {
    type V = IpcCmdView;

    open spec fn view(&self) -> IpcCmdView {
        match *self {
            IpcCmd::Power(on) => IpcCmdView::Power(on),
            IpcCmd::Scan(on) => IpcCmdView::Scan(on),
            IpcCmd::Pair(mac) => IpcCmdView::Pair(mac@),
            IpcCmd::Connect(mac) => IpcCmdView::Connect(mac@),
            IpcCmd::Disconnect(mac) => IpcCmdView::Disconnect(mac@),
            IpcCmd::Forget(mac) => IpcCmdView::Forget(mac@),
            IpcCmd::Confirm(accept) => IpcCmdView::Confirm(accept),
            IpcCmd::GetState => IpcCmdView::GetState,
        }
    }
}

pub open spec fn cmd_view(c: Option<IpcCmd>) -> Option<IpcCmdView> {
    match c {
        Some(c) => Some(c@),
        None => None,
    }
}

/// A device as the protocol lists it.
#[derive(Debug, Clone, PartialEq, Eq)]
pub struct IpcDevice {
    pub mac: String,
    pub name: String,
    pub paired: bool,
    pub connected: bool,
}

/// What stands before the value of the string field `key`.
pub open spec fn field_mark(key: Seq<char>) -> Seq<char> {
    "\""@ + key + "\":\""@
}

/// The value of the first string field `key`: what stands up to the next quote.
pub open spec fn string_field(json: Seq<char>, key: Seq<char>) -> Option<Seq<char>> {
    let mark = field_mark(key);
    let p = find_text_from(json, mark, 0);
    let start = p + mark.len();
    let end = find_from(json, '"', start);
    if p < 0 || end >= json.len() {
        None
    } else {
        Some(json.subrange(start, end))
    }
}

pub open spec fn opt_string(o: Option<String>) -> Option<Seq<char>> {
    match o {
        Some(s) => Some(s@),
        None => None,
    }
}

/// The value of the string field `key`.
pub fn extract_str(json: &[char], key: &str) -> (r: Option<String>)
    ensures
        opt_string(r) == string_field(json@, key@),
{
    let mut mark: Vec<char> = chars_of("\"");
    push_str(&mut mark, key);
    push_str(&mut mark, "\":\"");
    match find_text(json, mark.as_slice(), 0) {
        None => None,
        Some(p) => {
            let start: usize = p + mark.len();
            let end: usize = find(json, '"', start);
            if end >= json.len() {
                None
            } else {
                Some(string_of(slice_subrange(json, start, end)))
            }
        },
    }
}

pub open spec fn says(line: Seq<char>, what: Seq<char>) -> bool {
    find_text_from(line, what, 0) >= 0
}

/// What a line asks for. Commands on a device need its address.
pub open spec fn command(line: Seq<char>) -> Option<IpcCmdView> {
    let s = trim(line);
    let mac = string_field(s, "mac"@);
    if says(s, "\"cmd\":\"power\""@) {
        Some(IpcCmdView::Power(says(s, "\"on\":true"@)))
    } else if says(s, "\"cmd\":\"scan\""@) {
        Some(IpcCmdView::Scan(says(s, "\"on\":true"@)))
    } else if says(s, "\"cmd\":\"pair\""@) {
        match mac {
            Some(m) => Some(IpcCmdView::Pair(m)),
            None => None,
        }
    } else if says(s, "\"cmd\":\"connect\""@) {
        match mac {
            Some(m) => Some(IpcCmdView::Connect(m)),
            None => None,
        }
    } else if says(s, "\"cmd\":\"disconnect\""@) {
        match mac {
            Some(m) => Some(IpcCmdView::Disconnect(m)),
            None => None,
        }
    } else if says(s, "\"cmd\":\"forget\""@) {
        match mac {
            Some(m) => Some(IpcCmdView::Forget(m)),
            None => None,
        }
    } else if says(s, "\"cmd\":\"confirm\""@) {
        Some(IpcCmdView::Confirm(says(s, "\"accept\":true"@)))
    } else if says(s, "\"cmd\":\"get_state\""@) {
        Some(IpcCmdView::GetState)
    } else {
        None
    }
}

/// Reads one line of a client.
pub fn parse_cmd(line: &str) -> (r: Option<IpcCmd>)
    ensures
        cmd_view(r) == command(line@),
{
    let line: Vec<char> = chars_of(line);
    let line: &[char] = trimmed(line.as_slice());
    if mentions(line, "\"cmd\":\"power\"") {
        return Some(IpcCmd::Power(mentions(line, "\"on\":true")));
    }
    if mentions(line, "\"cmd\":\"scan\"") {
        return Some(IpcCmd::Scan(mentions(line, "\"on\":true")));
    }
    if mentions(line, "\"cmd\":\"pair\"") {
        return match extract_str(line, "mac") {
            Some(mac) => Some(IpcCmd::Pair(mac)),
            None => None,
        };
    }
    if mentions(line, "\"cmd\":\"connect\"") {
        return match extract_str(line, "mac") {
            Some(mac) => Some(IpcCmd::Connect(mac)),
            None => None,
        };
    }
    if mentions(line, "\"cmd\":\"disconnect\"") {
        return match extract_str(line, "mac") {
            Some(mac) => Some(IpcCmd::Disconnect(mac)),
            None => None,
        };
    }
    if mentions(line, "\"cmd\":\"forget\"") {
        return match extract_str(line, "mac") {
            Some(mac) => Some(IpcCmd::Forget(mac)),
            None => None,
        };
    }
    if mentions(line, "\"cmd\":\"confirm\"") {
        return Some(IpcCmd::Confirm(mentions(line, "\"accept\":true")));
    }
    if mentions(line, "\"cmd\":\"get_state\"") {
        return Some(IpcCmd::GetState);
    }
    None
}

// ---------------------------------------------------------------------------
// Events
// ---------------------------------------------------------------------------

pub open spec fn powered_line(on: bool) -> Seq<char> {
    "{\"t\":\"powered\",\"on\":"@ + bool_text(on) + "}"@
}

pub open spec fn scanning_line(on: bool) -> Seq<char> {
    "{\"t\":\"scanning\",\"on\":"@ + bool_text(on) + "}"@
}

pub open spec fn devices_line(devices: Seq<IpcDevice>) -> Seq<char> {
    "{\"t\":\"devices\",\"list\":["@ + devices_json(devices, devices.len() as int) + "]}"@
}

pub open spec fn pairing_line(device: Seq<char>, passkey: Seq<char>) -> Seq<char> {
    "{\"t\":\"pairing\",\"device\":\""@ + escaped(device) + "\",\"passkey\":\""@
        + escaped(passkey) + "\"}"@
}

pub open spec fn toast_line(msg: Seq<char>) -> Seq<char> {
    "{\"t\":\"toast\",\"msg\":\""@ + escaped(msg) + "\"}"@
}

/// The event that adapter power changed.
pub fn powered_event(on: bool) -> (r: String)
    ensures
        r@ == powered_line(on),
{
    let mut v: Vec<char> = chars_of("{\"t\":\"powered\",\"on\":");
    push_bool(&mut v, on);
    push_str(&mut v, "}");
    string_of(v.as_slice())
}

/// The event that discovery started or stopped.
pub fn scanning_event(on: bool) -> (r: String)
    ensures
        r@ == scanning_line(on),
{
    let mut v: Vec<char> = chars_of("{\"t\":\"scanning\",\"on\":");
    push_bool(&mut v, on);
    push_str(&mut v, "}");
    string_of(v.as_slice())
}

/// One device of the list.
pub open spec fn device_json(d: IpcDevice) -> Seq<char> {
    "{\"mac\":\""@ + escaped(d.mac@) + "\",\"name\":\""@ + escaped(d.name@) + "\",\"paired\":"@
        + bool_text(d.paired) + ",\"connected\":"@ + bool_text(d.connected) + "}"@
}

/// The first `n` devices, parted by commas.
pub open spec fn devices_json(v: Seq<IpcDevice>, n: int) -> Seq<char>
    decreases n,
{
    if n <= 0 {
        seq![]
    } else if n == 1 {
        device_json(v[0])
    } else {
        devices_json(v, n - 1) + ","@ + device_json(v[n - 1])
    }
}

fn write_device(d: &IpcDevice) -> (r: Vec<char>)
    ensures
        r@ == device_json(*d),
{
    let mut v: Vec<char> = chars_of("{\"mac\":\"");
    let mac: Vec<char> = escape(d.mac.as_str());
    push_all(&mut v, mac.as_slice());
    push_str(&mut v, "\",\"name\":\"");
    let name: Vec<char> = escape(d.name.as_str());
    push_all(&mut v, name.as_slice());
    push_str(&mut v, "\",\"paired\":");
    push_bool(&mut v, d.paired);
    push_str(&mut v, ",\"connected\":");
    push_bool(&mut v, d.connected);
    push_str(&mut v, "}");
    v
}

/// The event that lists the known devices.
pub fn devices_event(devices: &[IpcDevice]) -> (r: String)
    ensures
        r@ == devices_line(devices@),
{
    let mut v: Vec<char> = chars_of("{\"t\":\"devices\",\"list\":[");
    let ghost head = v@;
    let mut i: usize = 0;
    assert(head + seq![] =~= head);
    while i < devices.len()
        invariant
            i <= devices.len(),
            v@ == head + devices_json(devices@, i as int),
        decreases devices.len() - i,
    {
        let one: Vec<char> = write_device(&devices[i]);
        if i > 0 {
            push_str(&mut v, ",");
            push_all(&mut v, one.as_slice());
            assert(v@ =~= head + (devices_json(devices@, i as int) + ","@ + device_json(
                devices@[i as int],
            )));
        } else {
            assert(head + seq![] =~= head);
            push_all(&mut v, one.as_slice());
        }
        i += 1;
    }
    push_str(&mut v, "]}");
    string_of(v.as_slice())
}

/// The event that asks the user to compare a passkey.
pub fn pairing_event(device: &str, passkey: &str) -> (r: String)
    ensures
        r@ == pairing_line(device@, passkey@),
{
    let mut v: Vec<char> = chars_of("{\"t\":\"pairing\",\"device\":\"");
    let device: Vec<char> = escape(device);
    push_all(&mut v, device.as_slice());
    push_str(&mut v, "\",\"passkey\":\"");
    let passkey: Vec<char> = escape(passkey);
    push_all(&mut v, passkey.as_slice());
    push_str(&mut v, "\"}");
    string_of(v.as_slice())
}

/// The event that shows a short message.
pub fn toast_event(msg: &str) -> (r: String)
    ensures
        r@ == toast_line(msg@),
{
    let mut v: Vec<char> = chars_of("{\"t\":\"toast\",\"msg\":\"");
    let msg: Vec<char> = escape(msg);
    push_all(&mut v, msg.as_slice());
    push_str(&mut v, "\"}");
    string_of(v.as_slice())
}

/// Where the socket is, given `$XDG_RUNTIME_DIR`.
pub fn socket_path(runtime: Option<&str>) -> (r: String)
    ensures
        r@ == path_join(
            match runtime {
                Some(dir) => dir@,
                None => "/run/user/1000"@,
            },
            "bacak-bt.sock"@,
        ),
{
    match runtime {
        Some(dir) => join_path(dir, "bacak-bt.sock"),
        None => join_path("/run/user/1000", "bacak-bt.sock"),
    }
}

// ---------------------------------------------------------------------------
// The server
// ---------------------------------------------------------------------------

/// The connection of the one client that is served at a time.
#[derive(Debug, Clone, Copy, PartialEq, Eq, Structural)]
pub enum IpcClient {
    Absent,
    /// Events reach it, and its lines are read.
    Live,
    /// It was accepted, but its stream could not be read from: it stands as a
    /// client that no event reaches, until the next one comes.
    Mute,
}

/// The server's side of the socket. Clients are served one after another: the
/// next is accepted once an event could not be written to the last.
pub struct BtIpcServer {
    client: IpcClient,
    generation: u64,
    commands: VecDeque<IpcCmd>,
}

#[verifier::ext_equal]
pub struct IpcServerView {
    pub client: IpcClient,
    /// How many clients came, so that a new one can be told from the last.
    pub generation: int,
    /// The commands that were not taken yet, in the order in which they came.
    pub commands: Seq<IpcCmdView>,
}

pub open spec fn cmd_views(v: Seq<IpcCmd>) -> Seq<IpcCmdView> {
    v.map_values(|c: IpcCmd| c@)
}

impl View for BtIpcServer {
    type V = IpcServerView;

    closed spec fn view(&self) -> IpcServerView {
        IpcServerView {
            client: self.client,
            generation: self.generation as int,
            commands: cmd_views(self.commands@),
        }
    }
}

impl IpcServerView {
    /// Once a client was accepted.
    pub open spec fn accepted(self, readable: bool) -> IpcServerView {
        IpcServerView {
            client: if readable {
                IpcClient::Live
            } else {
                IpcClient::Mute
            },
            generation: (self.generation + 1) % 0x1_0000_0000_0000_0000,
            ..self
        }
    }

    /// What is written for an event.
    pub open spec fn emitted(self, event: Seq<char>) -> Option<Seq<char>> {
        if self.client == IpcClient::Live {
            Some(event)
        } else {
            None
        }
    }

    /// Once a line came from the client.
    pub open spec fn heard(self, line: Seq<char>) -> IpcServerView {
        match command(line) {
            Some(c) => IpcServerView { commands: self.commands.push(c), ..self },
            None => self,
        }
    }
}

impl BtIpcServer {
    /// A server before its first client. Where the socket could not be bound it
    /// stays like this: no client ever comes, and nothing fails.
    pub fn start() -> (r: BtIpcServer)
        ensures
            r@ == (IpcServerView { client: IpcClient::Absent, generation: 0, commands: seq![] }),
    {
        let r = BtIpcServer { client: IpcClient::Absent, generation: 0, commands: VecDeque::new() };
        assert(r@.commands =~= seq![]);
        r
    }

    /// A client was accepted, whose stream can be read from or not.
    pub fn accept(&mut self, readable: bool)
        ensures
            final(self)@ == old(self)@.accepted(readable),
    {
        self.client = if readable {
            IpcClient::Live
        } else {
            IpcClient::Mute
        };
        self.generation = self.generation.wrapping_add(1);
    }

    /// A line came from the client. Whether it was a command, for which the event
    /// loop is woken; any other line is passed over.
    pub fn hear(&mut self, line: &str) -> (r: bool)
        ensures
            r == (command(line@) is Some),
            final(self)@ == old(self)@.heard(line@),
    {
        let ghost before = self@;
        match parse_cmd(line) {
            Some(c) => {
                self.commands.push_back(c);
                assert(self@.commands =~= before.commands.push(c@));
                true
            },
            None => false,
        }
    }

    /// An event could not be written to the client. Before that it is not noticed
    /// that a client left.
    pub fn gone(&mut self)
        ensures
            final(self)@ == (IpcServerView { client: IpcClient::Absent, ..old(self)@ }),
    {
        self.client = IpcClient::Absent;
    }

    /// The oldest command that was not taken yet.
    pub fn try_recv_cmd(&mut self) -> (r: Option<IpcCmd>)
        ensures
            match cmd_view(r) {
                Some(c) => old(self)@.commands.len() > 0 && c == old(self)@.commands[0]
                    && final(self)@ == (IpcServerView {
                    commands: old(self)@.commands.skip(1),
                    ..old(self)@
                }),
                None => old(self)@.commands.len() == 0 && final(self)@ == old(self)@,
            },
    {
        let ghost before = self@;
        let ghost all = self.commands@;
        assert(before.commands.len() == all.len());
        let c: Option<IpcCmd> = self.commands.pop_front();
        proof {
            if c is Some {
                assert(before.commands[0] == all[0]@);
                assert(self@.commands =~= before.commands.skip(1));
            }
        }
        c
    }

    pub fn has_client(&self) -> (r: bool)
        ensures
            r == (self@.client != IpcClient::Absent),
    {
        match self.client {
            IpcClient::Absent => false,
            _ => true,
        }
    }

    pub fn generation(&self) -> (r: u64)
        ensures
            r == self@.generation,
    {
        self.generation
    }

    /// What is written for an event: without a live client it is dropped.
    fn emit(&self, event: String) -> (r: Option<String>)
        ensures
            r == (if self@.client == IpcClient::Live {
                Some(event)
            } else {
                None
            }),
    {
        match self.client {
            IpcClient::Live => Some(event),
            _ => None,
        }
    }

    /// The line to write when adapter power changed.
    pub fn send_powered(&self, on: bool) -> (r: Option<String>)
        ensures
            opt_str(r) == self@.emitted(powered_line(on)),
    {
        self.emit(powered_event(on))
    }

    /// The line to write when discovery started or stopped.
    pub fn send_scanning(&self, on: bool) -> (r: Option<String>)
        ensures
            opt_str(r) == self@.emitted(scanning_line(on)),
    {
        self.emit(scanning_event(on))
    }

    /// The line to write when the list of devices changed.
    pub fn send_devices(&self, list: &Vec<IpcDevice>) -> (r: Option<String>)
        ensures
            opt_str(r) == self@.emitted(devices_line(list@)),
    {
        self.emit(devices_event(list))
    }

    /// The line to write when a device asks to be paired.
    pub fn send_pairing(&self, device: &str, passkey: &str) -> (r: Option<String>)
        ensures
            opt_str(r) == self@.emitted(pairing_line(device@, passkey@)),
    {
        self.emit(pairing_event(device, passkey))
    }

    /// The line to write to show a notice.
    pub fn send_toast(&self, msg: &str) -> (r: Option<String>)
        ensures
            opt_str(r) == self@.emitted(toast_line(msg@)),
    {
        self.emit(toast_event(msg))
    }
}

/// Commands are taken in the order in which their lines came: one that finds the
/// others taken is the next to be taken.
pub proof fn law_commands_in_order(s: IpcServerView, line: Seq<char>)
    requires
        command(line) is Some,
    ensures
        s.heard(line).commands.len() == s.commands.len() + 1,
        s.heard(line).commands.last() == command(line)->0,
        forall|i: int|
            0 <= i < s.commands.len() ==> #[trigger] s.heard(line).commands[i] == s.commands[i],
{
}

/// Texts without control characters have none once they are joined.
proof fn lemma_joined(a: Seq<char>, b: Seq<char>)
    requires
        printable(a),
        printable(b),
    ensures
        printable(a + b),
{
}

proof fn lemma_bool(on: bool)
    ensures
        printable(bool_text(on)),
{
    reveal_strlit("true");
    reveal_strlit("false");
}

proof fn lemma_device(d: IpcDevice)
    ensures
        printable(device_json(d)),
{
    reveal_strlit("{\"mac\":\"");
    reveal_strlit("\",\"name\":\"");
    reveal_strlit("\",\"paired\":");
    reveal_strlit(",\"connected\":");
    reveal_strlit("}");
    law_escaped_reads_back(d.mac@);
    law_escaped_reads_back(d.name@);
    lemma_bool(d.paired);
    lemma_bool(d.connected);
    let s1 = "{\"mac\":\""@ + escaped(d.mac@);
    let s2 = s1 + "\",\"name\":\""@;
    let s3 = s2 + escaped(d.name@);
    let s4 = s3 + "\",\"paired\":"@;
    let s5 = s4 + bool_text(d.paired);
    let s6 = s5 + ",\"connected\":"@;
    let s7 = s6 + bool_text(d.connected);
    lemma_joined("{\"mac\":\""@, escaped(d.mac@));
    lemma_joined(s1, "\",\"name\":\""@);
    lemma_joined(s2, escaped(d.name@));
    lemma_joined(s3, "\",\"paired\":"@);
    lemma_joined(s4, bool_text(d.paired));
    lemma_joined(s5, ",\"connected\":"@);
    lemma_joined(s6, bool_text(d.connected));
    lemma_joined(s7, "}"@);
}

proof fn lemma_devices(v: Seq<IpcDevice>, n: int)
    requires
        0 <= n <= v.len(),
    ensures
        printable(devices_json(v, n)),
    decreases n,
{
    reveal_strlit(",");
    if n >= 1 {
        lemma_device(v[n - 1]);
    }
    if n > 1 {
        lemma_devices(v, n - 1);
        lemma_joined(devices_json(v, n - 1), ","@);
        lemma_joined(devices_json(v, n - 1) + ","@, device_json(v[n - 1]));
    }
}

/// Every event is one line, whatever the names, addresses and messages that it
/// tells of hold: it has no line break, nor any other control character.
#[verifier::spinoff_prover]
#[verifier::rlimit(60)]
pub proof fn law_events_are_lines(
    on: bool,
    devices: Seq<IpcDevice>,
    device: Seq<char>,
    passkey: Seq<char>,
    msg: Seq<char>,
)
    ensures
        printable(powered_line(on)),
        printable(scanning_line(on)),
        printable(devices_line(devices)),
        printable(pairing_line(device, passkey)),
        printable(toast_line(msg)),
{
    reveal_strlit("{\"t\":\"powered\",\"on\":");
    reveal_strlit("{\"t\":\"scanning\",\"on\":");
    reveal_strlit("{\"t\":\"devices\",\"list\":[");
    reveal_strlit("{\"t\":\"pairing\",\"device\":\"");
    reveal_strlit("{\"t\":\"toast\",\"msg\":\"");
    reveal_strlit("\",\"passkey\":\"");
    reveal_strlit("\"}");
    reveal_strlit("]}");
    reveal_strlit("}");
    lemma_bool(on);
    lemma_joined("{\"t\":\"powered\",\"on\":"@, bool_text(on));
    lemma_joined("{\"t\":\"powered\",\"on\":"@ + bool_text(on), "}"@);
    lemma_joined("{\"t\":\"scanning\",\"on\":"@, bool_text(on));
    lemma_joined("{\"t\":\"scanning\",\"on\":"@ + bool_text(on), "}"@);
    let list = devices_json(devices, devices.len() as int);
    lemma_devices(devices, devices.len() as int);
    lemma_joined("{\"t\":\"devices\",\"list\":["@, list);
    lemma_joined("{\"t\":\"devices\",\"list\":["@ + list, "]}"@);
    law_escaped_reads_back(device);
    law_escaped_reads_back(passkey);
    let p1 = "{\"t\":\"pairing\",\"device\":\""@ + escaped(device);
    let p2 = p1 + "\",\"passkey\":\""@;
    let p3 = p2 + escaped(passkey);
    lemma_joined("{\"t\":\"pairing\",\"device\":\""@, escaped(device));
    lemma_joined(p1, "\",\"passkey\":\""@);
    lemma_joined(p2, escaped(passkey));
    lemma_joined(p3, "\"}"@);
    law_escaped_reads_back(msg);
    let m = "{\"t\":\"toast\",\"msg\":\""@ + escaped(msg);
    lemma_joined("{\"t\":\"toast\",\"msg\":\""@, escaped(msg));
    lemma_joined(m, "\"}"@);
}

/// A device of the list as a JSON value.
pub open spec fn device_value(d: IpcDevice) -> Json {
    Json::Object(
        seq![
            ("mac"@, Json::Text(d.mac@)),
            ("name"@, Json::Text(d.name@)),
            ("paired"@, Json::Bool(d.paired)),
            ("connected"@, Json::Bool(d.connected)),
        ],
    )
}

/// An event of two fields as a JSON value.
pub open spec fn event_value(t: Seq<char>, key: Seq<char>, value: Json) -> Json {
    Json::Object(seq![("t"@, Json::Text(t)), (key, value)])
}

proof fn lemma_key(s: Seq<char>)
    requires
        forall|i: int|
            0 <= i < s.len() ==> !is_control(#[trigger] s[i]) && s[i] != '"' && s[i]
                != '\\',
    ensures
        quoted(s) == seq!['"'] + s + seq!['"'],
{
    lemma_plain(s, s.len() as int);
    assert(s.take(s.len() as int) =~= s);
}

proof fn lemma_two_fields(t: Seq<char>, key: Seq<char>, value: Json)
    requires
        forall|i: int|
            0 <= i < t.len() ==> !is_control(#[trigger] t[i]) && t[i] != '"' && t[i]
                != '\\',
        forall|i: int|
            0 <= i < key.len() ==> !is_control(#[trigger] key[i]) && key[i] != '"'
                && key[i] != '\\',
    ensures
        written(event_value(t, key, value)) == seq!['{', '"', 't', '"', ':', '"'] + t + seq![
            '"',
            ',',
            '"',
        ] + key + seq!['"', ':'] + written(value) + seq!['}'],
{
    reveal_strlit("t");
    lemma_key("t"@);
    lemma_key(t);
    lemma_key(key);
    reveal_with_fuel(written_fields, 3);
    let fields = seq![("t"@, Json::Text(t)), (key, value)];
    let one = quoted("t"@) + seq![':'] + written(Json::Text(t));
    let two = quoted(key) + seq![':'] + written(value);
    assert(written_fields(fields, 1) == one);
    assert(written_fields(fields, 2) == one + seq![','] + two);
    assert(written(event_value(t, key, value)) =~= seq!['{', '"', 't', '"', ':', '"'] + t + seq![
        '"',
        ',',
        '"',
    ] + key + seq!['"', ':'] + written(value) + seq!['}']);
}

proof fn lemma_flag_event(on: bool)
    ensures
        powered_line(on) == written(event_value("powered"@, "on"@, Json::Bool(on))),
        scanning_line(on) == written(event_value("scanning"@, "on"@, Json::Bool(on))),
{
    reveal_strlit("on");
    reveal_strlit("}");
    reveal_strlit("powered");
    reveal_strlit("{\"t\":\"powered\",\"on\":");
    lemma_two_fields("powered"@, "on"@, Json::Bool(on));
    assert(powered_line(on) =~= written(event_value("powered"@, "on"@, Json::Bool(on))));
    reveal_strlit("scanning");
    reveal_strlit("{\"t\":\"scanning\",\"on\":");
    lemma_two_fields("scanning"@, "on"@, Json::Bool(on));
    assert(scanning_line(on) =~= written(event_value("scanning"@, "on"@, Json::Bool(on))));
}

proof fn lemma_toast_event(msg: Seq<char>)
    ensures
        toast_line(msg) == written(event_value("toast"@, "msg"@, Json::Text(msg))),
{
    reveal_strlit("toast");
    reveal_strlit("msg");
    reveal_strlit("\"}");
    reveal_strlit("{\"t\":\"toast\",\"msg\":\"");
    lemma_two_fields("toast"@, "msg"@, Json::Text(msg));
    assert(toast_line(msg) =~= written(event_value("toast"@, "msg"@, Json::Text(msg))));
}

/// The event of a pairing request as a JSON value.
pub open spec fn pairing_value(device: Seq<char>, passkey: Seq<char>) -> Json {
    Json::Object(
        seq![
            ("t"@, Json::Text("pairing"@)),
            ("device"@, Json::Text(device)),
            ("passkey"@, Json::Text(passkey)),
        ],
    )
}

proof fn lemma_pairing_event(device: Seq<char>, passkey: Seq<char>)
    ensures
        pairing_line(device, passkey) == written(pairing_value(device, passkey)),
{
    reveal_strlit("t");
    reveal_strlit("pairing");
    reveal_strlit("device");
    reveal_strlit("passkey");
    reveal_strlit("{\"t\":\"pairing\",\"device\":\"");
    reveal_strlit("\",\"passkey\":\"");
    reveal_strlit("\"}");
    lemma_key("t"@);
    lemma_key("pairing"@);
    lemma_key("device"@);
    lemma_key("passkey"@);
    reveal_with_fuel(written_fields, 4);
    let fields = seq![
        ("t"@, Json::Text("pairing"@)),
        ("device"@, Json::Text(device)),
        ("passkey"@, Json::Text(passkey)),
    ];
    let one = quoted("t"@) + seq![':'] + quoted("pairing"@);
    let two = quoted("device"@) + seq![':'] + quoted(device);
    let three = quoted("passkey"@) + seq![':'] + quoted(passkey);
    assert(written_fields(fields, 1) == one);
    assert(written_fields(fields, 2) == one + seq![','] + two);
    assert(written_fields(fields, 3) == one + seq![','] + two + seq![','] + three);
    assert(pairing_line(device, passkey) =~= written(pairing_value(device, passkey)));
}

proof fn lemma_device_keys()
    ensures
        "{\"mac\":\""@ == seq!['{'] + quoted("mac"@) + seq![':', '"'],
        "\",\"name\":\""@ == seq!['"', ','] + quoted("name"@) + seq![':', '"'],
        "\",\"paired\":"@ == seq!['"', ','] + quoted("paired"@) + seq![':'],
        ",\"connected\":"@ == seq![','] + quoted("connected"@) + seq![':'],
        "}"@ == seq!['}'],
{
    reveal_strlit("mac");
    reveal_strlit("{\"mac\":\"");
    lemma_key("mac"@);
    assert("{\"mac\":\""@ =~= seq!['{'] + quoted("mac"@) + seq![':', '"']);
    reveal_strlit("name");
    reveal_strlit("\",\"name\":\"");
    lemma_key("name"@);
    assert("\",\"name\":\""@ =~= seq!['"', ','] + quoted("name"@) + seq![':', '"']);
    reveal_strlit("paired");
    reveal_strlit("\",\"paired\":");
    lemma_key("paired"@);
    assert("\",\"paired\":"@ =~= seq!['"', ','] + quoted("paired"@) + seq![':']);
    reveal_strlit("connected");
    reveal_strlit(",\"connected\":");
    lemma_key("connected"@);
    assert(",\"connected\":"@ =~= seq![','] + quoted("connected"@) + seq![':']);
    reveal_strlit("}");
    assert("}"@ =~= seq!['}']);
}

/// The two ways to put a device together.
proof fn lemma_device_parts(
    k: (Seq<char>, Seq<char>, Seq<char>, Seq<char>),
    mac: Seq<char>,
    name: Seq<char>,
    paired: Seq<char>,
    connected: Seq<char>,
)
    ensures
        ({
            let q = seq!['"'];
            let one = k.0 + seq![':'] + (q + mac + q);
            let two = k.1 + seq![':'] + (q + name + q);
            let three = k.2 + seq![':'] + paired;
            let four = k.3 + seq![':'] + connected;
            (seq!['{'] + k.0 + seq![':', '"']) + mac + (seq!['"', ','] + k.1 + seq![':', '"']) + name
                + (seq!['"', ','] + k.2 + seq![':']) + paired + (seq![','] + k.3 + seq![':'])
                + connected + seq!['}'] == seq!['{'] + (one + seq![','] + two + seq![','] + three
                + seq![','] + four) + seq!['}']
        }),
{
    let q = seq!['"'];
    let one = k.0 + seq![':'] + (q + mac + q);
    let two = k.1 + seq![':'] + (q + name + q);
    let three = k.2 + seq![':'] + paired;
    let four = k.3 + seq![':'] + connected;
    let a = (seq!['{'] + k.0 + seq![':', '"']) + mac;
    let b = a + (seq!['"', ','] + k.1 + seq![':', '"']) + name;
    let c = b + (seq!['"', ','] + k.2 + seq![':']) + paired;
    assert(a + q =~= seq!['{'] + one);
    assert(b + q =~= (a + q) + seq![','] + two);
    assert(c =~= (b + q) + seq![','] + three);
    assert(c + (seq![','] + k.3 + seq![':']) + connected + seq!['}'] =~= c + seq![','] + four
        + seq!['}']);
    let d = one + seq![','] + two;
    assert(b + q =~= seq!['{'] + d);
    let e = d + seq![','] + three;
    assert(c =~= seq!['{'] + e);
    assert(c + seq![','] + four + seq!['}'] =~= seq!['{'] + (e + seq![','] + four) + seq!['}']);
}

proof fn lemma_device_fields(d: IpcDevice)
    ensures
        ({
            let one = quoted("mac"@) + seq![':'] + quoted(d.mac@);
            let two = quoted("name"@) + seq![':'] + quoted(d.name@);
            let three = quoted("paired"@) + seq![':'] + bool_text(d.paired);
            let four = quoted("connected"@) + seq![':'] + bool_text(d.connected);
            written(device_value(d)) == seq!['{'] + (one + seq![','] + two + seq![','] + three
                + seq![','] + four) + seq!['}']
        }),
{
    reveal_with_fuel(written_fields, 5);
    let fields = seq![
        ("mac"@, Json::Text(d.mac@)),
        ("name"@, Json::Text(d.name@)),
        ("paired"@, Json::Bool(d.paired)),
        ("connected"@, Json::Bool(d.connected)),
    ];
    assert(device_value(d) == Json::Object(fields));
    let one = quoted("mac"@) + seq![':'] + quoted(d.mac@);
    let two = quoted("name"@) + seq![':'] + quoted(d.name@);
    let three = quoted("paired"@) + seq![':'] + bool_text(d.paired);
    let four = quoted("connected"@) + seq![':'] + bool_text(d.connected);
    assert(written(Json::Text(d.mac@)) == quoted(d.mac@));
    assert(written(Json::Text(d.name@)) == quoted(d.name@));
    assert(written(Json::Bool(d.paired)) == bool_text(d.paired));
    assert(written(Json::Bool(d.connected)) == bool_text(d.connected));
    assert(written_fields(fields, 1) == one);
    assert(written_fields(fields, 2) == one + seq![','] + two);
    assert(written_fields(fields, 3) == one + seq![','] + two + seq![','] + three);
    assert(written_fields(fields, 4) == one + seq![','] + two + seq![','] + three + seq![','] + four);
}

proof fn lemma_device_value(d: IpcDevice)
    ensures
        device_json(d) == written(device_value(d)),
{
    lemma_device_keys();
    lemma_device_fields(d);
    lemma_device_parts(
        (quoted("mac"@), quoted("name"@), quoted("paired"@), quoted("connected"@)),
        escaped(d.mac@),
        escaped(d.name@),
        bool_text(d.paired),
        bool_text(d.connected),
    );
}

/// The devices as a JSON list.
pub open spec fn devices_value(devices: Seq<IpcDevice>) -> Json {
    Json::List(devices.map_values(|d: IpcDevice| device_value(d)))
}

proof fn lemma_device_list(v: Seq<IpcDevice>, n: int)
    requires
        0 <= n <= v.len(),
    ensures
        devices_json(v, n) == written_items(v.map_values(|d: IpcDevice| device_value(d)), n),
    decreases n,
{
    let items = v.map_values(|d: IpcDevice| device_value(d));
    reveal_strlit(",");
    if n >= 1 {
        lemma_device_value(v[n - 1]);
        assert(items[n - 1] == device_value(v[n - 1]));
    }
    if n > 1 {
        lemma_device_list(v, n - 1);
        assert(","@ =~= seq![',']);
    }
}

proof fn lemma_devices_event(devices: Seq<IpcDevice>)
    ensures
        devices_line(devices) == written(
            event_value("devices"@, "list"@, devices_value(devices)),
        ),
{
    reveal_strlit("devices");
    reveal_strlit("list");
    reveal_strlit("{\"t\":\"devices\",\"list\":[");
    reveal_strlit("]}");
    lemma_device_list(devices, devices.len() as int);
    lemma_two_fields("devices"@, "list"@, devices_value(devices));
    assert(devices_line(devices) =~= written(
        event_value("devices"@, "list"@, devices_value(devices)),
    ));
}

/// Every event is a JSON object that tells just what happened, whatever the names,
/// addresses and messages hold. Read with the law that a text in quotes is read
/// back as it was, no such text can end its field early or bring in another.
pub proof fn law_events_are_json(
    on: bool,
    devices: Seq<IpcDevice>,
    device: Seq<char>,
    passkey: Seq<char>,
    msg: Seq<char>,
)
    ensures
        powered_line(on) == written(event_value("powered"@, "on"@, Json::Bool(on))),
        scanning_line(on) == written(event_value("scanning"@, "on"@, Json::Bool(on))),
        devices_line(devices) == written(
            event_value("devices"@, "list"@, devices_value(devices)),
        ),
        pairing_line(device, passkey) == written(pairing_value(device, passkey)),
        toast_line(msg) == written(event_value("toast"@, "msg"@, Json::Text(msg))),
{
    lemma_flag_event(on);
    lemma_devices_event(devices);
    lemma_pairing_event(device, passkey);
    lemma_toast_event(msg);
}

/// A command on a device, as a client writes it.
pub open spec fn device_line(name: Seq<char>, mac: Seq<char>) -> Seq<char> {
    "{\"cmd\":\""@ + name + "\",\"mac\":\""@ + mac + "\"}"@
}

/// What says that a line is the command `name`.
spec fn cmd_mark(name: Seq<char>) -> Seq<char> {
    "\"cmd\":\""@ + name + "\""@
}

/// Where the quotes of a device's command stand.
proof fn lemma_device_line(name: Seq<char>, mac: Seq<char>)
    requires
        !name.contains('"'),
        !mac.contains('"'),
    ensures
        ({
            let line = device_line(name, mac);
            let a = name.len() as int;
            let b = mac.len() as int;
            &&& line.len() == a + b + 19
            &&& line.subrange(0, 8) == seq!['{', '"', 'c', 'm', 'd', '"', ':', '"']
            &&& line.subrange(8, 8 + a) == name
            &&& line.subrange(8 + a, 17 + a) == seq!['"', ',', '"', 'm', 'a', 'c', '"', ':', '"']
            &&& line.subrange(17 + a, 17 + a + b) == mac
            &&& line.subrange(17 + a + b, 19 + a + b) == seq!['"', '}']
            &&& forall|k: int|
                0 <= k < line.len() && #[trigger] line[k] == '"' ==> k == 1 || k == 5 || k == 7 || k
                    == 8 + a || k == 10 + a || k == 14 + a || k == 16 + a || k == 17 + a + b
        }),
{
    reveal_strlit("{\"cmd\":\"");
    reveal_strlit("\",\"mac\":\"");
    reveal_strlit("\"}");
    let line = device_line(name, mac);
    let a = name.len() as int;
    let b = mac.len() as int;
    assert(line.subrange(0, 8) =~= seq!['{', '"', 'c', 'm', 'd', '"', ':', '"']);
    assert(line.subrange(8, 8 + a) =~= name);
    assert(line.subrange(8 + a, 17 + a) =~= seq!['"', ',', '"', 'm', 'a', 'c', '"', ':', '"']);
    assert(line.subrange(17 + a, 17 + a + b) =~= mac);
    assert(line.subrange(17 + a + b, 19 + a + b) =~= seq!['"', '}']);
    assert forall|k: int| 0 <= k < line.len() && #[trigger] line[k] == '"' implies k == 1 || k == 5
        || k == 7 || k == 8 + a || k == 10 + a || k == 14 + a || k == 16 + a || k == 17 + a + b by {
        if k < 8 {
            assert(line.subrange(0, 8)[k] == line[k]);
        } else if k < 8 + a {
            assert(name[k - 8] == line[k]);
            assert(name.contains(name[k - 8]));
        } else if k < 17 + a {
            assert(line.subrange(8 + a, 17 + a)[k - 8 - a] == line[k]);
        } else if k < 17 + a + b {
            assert(mac[k - 17 - a] == line[k]);
            assert(mac.contains(mac[k - 17 - a]));
        } else {
            assert(line.subrange(17 + a + b, 19 + a + b)[k - 17 - a - b] == line[k]);
        }
    }
}

/// A quoted word of three letters and a colon stands in a device's command only
/// as one of its two keys.
proof fn lemma_key_place(name: Seq<char>, mac: Seq<char>, key: Seq<char>, p: int)
    requires
        !name.contains('"'),
        !mac.contains('"'),
        key.len() == 3,
        !key.contains('"'),
        0 <= p,
        p + 6 <= device_line(name, mac).len(),
        device_line(name, mac)[p] == '"',
        device_line(name, mac).subrange(p + 1, p + 4) == key,
        device_line(name, mac)[p + 4] == '"',
        device_line(name, mac)[p + 5] == ':',
    ensures
        (p == 1 && key == seq!['c', 'm', 'd']) || (p == 10 + name.len() && key == seq!['m', 'a', 'c']),
{
    lemma_device_line(name, mac);
    let line = device_line(name, mac);
    let a = name.len() as int;
    let b = mac.len() as int;
    let head = line.subrange(0, 8);
    let middle = line.subrange(8 + a, 17 + a);
    let tail = line.subrange(17 + a + b, 19 + a + b);
    let word = line.subrange(p + 1, p + 4);
    assert(forall|k: int| 0 <= k < 8 ==> #[trigger] head[k] == line[k]);
    assert(forall|k: int| 0 <= k < 9 ==> #[trigger] middle[k] == line[8 + a + k]);
    assert(tail[0] == line[17 + a + b] && tail[1] == line[18 + a + b]);
    assert(word[0] == line[p + 1] && word[1] == line[p + 2] && word[2] == line[p + 3]);
    assert(key.contains(key[0]) && key.contains(key[1]) && key.contains(key[2]));
    if p == 1 {
        assert(head[2] == 'c' && head[3] == 'm' && head[4] == 'd');
        assert(key =~= seq!['c', 'm', 'd']);
    } else if p == 5 {
        assert(head[7] == line[7]);
    } else if p == 7 {
        assert(middle[0] == line[8 + a]);
        assert(middle[1] == line[9 + a]);
    } else if p == 8 + a {
        assert(middle[2] == line[10 + a]);
    } else if p == 10 + a {
        assert(middle[3] == 'm' && middle[4] == 'a' && middle[5] == 'c');
        assert(key =~= seq!['m', 'a', 'c']);
    } else if p == 14 + a {
        assert(middle[8] == line[16 + a]);
    } else if p == 16 + a {
        assert(tail[0] == line[17 + a + b]);
    }
}

/// What says that a line is a command stands in a device's command only at its
/// beginning, and with its own name.
proof fn lemma_mark_place(name: Seq<char>, mac: Seq<char>, other: Seq<char>, p: int)
    requires
        !name.contains('"'),
        !mac.contains('"'),
        !other.contains('"'),
        stands_at(device_line(name, mac), cmd_mark(other), p),
    ensures
        p == 1,
        other == name,
{
    reveal_strlit("\"cmd\":\"");
    reveal_strlit("\"");
    lemma_device_line(name, mac);
    let line = device_line(name, mac);
    let mark = cmd_mark(other);
    let a = name.len() as int;
    let c = other.len() as int;
    assert(mark.len() == c + 8);
    let here = line.subrange(p, p + mark.len());
    assert(here == mark);
    assert(forall|k: int| 0 <= k < mark.len() ==> #[trigger] here[k] == line[p + k]);
    let key = line.subrange(p + 1, p + 4);
    assert(here[0] == '"' && here[1] == 'c' && here[2] == 'm' && here[3] == 'd');
    assert(here[4] == '"' && here[5] == ':' && here[7 + c] == '"');
    assert(key =~= seq!['c', 'm', 'd']);
    lemma_key_place(name, mac, key, p);
    assert(key[0] == 'c');
    assert(p == 1);
    let between = line.subrange(8, 8 + a);
    assert(between == name);
    assert(line.subrange(8 + a, 17 + a)[0] == line[8 + a]);
    // The closing quotes of the two names are the same.
    if c < a {
        assert(between[c] == line[8 + c]);
        assert(name.contains(name[c]));
    }
    if a < c {
        assert(here[7 + a] == other[a]);
        assert(other.contains(other[a]));
    }
    assert forall|k: int| 0 <= k < a implies other[k] == name[k] by {
        assert(here[7 + k] == other[k]);
        assert(between[k] == line[8 + k]);
    }
    assert(other =~= name);
}

/// A device's command says its own name and no other.
proof fn lemma_says_name(name: Seq<char>, mac: Seq<char>, other: Seq<char>)
    requires
        !name.contains('"'),
        !mac.contains('"'),
        !other.contains('"'),
    ensures
        says(device_line(name, mac), cmd_mark(other)) <==> other == name,
{
    let line = device_line(name, mac);
    let mark = cmd_mark(other);
    assert forall|p: int| #[trigger] stands_at(line, mark, p) implies p == 1 && other == name by {
        lemma_mark_place(name, mac, other, p);
    }
    if other == name {
        lemma_own_mark(name, mac);
        lemma_text_is(line, mark, 0, 1);
    } else {
        lemma_text_nowhere(line, mark, 0);
    }
}

proof fn lemma_own_mark(name: Seq<char>, mac: Seq<char>)
    ensures
        stands_at(device_line(name, mac), cmd_mark(name), 1),
{
    reveal_strlit("{\"cmd\":\"");
    reveal_strlit("\"cmd\":\"");
    reveal_strlit("\",\"mac\":\"");
    reveal_strlit("\"");
    let line = device_line(name, mac);
    let mark = cmd_mark(name);
    assert(line.subrange(1, 1int + mark.len()) =~= mark);
}

proof fn lemma_device_field(name: Seq<char>, mac: Seq<char>)
    requires
        !name.contains('"'),
        !mac.contains('"'),
    ensures
        string_field(device_line(name, mac), "mac"@) == Some(mac),
{
    reveal_strlit("\"");
    reveal_strlit("\":\"");
    reveal_strlit("mac");
    lemma_device_line(name, mac);
    let line = device_line(name, mac);
    let mark = field_mark("mac"@);
    let a = name.len() as int;
    let b = mac.len() as int;
    assert(mark =~= seq!['"', 'm', 'a', 'c', '"', ':', '"']);
    let middle = line.subrange(8 + a, 17 + a);
    assert(line.subrange(10 + a, 17 + a) =~= mark) by {
        assert forall|k: int| 0 <= k < 7 implies line[10 + a + k] == mark[k] by {
            assert(middle[k + 2] == line[10 + a + k]);
        }
    }
    assert(stands_at(line, mark, 10 + a));
    assert forall|p: int| 0 <= p < 10 + a implies !#[trigger] stands_at(line, mark, p) by {
        if stands_at(line, mark, p) {
            let here = line.subrange(p, p + 7);
            assert(here == mark);
            assert(forall|k: int| 0 <= k < 7 ==> here[k] == #[trigger] line[p + k]);
            let key = line.subrange(p + 1, p + 4);
            assert(key =~= seq!['m', 'a', 'c']) by {
                assert(here[1] == 'm' && here[2] == 'a' && here[3] == 'c');
                assert(line[p + 1] == 'm' && line[p + 2] == 'a' && line[p + 3] == 'c');
            }
            assert(here[0] == line[p + 0] && here[4] == line[p + 4] && here[5] == line[p + 5]);
            lemma_key_place(name, mac, key, p);
            assert(key[0] == 'm');
        }
    }
    lemma_text_is(line, mark, 0, 10 + a);
    assert forall|k: int| 17 + a <= k < 17 + a + b implies line[k] != '"' by {
        assert(mac[k - 17 - a] == line.subrange(17 + a, 17 + a + b)[k - 17 - a]);
        assert(mac.contains(mac[k - 17 - a]));
    }
    assert(line.subrange(17 + a + b, 19 + a + b)[0] == line[17 + a + b]);
    lemma_find_is(line, '"', 17 + a, 17 + a + b);
}

/// A command on a device is understood as it was written, whatever the address, as
/// long as it holds no quote.
pub proof fn law_device_commands(mac: Seq<char>)
    requires
        !mac.contains('"'),
    ensures
        command(device_line("pair"@, mac)) == Some(IpcCmdView::Pair(mac)),
        command(device_line("connect"@, mac)) == Some(IpcCmdView::Connect(mac)),
        command(device_line("disconnect"@, mac)) == Some(IpcCmdView::Disconnect(mac)),
        command(device_line("forget"@, mac)) == Some(IpcCmdView::Forget(mac)),
{
    lemma_device_command("pair"@, mac);
    lemma_device_command("connect"@, mac);
    lemma_device_command("disconnect"@, mac);
    lemma_device_command("forget"@, mac);
    lemma_names_differ();
}

proof fn lemma_names_differ()
    ensures
        "pair"@ != "power"@,
        "pair"@ != "scan"@,
        "connect"@ != "power"@,
        "connect"@ != "scan"@,
        "connect"@ != "pair"@,
        "disconnect"@ != "power"@,
        "disconnect"@ != "scan"@,
        "disconnect"@ != "pair"@,
        "disconnect"@ != "connect"@,
        "forget"@ != "power"@,
        "forget"@ != "scan"@,
        "forget"@ != "pair"@,
        "forget"@ != "connect"@,
        "forget"@ != "disconnect"@,
{
    reveal_strlit("power");
    reveal_strlit("scan");
    reveal_strlit("pair");
    reveal_strlit("connect");
    reveal_strlit("disconnect");
    reveal_strlit("forget");
    assert("power"@.len() == 5 && "scan"@.len() == 4 && "pair"@.len() == 4);
    assert("connect"@.len() == 7 && "disconnect"@.len() == 10 && "forget"@.len() == 6);
    assert("pair"@[0] == 'p' && "scan"@[0] == 's');
}

/// How the marks of the commands are made up; no name holds a quote.
proof fn lemma_marks()
    ensures
        "\"cmd\":\"power\""@ == cmd_mark("power"@),
        "\"cmd\":\"scan\""@ == cmd_mark("scan"@),
        "\"cmd\":\"pair\""@ == cmd_mark("pair"@),
        "\"cmd\":\"connect\""@ == cmd_mark("connect"@),
        "\"cmd\":\"disconnect\""@ == cmd_mark("disconnect"@),
        "\"cmd\":\"forget\""@ == cmd_mark("forget"@),
        !"power"@.contains('"'),
        !"scan"@.contains('"'),
        !"pair"@.contains('"'),
        !"connect"@.contains('"'),
        !"disconnect"@.contains('"'),
        !"forget"@.contains('"'),
{
    reveal_strlit("\"cmd\":\"");
    reveal_strlit("\"");
    reveal_strlit("power");
    reveal_strlit("scan");
    reveal_strlit("pair");
    reveal_strlit("connect");
    reveal_strlit("disconnect");
    reveal_strlit("forget");
    reveal_strlit("\"cmd\":\"power\"");
    reveal_strlit("\"cmd\":\"scan\"");
    reveal_strlit("\"cmd\":\"pair\"");
    reveal_strlit("\"cmd\":\"connect\"");
    reveal_strlit("\"cmd\":\"disconnect\"");
    reveal_strlit("\"cmd\":\"forget\"");
    assert("\"cmd\":\"power\""@ =~= cmd_mark("power"@));
    assert("\"cmd\":\"scan\""@ =~= cmd_mark("scan"@));
    assert("\"cmd\":\"pair\""@ =~= cmd_mark("pair"@));
    assert("\"cmd\":\"connect\""@ =~= cmd_mark("connect"@));
    assert("\"cmd\":\"disconnect\""@ =~= cmd_mark("disconnect"@));
    assert("\"cmd\":\"forget\""@ =~= cmd_mark("forget"@));
}

proof fn lemma_device_command(name: Seq<char>, mac: Seq<char>)
    requires
        name == "pair"@ || name == "connect"@ || name == "disconnect"@ || name == "forget"@,
        !mac.contains('"'),
    ensures
        ({
            let line = device_line(name, mac);
            let s = trim(line);
            &&& s == line
            &&& string_field(s, "mac"@) == Some(mac)
            &&& says(s, "\"cmd\":\"power\""@) <==> "power"@ == name
            &&& says(s, "\"cmd\":\"scan\""@) <==> "scan"@ == name
            &&& says(s, "\"cmd\":\"pair\""@) <==> "pair"@ == name
            &&& says(s, "\"cmd\":\"connect\""@) <==> "connect"@ == name
            &&& says(s, "\"cmd\":\"disconnect\""@) <==> "disconnect"@ == name
            &&& says(s, "\"cmd\":\"forget\""@) <==> "forget"@ == name
        }),
{
    lemma_marks();
    lemma_device_line(name, mac);
    let line = device_line(name, mac);
    assert(line.subrange(0, 8)[0] == line[0]);
    let n = line.len() as int;
    assert(line.subrange(n - 2, n)[1] == line[n - 1]);
    lemma_trim_tight(line);
    lemma_device_field(name, mac);
    lemma_says_name(name, mac, "power"@);
    lemma_says_name(name, mac, "scan"@);
    lemma_says_name(name, mac, "pair"@);
    lemma_says_name(name, mac, "connect"@);
    lemma_says_name(name, mac, "disconnect"@);
    lemma_says_name(name, mac, "forget"@);
}

/// A command that is not on a device, as a client writes it: its name, and what follows.
pub open spec fn plain_line(name: Seq<char>, rest: Seq<char>) -> Seq<char> {
    "{\"cmd\":\""@ + name + "\""@ + rest + "}"@
}

/// A plain command says its own name and no other, as long as no `d` stands in the name
/// or behind it.
#[verifier::rlimit(30)]
proof fn lemma_plain_says(name: Seq<char>, rest: Seq<char>, other: Seq<char>)
    requires
        !name.contains('"'),
        !name.contains('d'),
        !rest.contains('d'),
        !other.contains('"'),
    ensures
        says(plain_line(name, rest), cmd_mark(other)) <==> other == name,
{
    reveal_strlit("{\"cmd\":\"");
    reveal_strlit("\"cmd\":\"");
    reveal_strlit("\"");
    reveal_strlit("}");
    let line = plain_line(name, rest);
    let mark = cmd_mark(other);
    let a = name.len() as int;
    let c = other.len() as int;
    assert(mark.len() == c + 8);
    assert forall|p: int| #[trigger] stands_at(line, mark, p) implies p == 1 && other == name by {
        let here = line.subrange(p, p + mark.len());
        assert(here == mark);
        assert(here[3] == 'd' && here[3] == line[p + 3]);
        if p + 3 != 4 {
            if 8 <= p + 3 < 8 + a {
                assert(name[p + 3 - 8] == line[p + 3]);
                assert(name.contains(line[p + 3]));
            } else if 9 + a <= p + 3 < 9 + a + rest.len() {
                assert(rest[p + 3 - 9 - a] == line[p + 3]);
                assert(rest.contains(line[p + 3]));
            }
        }
        assert(p == 1);
        assert(line[8 + a] == '"');
        if c < a {
            assert(here[7 + c] == '"' && here[7 + c] == line[8 + c]);
            assert(line[8 + c] == name[c]);
            assert(name.contains(name[c]));
        }
        if a < c {
            assert(here[7 + a] == other[a] && here[7 + a] == line[8 + a]);
            assert(other.contains(other[a]));
        }
        assert forall|k: int| 0 <= k < a implies other[k] == name[k] by {
            assert(here[7 + k] == other[k] && here[7 + k] == line[8 + k]);
            assert(line[8 + k] == name[k]);
        }
        assert(other =~= name);
    }
    if other == name {
        assert(line.subrange(1, 1int + mark.len()) =~= mark);
        assert(stands_at(line, mark, 1));
        lemma_text_is(line, mark, 0, 1);
    } else {
        lemma_text_nowhere(line, mark, 0);
    }
}

#[verifier::rlimit(30)]
proof fn lemma_plain_command(name: Seq<char>, rest: Seq<char>)
    requires
        !name.contains('"'),
        !name.contains('d'),
        !rest.contains('d'),
    ensures
        ({
            let s = plain_line(name, rest);
            &&& trim(s) == s
            &&& says(s, "\"cmd\":\"power\""@) <==> "power"@ == name
            &&& says(s, "\"cmd\":\"scan\""@) <==> "scan"@ == name
            &&& says(s, "\"cmd\":\"pair\""@) <==> "pair"@ == name
            &&& says(s, "\"cmd\":\"connect\""@) <==> "connect"@ == name
            &&& says(s, "\"cmd\":\"disconnect\""@) <==> "disconnect"@ == name
            &&& says(s, "\"cmd\":\"forget\""@) <==> "forget"@ == name
            &&& says(s, "\"cmd\":\"confirm\""@) <==> "confirm"@ == name
            &&& says(s, "\"cmd\":\"get_state\""@) <==> "get_state"@ == name
        }),
{
    lemma_marks();
    let s = plain_line(name, rest);
    assert(trim(s) == s) by {
        reveal_strlit("{\"cmd\":\"");
        reveal_strlit("}");
        assert(s[0] == '{' && s.last() == '}');
        lemma_trim_tight(s);
    }
    lemma_plain_says(name, rest, "power"@);
    lemma_plain_says(name, rest, "scan"@);
    lemma_plain_says(name, rest, "pair"@);
    lemma_plain_says(name, rest, "connect"@);
    lemma_plain_says(name, rest, "disconnect"@);
    lemma_plain_says(name, rest, "forget"@);
    lemma_more_marks();
    lemma_plain_says(name, rest, "confirm"@);
    lemma_plain_says(name, rest, "get_state"@);
}

#[verifier::rlimit(30)]
proof fn lemma_more_marks()
    ensures
        "\"cmd\":\"confirm\""@ == cmd_mark("confirm"@),
        "\"cmd\":\"get_state\""@ == cmd_mark("get_state"@),
        !"confirm"@.contains('"') && !"get_state"@.contains('"'),
        !"confirm"@.contains('d') && !"get_state"@.contains('d'),
        !"power"@.contains('d') && !"scan"@.contains('d'),
        "power"@.len() == 5 && "scan"@.len() == 4 && "confirm"@.len() == 7 && "get_state"@.len()
            == 9,
        "pair"@.len() == 4 && "connect"@.len() == 7 && "disconnect"@.len() == 10
            && "forget"@.len() == 6,
        "scan"@[0] == 's' && "pair"@[0] == 'p' && "confirm"@[3] == 'f' && "connect"@[3] == 'n',
{
    reveal_strlit("\"cmd\":\"");
    reveal_strlit("\"");
    reveal_strlit("power");
    reveal_strlit("scan");
    reveal_strlit("pair");
    reveal_strlit("connect");
    reveal_strlit("disconnect");
    reveal_strlit("forget");
    reveal_strlit("confirm");
    reveal_strlit("get_state");
    reveal_strlit("\"cmd\":\"confirm\"");
    reveal_strlit("\"cmd\":\"get_state\"");
    assert("\"cmd\":\"confirm\""@ =~= cmd_mark("confirm"@));
    assert("\"cmd\":\"get_state\""@ =~= cmd_mark("get_state"@));
}

/// A text is said by a plain command whose rest holds it.
proof fn lemma_flag_said(name: Seq<char>, a: Seq<char>, flag: Seq<char>, b: Seq<char>)
    ensures
        says(plain_line(name, a + flag + b), flag),
{
    let h = "{\"cmd\":\""@ + name + "\""@;
    law_find_text(h + a, flag, b + "}"@);
    assert((h + a) + flag + (b + "}"@) =~= plain_line(name, a + flag + b));
}

/// A text with a `u` in it is not said where neither the name nor the rest holds one.
proof fn lemma_flag_not_said(name: Seq<char>, a: Seq<char>, flag: Seq<char>, u: int)
    requires
        0 <= u < flag.len(),
        flag[u] == 'u',
        !name.contains('u'),
        !a.contains('u'),
    ensures
        !says(plain_line(name, a), flag),
{
    let s = plain_line(name, a);
    assert forall|p: int| 0 <= p implies !#[trigger] stands_at(s, flag, p) by {
        if stands_at(s, flag, p) {
            assert(s.subrange(p, p + flag.len())[u] == s[p + u]);
            lemma_no_u(name, a, p + u);
        }
    }
    lemma_text_nowhere(s, flag, 0);
}

proof fn lemma_no_u(name: Seq<char>, a: Seq<char>, k: int)
    requires
        !name.contains('u'),
        !a.contains('u'),
        0 <= k < plain_line(name, a).len(),
    ensures
        plain_line(name, a)[k] != 'u',
{
    reveal_strlit("{\"cmd\":\"");
    reveal_strlit("\"");
    reveal_strlit("}");
    let s = plain_line(name, a);
    let n = name.len() as int;
    if 8 <= k < 8 + n {
        assert(name[k - 8] == s[k]);
        assert(name.contains(s[k]));
    } else if 9 + n <= k < 9 + n + a.len() {
        assert(a[k - 9 - n] == s[k]);
        assert(a.contains(s[k]));
    }
}

/// The adapter is switched, the search is started and a passkey is accepted where the
/// command says so with `true`, and the opposite where it does not; what else stands in
/// the line does not matter.
#[verifier::rlimit(30)]
pub proof fn law_switch_commands(a: Seq<char>, b: Seq<char>)
    requires
        !a.contains('d') && !b.contains('d'),
        !a.contains('u'),
    ensures
        command(plain_line("power"@, a + "\"on\":true"@ + b)) == Some(IpcCmdView::Power(true)),
        command(plain_line("power"@, a)) == Some(IpcCmdView::Power(false)),
        command(plain_line("scan"@, a + "\"on\":true"@ + b)) == Some(IpcCmdView::Scan(true)),
        command(plain_line("scan"@, a)) == Some(IpcCmdView::Scan(false)),
        command(plain_line("confirm"@, a + "\"accept\":true"@ + b)) == Some(
            IpcCmdView::Confirm(true),
        ),
        command(plain_line("confirm"@, a)) == Some(IpcCmdView::Confirm(false)),
        command(plain_line("get_state"@, a)) == Some(IpcCmdView::GetState),
{
    let on = "\"on\":true"@;
    let accept = "\"accept\":true"@;
    lemma_flags();
    lemma_more_marks();
    lemma_names_differ();
    lemma_marks();
    lemma_rest(a, on, b);
    lemma_rest(a, accept, b);
    lemma_plain_command("power"@, a + on + b);
    lemma_plain_command("power"@, a);
    lemma_plain_command("scan"@, a + on + b);
    lemma_plain_command("scan"@, a);
    lemma_plain_command("confirm"@, a + accept + b);
    lemma_plain_command("confirm"@, a);
    lemma_plain_command("get_state"@, a);
    lemma_flag_said("power"@, a, on, b);
    lemma_flag_said("scan"@, a, on, b);
    lemma_flag_said("confirm"@, a, accept, b);
    lemma_flag_not_said("power"@, a, on, 7);
    lemma_flag_not_said("scan"@, a, on, 7);
    lemma_flag_not_said("confirm"@, a, accept, 11);
}

#[verifier::rlimit(30)]
proof fn lemma_flags()
    ensures
        "\"on\":true"@.len() == 9 && "\"on\":true"@[7] == 'u' && !"\"on\":true"@.contains('d'),
        "\"accept\":true"@.len() == 13 && "\"accept\":true"@[11] == 'u' && !"\"accept\":true"@.contains('d'),
        !"power"@.contains('u') && !"scan"@.contains('u') && !"confirm"@.contains('u'),
{
    reveal_strlit("\"on\":true");
    reveal_strlit("\"accept\":true");
    reveal_strlit("power");
    reveal_strlit("scan");
    reveal_strlit("confirm");
}

proof fn lemma_rest(a: Seq<char>, flag: Seq<char>, b: Seq<char>)
    requires
        !a.contains('d') && !flag.contains('d') && !b.contains('d'),
    ensures
        !(a + flag + b).contains('d'),
{
    let s = a + flag + b;
    assert forall|k: int| 0 <= k < s.len() implies s[k] != 'd' by {
        if k < a.len() {
            assert(a.contains(s[k]));
        } else if k < a.len() + flag.len() {
            assert(s[k] == flag[k - a.len()]);
            assert(flag.contains(s[k]));
        } else {
            assert(s[k] == b[k - a.len() - flag.len()]);
            assert(b.contains(s[k]));
        }
    }
}

/// A client that can be read from gets every event as it is, one that cannot, or is not
/// there, none; each client counts as a new generation.
pub proof fn law_clients(s: IpcServerView, event: Seq<char>)
    ensures
        s.accepted(true).emitted(event) == Some(event),
        s.accepted(false).emitted(event) is None,
        s.client == IpcClient::Absent ==> s.emitted(event) is None,
        s.generation < 0xffff_ffff_ffff_ffff ==> 0 <= s.generation ==> s.accepted(true).generation
            == s.generation + 1,
        s.accepted(true).commands == s.commands,
{
}

} // verus!
