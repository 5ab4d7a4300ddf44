//! What the interactive `bluetoothctl` coprocess says, and what it is told.
//!
//! BlueZ pairing needs an agent that answers PIN and passkey prompts, so one
//! `bluetoothctl` child stays alive with piped input and output. [`BtReader`]
//! turns its coloured, interactive output into [`BtEvent`]s; [`BtRequest`] is
//! what can be written to its input.

use vstd::prelude::*;
use vstd::slice::slice_subrange;

use crate::text::{
    after, before, begins, chars_of, concat3, copy, find, find_from, find_text, find_text_from,
    is_digit, is_hex_digit, is_str, join_path, lemma_find_from, lemma_find_is, lemma_trim,
    lemma_trim_part, lines, lines_of, mentions, own, parse_unsigned, parted, path_join, push_all,
    push_str, split, split_at_char, split_once, stands_at, starts_with, string_of, strings,
    strip_prefix, texts, trim, trimmed, unsigned, without_prefix, decimal, is_whitespace,
    join_upto, law_decimal_reads_back, law_find_text, law_join_undoes_split, law_prefix,
    law_path_join, law_split_once, law_trim_ignores_space, law_trim_undoes_padding, law_white_space,
    lemma_no_prefix, lemma_split_join,
};

verus! {

/// One parsed event from the `bluetoothctl` stream.
#[derive(Debug, Clone, PartialEq, Eq)]
pub enum BtEvent {
    /// Adapter power changed.
    Powered(bool),
    /// Discovery (scan) started / stopped.
    Discovering(bool),
    /// A device appeared or its name/alias updated. `name` is best-effort (may
    /// equal the dashed MAC until the real name arrives in a later event).
    Device { mac: String, name: String },
    /// A device's connection state changed.
    Connected { mac: String, connected: bool },
    /// A device's paired state changed.
    Paired { mac: String, paired: bool },
    /// A device was removed from the known list.
    Removed { mac: String },
    /// Agent: confirm this passkey matches the one on the peer (reply yes/no).
    ConfirmPasskey { mac: String, passkey: String },
    /// Agent: show this passkey/PIN on screen for the user to enter on the peer.
    DisplayPasskey { mac: String, passkey: String },
    /// Agent: the peer wants us to type a PIN code (enter via the keyboard).
    RequestPin { mac: String },
    /// Agent: the peer wants us to type a numeric passkey.
    RequestPasskey { mac: String },
    /// A failure line (pairing/connection), surfaced to the UI as status.
    Failed(String),
}

/// A [`BtEvent`] with its strings taken as character sequences.
pub enum BtEventView {
    Powered(bool),
    Discovering(bool),
    Device { mac: Seq<char>, name: Seq<char> },
    Connected { mac: Seq<char>, connected: bool },
    Paired { mac: Seq<char>, paired: bool },
    Removed { mac: Seq<char> },
    ConfirmPasskey { mac: Seq<char>, passkey: Seq<char> },
    DisplayPasskey { mac: Seq<char>, passkey: Seq<char> },
    RequestPin { mac: Seq<char> },
    RequestPasskey { mac: Seq<char> },
    Failed(Seq<char>),
}

impl View for BtEvent {
    type V = BtEventView;

    open spec fn view(&self) -> BtEventView {
        match *self {
            BtEvent::Powered(on) => BtEventView::Powered(on),
            BtEvent::Discovering(on) => BtEventView::Discovering(on),
            BtEvent::Device { mac, name } => BtEventView::Device { mac: mac@, name: name@ },
            BtEvent::Connected { mac, connected } => BtEventView::Connected { mac: mac@, connected },
            BtEvent::Paired { mac, paired } => BtEventView::Paired { mac: mac@, paired },
            BtEvent::Removed { mac } => BtEventView::Removed { mac: mac@ },
            BtEvent::ConfirmPasskey { mac, passkey } => BtEventView::ConfirmPasskey {
                mac: mac@,
                passkey: passkey@,
            },
            BtEvent::DisplayPasskey { mac, passkey } => BtEventView::DisplayPasskey {
                mac: mac@,
                passkey: passkey@,
            },
            BtEvent::RequestPin { mac } => BtEventView::RequestPin { mac: mac@ },
            BtEvent::RequestPasskey { mac } => BtEventView::RequestPasskey { mac: mac@ },
            BtEvent::Failed(line) => BtEventView::Failed(line@),
        }
    }
}

pub open spec fn event_view(e: Option<BtEvent>) -> Option<BtEventView> {
    match e {
        Some(e) => Some(e@),
        None => None,
    }
}

// ---------------------------------------------------------------------------
// Cleaning a line
// ---------------------------------------------------------------------------

/// Whether a character ends an ANSI control sequence.
pub open spec fn ends_csi(c: char) -> bool {
    '\u{40}' <= c <= '\u{7e}'
}

/// The position behind the control sequence whose parameters start at `i`.
pub open spec fn csi_end(s: Seq<char>, i: int) -> int
    decreases s.len() - i,
{
    if i < 0 || i >= s.len() {
        s.len() as int
    } else if ends_csi(s[i]) {
        i + 1
    } else {
        csi_end(s, i + 1)
    }
}

/// The text from position `i` on without ANSI control sequences. An escape
/// character that does not open such a sequence is dropped alone.
pub open spec fn without_ansi(s: Seq<char>, i: int) -> Seq<char>
    decreases s.len() - i,
{
    if i < 0 || i >= s.len() {
        seq![]
    } else if s[i] != '\u{1b}' {
        seq![s[i]] + without_ansi(s, i + 1)
    } else if i + 1 < s.len() && s[i + 1] == '[' {
        let j = csi_end(s, i + 2);
        if j <= i || j > s.len() {
            seq![]
        } else {
            without_ansi(s, j)
        }
    } else {
        without_ansi(s, i + 1)
    }
}

fn past_csi(s: &[char], i: usize) -> (r: usize)
    requires
        i <= s.len(),
    ensures
        r == csi_end(s@, i as int),
        i <= r <= s.len(),
{
    let mut j: usize = i;
    while j < s.len()
        invariant
            i <= j <= s.len(),
            csi_end(s@, i as int) == csi_end(s@, j as int),
        decreases s.len() - j,
    {
        let d: char = s[j];
        if '\u{40}' <= d && d <= '\u{7e}' {
            return j + 1;
        }
        j += 1;
    }
    j
}

/// Strip ANSI CSI sequences (colour `…m`, erase-line `…K`, etc.) from a line.
pub fn strip_ansi(s: &[char]) -> (r: Vec<char>)
    ensures
        r@ == without_ansi(s@, 0),
{
    let mut out: Vec<char> = Vec::new();
    let mut i: usize = 0;
    while i < s.len()
        invariant
            i <= s.len(),
            without_ansi(s@, 0) == out@ + without_ansi(s@, i as int),
        decreases s.len() - i,
    {
        let c: char = s[i];
        if c != '\u{1b}' {
            let ghost done = out@;
            out.push(c);
            assert(done + (seq![c] + without_ansi(s@, i + 1)) =~= out@ + without_ansi(s@, i + 1));
            i += 1;
        } else if i + 1 < s.len() && s[i + 1] == '[' {
            i = past_csi(s, i + 2);
        } else {
            i += 1;
        }
    }
    assert(out@ + seq![] =~= out@);
    out
}

/// The text with every `[bluetoothctl]>` prompt taken out, the leftmost first,
/// until none is left.
pub open spec fn without_prompts(s: Seq<char>) -> Seq<char>
    decreases s.len(),
{
    let p = "[bluetoothctl]>"@;
    let i = find_text_from(s, p, 0);
    if i < 0 || p.len() == 0 || i + p.len() > s.len() {
        s
    } else {
        without_prompts(s.take(i) + s.skip(i + p.len()))
    }
}

/// The bare event text of a line: no control sequences, no prompts, no white
/// space at either end.
pub open spec fn cleaned(line: Seq<char>) -> Seq<char> {
    trim(without_prompts(without_ansi(line, 0)))
}

/// Remove the leading `[bluetoothctl]>` prompt(s) and surrounding whitespace a
/// line may carry, leaving the bare event text.
pub fn clean(line: &[char]) -> (r: Vec<char>)
    ensures
        r@ == cleaned(line@),
{
    let mut s: Vec<char> = strip_ansi(line);
    let p: Vec<char> = chars_of("[bluetoothctl]>");
    proof {
        reveal_strlit("[bluetoothctl]>");
    }
    loop
        invariant
            p@ == "[bluetoothctl]>"@,
            p.len() > 0,
            without_prompts(without_ansi(line@, 0)) == without_prompts(s@),
        ensures
            without_prompts(without_ansi(line@, 0)) == s@,
        decreases s.len(),
    {
        match find_text(s.as_slice(), p.as_slice(), 0) {
            Some(i) => {
                let mut shorter: Vec<char> = copy(before(s.as_slice(), i));
                push_all(&mut shorter, after(s.as_slice(), i + p.len()));
                s = shorter;
            },
            None => {
                break;
            },
        }
    }
    copy(trimmed(s.as_slice()))
}

// ---------------------------------------------------------------------------
// Addresses
// ---------------------------------------------------------------------------

pub open spec fn is_octet(s: Seq<char>) -> bool {
    s.len() == 2 && is_hex_digit(s[0]) && is_hex_digit(s[1])
}

/// Six pairs of hexadecimal digits, parted by colons.
pub open spec fn mac_spec(s: Seq<char>) -> bool {
    let parts = split(s, ':');
    parts.len() == 6 && forall|i: int| 0 <= i < 6 ==> is_octet(#[trigger] parts[i])
}

fn hex_digit(c: char) -> (r: bool)
    ensures
        r == is_hex_digit(c),
{
    ('0' <= c && c <= '9') || ('a' <= c && c <= 'f') || ('A' <= c && c <= 'F')
}

/// Whether the text is a Bluetooth address.
pub fn is_mac(s: &[char]) -> (r: bool)
    ensures
        r == mac_spec(s@),
{
    let parts: Vec<&[char]> = split_at_char(s, ':');
    assert(texts(parts@).len() == parts.len());
    if parts.len() != 6 {
        return false;
    }
    let mut i: usize = 0;
    while i < 6
        invariant
            i <= 6,
            parts.len() == 6,
            texts(parts@) == split(s@, ':'),
            forall|k: int| 0 <= k < i ==> is_octet(#[trigger] split(s@, ':')[k]),
        decreases 6 - i,
    {
        let p: &[char] = parts[i];
        assert(split(s@, ':')[i as int] == p@);
        if !(p.len() == 2 && hex_digit(p[0]) && hex_digit(p[1])) {
            assert(!is_octet(p@));
            return false;
        }
        i += 1;
    }
    true
}

/// The address and the text behind the space that follows it.
pub open spec fn address_and_tail(rest: Seq<char>) -> (Seq<char>, Seq<char>) {
    match split_once(rest, ' ') {
        Some(pair) => pair,
        None => (rest, seq![]),
    }
}

fn address_tail<'a>(rest: &'a [char]) -> (r: (&'a [char], &'a [char]))
    ensures
        (r.0@, r.1@) == address_and_tail(rest@),
{
    match parted(rest, ' ') {
        Some((a, b)) => (a, b),
        None => {
            let nothing: &[char] = after(rest, rest.len());
            assert(nothing@ =~= seq![]);
            (rest, nothing)
        },
    }
}

// ---------------------------------------------------------------------------
// Lines
// ---------------------------------------------------------------------------

/// What a changed controller property says.
pub open spec fn controller_event(rest: Seq<char>) -> Option<BtEventView> {
    match split_once(rest, ' ') {
        None => None,
        Some((_, prop)) => match strip_prefix(prop, "Powered: "@) {
            Some(v) => Some(BtEventView::Powered(v == "yes"@)),
            None => match strip_prefix(prop, "Discovering: "@) {
                Some(v) => Some(BtEventView::Discovering(v == "yes"@)),
                None => None,
            },
        },
    }
}

/// What a line on one device says. `fresh` marks a first sighting, whose tail
/// is the device's name; the other properties of a known device are ignored.
pub open spec fn device_event(rest: Seq<char>, fresh: bool) -> Option<BtEventView> {
    let (mac, tail) = address_and_tail(rest);
    if !mac_spec(mac) {
        None
    } else {
        match strip_prefix(tail, "Connected: "@) {
            Some(v) => Some(BtEventView::Connected { mac, connected: v == "yes"@ }),
            None => match strip_prefix(tail, "Paired: "@) {
                Some(v) => Some(BtEventView::Paired { mac, paired: v == "yes"@ }),
                None => match strip_prefix(tail, "Name: "@) {
                    Some(v) => Some(BtEventView::Device { mac, name: trim(v) }),
                    None => match strip_prefix(tail, "Alias: "@) {
                        Some(v) => Some(BtEventView::Device { mac, name: trim(v) }),
                        None => if fresh {
                            Some(BtEventView::Device { mac, name: trim(tail) })
                        } else {
                            None
                        },
                    },
                },
            },
        }
    }
}

/// What the removal of a device says.
pub open spec fn removal_event(rest: Seq<char>) -> Option<BtEventView> {
    let mac = address_and_tail(rest).0;
    if mac_spec(mac) {
        Some(BtEventView::Removed { mac })
    } else {
        None
    }
}

/// A failure, unless it is one of the harmless discovery races.
pub open spec fn failure_event(s: Seq<char>) -> Option<BtEventView> {
    if (starts_with(s, "Failed to "@) || find_text_from(s, "org.bluez.Error"@, 0) >= 0)
        && find_text_from(s, "discovery"@, 0) < 0 {
        Some(BtEventView::Failed(s))
    } else {
        None
    }
}

/// What a cleaned line says.
pub open spec fn bare_line_event(s: Seq<char>) -> Option<BtEventView> {
    match strip_prefix(s, "[CHG] Controller "@) {
        Some(rest) => controller_event(rest),
        None => match strip_prefix(s, "[NEW] Device "@) {
            Some(rest) => device_event(rest, true),
            None => match strip_prefix(s, "[CHG] Device "@) {
                Some(rest) => device_event(rest, false),
                None => match strip_prefix(s, "[DEL] Device "@) {
                    Some(rest) => removal_event(rest),
                    None => match listed_device(s) {
                        Some((mac, name)) => Some(BtEventView::Device { mac, name }),
                        None => failure_event(s),
                    },
                },
            },
        },
    }
}

/// The device of a line `Device <address> <name>`.
pub open spec fn listed_device(s: Seq<char>) -> Option<(Seq<char>, Seq<char>)> {
    match strip_prefix(s, "Device "@) {
        None => None,
        Some(rest) => {
            let (mac, name) = address_and_tail(rest);
            if mac_spec(mac) {
                Some((mac, trim(name)))
            } else {
                None
            }
        },
    }
}

/// What a line says. An empty line says nothing.
pub open spec fn line_event(line: Seq<char>) -> Option<BtEventView> {
    let s = cleaned(line);
    if s.len() == 0 {
        None
    } else {
        bare_line_event(s)
    }
}

fn read_controller(rest: &[char]) -> (r: Option<BtEvent>)
    ensures
        event_view(r) == controller_event(rest@),
{
    if let Some((_, prop)) = parted(rest, ' ') {
        if let Some(v) = without_prefix(prop, "Powered: ") {
            return Some(BtEvent::Powered(is_str(v, "yes")));
        }
        if let Some(v) = without_prefix(prop, "Discovering: ") {
            return Some(BtEvent::Discovering(is_str(v, "yes")));
        }
    }
    None
}

fn read_device(rest: &[char], fresh: bool) -> (r: Option<BtEvent>)
    ensures
        event_view(r) == device_event(rest@, fresh),
{
    let (mac, tail) = address_tail(rest);
    if !is_mac(mac) {
        return None;
    }
    if let Some(v) = without_prefix(tail, "Connected: ") {
        return Some(BtEvent::Connected { mac: string_of(mac), connected: is_str(v, "yes") });
    }
    if let Some(v) = without_prefix(tail, "Paired: ") {
        return Some(BtEvent::Paired { mac: string_of(mac), paired: is_str(v, "yes") });
    }
    if let Some(v) = without_prefix(tail, "Name: ") {
        return Some(BtEvent::Device { mac: string_of(mac), name: string_of(trimmed(v)) });
    }
    if let Some(v) = without_prefix(tail, "Alias: ") {
        return Some(BtEvent::Device { mac: string_of(mac), name: string_of(trimmed(v)) });
    }
    if fresh {
        // Initial sighting: `tail` is the name (often the dashed MAC).
        return Some(BtEvent::Device { mac: string_of(mac), name: string_of(trimmed(tail)) });
    }
    None
}

fn read_removal(rest: &[char]) -> (r: Option<BtEvent>)
    ensures
        event_view(r) == removal_event(rest@),
{
    let (mac, _) = address_tail(rest);
    if is_mac(mac) {
        Some(BtEvent::Removed { mac: string_of(mac) })
    } else {
        None
    }
}

pub open spec fn pair_view(p: Option<(String, String)>) -> Option<(Seq<char>, Seq<char>)> {
    match p {
        Some((a, b)) => Some((a@, b@)),
        None => None,
    }
}

fn read_listed(s: &[char]) -> (r: Option<(String, String)>)
    ensures
        pair_view(r) == listed_device(s@),
{
    if let Some(rest) = without_prefix(s, "Device ") {
        let (mac, name) = address_tail(rest);
        if is_mac(mac) {
            return Some((string_of(mac), string_of(trimmed(name))));
        }
    }
    None
}

/// Parse one newline-terminated line into an event, if meaningful.
pub fn parse_line(line: &str) -> (r: Option<BtEvent>)
    ensures
        event_view(r) == line_event(line@),
{
    let line: Vec<char> = chars_of(line);
    let s: Vec<char> = clean(line.as_slice());
    let s: &[char] = s.as_slice();
    if s.len() == 0 {
        return None;
    }
    if let Some(rest) = without_prefix(s, "[CHG] Controller ") {
        return read_controller(rest);
    }
    if let Some(rest) = without_prefix(s, "[NEW] Device ") {
        return read_device(rest, true);
    }
    if let Some(rest) = without_prefix(s, "[CHG] Device ") {
        return read_device(rest, false);
    }
    if let Some(rest) = without_prefix(s, "[DEL] Device ") {
        return read_removal(rest);
    }
    if let Some((mac, name)) = read_listed(s) {
        return Some(BtEvent::Device { mac, name });
    }
    // Failures — but not the benign discovery start/stop races that happen
    // whenever the adapter is mid power-state change (NotReady / Failed).
    if begins(s, "Failed to ") || mentions(s, "org.bluez.Error") {
        if mentions(s, "discovery") {
            return None;
        }
        return Some(BtEvent::Failed(string_of(s)));
    }
    None
}

// ---------------------------------------------------------------------------
// Agent prompts
// ---------------------------------------------------------------------------

/// The position behind the run of decimal digits at `i`.
pub open spec fn digits_end(s: Seq<char>, i: int) -> int
    decreases s.len() - i,
{
    if i < 0 || i >= s.len() || !is_digit(s[i]) {
        i
    } else {
        digits_end(s, i + 1)
    }
}

/// The digits that follow the first `key`; none where `key` does not occur.
pub open spec fn code_after(s: Seq<char>, key: Seq<char>) -> Seq<char> {
    let p = find_text_from(s, key, 0);
    if p < 0 {
        seq![]
    } else {
        s.subrange(p + key.len(), digits_end(s, p + key.len()))
    }
}

fn read_code(s: &[char], key: &str) -> (r: Vec<char>)
    ensures
        r@ == code_after(s@, key@),
{
    let key: Vec<char> = chars_of(key);
    match find_text(s, key.as_slice(), 0) {
        None => {
            let r: Vec<char> = Vec::new();
            assert(r@ =~= seq![]);
            r
        },
        Some(p) => {
            let lo: usize = p + key.len();
            let mut hi: usize = lo;
            while hi < s.len() && '0' <= s[hi] && s[hi] <= '9'
                invariant
                    lo <= hi <= s.len(),
                    digits_end(s@, lo as int) == digits_end(s@, hi as int),
                decreases s.len() - hi,
            {
                hi += 1;
            }
            copy(slice_subrange(s, lo, hi))
        },
    }
}

/// What a cleaned agent prompt asks for. The address is not part of a prompt.
pub open spec fn bare_prompt_event(s: Seq<char>) -> Option<BtEventView> {
    let none = Seq::<char>::empty();
    if code_after(s, "Confirm passkey "@).len() > 0 {
        Some(
            BtEventView::ConfirmPasskey { mac: none, passkey: code_after(s, "Confirm passkey "@) },
        )
    } else if find_text_from(s, "Confirm pairing"@, 0) >= 0 && find_text_from(s, "(yes/no)"@, 0)
        >= 0 {
        Some(BtEventView::ConfirmPasskey { mac: none, passkey: none })
    } else if code_after(s, "Passkey: "@).len() > 0 {
        Some(BtEventView::DisplayPasskey { mac: none, passkey: code_after(s, "Passkey: "@) })
    } else if find_text_from(s, "Enter PIN code"@, 0) >= 0 {
        Some(BtEventView::RequestPin { mac: none })
    } else if find_text_from(s, "Enter passkey"@, 0) >= 0 {
        Some(BtEventView::RequestPasskey { mac: none })
    } else {
        None
    }
}

pub open spec fn prompt_event(tail: Seq<char>) -> Option<BtEventView> {
    bare_prompt_event(cleaned(tail))
}

/// Parse an agent prompt, with or without a trailing newline. The MAC isn't
/// always in the prompt; callers pair it with the device being acted on.
pub fn parse_prompt(tail: &str) -> (r: Option<BtEvent>)
    ensures
        event_view(r) == prompt_event(tail@),
{
    let tail: Vec<char> = chars_of(tail);
    let s: Vec<char> = clean(tail.as_slice());
    let s: &[char] = s.as_slice();
    let code: Vec<char> = read_code(s, "Confirm passkey ");
    if code.len() > 0 {
        return Some(
            BtEvent::ConfirmPasskey { mac: String::new(), passkey: string_of(code.as_slice()) },
        );
    }
    if mentions(s, "Confirm pairing") && mentions(s, "(yes/no)") {
        return Some(BtEvent::ConfirmPasskey { mac: String::new(), passkey: String::new() });
    }
    let code: Vec<char> = read_code(s, "Passkey: ");
    if code.len() > 0 {
        return Some(
            BtEvent::DisplayPasskey { mac: String::new(), passkey: string_of(code.as_slice()) },
        );
    }
    if mentions(s, "Enter PIN code") {
        return Some(BtEvent::RequestPin { mac: String::new() });
    }
    if mentions(s, "Enter passkey") {
        return Some(BtEvent::RequestPasskey { mac: String::new() });
    }
    None
}

// ---------------------------------------------------------------------------
// The reader
// ---------------------------------------------------------------------------

/// What the reader hands on: a line for the diagnostic log, or an event.
#[derive(Debug, Clone, PartialEq, Eq)]
pub enum BtOutput {
    Log(String),
    Event(BtEvent),
}

pub enum BtOutputView {
    Log(Seq<char>),
    Event(BtEventView),
}

impl View for BtOutput {
    type V = BtOutputView;

    open spec fn view(&self) -> BtOutputView {
        match *self {
            BtOutput::Log(line) => BtOutputView::Log(line@),
            BtOutput::Event(e) => BtOutputView::Event(e@),
        }
    }
}

pub open spec fn outputs(v: Seq<BtOutput>) -> Seq<BtOutputView> {
    v.map_values(|o: BtOutput| o@)
}

/// Whether a cleaned line is worth keeping: pairing, agent and failure lines
/// are, the stream of signal strengths is not.
pub open spec fn worth_logging(c: Seq<char>) -> bool {
    &&& c.len() > 0
    &&& {
        ||| find_text_from(c, "agent"@, 0) >= 0
        ||| find_text_from(c, "asskey"@, 0) >= 0
        ||| find_text_from(c, "PIN"@, 0) >= 0
        ||| find_text_from(c, "Paired"@, 0) >= 0
        ||| find_text_from(c, "Pairing"@, 0) >= 0
        ||| find_text_from(c, "Failed"@, 0) >= 0
        ||| find_text_from(c, "Authentic"@, 0) >= 0
    }
}

/// Whether a cleaned, unterminated tail looks like a prompt.
pub open spec fn looks_like_prompt(t: Seq<char>) -> bool {
    &&& t.len() > 0
    &&& {
        ||| find_text_from(t, "yes/no"@, 0) >= 0
        ||| find_text_from(t, "PIN"@, 0) >= 0
        ||| find_text_from(t, "asskey"@, 0) >= 0
    }
}

/// The event of a complete line: what it says as a line, else as a prompt (some
/// builds echo a newline behind a prompt).
pub open spec fn complete_line_event(line: Seq<char>) -> Option<BtEventView> {
    match line_event(line) {
        Some(e) => Some(e),
        None => prompt_event(line),
    }
}

/// What one complete line gives: its log line, then its event.
pub open spec fn line_output(line: Seq<char>) -> Seq<BtOutputView> {
    let c = cleaned(line);
    let logged = if worth_logging(c) {
        seq![BtOutputView::Log("<< "@ + c)]
    } else {
        seq![]
    };
    match complete_line_event(line) {
        Some(e) => logged.push(BtOutputView::Event(e)),
        None => logged,
    }
}

/// What the complete lines from position `i` on give, in order.
pub open spec fn lines_output(s: Seq<char>, i: int) -> Seq<BtOutputView>
    decreases s.len() - i,
{
    let j = find_from(s, '\n', i);
    if i < 0 || j < i || j >= s.len() {
        seq![]
    } else {
        line_output(s.subrange(i, j + 1)) + lines_output(s, j + 1)
    }
}

/// Where the text behind the last line feed begins.
pub open spec fn tail_start(s: Seq<char>, i: int) -> int
    decreases s.len() - i,
{
    let j = find_from(s, '\n', i);
    if i < 0 || j < i || j >= s.len() {
        i
    } else {
        tail_start(s, j + 1)
    }
}

/// What an unterminated tail gives.
pub open spec fn tail_output(tail: Seq<char>) -> Seq<BtOutputView> {
    let c = cleaned(tail);
    match prompt_event(tail) {
        Some(e) => seq![BtOutputView::Log("<<tail "@ + c), BtOutputView::Event(e)],
        None => if looks_like_prompt(c) {
            seq![BtOutputView::Log("<<tail? "@ + c)]
        } else {
            seq![]
        },
    }
}

/// Cuts the coprocess output into lines and prompts. Holds the text behind the
/// last line feed.
pub struct BtReader {
    acc: Vec<char>,
}

impl View for BtReader {
    type V = Seq<char>;

    closed spec fn view(&self) -> Seq<char> {
        self.acc@
    }
}

fn log_of(mark: &str, c: &[char]) -> (r: BtOutput)
    ensures
        r@ == BtOutputView::Log(mark@ + c@),
{
    let mut line: Vec<char> = chars_of(mark);
    push_all(&mut line, c);
    BtOutput::Log(string_of(line.as_slice()))
}

fn read_line(line: &[char]) -> (r: Vec<BtOutput>)
    ensures
        outputs(r@) == line_output(line@),
{
    let mut out: Vec<BtOutput> = Vec::new();
    let c: Vec<char> = clean(line);
    let c: &[char] = c.as_slice();
    if c.len() > 0 && (mentions(c, "agent") || mentions(c, "asskey") || mentions(c, "PIN")
        || mentions(c, "Paired") || mentions(c, "Pairing") || mentions(c, "Failed") || mentions(
        c,
        "Authentic",
    )) {
        out.push(log_of("<< ", c));
    }
    let ghost logged = out@;
    assert(outputs(logged) =~= if worth_logging(cleaned(line@)) {
        seq![BtOutputView::Log("<< "@ + cleaned(line@))]
    } else {
        seq![]
    });
    let text: String = string_of(line);
    let event: Option<BtEvent> = match parse_line(text.as_str()) {
        Some(e) => Some(e),
        None => parse_prompt(text.as_str()),
    };
    if let Some(e) = event {
        out.push(BtOutput::Event(e));
        assert(outputs(out@) =~= outputs(logged).push(BtOutputView::Event(e@)));
    }
    out
}

fn read_tail(tail: &[char]) -> (r: (Vec<BtOutput>, bool))
    ensures
        outputs(r.0@) == tail_output(tail@),
        r.1 == (prompt_event(tail@) is Some),
{
    let mut out: Vec<BtOutput> = Vec::new();
    let c: Vec<char> = clean(tail);
    let c: &[char] = c.as_slice();
    let text: String = string_of(tail);
    match parse_prompt(text.as_str()) {
        Some(e) => {
            out.push(log_of("<<tail ", c));
            out.push(BtOutput::Event(e));
            assert(outputs(out@) =~= tail_output(tail@));
            (out, true)
        },
        None => {
            if c.len() > 0 && (mentions(c, "yes/no") || mentions(c, "PIN") || mentions(
                c,
                "asskey",
            )) {
                // A prompt that is not understood yet: keep it for the log.
                out.push(log_of("<<tail? ", c));
            }
            assert(outputs(out@) =~= tail_output(tail@));
            (out, false)
        },
    }
}

/// Moves everything in `more` to the end of `out`.
fn hand_on(out: &mut Vec<BtOutput>, more: Vec<BtOutput>)
    ensures
        outputs(final(out)@) == outputs(old(out)@) + outputs(more@),
{
    let ghost new = more@;
    let mut more = more;
    out.append(&mut more);
    assert(outputs(out@) =~= outputs(old(out)@) + outputs(new));
}

impl BtReader {
    pub fn new() -> (r: BtReader)
        ensures
            r@ == Seq::<char>::empty(),
    {
        BtReader { acc: Vec::new() }
    }

    /// Takes the next chunk of output. Complete lines are read and dropped; a
    /// prompt in the unterminated tail is read at once and drops the tail.
    pub fn feed(&mut self, chunk: &str) -> (r: Vec<BtOutput>)
        ensures
            ({
                let s = old(self)@ + chunk@;
                let tail = s.skip(tail_start(s, 0));
                &&& outputs(r@) == lines_output(s, 0) + tail_output(tail)
                &&& final(self)@ == (if prompt_event(tail) is Some {
                    Seq::<char>::empty()
                } else {
                    tail
                })
            }),
    {
        push_str(&mut self.acc, chunk);
        let ghost s = self.acc@;
        let mut out: Vec<BtOutput> = Vec::new();
        let mut i: usize = 0;
        let mut j: usize = find(self.acc.as_slice(), '\n', 0);
        assert(outputs(out@) + lines_output(s, 0) =~= lines_output(s, 0));
        while j < self.acc.len()
            invariant
                self.acc@ == s,
                i <= j <= self.acc.len(),
                j == find_from(s, '\n', i as int),
                lines_output(s, 0) == outputs(out@) + lines_output(s, i as int),
                tail_start(s, 0) == tail_start(s, i as int),
            decreases self.acc.len() - j,
        {
            let line: &[char] = slice_subrange(self.acc.as_slice(), i, j + 1);
            let more: Vec<BtOutput> = read_line(line);
            let ghost done = outputs(out@);
            hand_on(&mut out, more);
            assert(done + (line_output(s.subrange(i as int, j + 1)) + lines_output(s, j + 1))
                =~= outputs(out@) + lines_output(s, j + 1));
            i = j + 1;
            j = find(self.acc.as_slice(), '\n', i);
        }
        assert(outputs(out@) + seq![] =~= outputs(out@));
        let tail: Vec<char> = copy(after(self.acc.as_slice(), i));
        let (more, consumed) = read_tail(tail.as_slice());
        hand_on(&mut out, more);
        self.acc = if consumed {
            Vec::new()
        } else {
            tail
        };
        out
    }
}

// ---------------------------------------------------------------------------
// One-shot queries
// ---------------------------------------------------------------------------

/// The devices listed in the first `n` lines.
pub open spec fn devices_upto(ls: Seq<Seq<char>>, n: int) -> Seq<(Seq<char>, Seq<char>)>
    decreases n,
{
    if n <= 0 {
        seq![]
    } else {
        match listed_device(cleaned(ls[n - 1])) {
            Some(d) => devices_upto(ls, n - 1).push(d),
            None => devices_upto(ls, n - 1),
        }
    }
}

pub open spec fn device_lines(out: Seq<char>) -> Seq<(Seq<char>, Seq<char>)> {
    devices_upto(lines(out), lines(out).len() as int)
}

pub open spec fn pairs_view(v: Seq<(String, String)>) -> Seq<(Seq<char>, Seq<char>)> {
    v.map_values(|p: (String, String)| (p.0@, p.1@))
}

/// Parse `Device <MAC> <name>` lines (stripping ANSI) into `(mac, name)` pairs.
pub fn parse_device_lines(out: &str) -> (r: Vec<(String, String)>)
    ensures
        pairs_view(r@) == device_lines(out@),
{
    let out: Vec<char> = chars_of(out);
    let ls: Vec<&[char]> = lines_of(out.as_slice());
    let ghost spec_lines = lines(out@);
    let mut r: Vec<(String, String)> = Vec::new();
    let mut i: usize = 0;
    assert(pairs_view(r@) =~= seq![]);
    while i < ls.len()
        invariant
            i <= ls.len(),
            texts(ls@) == spec_lines,
            pairs_view(r@) == devices_upto(spec_lines, i as int),
        decreases ls.len() - i,
    {
        assert(spec_lines[i as int] == ls@[i as int]@);
        let s: Vec<char> = clean(ls[i]);
        let ghost done = r@;
        if let Some(d) = read_listed(s.as_slice()) {
            r.push(d);
            assert(pairs_view(r@) =~= pairs_view(done).push((d.0@, d.1@)));
        }
        i += 1;
    }
    r
}

/// The devices of a command's output; none where the command did not run.
pub open spec fn queried_devices(out: Option<&str>) -> Seq<(Seq<char>, Seq<char>)> {
    match out {
        Some(o) => device_lines(o@),
        None => seq![],
    }
}

/// Devices BlueZ already has bonded: the output of `bluetoothctl devices Paired`.
pub fn paired_devices(out: Option<&str>) -> (r: Vec<(String, String)>)
    ensures
        pairs_view(r@) == queried_devices(out),
{
    match out {
        Some(o) => parse_device_lines(o),
        None => {
            let r: Vec<(String, String)> = Vec::new();
            assert(pairs_view(r@) =~= seq![]);
            r
        },
    }
}

/// MACs currently connected: the output of `bluetoothctl devices Connected`.
pub fn connected_macs(out: Option<&str>) -> (r: Vec<String>)
    ensures
        r.len() == queried_devices(out).len(),
        forall|i: int| 0 <= i < r.len() ==> (#[trigger] r@[i])@ == queried_devices(out)[i].0,
{
    let devices: Vec<(String, String)> = paired_devices(out);
    let mut r: Vec<String> = Vec::new();
    let mut i: usize = 0;
    assert(pairs_view(devices@).len() == devices.len());
    while i < devices.len()
        invariant
            i <= devices.len(),
            r.len() == i,
            pairs_view(devices@) == queried_devices(out),
            forall|k: int| 0 <= k < i ==> (#[trigger] r@[k])@ == queried_devices(out)[k].0,
        decreases devices.len() - i,
    {
        assert(pairs_view(devices@)[i as int].0 == devices@[i as int].0@);
        r.push(own(devices[i].0.as_str()));
        i += 1;
    }
    r
}

/// The text between the first `(` and the first `)`, where both occur.
pub open spec fn in_brackets(rest: Seq<char>) -> Option<Seq<char>> {
    let a = find_from(rest, '(', 0);
    let b = find_from(rest, ')', 0);
    if a < rest.len() && b < rest.len() {
        Some(rest.subrange(a + 1, b))
    } else {
        None
    }
}

/// Whether brackets are in order: a `)` that comes before the first `(` encloses
/// nothing that could be read.
pub open spec fn brackets_in_order(rest: Seq<char>) -> bool {
    let a = find_from(rest, '(', 0);
    let b = find_from(rest, ')', 0);
    a < rest.len() && b < rest.len() ==> a < b
}

pub open spec fn info_line_readable(line: Seq<char>) -> bool {
    match strip_prefix(trim(line), "Battery Percentage:"@) {
        Some(rest) => brackets_in_order(rest),
        None => true,
    }
}

/// Whether the battery lines of `bluetoothctl info` have their brackets in order.
pub open spec fn info_readable(out: Seq<char>) -> bool {
    forall|i: int| 0 <= i < lines(out).len() ==> info_line_readable(#[trigger] lines(out)[i])
}

/// Battery level and icon after the first `n` lines.
pub open spec fn info_upto(ls: Seq<Seq<char>>, n: int) -> (Option<int>, Seq<char>)
    decreases n,
{
    if n <= 0 {
        (None, seq![])
    } else {
        let (battery, icon) = info_upto(ls, n - 1);
        let line = trim(ls[n - 1]);
        match strip_prefix(line, "Battery Percentage:"@) {
            Some(rest) => match in_brackets(rest) {
                Some(level) => (parse_unsigned(trim(level), 255), icon),
                None => (battery, icon),
            },
            None => match strip_prefix(line, "Icon:"@) {
                Some(rest) => (battery, trim(rest)),
                None => (battery, icon),
            },
        }
    }
}

pub open spec fn device_info_spec(out: Option<&str>) -> (Option<int>, Seq<char>) {
    match out {
        Some(o) => info_upto(lines(o@), lines(o@).len() as int),
        None => (None, seq![]),
    }
}

pub open spec fn opt_u8(o: Option<u8>) -> Option<int> {
    match o {
        Some(n) => Some(n as int),
        None => None,
    }
}

/// Whether [`device_info`] can read the output.
pub fn device_info_readable(out: &str) -> (r: bool)
    ensures
        r == info_readable(out@),
{
    let text: Vec<char> = chars_of(out);
    let ls: Vec<&[char]> = lines_of(text.as_slice());
    assert(texts(ls@).len() == ls.len());
    let mut i: usize = 0;
    while i < ls.len()
        invariant
            i <= ls.len(),
            texts(ls@) == lines(out@),
            forall|k: int| 0 <= k < i ==> info_line_readable(#[trigger] lines(out@)[k]),
        decreases ls.len() - i,
    {
        assert(lines(out@)[i as int] == ls@[i as int]@);
        let line: &[char] = trimmed(ls[i]);
        if let Some(rest) = without_prefix(line, "Battery Percentage:") {
            let a: usize = find(rest, '(', 0);
            let b: usize = find(rest, ')', 0);
            if a < rest.len() && b < rest.len() && b <= a {
                assert(!info_line_readable(lines(out@)[i as int]));
                return false;
            }
        }
        i += 1;
    }
    true
}

/// The output of `bluetoothctl info <mac>` → (battery 0-100, icon name).
/// Without a battery line `None`; without an icon line the empty string.
pub fn device_info(out: Option<&str>) -> (r: (Option<u8>, String))
    requires
        out is Some ==> info_readable(out->0@),
    ensures
        (opt_u8(r.0), r.1@) == device_info_spec(out),
{
    let mut battery: Option<u8> = None;
    let mut icon: String = String::new();
    match out {
        None => {
            assert(icon@ =~= seq![]);
        },
        Some(o) => {
            let text: Vec<char> = chars_of(o);
            let ls: Vec<&[char]> = lines_of(text.as_slice());
            assert(texts(ls@).len() == ls.len());
            assert(icon@ =~= seq![]);
            let mut i: usize = 0;
            while i < ls.len()
                invariant
                    i <= ls.len(),
                    texts(ls@) == lines(o@),
                    info_readable(o@),
                    (opt_u8(battery), icon@) == info_upto(lines(o@), i as int),
                decreases ls.len() - i,
            {
                assert(lines(o@)[i as int] == ls@[i as int]@);
                assert(info_line_readable(lines(o@)[i as int]));
                let line: &[char] = trimmed(ls[i]);
                if let Some(rest) = without_prefix(line, "Battery Percentage:") {
                    // "0x50 (80)" → 80
                    let a: usize = find(rest, '(', 0);
                    let b: usize = find(rest, ')', 0);
                    if a < rest.len() && b < rest.len() {
                        let level: &[char] = trimmed(slice_subrange(rest, a + 1, b));
                        battery = match unsigned(level, 255) {
                            Some(n) => Some(n as u8),
                            None => None,
                        };
                    }
                } else if let Some(rest) = without_prefix(line, "Icon:") {
                    icon = string_of(trimmed(rest));
                }
                i += 1;
            }
        },
    }
    (battery, icon)
}

/// The Turkish name of the kind of device behind a BlueZ icon name; empty where
/// the icon is not known.
pub open spec fn icon_type(icon: Seq<char>) -> Seq<char> {
    if icon == "phone"@ {
        "Telefon"@
    } else if icon == "audio-headset"@ || icon == "audio-headphones"@ {
        "Kulaklık"@
    } else if icon == "audio-card"@ {
        "Ses Kartı"@
    } else if icon == "input-keyboard"@ {
        "Klavye"@
    } else if icon == "input-mouse"@ {
        "Fare"@
    } else if icon == "input-gaming"@ {
        "Oyun Kolu"@
    } else if icon == "input-tablet"@ {
        "Tablet"@
    } else if icon == "computer"@ {
        "Bilgisayar"@
    } else if icon == "printer"@ {
        "Yazıcı"@
    } else if icon == "camera-photo"@ {
        "Fotoğraf Makinesi"@
    } else if icon == "camera-video"@ {
        "Kamera"@
    } else if icon == "modem"@ {
        "Modem"@
    } else {
        ""@
    }
}

/// BlueZ icon name → Turkish device type.
pub fn icon_to_type(icon: &str) -> (r: &'static str)
    ensures
        r@ == icon_type(icon@),
{
    let icon: Vec<char> = chars_of(icon);
    let icon: &[char] = icon.as_slice();
    if is_str(icon, "phone") {
        "Telefon"
    } else if is_str(icon, "audio-headset") || is_str(icon, "audio-headphones") {
        "Kulaklık"
    } else if is_str(icon, "audio-card") {
        "Ses Kartı"
    } else if is_str(icon, "input-keyboard") {
        "Klavye"
    } else if is_str(icon, "input-mouse") {
        "Fare"
    } else if is_str(icon, "input-gaming") {
        "Oyun Kolu"
    } else if is_str(icon, "input-tablet") {
        "Tablet"
    } else if is_str(icon, "computer") {
        "Bilgisayar"
    } else if is_str(icon, "printer") {
        "Yazıcı"
    } else if is_str(icon, "camera-photo") {
        "Fotoğraf Makinesi"
    } else if is_str(icon, "camera-video") {
        "Kamera"
    } else if is_str(icon, "modem") {
        "Modem"
    } else {
        ""
    }
}

// ---------------------------------------------------------------------------
// Requests
// ---------------------------------------------------------------------------

/// What the coprocess can be asked to do.
#[derive(Debug, Clone, PartialEq, Eq)]
pub enum BtRequest {
    /// Register an agent that shows and takes passkeys.
    Agent,
    /// Make it the default agent.
    DefaultAgent,
    Power(bool),
    Scan(bool),
    ListDevices,
    Pair(String),
    Connect(String),
    Disconnect(String),
    Trust(String),
    Remove(String),
    /// Answer to a yes/no prompt (passkey confirmation / pairing).
    AgentYes(bool),
    /// The typed answer to a PIN or passkey request.
    AgentValue(String),
    Quit,
}

pub open spec fn request_line(r: BtRequest) -> Seq<char> {
    match r {
        BtRequest::Agent => "agent KeyboardDisplay"@,
        BtRequest::DefaultAgent => "default-agent"@,
        BtRequest::Power(on) => if on {
            "power on"@
        } else {
            "power off"@
        },
        BtRequest::Scan(on) => if on {
            "scan on"@
        } else {
            "scan off"@
        },
        BtRequest::ListDevices => "devices"@,
        BtRequest::Pair(mac) => "pair "@ + mac@,
        BtRequest::Connect(mac) => "connect "@ + mac@,
        BtRequest::Disconnect(mac) => "disconnect "@ + mac@,
        BtRequest::Trust(mac) => "trust "@ + mac@,
        BtRequest::Remove(mac) => "remove "@ + mac@,
        BtRequest::AgentYes(yes) => if yes {
            "yes"@
        } else {
            "no"@
        },
        BtRequest::AgentValue(value) => value@,
        BtRequest::Quit => "quit"@,
    }
}

fn with_mac(verb: &str, mac: &String) -> (r: String)
    ensures
        r@ == verb@ + mac@,
{
    let mut line: Vec<char> = chars_of(verb);
    push_str(&mut line, mac.as_str());
    string_of(line.as_slice())
}

impl BtRequest {
    /// The command line to write, without its line feed.
    pub fn line(&self) -> (r: String)
        ensures
            r@ == request_line(*self),
    {
        match self {
            BtRequest::Agent => own("agent KeyboardDisplay"),
            BtRequest::DefaultAgent => own("default-agent"),
            BtRequest::Power(on) => own(if *on {
                "power on"
            } else {
                "power off"
            }),
            BtRequest::Scan(on) => own(if *on {
                "scan on"
            } else {
                "scan off"
            }),
            BtRequest::ListDevices => own("devices"),
            BtRequest::Pair(mac) => with_mac("pair ", mac),
            BtRequest::Connect(mac) => with_mac("connect ", mac),
            BtRequest::Disconnect(mac) => with_mac("disconnect ", mac),
            BtRequest::Trust(mac) => with_mac("trust ", mac),
            BtRequest::Remove(mac) => with_mac("remove ", mac),
            BtRequest::AgentYes(yes) => own(if *yes {
                "yes"
            } else {
                "no"
            }),
            BtRequest::AgentValue(value) => own(value.as_str()),
            BtRequest::Quit => own("quit"),
        }
    }
}

// ---------------------------------------------------------------------------
// Files beside the coprocess
// ---------------------------------------------------------------------------

pub open spec fn home_or_tmp(home: Option<&str>) -> Seq<char> {
    match home {
        Some(h) => h@,
        None => "/tmp"@,
    }
}

/// Where the session's log is, given `$HOME`.
pub fn log_path(home: Option<&str>) -> (r: String)
    ensures
        r@ == path_join(home_or_tmp(home), "bacak-bt.log"@),
{
    match home {
        Some(h) => join_path(h, "bacak-bt.log"),
        None => join_path("/tmp", "bacak-bt.log"),
    }
}

/// A script that is written out and run in the background, on the bus of the
/// user's systemd: the service that incoming files go to is there, not on the
/// compositor's own bus.
#[derive(Debug, Clone, PartialEq, Eq)]
pub struct ObexJob {
    /// The directory that is made for the script.
    pub dir: String,
    pub script: String,
    /// What follows the script on its command line.
    pub args: Vec<String>,
    /// The address of the bus.
    pub bus: String,
}

pub open spec fn script_dir(home: Option<&str>) -> Seq<char> {
    path_join(home_or_tmp(home), ".cache/bacak"@)
}

/// The address of the user's bus, given `$XDG_RUNTIME_DIR`.
pub open spec fn user_bus(runtime: Option<&str>) -> Seq<char> {
    "unix:path="@ + (match runtime {
        Some(r) => r@,
        None => "/run/user/1000"@,
    }) + "/bus"@
}

fn obex_job(home: Option<&str>, runtime: Option<&str>, name: &str, args: Vec<String>) -> (r: ObexJob)
    ensures
        r.dir@ == script_dir(home),
        r.script@ == path_join(script_dir(home), name@),
        r.args == args,
        r.bus@ == user_bus(runtime),
{
    let dir: String = match home {
        Some(h) => join_path(h, ".cache/bacak"),
        None => join_path("/tmp", ".cache/bacak"),
    };
    let script: String = join_path(dir.as_str(), name);
    let bus: String = match runtime {
        Some(r) => concat3("unix:path=", r, "/bus"),
        None => concat3("unix:path=", "/run/user/1000", "/bus"),
    };
    ObexJob { dir, script, args, bus }
}

/// Send a file to a device.
pub fn send_file_obex(home: Option<&str>, runtime: Option<&str>, mac: &str, path: &str) -> (r: ObexJob)
    ensures
        r.dir@ == script_dir(home),
        r.script@ == path_join(script_dir(home), "obex-send.py"@),
        strings(r.args@) == seq![mac@, path@],
        r.bus@ == user_bus(runtime),
{
    let mut args: Vec<String> = Vec::new();
    args.push(own(mac));
    args.push(own(path));
    assert(strings(args@) =~= seq![mac@, path@]);
    obex_job(home, runtime, "obex-send.py", args)
}

/// Accept the files that devices send. A second receiver ends by itself.
pub fn start_obex_receiver(home: Option<&str>, runtime: Option<&str>) -> (r: ObexJob)
    ensures
        r.dir@ == script_dir(home),
        r.script@ == path_join(script_dir(home), "obex-agent.py"@),
        r.args@.len() == 0,
        r.bus@ == user_bus(runtime),
{
    obex_job(home, runtime, "obex-agent.py", Vec::new())
}

// ---------------------------------------------------------------------------
// Laws
// ---------------------------------------------------------------------------

/// A line feed's position does not depend on what stands before.
proof fn lemma_feed_shift(s: Seq<char>, n: int, i: int)
    requires
        0 <= n <= s.len(),
        0 <= i <= s.len() - n,
    ensures
        find_from(s, '\n', n + i) == n + find_from(s.skip(n), '\n', i),
{
    let t = s.skip(n);
    lemma_find_from(t, '\n', i);
    let j = find_from(t, '\n', i);
    assert forall|k: int| n + i <= k < n + j implies s[k] != '\n' by {
        assert(t[k - n] == s[k]);
    }
    assert(j < t.len() ==> t[j] == s[n + j]);
    lemma_find_is(s, '\n', n + i, n + j);
}

/// The lines of a text's end do not depend on what stands before it.
proof fn lemma_lines_shift(s: Seq<char>, n: int, i: int)
    requires
        0 <= n <= s.len(),
        0 <= i <= s.len() - n,
    ensures
        lines_output(s, n + i) == lines_output(s.skip(n), i),
        tail_start(s, n + i) == n + tail_start(s.skip(n), i),
        i <= tail_start(s.skip(n), i) <= s.len() - n,
    decreases s.len() - n - i,
{
    let t = s.skip(n);
    lemma_feed_shift(s, n, i);
    lemma_find_from(t, '\n', i);
    let j = find_from(t, '\n', i);
    if j < t.len() {
        lemma_lines_shift(s, n, j + 1);
        assert(s.subrange(n + i, n + j + 1) =~= t.subrange(i, j + 1));
    }
}

proof fn lemma_chunks(s: Seq<char>, more: Seq<char>, i: int)
    requires
        0 <= i <= s.len(),
    ensures
        i <= tail_start(s, i) <= s.len(),
        ({
            let tail = s.skip(tail_start(s, i));
            &&& lines_output(s + more, i) == lines_output(s, i) + lines_output(tail + more, 0)
            &&& tail_start(s + more, i) == tail_start(s, i) + tail_start(tail + more, 0)
        }),
    decreases s.len() - i,
{
    let all = s + more;
    lemma_find_from(s, '\n', i);
    let j = find_from(s, '\n', i);
    if j < s.len() {
        assert forall|k: int| i <= k < j implies all[k] != '\n' by {
            assert(all[k] == s[k]);
        }
        lemma_find_is(all, '\n', i, j);
        lemma_chunks(s, more, j + 1);
        let tail = s.skip(tail_start(s, i));
        assert(all.subrange(i, j + 1) =~= s.subrange(i, j + 1));
        assert(lines_output(all, i) =~= lines_output(s, i) + lines_output(tail + more, 0));
    } else {
        assert(all.skip(i) =~= s.skip(i) + more);
        lemma_lines_shift(all, i, 0);
        assert(lines_output(s, i) + lines_output(s.skip(i) + more, 0) =~= lines_output(
            s.skip(i) + more,
            0,
        ));
    }
}

/// However the output is cut into chunks, the same lines are read, and the same
/// text is left behind the last of them.
pub proof fn law_chunks_make_no_difference(s: Seq<char>, more: Seq<char>)
    ensures
        ({
            let tail = s.skip(tail_start(s, 0));
            &&& lines_output(s + more, 0) == lines_output(s, 0) + lines_output(tail + more, 0)
            &&& (s + more).skip(tail_start(s + more, 0)) == (tail + more).skip(
                tail_start(tail + more, 0),
            )
        }),
{
    lemma_chunks(s, more, 0);
    let tail = s.skip(tail_start(s, 0));
    lemma_chunks(tail + more, seq![], 0);
    assert((s + more).skip(tail_start(s + more, 0)) =~= (tail + more).skip(
        tail_start(tail + more, 0),
    ));
}

proof fn lemma_csi_end(s: Seq<char>, i: int)
    requires
        0 <= i <= s.len(),
    ensures
        i <= csi_end(s, i) <= s.len(),
    decreases s.len() - i,
{
    if i < s.len() && !ends_csi(s[i]) {
        lemma_csi_end(s, i + 1);
    }
}

proof fn lemma_no_escapes(s: Seq<char>, i: int)
    requires
        0 <= i <= s.len(),
    ensures
        !without_ansi(s, i).contains('\u{1b}'),
    decreases s.len() - i,
{
    if i < s.len() {
        if s[i] != '\u{1b}' {
            lemma_no_escapes(s, i + 1);
            let rest = without_ansi(s, i + 1);
            let all = seq![s[i]] + rest;
            if all.contains('\u{1b}') {
                let k = choose|k: int| 0 <= k < all.len() && all[k] == '\u{1b}';
                assert(k > 0);
                assert(rest[k - 1] == '\u{1b}');
            }
        } else if i + 1 < s.len() && s[i + 1] == '[' {
            lemma_csi_end(s, i + 2);
            lemma_no_escapes(s, csi_end(s, i + 2));
        } else {
            lemma_no_escapes(s, i + 1);
        }
    }
}

proof fn lemma_plain_kept(s: Seq<char>, i: int)
    requires
        0 <= i <= s.len(),
        !s.contains('\u{1b}'),
    ensures
        without_ansi(s, i) == s.skip(i),
    decreases s.len() - i,
{
    if i < s.len() {
        assert(s.contains(s[i]));
        lemma_plain_kept(s, i + 1);
        assert(seq![s[i]] + s.skip(i + 1) =~= s.skip(i));
    } else {
        assert(s.skip(i) =~= seq![]);
    }
}

/// Taking prompts out leaves none, and adds no character.
proof fn lemma_no_prompts(s: Seq<char>)
    ensures
        find_text_from(without_prompts(s), "[bluetoothctl]>"@, 0) == -1,
        forall|c: char| #[trigger] without_prompts(s).contains(c) ==> s.contains(c),
    decreases s.len(),
{
    reveal_strlit("[bluetoothctl]>");
    let p = "[bluetoothctl]>"@;
    lemma_text_found(s, p, 0);
    let i = find_text_from(s, p, 0);
    if i >= 0 {
        let t = s.take(i) + s.skip(i + p.len());
        lemma_no_prompts(t);
        assert forall|c: char| #[trigger] without_prompts(s).contains(c) implies s.contains(c) by {
            assert(t.contains(c));
            let k = choose|k: int| 0 <= k < t.len() && t[k] == c;
            if k < i {
                assert(s[k] == c);
            } else {
                assert(s[k + p.len()] == c);
            }
        }
    }
}

proof fn lemma_text_found(s: Seq<char>, p: Seq<char>, i: int)
    requires
        0 <= i,
    ensures
        find_text_from(s, p, i) == -1 || (i <= find_text_from(s, p, i) && stands_at(
            s,
            p,
            find_text_from(s, p, i),
        )),
        find_text_from(s, p, i) == -1 ==> forall|k: int| i <= k ==> !#[trigger] stands_at(s, p, k),
    decreases s.len() + 1 - i,
{
    if i + p.len() <= s.len() && !stands_at(s, p, i) {
        lemma_text_found(s, p, i + 1);
    }
}

/// A line that was cleaned is clean: cleaning it again changes nothing.
pub proof fn law_clean_once(line: Seq<char>)
    ensures
        cleaned(cleaned(line)) == cleaned(line),
{
    let p = "[bluetoothctl]>"@;
    let bare = without_ansi(line, 0);
    let text = without_prompts(bare);
    let s = trim(text);
    lemma_no_escapes(line, 0);
    lemma_no_prompts(bare);
    lemma_trim(text);
    assert(!s.contains('\u{1b}')) by {
        if s.contains('\u{1b}') {
            assert(text.contains('\u{1b}'));
            assert(bare.contains('\u{1b}'));
        }
    }
    lemma_plain_kept(s, 0);
    assert(s.skip(0) =~= s);
    // A prompt in the trimmed text would have been one before.
    lemma_text_found(s, p, 0);
    lemma_text_found(text, p, 0);
    let i = find_text_from(s, p, 0);
    if i >= 0 {
        let lo = lemma_trim_part(text);
        assert(text.subrange(lo + i, lo + i + p.len()) =~= s.subrange(i, i + p.len()));
        assert(stands_at(text, p, lo + i));
    }
    assert(without_prompts(s) == s);
}

// ---------------------------------------------------------------------------
// Laws of what lines say
// ---------------------------------------------------------------------------

/// A device address: six pairs of hexadecimal digits with a colon between each two.
#[verifier::opaque]
pub open spec fn is_address(s: Seq<char>) -> bool {
    &&& s.len() == 17
    &&& forall|i: int|
        0 <= i < 17 ==> if i % 3 == 2 {
            #[trigger] s[i] == ':'
        } else {
            '0' <= s[i] <= '9' || 'a' <= s[i] <= 'f' || 'A' <= s[i] <= 'F'
        }
}

proof fn lemma_octet(s: Seq<char>, i: int)
    requires
        is_address(s),
        0 <= i <= 15,
        i % 3 == 0,
    ensures
        !s.subrange(i, i + 2).contains(':'),
        is_octet(s.subrange(i, i + 2)),
{
    reveal(is_address);
    let o = s.subrange(i, i + 2);
    assert(o[0] == s[i] && o[1] == s[i + 1]);
}

/// An address is what is taken for one, and nothing else is.
#[verifier::spinoff_prover]
#[verifier::rlimit(40)]
pub proof fn law_address(s: Seq<char>)
    ensures
        mac_spec(s) == is_address(s),
{
    reveal(is_address);
    if is_address(s) {
        let v = Seq::new(6, |k: int| s.subrange(3 * k, 3 * k + 2));
        assert forall|k: int| 0 <= k < 6 implies !(#[trigger] v[k]).contains(':') && is_octet(
            v[k],
        ) by {
            lemma_octet(s, 3 * k);
        }
        assert(s[2] == ':' && s[5] == ':' && s[8] == ':' && s[11] == ':' && s[14] == ':');
        lemma_split_join(v, ':', 6);
        assert(v.take(6) =~= v);
        reveal_with_fuel(join_upto, 7);
        assert(join_upto(v, 0, 6, seq![':']) =~= s);
    }
    if mac_spec(s) {
        let v = split(s, ':');
        law_join_undoes_split(s, ':');
        reveal_with_fuel(join_upto, 7);
        assert(is_octet(v[0]) && is_octet(v[1]) && is_octet(v[2]) && is_octet(v[3]) && is_octet(
            v[4],
        ) && is_octet(v[5]));
        assert(s =~= v[0] + seq![':'] + v[1] + seq![':'] + v[2] + seq![':'] + v[3] + seq![':']
            + v[4] + seq![':'] + v[5]);
    }
}

/// Whether a text says the same after cleaning: it holds neither a control sequence
/// nor a prompt.
pub open spec fn is_plain(s: Seq<char>) -> bool {
    !s.contains('\u{1b}') && !s.contains('>')
}

proof fn lemma_plain_text(s: Seq<char>)
    requires
        is_plain(s),
    ensures
        cleaned(s) == trim(s),
{
    reveal_strlit("[bluetoothctl]>");
    let p = "[bluetoothctl]>"@;
    lemma_plain_kept(s, 0);
    assert(s.skip(0) =~= s);
    lemma_text_found(s, p, 0);
    let i = find_text_from(s, p, 0);
    if i >= 0 {
        assert(s.subrange(i, i + 15)[14] == '>');
        assert(s.contains(s[i + 14]));
    }
}

proof fn lemma_plain_line(s: Seq<char>)
    requires
        is_plain(s),
        s.len() > 0,
        !is_whitespace(s[0]),
        !is_whitespace(s.last()),
    ensures
        cleaned(s) == s,
        line_event(s) == bare_line_event(s),
{
    lemma_plain_text(s);
    law_trim_undoes_padding(seq![], s, seq![]);
    assert(Seq::<char>::empty() + s + Seq::<char>::empty() =~= s);
}

proof fn lemma_plain_join(a: Seq<char>, b: Seq<char>)
    requires
        is_plain(a),
        is_plain(b),
    ensures
        is_plain(a + b),
{
    let s = a + b;
    assert forall|k: int| 0 <= k < s.len() implies s[k] != '\u{1b}' && s[k] != '>' by {
        if k < a.len() {
            assert(a.contains(s[k]));
        } else {
            assert(s[k] == b[k - a.len()]);
            assert(b.contains(s[k]));
        }
    }
}

proof fn lemma_plain_address(m: Seq<char>)
    requires
        is_address(m),
    ensures
        is_plain(m),
        !m.contains(' '),
        mac_spec(m),
{
    reveal(is_address);
    law_address(m);
    assert forall|k: int| 0 <= k < m.len() implies m[k] != '\u{1b}' && m[k] != '>' && m[k]
        != ' ' by {
        assert(if k % 3 == 2 {
            m[k] == ':'
        } else {
            '0' <= m[k] <= '9' || 'a' <= m[k] <= 'f' || 'A' <= m[k] <= 'F'
        });
    }
}

/// What a line `<kind> Device <address> <tail>` is read as.
#[verifier::spinoff_prover]
#[verifier::rlimit(40)]
proof fn lemma_device_line(m: Seq<char>, tail: Seq<char>)
    requires
        is_address(m),
        is_plain(tail),
        tail.len() > 0,
        !is_whitespace(tail.last()),
    ensures
        line_event("[CHG] Device "@ + m + " "@ + tail) == device_event(m + " "@ + tail, false),
        line_event("[NEW] Device "@ + m + " "@ + tail) == device_event(m + " "@ + tail, true),
        line_event("[DEL] Device "@ + m + " "@ + tail) == removal_event(m + " "@ + tail),
        line_event("Device "@ + m + " "@ + tail) == Some(
            (BtEventView::Device { mac: m, name: trim(tail) }),
        ),
        address_and_tail(m + " "@ + tail) == (m, tail),
{
    reveal_strlit("[CHG] Device ");
    reveal_strlit("[NEW] Device ");
    reveal_strlit("[DEL] Device ");
    reveal_strlit("[CHG] Controller ");
    reveal_strlit("Device ");
    reveal_strlit(" ");
    lemma_plain_address(m);
    let rest = m + " "@ + tail;
    lemma_plain_join(m, " "@);
    lemma_plain_join(m + " "@, tail);
    assert(" "@ =~= seq![' ']);
    law_split_once(m, ' ', tail);
    law_white_space('[');
    law_white_space('D');
    let chg = "[CHG] Device "@ + rest;
    let new = "[NEW] Device "@ + rest;
    let del = "[DEL] Device "@ + rest;
    let bare = "Device "@ + rest;
    assert(chg =~= "[CHG] Device "@ + m + " "@ + tail);
    assert(new =~= "[NEW] Device "@ + m + " "@ + tail);
    assert(del =~= "[DEL] Device "@ + m + " "@ + tail);
    assert(bare =~= "Device "@ + m + " "@ + tail);
    assert(is_plain("[CHG] Device "@) && is_plain("[NEW] Device "@) && is_plain("[DEL] Device "@)
        && is_plain("Device "@));
    lemma_plain_join("[CHG] Device "@, rest);
    lemma_plain_join("[NEW] Device "@, rest);
    lemma_plain_join("[DEL] Device "@, rest);
    lemma_plain_join("Device "@, rest);
    assert(chg.last() == tail.last() && new.last() == tail.last() && del.last() == tail.last()
        && bare.last() == tail.last());
    lemma_plain_line(chg);
    lemma_plain_line(new);
    lemma_plain_line(del);
    lemma_plain_line(bare);
    law_prefix("[CHG] Device "@, rest);
    law_prefix("[NEW] Device "@, rest);
    law_prefix("[DEL] Device "@, rest);
    law_prefix("Device "@, rest);
    lemma_no_prefix(chg, "[CHG] Controller "@, 6);
    lemma_no_prefix(new, "[CHG] Controller "@, 1);
    lemma_no_prefix(del, "[CHG] Controller "@, 1);
    lemma_no_prefix(bare, "[CHG] Controller "@, 0);
    lemma_no_prefix(chg, "[NEW] Device "@, 1);
    lemma_no_prefix(del, "[NEW] Device "@, 1);
    lemma_no_prefix(bare, "[NEW] Device "@, 0);
    lemma_no_prefix(del, "[CHG] Device "@, 1);
    lemma_no_prefix(bare, "[CHG] Device "@, 0);
    lemma_no_prefix(bare, "[DEL] Device "@, 0);
}

/// What a changed property of a device is read as.
proof fn lemma_changed_line(m: Seq<char>, tail: Seq<char>)
    requires
        is_address(m),
        is_plain(tail),
        tail.len() > 0,
        !is_whitespace(tail.last()),
    ensures
        line_event("[CHG] Device "@ + m + " "@ + tail) == device_event(m + " "@ + tail, false),
        address_and_tail(m + " "@ + tail) == (m, tail),
{
    lemma_device_line(m, tail);
}

proof fn lemma_spaced_tail(m: Seq<char>, tail: Seq<char>, spaced: Seq<char>)
    requires
        spaced == seq![' '] + tail,
    ensures
        "[CHG] Device "@ + m + " "@ + tail == "[CHG] Device "@ + m + spaced,
{
    reveal_strlit(" ");
    assert("[CHG] Device "@ + m + " "@ + tail =~= "[CHG] Device "@ + m + spaced);
}

#[verifier::rlimit(30)]
proof fn lemma_connected_tail(value: Seq<char>, spaced: Seq<char>)
    requires
        (value == "yes"@ && spaced == " Connected: yes"@) || (value == "no"@ && spaced == " Connected: no"@),
    ensures
        is_plain("Connected: "@ + value),
        ("Connected: "@ + value).len() > 0,
        !is_whitespace(("Connected: "@ + value).last()),
        strip_prefix("Connected: "@ + value, "Connected: "@) == Some(value),
        spaced == seq![' '] + ("Connected: "@ + value),
        "yes"@ != "no"@,
{
    reveal_strlit("yes");
    reveal_strlit("no");
    reveal_strlit("Connected: ");
    reveal_strlit(" Connected: yes");
    reveal_strlit(" Connected: no");
    law_white_space('s');
    law_white_space('o');
    law_prefix("Connected: "@, value);
    assert("yes"@.len() == 3 && "no"@.len() == 2);
    assert(spaced =~= seq![' '] + ("Connected: "@ + value));
}

#[verifier::rlimit(30)]
proof fn lemma_paired_tail(value: Seq<char>, spaced: Seq<char>)
    requires
        (value == "yes"@ && spaced == " Paired: yes"@) || (value == "no"@ && spaced == " Paired: no"@),
    ensures
        is_plain("Paired: "@ + value),
        ("Paired: "@ + value).len() > 0,
        !is_whitespace(("Paired: "@ + value).last()),
        strip_prefix("Paired: "@ + value, "Paired: "@) == Some(value),
        strip_prefix("Paired: "@ + value, "Connected: "@) is None,
        spaced == seq![' '] + ("Paired: "@ + value),
        "yes"@ != "no"@,
{
    reveal_strlit("yes");
    reveal_strlit("no");
    reveal_strlit("Paired: ");
    reveal_strlit(" Paired: yes");
    reveal_strlit(" Paired: no");
    law_white_space('s');
    law_white_space('o');
    law_prefix("Paired: "@, value);
    reveal_strlit("Connected: ");
    lemma_no_prefix("Paired: "@ + value, "Connected: "@, 0);
    assert("yes"@.len() == 3 && "no"@.len() == 2);
    assert(spaced =~= seq![' '] + ("Paired: "@ + value));
}

/// For every address, a line that says that the device is connected gives just that,
/// and one that says that it is not gives that.
#[verifier::spinoff_prover]
#[verifier::rlimit(40)]
pub proof fn law_connection_lines(m: Seq<char>)
    requires
        is_address(m),
    ensures
        line_event("[CHG] Device "@ + m + " Connected: yes"@) == Some(
            (BtEventView::Connected { mac: m, connected: true }),
        ),
        line_event("[CHG] Device "@ + m + " Connected: no"@) == Some(
            (BtEventView::Connected { mac: m, connected: false }),
        ),
{
    lemma_plain_address(m);
    assert(line_event("[CHG] Device "@ + m + " Connected: yes"@) == Some(
        (BtEventView::Connected { mac: m, connected: true }),
    )) by {
        lemma_connected_tail("yes"@, " Connected: yes"@);
        lemma_changed_line(m, "Connected: "@ + "yes"@);
        lemma_spaced_tail(m, "Connected: "@ + "yes"@, " Connected: yes"@);
    }
    assert(line_event("[CHG] Device "@ + m + " Connected: no"@) == Some(
        (BtEventView::Connected { mac: m, connected: false }),
    )) by {
        lemma_connected_tail("no"@, " Connected: no"@);
        lemma_changed_line(m, "Connected: "@ + "no"@);
        lemma_spaced_tail(m, "Connected: "@ + "no"@, " Connected: no"@);
    }
}

/// For every address, a line that says that the device is paired gives just that,
/// and one that says that it is not gives that.
#[verifier::spinoff_prover]
#[verifier::rlimit(40)]
pub proof fn law_pairing_lines(m: Seq<char>)
    requires
        is_address(m),
    ensures
        line_event("[CHG] Device "@ + m + " Paired: yes"@) == Some(
            (BtEventView::Paired { mac: m, paired: true }),
        ),
        line_event("[CHG] Device "@ + m + " Paired: no"@) == Some(
            (BtEventView::Paired { mac: m, paired: false }),
        ),
{
    lemma_plain_address(m);
    assert(line_event("[CHG] Device "@ + m + " Paired: yes"@) == Some(
        (BtEventView::Paired { mac: m, paired: true }),
    )) by {
        lemma_paired_tail("yes"@, " Paired: yes"@);
        lemma_changed_line(m, "Paired: "@ + "yes"@);
        lemma_spaced_tail(m, "Paired: "@ + "yes"@, " Paired: yes"@);
    }
    assert(line_event("[CHG] Device "@ + m + " Paired: no"@) == Some(
        (BtEventView::Paired { mac: m, paired: false }),
    )) by {
        lemma_paired_tail("no"@, " Paired: no"@);
        lemma_changed_line(m, "Paired: "@ + "no"@);
        lemma_spaced_tail(m, "Paired: "@ + "no"@, " Paired: no"@);
    }
}

/// A device is renamed by each change of its name or alias.
#[verifier::spinoff_prover]
#[verifier::rlimit(40)]
pub proof fn law_renaming_lines(m: Seq<char>, name: Seq<char>)
    requires
        is_address(m),
        is_plain(name),
        name.len() > 0,
        !is_whitespace(name[0]),
        !is_whitespace(name.last()),
    ensures
        line_event("[CHG] Device "@ + m + " Name: "@ + name) == Some(
            (BtEventView::Device { mac: m, name }),
        ),
        line_event("[CHG] Device "@ + m + " Alias: "@ + name) == Some(
            (BtEventView::Device { mac: m, name }),
        ),
{
    reveal_strlit(" ");
    reveal_strlit("Connected: ");
    reveal_strlit("Paired: ");
    reveal_strlit("Name: ");
    reveal_strlit("Alias: ");
    reveal_strlit(" Name: ");
    reveal_strlit(" Alias: ");
    law_trim_undoes_padding(seq![], name, seq![]);
    assert(Seq::<char>::empty() + name + Seq::<char>::empty() =~= name);
    lemma_plain_address(m);
    let n = "Name: "@ + name;
    let a = "Alias: "@ + name;
    assert(line_event("[CHG] Device "@ + m + " "@ + n) == Some(
        (BtEventView::Device { mac: m, name }),
    )) by {
        assert(is_plain("Name: "@));
        lemma_plain_join("Name: "@, name);
        assert(n.last() == name.last());
        lemma_device_line(m, n);
        law_prefix("Name: "@, name);
        lemma_no_prefix(n, "Connected: "@, 0);
        lemma_no_prefix(n, "Paired: "@, 0);
    }
    assert(line_event("[CHG] Device "@ + m + " "@ + a) == Some(
        (BtEventView::Device { mac: m, name }),
    )) by {
        assert(is_plain("Alias: "@));
        lemma_plain_join("Alias: "@, name);
        assert(a.last() == name.last());
        lemma_device_line(m, a);
        law_prefix("Alias: "@, name);
        lemma_no_prefix(a, "Connected: "@, 0);
        lemma_no_prefix(a, "Paired: "@, 0);
        lemma_no_prefix(a, "Name: "@, 0);
    }
    assert("[CHG] Device "@ + m + " "@ + n =~= "[CHG] Device "@ + m + " Name: "@ + name);
    assert("[CHG] Device "@ + m + " "@ + a =~= "[CHG] Device "@ + m + " Alias: "@ + name);
}

/// A device is named by its first sighting and by the list of devices, and is gone
/// when it was removed. A change of another property says nothing.
#[verifier::spinoff_prover]
#[verifier::rlimit(40)]
pub proof fn law_naming_lines(m: Seq<char>, name: Seq<char>)
    requires
        is_address(m),
        is_plain(name),
        name.len() > 0,
        !is_whitespace(name[0]),
        !is_whitespace(name.last()),
    ensures
        line_event("Device "@ + m + " "@ + name) == Some((BtEventView::Device { mac: m, name })),
        name[0] != 'C' && name[0] != 'P' && name[0] != 'N' && name[0] != 'A' ==> line_event(
            "[NEW] Device "@ + m + " "@ + name,
        ) == Some((BtEventView::Device { mac: m, name })),
        name[0] != 'C' && name[0] != 'P' && name[0] != 'N' && name[0] != 'A' ==> line_event(
            "[CHG] Device "@ + m + " "@ + name,
        ) is None,
        line_event("[DEL] Device "@ + m + " "@ + name) == Some((BtEventView::Removed { mac: m })),
{
    reveal_strlit("Connected: ");
    reveal_strlit("Paired: ");
    reveal_strlit("Name: ");
    reveal_strlit("Alias: ");
    law_trim_undoes_padding(seq![], name, seq![]);
    assert(Seq::<char>::empty() + name + Seq::<char>::empty() =~= name);
    lemma_device_line(m, name);
    lemma_plain_address(m);
    if name[0] != 'C' && name[0] != 'P' && name[0] != 'N' && name[0] != 'A' {
        lemma_no_prefix(name, "Connected: "@, 0);
        lemma_no_prefix(name, "Paired: "@, 0);
        lemma_no_prefix(name, "Name: "@, 0);
        lemma_no_prefix(name, "Alias: "@, 0);
    }
}

/// A text that is no address names no device.
pub proof fn law_no_address_no_device(word: Seq<char>, tail: Seq<char>)
    requires
        !is_address(word),
        !word.contains(' '),
    ensures
        device_event(word + " "@ + tail, true) is None,
        device_event(word + " "@ + tail, false) is None,
        removal_event(word + " "@ + tail) is None,
        listed_device("Device "@ + (word + " "@ + tail)) is None,
{
    reveal_strlit(" ");
    assert(" "@ =~= seq![' ']);
    law_split_once(word, ' ', tail);
    law_address(word);
    law_prefix("Device "@, word + " "@ + tail);
}

/// The adapter's power and its search are reported by `yes` and `no`, whatever the
/// adapter's address.
#[verifier::spinoff_prover]
#[verifier::rlimit(40)]
pub proof fn law_controller_lines(m: Seq<char>)
    requires
        is_address(m),
    ensures
        line_event("[CHG] Controller "@ + m + " Powered: yes"@) == Some(BtEventView::Powered(true)),
        line_event("[CHG] Controller "@ + m + " Powered: no"@) == Some(BtEventView::Powered(false)),
        line_event("[CHG] Controller "@ + m + " Discovering: yes"@) == Some(
            BtEventView::Discovering(true),
        ),
        line_event("[CHG] Controller "@ + m + " Discovering: no"@) == Some(
            BtEventView::Discovering(false),
        ),
{
    reveal_strlit("yes");
    reveal_strlit("no");
    reveal_strlit("Powered: ");
    reveal_strlit("Discovering: ");
    reveal_strlit(" Powered: yes");
    reveal_strlit(" Powered: no");
    reveal_strlit(" Discovering: yes");
    reveal_strlit(" Discovering: no");
    lemma_controller_line(m, "Powered: "@ + "yes"@);
    lemma_controller_line(m, "Powered: "@ + "no"@);
    lemma_controller_line(m, "Discovering: "@ + "yes"@);
    lemma_controller_line(m, "Discovering: "@ + "no"@);
    law_white_space('s');
    law_white_space('o');
    law_prefix("Powered: "@, "yes"@);
    law_prefix("Powered: "@, "no"@);
    law_prefix("Discovering: "@, "yes"@);
    law_prefix("Discovering: "@, "no"@);
    lemma_no_prefix("Discovering: "@ + "yes"@, "Powered: "@, 0);
    lemma_no_prefix("Discovering: "@ + "no"@, "Powered: "@, 0);
    let c = "[CHG] Controller "@ + m;
    assert(c + seq![' '] + ("Powered: "@ + "yes"@) =~= c + " Powered: yes"@);
    assert(c + seq![' '] + ("Powered: "@ + "no"@) =~= c + " Powered: no"@);
    assert(c + seq![' '] + ("Discovering: "@ + "yes"@) =~= c + " Discovering: yes"@);
    assert(c + seq![' '] + ("Discovering: "@ + "no"@) =~= c + " Discovering: no"@);
}

proof fn lemma_controller_line(m: Seq<char>, prop: Seq<char>)
    requires
        is_address(m),
        is_plain(prop),
        prop.len() > 0,
        !is_whitespace(prop.last()),
    ensures
        line_event("[CHG] Controller "@ + m + seq![' '] + prop) == controller_event(
            m + seq![' '] + prop,
        ),
        split_once(m + seq![' '] + prop, ' ') == Some((m, prop)),
{
    reveal_strlit("[CHG] Controller ");
    lemma_plain_address(m);
    let rest = m + seq![' '] + prop;
    assert(is_plain(seq![' ']));
    lemma_plain_join(m, seq![' ']);
    lemma_plain_join(m + seq![' '], prop);
    law_split_once(m, ' ', prop);
    law_white_space('[');
    let s = "[CHG] Controller "@ + rest;
    assert(s =~= "[CHG] Controller "@ + m + seq![' '] + prop);
    assert(is_plain("[CHG] Controller "@));
    lemma_plain_join("[CHG] Controller "@, rest);
    assert(s.last() == prop.last());
    lemma_plain_line(s);
    law_prefix("[CHG] Controller "@, rest);
}

/// Whatever the agent says before and behind it, a prompt that asks to confirm a code
/// hands on that code and no other digits.
#[verifier::spinoff_prover]
#[verifier::rlimit(40)]
pub proof fn law_confirm_prompt(before: Seq<char>, code: Seq<char>, rest: Seq<char>)
    requires
        find_text_from(before + "Confirm passkey "@ + code + rest, "Confirm passkey "@, 0)
            == before.len(),
        code.len() > 0,
        forall|i: int| 0 <= i < code.len() ==> '0' <= #[trigger] code[i] <= '9',
        rest.len() > 0 ==> !('0' <= rest[0] <= '9'),
    ensures
        bare_prompt_event(before + "Confirm passkey "@ + code + rest) == Some(
            (BtEventView::ConfirmPasskey { mac: Seq::empty(), passkey: code }),
        ),
{
    let key = "Confirm passkey "@;
    let s = before + key + code + rest;
    let lo = (before.len() + key.len()) as int;
    assert forall|k: int| lo <= k < lo + code.len() implies is_digit(#[trigger] s[k]) by {
        assert(s[k] == code[k - lo]);
    }
    if rest.len() > 0 {
        assert(s[lo + code.len()] == rest[0]);
    }
    lemma_digits_end(s, lo, lo + code.len());
    assert(s.subrange(lo, lo + code.len()) =~= code);
}

proof fn lemma_digits_end(s: Seq<char>, i: int, j: int)
    requires
        0 <= i <= j <= s.len(),
        forall|k: int| i <= k < j ==> is_digit(#[trigger] s[k]),
        j == s.len() || !is_digit(s[j]),
    ensures
        digits_end(s, i) == j,
    decreases j - i,
{
    if i < j {
        assert(is_digit(s[i]));
        lemma_digits_end(s, i + 1, j);
    }
}

/// A prompt for a PIN, whatever device is named before it, asks for one; a prompt
/// for a passkey asks for that.
#[verifier::spinoff_prover]
#[verifier::rlimit(40)]
pub proof fn law_ask_prompts(before: Seq<char>, rest: Seq<char>)
    requires
        !before.contains('C'),
        !before.contains('P'),
        !before.contains('E'),
        !rest.contains('C'),
        !rest.contains('P'),
        !rest.contains('E'),
    ensures
        bare_prompt_event(before + "Enter PIN code"@ + rest) == Some(
            (BtEventView::RequestPin { mac: Seq::empty() }),
        ),
        bare_prompt_event(before + "Enter passkey"@ + rest) == Some(
            (BtEventView::RequestPasskey { mac: Seq::empty() }),
        ),
        bare_prompt_event(before + rest) is None,
{
    reveal_strlit("Enter PIN code");
    reveal_strlit("Enter passkey");
    reveal_strlit("Confirm passkey ");
    reveal_strlit("Confirm pairing");
    reveal_strlit("Passkey: ");
    let a = before + "Enter PIN code"@ + rest;
    let b = before + "Enter passkey"@ + rest;
    let c = before + rest;
    lemma_not_said(a, "Confirm passkey "@, before, "Enter PIN code"@, rest);
    lemma_not_said(a, "Confirm pairing"@, before, "Enter PIN code"@, rest);
    assert("Passkey: "@[1] == 'a' && "Enter PIN code"@[7] == 'I');
    assert("Enter PIN code"@[6] == 'P' && "Enter passkey"@[6] == 'p');
    assert("Enter passkey"@[0] == 'E');
    lemma_not_said(a, "Passkey: "@, before, "Enter PIN code"@, rest);
    lemma_not_said(b, "Confirm passkey "@, before, "Enter passkey"@, rest);
    lemma_not_said(b, "Confirm pairing"@, before, "Enter passkey"@, rest);
    lemma_not_said(b, "Passkey: "@, before, "Enter passkey"@, rest);
    lemma_not_said(b, "Enter PIN code"@, before, "Enter passkey"@, rest);
    assert(c =~= before + Seq::<char>::empty() + rest);
    lemma_not_said(c, "Confirm passkey "@, before, seq![], rest);
    lemma_not_said(c, "Confirm pairing"@, before, seq![], rest);
    lemma_not_said(c, "Passkey: "@, before, seq![], rest);
    lemma_not_said(c, "Enter PIN code"@, before, seq![], rest);
    lemma_not_said(c, "Enter passkey"@, before, seq![], rest);
    law_find_text(before, "Enter PIN code"@, rest);
    law_find_text(before, "Enter passkey"@, rest);
}

/// A key does not stand in a text whose parts do not hold its first character,
/// apart from a middle in which it does not stand either.
proof fn lemma_not_said(
    s: Seq<char>,
    key: Seq<char>,
    before: Seq<char>,
    middle: Seq<char>,
    rest: Seq<char>,
)
    requires
        s == before + middle + rest,
        key.len() > 1,
        !before.contains(key[0]),
        !rest.contains(key[0]),
        forall|i: int|
            0 <= i < middle.len() && #[trigger] middle[i] == key[0] ==> exists|k: int|
                0 < k < key.len() && i + k < middle.len() && middle[i + k] != #[trigger] key[k],
    ensures
        find_text_from(s, key, 0) < 0,
{
    lemma_text_found(s, key, 0);
    let i = find_text_from(s, key, 0);
    if i >= 0 {
        let found = s.subrange(i, i + key.len());
        assert(found[0] == key[0]);
        let lo = before.len() as int;
        let hi = lo + middle.len();
        if i < lo {
            assert(before.contains(before[i]));
        } else if i < hi {
            assert(middle[i - lo] == key[0]);
            let k = choose|k: int|
                0 < k < key.len() && i - lo + k < middle.len() && middle[i - lo + k]
                    != #[trigger] key[k];
            assert(found[k] == s[i + k]);
            assert(s[i + k] == middle[i - lo + k]);
        } else {
            assert(rest.contains(rest[i - hi]));
        }
    }
}

/// A failure is handed on word for word, unless it is about discovery.
#[verifier::rlimit(30)]
pub proof fn law_failure_lines(why: Seq<char>)
    requires
        is_plain(why),
        why.len() > 0,
        !is_whitespace(why.last()),
        find_text_from("Failed to "@ + why, "discovery"@, 0) < 0,
    ensures
        line_event("Failed to "@ + why) == Some(BtEventView::Failed("Failed to "@ + why)),
{
    reveal_strlit("Failed to ");
    reveal_strlit("[CHG] Controller ");
    reveal_strlit("[NEW] Device ");
    reveal_strlit("[CHG] Device ");
    reveal_strlit("[DEL] Device ");
    reveal_strlit("Device ");
    let s = "Failed to "@ + why;
    assert(is_plain("Failed to "@));
    lemma_plain_join("Failed to "@, why);
    law_white_space('F');
    assert(s.last() == why.last());
    lemma_plain_line(s);
    law_prefix("Failed to "@, why);
    lemma_no_prefix(s, "[CHG] Controller "@, 0);
    lemma_no_prefix(s, "[NEW] Device "@, 0);
    lemma_no_prefix(s, "[CHG] Device "@, 0);
    lemma_no_prefix(s, "[DEL] Device "@, 0);
    lemma_no_prefix(s, "Device "@, 0);
}

/// Failures about discovery are passed over.
pub proof fn law_discovery_failures(before: Seq<char>, rest: Seq<char>)
    ensures
        failure_event(before + "discovery"@ + rest) is None,
{
    law_find_text(before, "discovery"@, rest);
}

/// A prompt before a line and a line end behind it change nothing, nor does a
/// colour switched on and off.
#[verifier::spinoff_prover]
#[verifier::rlimit(40)]
pub proof fn law_prompt_is_no_text(line: Seq<char>)
    requires
        is_plain(line),
    ensures
        cleaned("[bluetoothctl]> "@ + line) == cleaned(line),
        cleaned(line + seq!['\r', '\n']) == cleaned(line),
        line_event("[bluetoothctl]> "@ + line) == line_event(line),
        line_event(line + seq!['\r', '\n']) == line_event(line),
{
    reveal_strlit("[bluetoothctl]> ");
    reveal_strlit("[bluetoothctl]>");
    let p = "[bluetoothctl]>"@;
    let s = "[bluetoothctl]> "@ + line;
    lemma_plain_text(line);
    assert forall|k: int| 0 <= k < s.len() implies s[k] != '\u{1b}' by {
        if k >= 16 {
            assert(s[k] == line[k - 16]);
            assert(line.contains(s[k]));
        }
    }
    lemma_plain_kept(s, 0);
    assert(s.skip(0) =~= s);
    assert(s.subrange(0, 15) =~= p);
    assert(find_text_from(s, p, 0) == 0);
    let t = s.take(0) + s.skip(15);
    assert(t =~= seq![' '] + line);
    assert(is_plain(seq![' ']));
    lemma_plain_join(seq![' '], line);
    lemma_plain_text(t);
    lemma_plain_kept(t, 0);
    assert(t.skip(0) =~= t);
    law_white_space(' ');
    law_white_space('\r');
    law_white_space('\n');
    law_trim_ignores_space(seq![' '], line, seq![]);
    law_trim_ignores_space(seq![], line, seq!['\r', '\n']);
    assert(seq![' '] + line + Seq::<char>::empty() =~= t);
    assert(Seq::<char>::empty() + line + seq!['\r', '\n'] =~= line + seq!['\r', '\n']);
    assert(is_plain(seq!['\r', '\n']));
    lemma_plain_join(line, seq!['\r', '\n']);
    lemma_plain_text(line + seq!['\r', '\n']);
}

/// The kind of a device follows from its icon: what is heard is told from what is
/// typed on or looked through.
#[verifier::rlimit(30)]
pub proof fn law_icon_types(icon: Seq<char>)
    ensures
        icon_type("phone"@) == "Telefon"@,
        icon_type("audio-headset"@) == icon_type("audio-headphones"@),
        icon_type("audio-headphones"@) == "Kulaklık"@,
        icon_type("audio-card"@) == "Ses Kartı"@,
        icon_type("input-keyboard"@) == "Klavye"@,
        icon_type("input-mouse"@) == "Fare"@,
        icon_type("input-gaming"@) == "Oyun Kolu"@,
        icon_type("input-tablet"@) == "Tablet"@,
        icon_type("computer"@) == "Bilgisayar"@,
        icon_type("printer"@) == "Yazıcı"@,
        icon_type("camera-photo"@) == "Fotoğraf Makinesi"@,
        icon_type("camera-video"@) == "Kamera"@,
        icon_type("modem"@) == "Modem"@,
        icon.len() > 16 ==> icon_type(icon).len() == 0,
{
    reveal_strlit("phone");
    reveal_strlit("audio-headset");
    reveal_strlit("audio-headphones");
    reveal_strlit("audio-card");
    reveal_strlit("input-keyboard");
    reveal_strlit("input-mouse");
    reveal_strlit("input-gaming");
    reveal_strlit("input-tablet");
    reveal_strlit("computer");
    reveal_strlit("printer");
    reveal_strlit("camera-photo");
    reveal_strlit("camera-video");
    reveal_strlit("modem");
    reveal_strlit("");
    assert("phone"@.len() == 5);
    assert("audio-headset"@.len() == 13);
    assert("audio-headphones"@.len() == 16);
    assert("audio-card"@.len() == 10);
    assert("input-keyboard"@.len() == 14);
    assert("input-mouse"@.len() == 11);
    assert("input-gaming"@.len() == 12);
    assert("input-tablet"@.len() == 12);
    assert("computer"@.len() == 8);
    assert("printer"@.len() == 7);
    assert("camera-photo"@.len() == 12);
    assert("camera-video"@.len() == 12);
    assert("modem"@.len() == 5);
    assert("input-keyboard"@[6] == 'k' && "input-mouse"@[6] == 'm');
    assert("input-gaming"@[6] == 'g' && "input-tablet"@[6] == 't');
    assert("camera-photo"@[7] == 'p' && "camera-video"@[7] == 'v');
    assert("phone"@[0] == 'p' && "modem"@[0] == 'm');
    assert("input-tablet"@[0] == 'i' && "camera-photo"@[0] == 'c');
}

/// What is written to the coprocess holds the address of the device that is meant,
/// behind the verb.
pub proof fn law_requests(mac: String)
    ensures
        request_line(BtRequest::Pair(mac)) == "pair "@ + mac@,
        request_line(BtRequest::Connect(mac)) == "connect "@ + mac@,
        request_line(BtRequest::Disconnect(mac)) == "disconnect "@ + mac@,
        request_line(BtRequest::Trust(mac)) == "trust "@ + mac@,
        request_line(BtRequest::Remove(mac)) == "remove "@ + mac@,
        request_line(BtRequest::AgentValue(mac)) == mac@,
        request_line(BtRequest::Power(true)) == "power on"@,
        request_line(BtRequest::Power(false)) == "power off"@,
        request_line(BtRequest::Scan(true)) == "scan on"@,
        request_line(BtRequest::Scan(false)) == "scan off"@,
        request_line(BtRequest::AgentYes(true)) == "yes"@,
        request_line(BtRequest::AgentYes(false)) == "no"@,
{
}

/// A battery line sets the level to the number in its brackets and leaves the icon.
#[verifier::rlimit(30)]
pub proof fn law_battery_line(ls: Seq<Seq<char>>, n: int, level: nat)
    requires
        0 < n <= ls.len(),
        level <= 100,
        ls[n - 1] == "Battery Percentage:"@ + (seq!['('] + decimal(level) + seq![')']),
    ensures
        info_upto(ls, n) == (Some(level as int), info_upto(ls, n - 1).1),
{
    reveal_strlit("Battery Percentage:");
    let d = decimal(level);
    let rest = seq!['('] + d + seq![')'];
    let line = ls[n - 1];
    law_decimal_reads_back(level, 255);
    law_white_space('B');
    law_white_space(')');
    lemma_untouched(line);
    law_prefix("Battery Percentage:"@, rest);
    assert(rest[0] == '(');
    assert forall|k: int| 0 <= k < d.len() as int + 1 implies rest[k] != ')' by {
        if k > 0 {
            assert(rest[k] == d[k - 1]);
        }
    }
    assert(rest[d.len() as int + 1] == ')');
    lemma_find_is(rest, '(', 0, 0);
    lemma_find_is(rest, ')', 0, d.len() as int + 1);
    assert(rest.subrange(1, d.len() as int + 1) =~= d);
    assert forall|k: int| 0 <= k < d.len() implies !is_whitespace(#[trigger] d[k]) by {
        law_white_space(d[k]);
    }
    assert(d.len() > 0);
    assert(!is_whitespace(d[0]) && !is_whitespace(d.last()));
    lemma_untouched(d);
}

proof fn lemma_untouched(s: Seq<char>)
    requires
        s.len() > 0,
        !is_whitespace(s[0]),
        !is_whitespace(s.last()),
    ensures
        trim(s) == s,
{
    law_trim_undoes_padding(seq![], s, seq![]);
    assert(Seq::<char>::empty() + s + Seq::<char>::empty() =~= s);
}

/// An icon line sets the icon and leaves the level; a line on anything else changes
/// neither. Before the first line there is no level and no icon.
pub proof fn law_icon_line(ls: Seq<Seq<char>>, n: int, icon: Seq<char>)
    requires
        0 < n <= ls.len(),
        icon.len() > 0,
        !is_whitespace(icon[0]),
        !is_whitespace(icon.last()),
    ensures
        ls[n - 1] == "Icon:"@ + (seq![' '] + icon) ==> info_upto(ls, n) == (
            info_upto(ls, n - 1).0,
            icon,
        ),
        trim(ls[n - 1]).len() > 0 && trim(ls[n - 1])[0] != 'B' && trim(ls[n - 1])[0] != 'I'
            ==> info_upto(ls, n) == info_upto(ls, n - 1),
        info_upto(ls, 0) == (None::<int>, Seq::<char>::empty()),
        device_info_spec(None) == (None::<int>, Seq::<char>::empty()),
{
    reveal_strlit("Battery Percentage:");
    reveal_strlit("Icon:");
    let line = ls[n - 1];
    if line == "Icon:"@ + (seq![' '] + icon) {
        law_white_space('I');
        law_white_space(' ');
        assert(line.last() == icon.last());
        lemma_untouched(line);
        law_prefix("Icon:"@, seq![' '] + icon);
        lemma_no_prefix(line, "Battery Percentage:"@, 0);
        law_trim_undoes_padding(seq![' '], icon, seq![]);
        assert(seq![' '] + icon + Seq::<char>::empty() =~= seq![' '] + icon);
    }
    let t = trim(line);
    if t.len() > 0 && t[0] != 'B' && t[0] != 'I' {
        lemma_no_prefix(t, "Battery Percentage:"@, 0);
        lemma_no_prefix(t, "Icon:"@, 0);
    }
}

/// What is handed on of an unfinished line is its prompt; a line that only looks like one
/// is noted, and any other is waited for.
pub proof fn law_unfinished_lines(tail: Seq<char>, mac: Seq<char>)
    ensures
        prompt_event(tail) matches Some(e) ==> tail_output(tail).len() == 2 && tail_output(tail)[1]
            == BtOutputView::Event(e),
        prompt_event(tail) is None && cleaned(tail).len() == 0 ==> tail_output(tail).len() == 0,
        prompt_event(tail) is None && looks_like_prompt(cleaned(tail)) ==> tail_output(tail)
            == seq![BtOutputView::Log("<<tail? "@ + cleaned(tail))],
        prompt_event(tail) is None && !looks_like_prompt(cleaned(tail)) ==> tail_output(tail).len()
            == 0,
{
}

/// Lines about the agent, passkeys, PINs, pairing and failures are logged; a question is
/// taken for a prompt.
#[verifier::rlimit(30)]
pub proof fn law_what_is_logged(a: Seq<char>, b: Seq<char>)
    ensures
        worth_logging(a + "agent"@ + b),
        worth_logging(a + "asskey"@ + b),
        worth_logging(a + "PIN"@ + b),
        worth_logging(a + "Paired"@ + b),
        worth_logging(a + "Pairing"@ + b),
        worth_logging(a + "Failed"@ + b),
        worth_logging(a + "Authentic"@ + b),
        looks_like_prompt(a + "yes/no"@ + b),
        looks_like_prompt(a + "PIN"@ + b),
        looks_like_prompt(a + "asskey"@ + b),
        !worth_logging(seq![]),
        !looks_like_prompt(seq![]),
{
    reveal_strlit("agent");
    reveal_strlit("asskey");
    reveal_strlit("PIN");
    reveal_strlit("Paired");
    reveal_strlit("Pairing");
    reveal_strlit("Failed");
    reveal_strlit("Authentic");
    reveal_strlit("yes/no");
    law_find_text(a, "agent"@, b);
    law_find_text(a, "asskey"@, b);
    law_find_text(a, "PIN"@, b);
    law_find_text(a, "Paired"@, b);
    law_find_text(a, "Pairing"@, b);
    law_find_text(a, "Failed"@, b);
    law_find_text(a, "Authentic"@, b);
    law_find_text(a, "yes/no"@, b);
}

/// A complete line is logged where it is worth it, before what it says.
pub proof fn law_line_output(line: Seq<char>)
    ensures
        worth_logging(cleaned(line)) ==> line_output(line).len() > 0 && line_output(line)[0]
            == BtOutputView::Log("<< "@ + cleaned(line)),
        line_event(line) matches Some(e) ==> line_output(line).len() > 0 && line_output(line).last()
            == BtOutputView::Event(e),
        line_event(line) is None && prompt_event(line) is None && !worth_logging(cleaned(line))
            ==> line_output(line).len() == 0,
        line_event(line) is None ==> complete_line_event(line) == prompt_event(line),
{
}

/// Scripts and logs lie below the home directory, or below `/tmp` without one; the bus is
/// the user's own.
pub proof fn law_places(home: &str, runtime: &str)
    requires
        home@.len() > 0,
        home@.last() != '/',
    ensures
        script_dir(Some(home)) == home@ + seq!['/'] + ".cache/bacak"@,
        home_or_tmp(Some(home)) == home@,
        home_or_tmp(None) == "/tmp"@,
        user_bus(Some(runtime)) == "unix:path="@ + runtime@ + "/bus"@,
        user_bus(None) == "unix:path="@ + "/run/user/1000"@ + "/bus"@,
{
    law_path_join(home@, ".cache/bacak"@);
}

/// A passkey that is to be typed on the other side is handed on with its digits and no
/// others; a question about pairing without one is handed on without one.
#[verifier::spinoff_prover]
#[verifier::rlimit(40)]
pub proof fn law_display_prompt(before: Seq<char>, code: Seq<char>, rest: Seq<char>)
    requires
        !before.contains('C'),
        !rest.contains('C'),
        find_text_from(before + "Passkey: "@ + code + rest, "Passkey: "@, 0) == before.len(),
        code.len() > 0,
        forall|i: int| 0 <= i < code.len() ==> '0' <= #[trigger] code[i] <= '9',
        rest.len() > 0 ==> !('0' <= rest[0] <= '9'),
    ensures
        bare_prompt_event(before + "Passkey: "@ + code + rest) == Some(
            (BtEventView::DisplayPasskey { mac: Seq::empty(), passkey: code }),
        ),
{
    let key = "Passkey: "@;
    let s = before + key + code + rest;
    let lo = (before.len() + key.len()) as int;
    assert forall|k: int| lo <= k < lo + code.len() implies is_digit(#[trigger] s[k]) by {
        assert(s[k] == code[k - lo]);
    }
    if rest.len() > 0 {
        assert(s[lo + code.len()] == rest[0]);
    }
    lemma_digits_end(s, lo, lo + code.len());
    assert(s.subrange(lo, lo + code.len()) =~= code);
    reveal_strlit("Confirm passkey ");
    reveal_strlit("Confirm pairing");
    reveal_strlit("Passkey: ");
    let middle = key + code;
    assert(s =~= before + middle + rest);
    assert forall|i: int| 0 <= i < middle.len() implies #[trigger] middle[i] != 'C' by {
        if i >= key.len() {
            assert(middle[i] == code[i - key.len()]);
        }
    }
    lemma_not_said(s, "Confirm passkey "@, before, middle, rest);
    lemma_not_said(s, "Confirm pairing"@, before, middle, rest);
}

} // verus!
