//! What the tiles and rows of the quick-settings panels do.

use vstd::prelude::*;

use crate::controls::{WifiDetails, WifiNet};

verus! {

/// What a tile of the control center does when it is tapped.
#[derive(Debug, Clone, Copy, PartialEq, Eq, Structural)]
pub enum CcAction {
    WifiToggle,
    BtToggle,
    /// Open the Ethernet settings panel.
    EthernetSettings,
    DarkToggle,
    Volume,
    Brightness,
    /// Capture the whole output.
    Screenshot,
    PowerOff,
    Reboot,
    Logout,
    /// Open the audio output device picker.
    AudioSettings,
    /// The microphone volume slider.
    MicVolume,
    /// Open the microphone device picker.
    MicSettings,
    /// Open the desktop settings panel.
    DesktopSettings,
}

/// How a tile looks.
#[derive(Debug, Clone, Copy, PartialEq, Eq, Structural)]
pub enum CcKind {
    /// A pill that lights up when on.
    Toggle,
    /// A track that is filled from the left to its level.
    Slider,
    /// A flat button; a dangerous one is painted red.
    Button { danger: bool },
}

/// What a row of the Wi-Fi picker does when it is tapped.
#[derive(Debug, Clone, PartialEq, Eq)]
pub enum WifiAction {
    /// Connect; a secured network asks for its password first.
    Connect { ssid: String, secured: bool },
    ClosePanel,
    /// Connect with the typed password.
    PwConnect,
    /// Back from the password to the list.
    PwCancel,
    ToggleRadio,
    OpenDetails,
    ToggleAutoconnect,
    ToggleLink,
    SetDhcp,
    SetStatic,
    Back,
    /// A row that is only read.
    Info,
    /// Accept the current field of a static address; the last one applies it.
    StaticNext,
    StaticCancel,
}

/// A static address that is being typed.
#[derive(Debug, Clone, PartialEq, Eq)]
pub struct StaticEntry {
    pub conn: String,
    /// The field being typed: the address, the gateway, then the name server.
    pub step: u8,
    pub ip: String,
    pub gateway: String,
    pub gw_prefill: String,
    pub dns_prefill: String,
}

/// What a background worker hands to the Wi-Fi picker.
#[derive(Debug, Clone, PartialEq, Eq)]
pub enum WifiMsg {
    /// A cached scan for the first paint; a fresh one follows.
    ScannedPartial(Vec<WifiNet>),
    /// The fresh scan, which ends scanning.
    Scanned(Vec<WifiNet>),
    /// A connection attempt ended, with the reason where it failed.
    Connected { ssid: String, ok: bool, msg: String },
    Details(WifiDetails),
}

/// What a row of the Bluetooth picker does when it is tapped.
#[derive(Debug, Clone, PartialEq, Eq)]
pub enum BtAction {
    Pair(String),
    Connect(String),
    Disconnect(String),
    Forget(String),
    /// A section's heading, which does nothing.
    Header,
    Scan,
    TogglePower,
    Close,
}

/// A pairing prompt over the Bluetooth picker.
#[derive(Debug, Clone, PartialEq, Eq)]
pub enum BtDialogKind {
    /// Does the shown passkey match the other side?
    ConfirmPasskey(String),
    /// A passkey to enter on the other side.
    DisplayPasskey(String),
    EnterPin,
    EnterPasskey,
}

/// What a row of the audio device picker does when it is tapped.
#[derive(Debug, Clone, PartialEq, Eq)]
pub enum AudioAction {
    SelectSink(String),
    SelectSource(String),
    Close,
}

} // verus!
