//! Shell plugins: the modular layer of the user's experience.
//!
//! Every feature of the shell (the dock, the on-screen keyboard, the launcher …)
//! is a plugin of one registry. Plugins are drawn by their layer and asked about
//! input by a priority of its own, and the first that consumes an event ends its
//! walk.

use vstd::prelude::*;

use crate::wm::{OutputId, WinState};

pub mod apps_menu;
pub mod control_center;
pub mod ctx;
pub mod desktop_settings;
pub mod dock;
pub mod events;
pub mod gestures;
pub mod onboarding;
pub mod overview;
pub mod screenshot;
pub mod selection;
pub mod touch;

verus! {

/// What of the session decides which plugins are active.
#[derive(Debug, Clone, Copy, PartialEq, Eq, Structural)]
pub struct ShellFacts {
    /// Whether this is the login screen.
    pub greeter: bool,
    /// Whether the configuration wants the dock.
    pub dock: bool,
    /// Whether a window covers some output.
    pub fullscreen: bool,
    /// Which optional packages are installed.
    pub network: bool,
    pub audio: bool,
    pub desktop_settings: bool,
    pub uzakel: bool,
    /// Whether the remote desktop panel is open.
    pub remote_desktop: bool,
}

/// A shell plugin.
pub trait Plugin {
    spec fn id_spec(&self) -> Seq<char>;

    spec fn z_spec(&self) -> int;

    spec fn input_z_spec(&self) -> int;

    spec fn enabled_spec(&self, facts: ShellFacts) -> bool;

    /// Stable identifier.
    fn id(&self) -> (r: &'static str)
        ensures
            r@ == self.id_spec(),
    ;

    /// Render layer: higher is drawn on top.
    fn z(&self) -> (r: i32)
        ensures
            r == self.z_spec(),
    ;

    /// Input priority: higher is asked first about a press.
    fn input_z(&self) -> (r: i32)
        ensures
            r == self.input_z_spec(),
    ;

    /// Whether the plugin is active.
    fn enabled(&self, facts: &ShellFacts) -> (r: bool)
        ensures
            r == self.enabled_spec(*facts),
    ;
}

/// The text-selection overlays and their input: handles and the action menu sit on
/// top of everything, just below the keyboard for input.
#[derive(Debug, Clone, Copy, PartialEq, Eq, Structural)]
pub struct SelectionPlugin;

impl Plugin for SelectionPlugin {
    open spec fn id_spec(&self) -> Seq<char> {
        "selection"@
    }

    open spec fn z_spec(&self) -> int {
        210
    }

    open spec fn input_z_spec(&self) -> int {
        95
    }

    open spec fn enabled_spec(&self, facts: ShellFacts) -> bool {
        true
    }

    fn id(&self) -> (r: &'static str) {
        "selection"
    }

    fn z(&self) -> (r: i32) {
        210
    }

    fn input_z(&self) -> (r: i32) {
        95
    }

    fn enabled(&self, _facts: &ShellFacts) -> (r: bool) {
        true
    }
}

/// The recent-apps carousel: a full-screen mode that covers the dock and the
/// keyboard, yet takes a press after the keyboard.
#[derive(Debug, Clone, Copy, PartialEq, Eq, Structural)]
pub struct OverviewPlugin;

impl Plugin for OverviewPlugin {
    open spec fn id_spec(&self) -> Seq<char> {
        "overview"@
    }

    open spec fn z_spec(&self) -> int {
        200
    }

    open spec fn input_z_spec(&self) -> int {
        80
    }

    open spec fn enabled_spec(&self, facts: ShellFacts) -> bool {
        true
    }

    fn id(&self) -> (r: &'static str) {
        "overview"
    }

    fn z(&self) -> (r: i32) {
        200
    }

    fn input_z(&self) -> (r: i32) {
        80
    }

    fn enabled(&self, _facts: &ShellFacts) -> (r: bool) {
        true
    }
}

/// The dialog of the first session, above the screenshot dialog: it interrupts
/// whatever else could be open when a fresh session starts.
#[derive(Debug, Clone, Copy, PartialEq, Eq, Structural)]
pub struct OnboardingPlugin;

impl Plugin for OnboardingPlugin {
    open spec fn id_spec(&self) -> Seq<char> {
        "onboarding"@
    }

    open spec fn z_spec(&self) -> int {
        72
    }

    open spec fn input_z_spec(&self) -> int {
        92
    }

    open spec fn enabled_spec(&self, facts: ShellFacts) -> bool {
        true
    }

    fn id(&self) -> (r: &'static str) {
        "onboarding"
    }

    fn z(&self) -> (r: i32) {
        72
    }

    fn input_z(&self) -> (r: i32) {
        92
    }

    fn enabled(&self, _facts: &ShellFacts) -> (r: bool) {
        true
    }
}

/// The capture options dialog and the "saved" notice.
#[derive(Debug, Clone, Copy, PartialEq, Eq, Structural)]
pub struct ScreenshotPlugin;

impl Plugin for ScreenshotPlugin {
    open spec fn id_spec(&self) -> Seq<char> {
        "screenshot"@
    }

    open spec fn z_spec(&self) -> int {
        70
    }

    open spec fn input_z_spec(&self) -> int {
        90
    }

    open spec fn enabled_spec(&self, facts: ShellFacts) -> bool {
        true
    }

    fn id(&self) -> (r: &'static str) {
        "screenshot"
    }

    fn z(&self) -> (r: i32) {
        70
    }

    fn input_z(&self) -> (r: i32) {
        90
    }

    fn enabled(&self, _facts: &ShellFacts) -> (r: bool) {
        true
    }
}

/// The application launcher grid.
#[derive(Debug, Clone, Copy, PartialEq, Eq, Structural)]
pub struct AppsMenuPlugin;

impl Plugin for AppsMenuPlugin {
    open spec fn id_spec(&self) -> Seq<char> {
        "apps_menu"@
    }

    open spec fn z_spec(&self) -> int {
        60
    }

    open spec fn input_z_spec(&self) -> int {
        70
    }

    open spec fn enabled_spec(&self, facts: ShellFacts) -> bool {
        facts.dock
    }

    fn id(&self) -> (r: &'static str) {
        "apps_menu"
    }

    fn z(&self) -> (r: i32) {
        60
    }

    fn input_z(&self) -> (r: i32) {
        70
    }

    fn enabled(&self, facts: &ShellFacts) -> (r: bool) {
        facts.dock
    }
}

/// The quick-settings panel.
#[derive(Debug, Clone, Copy, PartialEq, Eq, Structural)]
pub struct ControlCenterPlugin;

impl Plugin for ControlCenterPlugin {
    open spec fn id_spec(&self) -> Seq<char> {
        "control_center"@
    }

    open spec fn z_spec(&self) -> int {
        60
    }

    open spec fn input_z_spec(&self) -> int {
        72
    }

    open spec fn enabled_spec(&self, facts: ShellFacts) -> bool {
        facts.dock
    }

    fn id(&self) -> (r: &'static str) {
        "control_center"
    }

    fn z(&self) -> (r: i32) {
        60
    }

    fn input_z(&self) -> (r: i32) {
        72
    }

    fn enabled(&self, facts: &ShellFacts) -> (r: bool) {
        facts.dock
    }
}

/// Wi-Fi, Bluetooth and Ethernet panels, when their package is installed.
#[derive(Debug, Clone, Copy, PartialEq, Eq, Structural)]
pub struct NetworkPlugin;

impl Plugin for NetworkPlugin {
    open spec fn id_spec(&self) -> Seq<char> {
        "network"@
    }

    open spec fn z_spec(&self) -> int {
        61
    }

    open spec fn input_z_spec(&self) -> int {
        73
    }

    open spec fn enabled_spec(&self, facts: ShellFacts) -> bool {
        facts.network
    }

    fn id(&self) -> (r: &'static str) {
        "network"
    }

    fn z(&self) -> (r: i32) {
        61
    }

    fn input_z(&self) -> (r: i32) {
        73
    }

    fn enabled(&self, facts: &ShellFacts) -> (r: bool) {
        facts.network
    }
}

/// Output and microphone panels, when their package is installed.
#[derive(Debug, Clone, Copy, PartialEq, Eq, Structural)]
pub struct AudioPlugin;

impl Plugin for AudioPlugin {
    open spec fn id_spec(&self) -> Seq<char> {
        "audio"@
    }

    open spec fn z_spec(&self) -> int {
        62
    }

    open spec fn input_z_spec(&self) -> int {
        74
    }

    open spec fn enabled_spec(&self, facts: ShellFacts) -> bool {
        facts.audio
    }

    fn id(&self) -> (r: &'static str) {
        "audio"
    }

    fn z(&self) -> (r: i32) {
        62
    }

    fn input_z(&self) -> (r: i32) {
        74
    }

    fn enabled(&self, facts: &ShellFacts) -> (r: bool) {
        facts.audio
    }
}

/// Desktop settings, when their package is installed.
#[derive(Debug, Clone, Copy, PartialEq, Eq, Structural)]
pub struct DesktopSettingsPlugin;

impl Plugin for DesktopSettingsPlugin {
    open spec fn id_spec(&self) -> Seq<char> {
        "desktop_settings"@
    }

    open spec fn z_spec(&self) -> int {
        62
    }

    open spec fn input_z_spec(&self) -> int {
        74
    }

    open spec fn enabled_spec(&self, facts: ShellFacts) -> bool {
        facts.desktop_settings
    }

    fn id(&self) -> (r: &'static str) {
        "desktop_settings"
    }

    fn z(&self) -> (r: i32) {
        62
    }

    fn input_z(&self) -> (r: i32) {
        74
    }

    fn enabled(&self, facts: &ShellFacts) -> (r: bool) {
        facts.desktop_settings
    }
}

/// The pairing code of the phone app, when its package is installed.
#[derive(Debug, Clone, Copy, PartialEq, Eq, Structural)]
pub struct UzakelPlugin;

impl Plugin for UzakelPlugin {
    open spec fn id_spec(&self) -> Seq<char> {
        "uzakel"@
    }

    open spec fn z_spec(&self) -> int {
        62
    }

    open spec fn input_z_spec(&self) -> int {
        74
    }

    open spec fn enabled_spec(&self, facts: ShellFacts) -> bool {
        facts.uzakel
    }

    fn id(&self) -> (r: &'static str) {
        "uzakel"
    }

    fn z(&self) -> (r: i32) {
        62
    }

    fn input_z(&self) -> (r: i32) {
        74
    }

    fn enabled(&self, facts: &ShellFacts) -> (r: bool) {
        facts.uzakel
    }
}

/// The remote desktop panel, while it is open.
#[derive(Debug, Clone, Copy, PartialEq, Eq, Structural)]
pub struct RemoteDesktopPlugin;

impl Plugin for RemoteDesktopPlugin {
    open spec fn id_spec(&self) -> Seq<char> {
        "remote_desktop"@
    }

    open spec fn z_spec(&self) -> int {
        63
    }

    open spec fn input_z_spec(&self) -> int {
        75
    }

    open spec fn enabled_spec(&self, facts: ShellFacts) -> bool {
        facts.remote_desktop
    }

    fn id(&self) -> (r: &'static str) {
        "remote_desktop"
    }

    fn z(&self) -> (r: i32) {
        63
    }

    fn input_z(&self) -> (r: i32) {
        75
    }

    fn enabled(&self, facts: &ShellFacts) -> (r: bool) {
        facts.remote_desktop
    }
}

/// The on-screen keyboard: above the dock, below the menus, and first to be asked
/// about a press.
#[derive(Debug, Clone, Copy, PartialEq, Eq, Structural)]
pub struct KeyboardPlugin;

impl Plugin for KeyboardPlugin {
    open spec fn id_spec(&self) -> Seq<char> {
        "keyboard"@
    }

    open spec fn z_spec(&self) -> int {
        40
    }

    open spec fn input_z_spec(&self) -> int {
        100
    }

    open spec fn enabled_spec(&self, facts: ShellFacts) -> bool {
        true
    }

    fn id(&self) -> (r: &'static str) {
        "keyboard"
    }

    fn z(&self) -> (r: i32) {
        40
    }

    fn input_z(&self) -> (r: i32) {
        100
    }

    fn enabled(&self, _facts: &ShellFacts) -> (r: bool) {
        true
    }
}

/// The dock and its floating button, below the keyboard. It hides while a window
/// covers an output.
#[derive(Debug, Clone, Copy, PartialEq, Eq, Structural)]
pub struct DockPlugin;

impl Plugin for DockPlugin {
    open spec fn id_spec(&self) -> Seq<char> {
        "dock"@
    }

    open spec fn z_spec(&self) -> int {
        30
    }

    open spec fn input_z_spec(&self) -> int {
        30
    }

    open spec fn enabled_spec(&self, facts: ShellFacts) -> bool {
        !facts.greeter && facts.dock && !facts.fullscreen
    }

    fn id(&self) -> (r: &'static str) {
        "dock"
    }

    fn z(&self) -> (r: i32) {
        30
    }

    fn input_z(&self) -> (r: i32) {
        30
    }

    fn enabled(&self, facts: &ShellFacts) -> (r: bool) {
        !facts.greeter && facts.dock && !facts.fullscreen
    }
}

/// What recognised gestures do. It draws nothing and takes no press.
#[derive(Debug, Clone, Copy, PartialEq, Eq, Structural)]
pub struct GesturePlugin;

impl Plugin for GesturePlugin {
    open spec fn id_spec(&self) -> Seq<char> {
        "gestures"@
    }

    open spec fn z_spec(&self) -> int {
        -10
    }

    open spec fn input_z_spec(&self) -> int {
        -10
    }

    open spec fn enabled_spec(&self, facts: ShellFacts) -> bool {
        true
    }

    fn id(&self) -> (r: &'static str) {
        "gestures"
    }

    fn z(&self) -> (r: i32) {
        -10
    }

    fn input_z(&self) -> (r: i32) {
        -10
    }

    fn enabled(&self, _facts: &ShellFacts) -> (r: bool) {
        true
    }
}

/// The plugins of the registry.
#[derive(Debug, Clone, Copy, PartialEq, Eq, Structural)]
pub enum ShellPlugin {
    Selection,
    Overview,
    Onboarding,
    Screenshot,
    AppsMenu,
    ControlCenter,
    Network,
    Audio,
    DesktopSettings,
    Uzakel,
    RemoteDesktop,
    Keyboard,
    Dock,
    Gestures,
}

impl Plugin for ShellPlugin {
    open spec fn id_spec(&self) -> Seq<char> {
        match self {
            ShellPlugin::Selection => SelectionPlugin.id_spec(),
            ShellPlugin::Overview => OverviewPlugin.id_spec(),
            ShellPlugin::Onboarding => OnboardingPlugin.id_spec(),
            ShellPlugin::Screenshot => ScreenshotPlugin.id_spec(),
            ShellPlugin::AppsMenu => AppsMenuPlugin.id_spec(),
            ShellPlugin::ControlCenter => ControlCenterPlugin.id_spec(),
            ShellPlugin::Network => NetworkPlugin.id_spec(),
            ShellPlugin::Audio => AudioPlugin.id_spec(),
            ShellPlugin::DesktopSettings => DesktopSettingsPlugin.id_spec(),
            ShellPlugin::Uzakel => UzakelPlugin.id_spec(),
            ShellPlugin::RemoteDesktop => RemoteDesktopPlugin.id_spec(),
            ShellPlugin::Keyboard => KeyboardPlugin.id_spec(),
            ShellPlugin::Dock => DockPlugin.id_spec(),
            ShellPlugin::Gestures => GesturePlugin.id_spec(),
        }
    }

    open spec fn z_spec(&self) -> int {
        match self {
            ShellPlugin::Selection => SelectionPlugin.z_spec(),
            ShellPlugin::Overview => OverviewPlugin.z_spec(),
            ShellPlugin::Onboarding => OnboardingPlugin.z_spec(),
            ShellPlugin::Screenshot => ScreenshotPlugin.z_spec(),
            ShellPlugin::AppsMenu => AppsMenuPlugin.z_spec(),
            ShellPlugin::ControlCenter => ControlCenterPlugin.z_spec(),
            ShellPlugin::Network => NetworkPlugin.z_spec(),
            ShellPlugin::Audio => AudioPlugin.z_spec(),
            ShellPlugin::DesktopSettings => DesktopSettingsPlugin.z_spec(),
            ShellPlugin::Uzakel => UzakelPlugin.z_spec(),
            ShellPlugin::RemoteDesktop => RemoteDesktopPlugin.z_spec(),
            ShellPlugin::Keyboard => KeyboardPlugin.z_spec(),
            ShellPlugin::Dock => DockPlugin.z_spec(),
            ShellPlugin::Gestures => GesturePlugin.z_spec(),
        }
    }

    open spec fn input_z_spec(&self) -> int {
        match self {
            ShellPlugin::Selection => SelectionPlugin.input_z_spec(),
            ShellPlugin::Overview => OverviewPlugin.input_z_spec(),
            ShellPlugin::Onboarding => OnboardingPlugin.input_z_spec(),
            ShellPlugin::Screenshot => ScreenshotPlugin.input_z_spec(),
            ShellPlugin::AppsMenu => AppsMenuPlugin.input_z_spec(),
            ShellPlugin::ControlCenter => ControlCenterPlugin.input_z_spec(),
            ShellPlugin::Network => NetworkPlugin.input_z_spec(),
            ShellPlugin::Audio => AudioPlugin.input_z_spec(),
            ShellPlugin::DesktopSettings => DesktopSettingsPlugin.input_z_spec(),
            ShellPlugin::Uzakel => UzakelPlugin.input_z_spec(),
            ShellPlugin::RemoteDesktop => RemoteDesktopPlugin.input_z_spec(),
            ShellPlugin::Keyboard => KeyboardPlugin.input_z_spec(),
            ShellPlugin::Dock => DockPlugin.input_z_spec(),
            ShellPlugin::Gestures => GesturePlugin.input_z_spec(),
        }
    }

    open spec fn enabled_spec(&self, facts: ShellFacts) -> bool {
        match self {
            ShellPlugin::Selection => SelectionPlugin.enabled_spec(facts),
            ShellPlugin::Overview => OverviewPlugin.enabled_spec(facts),
            ShellPlugin::Onboarding => OnboardingPlugin.enabled_spec(facts),
            ShellPlugin::Screenshot => ScreenshotPlugin.enabled_spec(facts),
            ShellPlugin::AppsMenu => AppsMenuPlugin.enabled_spec(facts),
            ShellPlugin::ControlCenter => ControlCenterPlugin.enabled_spec(facts),
            ShellPlugin::Network => NetworkPlugin.enabled_spec(facts),
            ShellPlugin::Audio => AudioPlugin.enabled_spec(facts),
            ShellPlugin::DesktopSettings => DesktopSettingsPlugin.enabled_spec(facts),
            ShellPlugin::Uzakel => UzakelPlugin.enabled_spec(facts),
            ShellPlugin::RemoteDesktop => RemoteDesktopPlugin.enabled_spec(facts),
            ShellPlugin::Keyboard => KeyboardPlugin.enabled_spec(facts),
            ShellPlugin::Dock => DockPlugin.enabled_spec(facts),
            ShellPlugin::Gestures => GesturePlugin.enabled_spec(facts),
        }
    }

    fn id(&self) -> (r: &'static str) {
        match self {
            ShellPlugin::Selection => SelectionPlugin.id(),
            ShellPlugin::Overview => OverviewPlugin.id(),
            ShellPlugin::Onboarding => OnboardingPlugin.id(),
            ShellPlugin::Screenshot => ScreenshotPlugin.id(),
            ShellPlugin::AppsMenu => AppsMenuPlugin.id(),
            ShellPlugin::ControlCenter => ControlCenterPlugin.id(),
            ShellPlugin::Network => NetworkPlugin.id(),
            ShellPlugin::Audio => AudioPlugin.id(),
            ShellPlugin::DesktopSettings => DesktopSettingsPlugin.id(),
            ShellPlugin::Uzakel => UzakelPlugin.id(),
            ShellPlugin::RemoteDesktop => RemoteDesktopPlugin.id(),
            ShellPlugin::Keyboard => KeyboardPlugin.id(),
            ShellPlugin::Dock => DockPlugin.id(),
            ShellPlugin::Gestures => GesturePlugin.id(),
        }
    }

    fn z(&self) -> (r: i32) {
        match self {
            ShellPlugin::Selection => SelectionPlugin.z(),
            ShellPlugin::Overview => OverviewPlugin.z(),
            ShellPlugin::Onboarding => OnboardingPlugin.z(),
            ShellPlugin::Screenshot => ScreenshotPlugin.z(),
            ShellPlugin::AppsMenu => AppsMenuPlugin.z(),
            ShellPlugin::ControlCenter => ControlCenterPlugin.z(),
            ShellPlugin::Network => NetworkPlugin.z(),
            ShellPlugin::Audio => AudioPlugin.z(),
            ShellPlugin::DesktopSettings => DesktopSettingsPlugin.z(),
            ShellPlugin::Uzakel => UzakelPlugin.z(),
            ShellPlugin::RemoteDesktop => RemoteDesktopPlugin.z(),
            ShellPlugin::Keyboard => KeyboardPlugin.z(),
            ShellPlugin::Dock => DockPlugin.z(),
            ShellPlugin::Gestures => GesturePlugin.z(),
        }
    }

    fn input_z(&self) -> (r: i32) {
        match self {
            ShellPlugin::Selection => SelectionPlugin.input_z(),
            ShellPlugin::Overview => OverviewPlugin.input_z(),
            ShellPlugin::Onboarding => OnboardingPlugin.input_z(),
            ShellPlugin::Screenshot => ScreenshotPlugin.input_z(),
            ShellPlugin::AppsMenu => AppsMenuPlugin.input_z(),
            ShellPlugin::ControlCenter => ControlCenterPlugin.input_z(),
            ShellPlugin::Network => NetworkPlugin.input_z(),
            ShellPlugin::Audio => AudioPlugin.input_z(),
            ShellPlugin::DesktopSettings => DesktopSettingsPlugin.input_z(),
            ShellPlugin::Uzakel => UzakelPlugin.input_z(),
            ShellPlugin::RemoteDesktop => RemoteDesktopPlugin.input_z(),
            ShellPlugin::Keyboard => KeyboardPlugin.input_z(),
            ShellPlugin::Dock => DockPlugin.input_z(),
            ShellPlugin::Gestures => GesturePlugin.input_z(),
        }
    }

    fn enabled(&self, facts: &ShellFacts) -> (r: bool) {
        match self {
            ShellPlugin::Selection => SelectionPlugin.enabled(facts),
            ShellPlugin::Overview => OverviewPlugin.enabled(facts),
            ShellPlugin::Onboarding => OnboardingPlugin.enabled(facts),
            ShellPlugin::Screenshot => ScreenshotPlugin.enabled(facts),
            ShellPlugin::AppsMenu => AppsMenuPlugin.enabled(facts),
            ShellPlugin::ControlCenter => ControlCenterPlugin.enabled(facts),
            ShellPlugin::Network => NetworkPlugin.enabled(facts),
            ShellPlugin::Audio => AudioPlugin.enabled(facts),
            ShellPlugin::DesktopSettings => DesktopSettingsPlugin.enabled(facts),
            ShellPlugin::Uzakel => UzakelPlugin.enabled(facts),
            ShellPlugin::RemoteDesktop => RemoteDesktopPlugin.enabled(facts),
            ShellPlugin::Keyboard => KeyboardPlugin.enabled(facts),
            ShellPlugin::Dock => DockPlugin.enabled(facts),
            ShellPlugin::Gestures => GesturePlugin.enabled(facts),
        }
    }
}

/// The registered plugins. Their order here only breaks ties between equal
/// priorities.
pub open spec fn registry() -> Seq<ShellPlugin> {
    seq![
        ShellPlugin::Selection,
        ShellPlugin::Overview,
        ShellPlugin::Onboarding,
        ShellPlugin::Screenshot,
        ShellPlugin::AppsMenu,
        ShellPlugin::ControlCenter,
        ShellPlugin::Network,
        ShellPlugin::Audio,
        ShellPlugin::DesktopSettings,
        ShellPlugin::Uzakel,
        ShellPlugin::RemoteDesktop,
        ShellPlugin::Keyboard,
        ShellPlugin::Dock,
        ShellPlugin::Gestures,
    ]
}

/// The registered plugins.
pub fn plugins() -> (r: Vec<ShellPlugin>)
    ensures
        r@ == registry(),
{
    let r: Vec<ShellPlugin> = vec![
        ShellPlugin::Selection,
        ShellPlugin::Overview,
        ShellPlugin::Onboarding,
        ShellPlugin::Screenshot,
        ShellPlugin::AppsMenu,
        ShellPlugin::ControlCenter,
        ShellPlugin::Network,
        ShellPlugin::Audio,
        ShellPlugin::DesktopSettings,
        ShellPlugin::Uzakel,
        ShellPlugin::RemoteDesktop,
        ShellPlugin::Keyboard,
        ShellPlugin::Dock,
        ShellPlugin::Gestures,
    ];
    assert(r@ =~= registry());
    r
}

/// The file whose presence says that an optional plugin's package is installed.
pub open spec fn manifest_of(p: ShellPlugin) -> Option<Seq<char>> {
    match p {
        ShellPlugin::Network => Some("/usr/share/bacak/plugins/network.plugin"@),
        ShellPlugin::Audio => Some("/usr/share/bacak/plugins/audio.plugin"@),
        ShellPlugin::DesktopSettings => Some(
            "/usr/share/bacak/plugins/desktop-settings.plugin"@,
        ),
        ShellPlugin::Uzakel => Some("/usr/share/uzakel/plugins/uzakel.plugin"@),
        _ => None,
    }
}

/// The file whose presence says that an optional plugin's package is installed.
pub fn manifest(p: ShellPlugin) -> (r: Option<&'static str>)
    ensures
        (match r {
            Some(s) => Some(s@),
            None => None,
        }) == manifest_of(p),
{
    match p {
        ShellPlugin::Network => Some("/usr/share/bacak/plugins/network.plugin"),
        ShellPlugin::Audio => Some("/usr/share/bacak/plugins/audio.plugin"),
        ShellPlugin::DesktopSettings => Some("/usr/share/bacak/plugins/desktop-settings.plugin"),
        ShellPlugin::Uzakel => Some("/usr/share/uzakel/plugins/uzakel.plugin"),
        _ => None,
    }
}

// ---------------------------------------------------------------------------
// Order
// ---------------------------------------------------------------------------

/// By what plugins are put in order.
#[derive(Debug, Clone, Copy, PartialEq, Eq, Structural)]
pub enum Priority {
    Layer,
    Input,
}

pub open spec fn rank(p: ShellPlugin, by: Priority) -> int {
    match by {
        Priority::Layer => p.z_spec(),
        Priority::Input => p.input_z_spec(),
    }
}

fn rank_of(p: ShellPlugin, by: Priority) -> (r: i32)
    ensures
        r == rank(p, by),
{
    match by {
        Priority::Layer => p.z(),
        Priority::Input => p.input_z(),
    }
}

/// Where `p` goes in a list that is in order already: behind all that rank as
/// high.
pub open spec fn slot_in(list: Seq<ShellPlugin>, p: ShellPlugin, by: Priority, i: int) -> int
    decreases list.len() - i,
{
    if i < 0 || i >= list.len() {
        list.len() as int
    } else if rank(list[i], by) < rank(p, by) {
        i
    } else {
        slot_in(list, p, by, i + 1)
    }
}

/// The first `n` of `list`, highest rank first, equal ones as they stood.
pub open spec fn ranked(list: Seq<ShellPlugin>, by: Priority, n: int) -> Seq<ShellPlugin>
    decreases n,
{
    if n <= 0 {
        seq![]
    } else {
        let before = ranked(list, by, n - 1);
        before.insert(slot_in(before, list[n - 1], by, 0), list[n - 1])
    }
}

proof fn lemma_slot_in(list: Seq<ShellPlugin>, p: ShellPlugin, by: Priority, i: int)
    requires
        0 <= i <= list.len(),
    ensures
        i <= slot_in(list, p, by, i) <= list.len(),
        forall|k: int| i <= k < slot_in(list, p, by, i) ==> rank(#[trigger] list[k], by) >= rank(p, by),
        slot_in(list, p, by, i) < list.len() ==> rank(list[slot_in(list, p, by, i)], by) < rank(p, by),
    decreases list.len() - i,
{
    if i < list.len() && rank(list[i], by) >= rank(p, by) {
        lemma_slot_in(list, p, by, i + 1);
    }
}

/// A list of plugins, highest rank first.
pub fn in_order(list: &Vec<ShellPlugin>, by: Priority) -> (r: Vec<ShellPlugin>)
    ensures
        r@ == ranked(list@, by, list@.len() as int),
{
    let mut r: Vec<ShellPlugin> = Vec::new();
    let mut n: usize = 0;
    assert(r@ =~= seq![]);
    while n < list.len()
        invariant
            n <= list.len(),
            r@ == ranked(list@, by, n as int),
        decreases list.len() - n,
    {
        let p: ShellPlugin = list[n];
        let mut i: usize = 0;
        while i < r.len() && rank_of(r[i], by) >= rank_of(p, by)
            invariant
                i <= r.len(),
                slot_in(r@, p, by, 0) == slot_in(r@, p, by, i as int),
            decreases r.len() - i,
        {
            i += 1;
        }
        r.insert(i, p);
        n += 1;
    }
    r
}

/// The order in which plugins are asked about input.
pub fn input_order() -> (r: Vec<ShellPlugin>)
    ensures
        r@ == ranked(registry(), Priority::Input, registry().len() as int),
{
    in_order(&plugins(), Priority::Input)
}

pub open spec fn active_upto(list: Seq<ShellPlugin>, facts: ShellFacts, n: int) -> Seq<ShellPlugin>
    decreases n,
{
    if n <= 0 {
        seq![]
    } else if list[n - 1].enabled_spec(facts) {
        active_upto(list, facts, n - 1).push(list[n - 1])
    } else {
        active_upto(list, facts, n - 1)
    }
}

/// The plugins that are active, in the order of the registry.
pub open spec fn active(facts: ShellFacts) -> Seq<ShellPlugin> {
    active_upto(registry(), facts, registry().len() as int)
}

/// The plugins to draw, top-most first.
pub fn render_overlays(facts: &ShellFacts) -> (r: Vec<ShellPlugin>)
    ensures
        r@ == ranked(active(*facts), Priority::Layer, active(*facts).len() as int),
{
    let all: Vec<ShellPlugin> = plugins();
    let mut list: Vec<ShellPlugin> = Vec::new();
    let mut n: usize = 0;
    assert(list@ =~= seq![]);
    while n < all.len()
        invariant
            n <= all.len(),
            all@ == registry(),
            list@ == active_upto(all@, *facts, n as int),
        decreases all.len() - n,
    {
        if all[n].enabled(facts) {
            list.push(all[n]);
        }
        n += 1;
    }
    in_order(&list, Priority::Layer)
}

// ---------------------------------------------------------------------------
// Dispatch
// ---------------------------------------------------------------------------

/// The first active plugin from index `i` on; the length where there is none.
pub open spec fn next_active(list: Seq<ShellPlugin>, facts: ShellFacts, i: int) -> int
    decreases list.len() - i,
{
    if i < 0 || i >= list.len() {
        list.len() as int
    } else if list[i].enabled_spec(facts) {
        i
    } else {
        next_active(list, facts, i + 1)
    }
}

/// What is next in the walk of an event.
#[derive(Debug, Clone, Copy, PartialEq, Eq, Structural)]
pub enum DispatchStep {
    /// Hand the event to this plugin, and come back with whether it consumed it.
    Ask(ShellPlugin),
    /// The walk is over, with the plugin that consumed the event.
    Done(Option<ShellPlugin>),
}

impl DispatchStep {
    /// The identifier of the plugin that consumed the event.
    pub fn consumer(&self) -> (r: Option<&'static str>)
        ensures
            match *self {
                DispatchStep::Done(Some(p)) => r is Some && r->0@ == p.id_spec(),
                _ => r is None,
            },
    {
        match *self {
            DispatchStep::Done(Some(p)) => Some(p.id()),
            _ => None,
        }
    }
}

/// The walk of one event over the plugins. It ends with the first plugin that
/// consumes the event.
pub struct Dispatch {
    order: Vec<ShellPlugin>,
    at: usize,
    asked: Option<ShellPlugin>,
}

#[verifier::ext_equal]
pub struct DispatchView {
    pub order: Seq<ShellPlugin>,
    /// How many were asked or passed over.
    pub at: int,
    /// Who was asked and has not answered.
    pub asked: Option<ShellPlugin>,
}

impl DispatchView {
    pub open spec fn wf(self) -> bool {
        0 <= self.at <= self.order.len()
    }

    /// The walk with the next active plugin asked, as the session is now; over
    /// where there is none.
    pub open spec fn asking(self, facts: ShellFacts) -> (DispatchView, DispatchStep) {
        let i = next_active(self.order, facts, self.at);
        if i < self.order.len() {
            (
                DispatchView { order: self.order, at: i + 1, asked: Some(self.order[i]) },
                DispatchStep::Ask(self.order[i]),
            )
        } else {
            (
                DispatchView { order: self.order, at: self.order.len() as int, asked: None },
                DispatchStep::Done(None),
            )
        }
    }

    /// The walk once the plugin that was asked has answered.
    pub open spec fn answered(self, facts: ShellFacts, consumed: bool) -> (
        DispatchView,
        DispatchStep,
    ) {
        if consumed {
            (
                DispatchView { order: self.order, at: self.order.len() as int, asked: None },
                DispatchStep::Done(self.asked),
            )
        } else {
            self.asking(facts)
        }
    }
}

/// The walk before anyone was asked.
pub open spec fn fresh_walk() -> DispatchView {
    DispatchView {
        order: ranked(registry(), Priority::Input, registry().len() as int),
        at: 0,
        asked: None,
    }
}

impl View for Dispatch {
    type V = DispatchView;

    closed spec fn view(&self) -> DispatchView {
        DispatchView { order: self.order@, at: self.at as int, asked: self.asked }
    }
}

impl Dispatch {
    /// Start the walk: the first active plugin is asked.
    pub fn start(facts: &ShellFacts) -> (r: (Dispatch, DispatchStep))
        ensures
            (r.0@, r.1) == fresh_walk().asking(*facts),
            r.0@.wf(),
    {
        let mut walk = Dispatch { order: input_order(), at: 0, asked: None };
        let step: DispatchStep = walk.ask(facts);
        (walk, step)
    }

    fn ask(&mut self, facts: &ShellFacts) -> (r: DispatchStep)
        requires
            old(self)@.wf(),
        ensures
            (final(self)@, r) == old(self)@.asking(*facts),
            final(self)@.wf(),
    {
        let ghost from = self.at as int;
        while self.at < self.order.len()
            invariant
                self.at <= self.order.len(),
                self.order@ == old(self)@.order,
                0 <= from == old(self)@.at,
                next_active(self.order@, *facts, from) == next_active(
                    self.order@,
                    *facts,
                    self.at as int,
                ),
            decreases self.order.len() - self.at,
        {
            let p: ShellPlugin = self.order[self.at];
            self.at = self.at + 1;
            if p.enabled(facts) {
                self.asked = Some(p);
                return DispatchStep::Ask(p);
            }
        }
        self.asked = None;
        DispatchStep::Done(None)
    }

    /// The plugin that was asked has answered: the walk ends with it where it
    /// consumed the event, and goes on to the next active plugin otherwise.
    pub fn answered(&mut self, facts: &ShellFacts, p: ShellPlugin, consumed: bool) -> (r:
        DispatchStep)
        requires
            old(self)@.wf(),
            old(self)@.asked == Some(p),
        ensures
            (final(self)@, r) == old(self)@.answered(*facts, consumed),
            final(self)@.wf(),
    {
        if consumed {
            self.at = self.order.len();
            self.asked = None;
            DispatchStep::Done(Some(p))
        } else {
            self.ask(facts)
        }
    }
}

/// Whether a frame must be drawn, after every plugin ticked: one that reported a
/// change is enough, and none is left out on that account. The reports are those
/// of the whole registry, in its order.
pub fn tick_all(reports: &Vec<bool>) -> (r: bool)
    requires
        reports@.len() == registry().len(),
    ensures
        r == reports@.contains(true),
{
    let mut dirty: bool = false;
    let mut i: usize = 0;
    while i < reports.len()
        invariant
            i <= reports.len(),
            dirty == (exists|k: int| 0 <= k < i && #[trigger] reports@[k]),
        decreases reports.len() - i,
    {
        if reports[i] {
            dirty = true;
        }
        i += 1;
    }
    proof {
        if dirty {
            let k = choose|k: int| 0 <= k < reports@.len() && #[trigger] reports@[k];
            assert(reports@[k] == true);
        } else if reports@.contains(true) {
            let k = choose|k: int| 0 <= k < reports@.len() && reports@[k] == true;
            assert(reports@[k]);
        }
    }
    dirty
}

// ---------------------------------------------------------------------------
// Fullscreen
// ---------------------------------------------------------------------------

/// A window as far as covering its output goes.
#[derive(Debug, Clone, Copy, PartialEq, Eq, Structural)]
pub struct ShownWindow {
    pub output: OutputId,
    pub state: WinState,
}

pub open spec fn covered(windows: Seq<ShownWindow>, output: OutputId) -> bool {
    exists|i: int|
        0 <= i < windows.len() && (#[trigger] windows[i]).output == output && windows[i].state
            == WinState::Fullscreen
}

/// Whether some window on an output covers it, on whichever workspace it is.
pub fn output_has_fullscreen(windows: &Vec<ShownWindow>, output: OutputId) -> (r: bool)
    ensures
        r == covered(windows@, output),
{
    let mut i: usize = 0;
    while i < windows.len()
        invariant
            i <= windows.len(),
            forall|k: int|
                0 <= k < i ==> !((#[trigger] windows@[k]).output == output && windows@[k].state
                    == WinState::Fullscreen),
        decreases windows.len() - i,
    {
        if windows[i].output == output {
            if let WinState::Fullscreen = windows[i].state {
                assert(windows@[i as int].output == output);
                return true;
            }
        }
        i += 1;
    }
    false
}

/// Whether some output is covered: the dock hides everywhere while it is.
pub fn any_fullscreen(outputs: &Vec<OutputId>, windows: &Vec<ShownWindow>) -> (r: bool)
    ensures
        r == (exists|o: int| 0 <= o < outputs@.len() && covered(windows@, #[trigger] outputs@[o])),
{
    let mut o: usize = 0;
    while o < outputs.len()
        invariant
            o <= outputs.len(),
            forall|k: int| 0 <= k < o ==> !covered(windows@, #[trigger] outputs@[k]),
        decreases outputs.len() - o,
    {
        if output_has_fullscreen(windows, outputs[o]) {
            assert(covered(windows@, outputs@[o as int]));
            return true;
        }
        o += 1;
    }
    false
}

// ---------------------------------------------------------------------------
// Laws
// ---------------------------------------------------------------------------

/// No two plugins share an identifier.
pub proof fn law_ids_distinct(i: int, j: int)
    requires
        0 <= i < j < registry().len(),
    ensures
        registry()[i].id_spec() != registry()[j].id_spec(),
{
    lemma_ids(registry()[i], registry()[j]);
}

proof fn lemma_ids(a: ShellPlugin, b: ShellPlugin)
    requires
        a != b,
    ensures
        a.id_spec() != b.id_spec(),
{
    reveal_strlit("selection");
    reveal_strlit("overview");
    reveal_strlit("onboarding");
    reveal_strlit("screenshot");
    reveal_strlit("apps_menu");
    reveal_strlit("control_center");
    reveal_strlit("network");
    reveal_strlit("audio");
    reveal_strlit("desktop_settings");
    reveal_strlit("uzakel");
    reveal_strlit("remote_desktop");
    reveal_strlit("keyboard");
    reveal_strlit("dock");
    reveal_strlit("gestures");
    let (s, t) = (a.id_spec(), b.id_spec());
    if s == t {
        assert(s.len() == t.len());
        assert(s[0] == t[0] && s[1] == t[1]);
    }
}

/// In order means: whoever stands first ranks at least as high.
pub proof fn law_ranked(list: Seq<ShellPlugin>, by: Priority, n: int)
    requires
        0 <= n <= list.len(),
    ensures
        ranked(list, by, n).len() == n,
        forall|i: int, j: int|
            0 <= i < j < n ==> rank(#[trigger] ranked(list, by, n)[i], by) >= rank(
                #[trigger] ranked(list, by, n)[j],
                by,
            ),
    decreases n,
{
    if n > 0 {
        law_ranked(list, by, n - 1);
        let before = ranked(list, by, n - 1);
        lemma_slot_in(before, list[n - 1], by, 0);
        let k = slot_in(before, list[n - 1], by, 0);
        let r = ranked(list, by, n);
        assert(r == before.insert(k, list[n - 1]));
        assert forall|i: int, j: int| 0 <= i < j < n implies rank(#[trigger] r[i], by) >= rank(
            #[trigger] r[j],
            by,
        ) by {
            let x = if i < k {
                before[i]
            } else if i == k {
                list[n - 1]
            } else {
                before[i - 1]
            };
            let y = if j < k {
                before[j]
            } else if j == k {
                list[n - 1]
            } else {
                before[j - 1]
            };
            assert(r[i] == x && r[j] == y);
            if i == k {
                if k < before.len() {
                    assert(rank(before[k], by) < rank(list[n - 1], by));
                    assert(rank(before[k], by) >= rank(before[j - 1], by));
                }
            }
        }
    }
}

/// Putting plugins in order loses none and adds none.
pub proof fn law_ranked_keeps(list: Seq<ShellPlugin>, by: Priority, n: int)
    requires
        0 <= n <= list.len(),
    ensures
        ranked(list, by, n).to_multiset() == list.take(n).to_multiset(),
    decreases n,
{
    broadcast use vstd::seq_lib::group_to_multiset_ensures;

    if n > 0 {
        law_ranked_keeps(list, by, n - 1);
        law_ranked(list, by, n - 1);
        let before = ranked(list, by, n - 1);
        lemma_slot_in(before, list[n - 1], by, 0);
        let k = slot_in(before, list[n - 1], by, 0);
        vstd::seq_lib::to_multiset_insert(before, k, list[n - 1]);
        assert(list.take(n) =~= list.take(n - 1).push(list[n - 1]));
    } else {
        assert(list.take(0) =~= seq![]);
        assert(ranked(list, by, 0) =~= seq![]);
    }
}

/// The keyboard is drawn above the dock, so that it can overlap it at the bottom
/// edge; the launcher is drawn above the keyboard, and the overview above both.
pub proof fn law_layers()
    ensures
        KeyboardPlugin.z_spec() > DockPlugin.z_spec(),
        AppsMenuPlugin.z_spec() > KeyboardPlugin.z_spec(),
        OverviewPlugin.z_spec() >= AppsMenuPlugin.z_spec(),
{
}

/// The keyboard is asked about a press before every other plugin, though others
/// are drawn on top of it.
pub proof fn law_keyboard_first(p: ShellPlugin)
    ensures
        p != ShellPlugin::Keyboard ==> p.input_z_spec() < KeyboardPlugin.input_z_spec(),
{
}

/// What came back from the plugin that was asked, and how the session was then.
pub struct Turn {
    pub facts: ShellFacts,
    pub consumed: bool,
}

/// The walk after the first `n` answers, in a session that may change with each.
pub open spec fn walked(first: ShellFacts, turns: Seq<Turn>, n: int) -> (
    DispatchView,
    DispatchStep,
)
    decreases n,
{
    if n <= 0 {
        fresh_walk().asking(first)
    } else {
        let before = walked(first, turns, n - 1);
        if before.1 is Ask {
            before.0.answered(turns[n - 1].facts, turns[n - 1].consumed)
        } else {
            before
        }
    }
}

proof fn lemma_walked(first: ShellFacts, turns: Seq<Turn>, n: int)
    requires
        0 <= n <= turns.len(),
    ensures
        ({
            let (v, step) = walked(first, turns, n);
            &&& v.wf()
            &&& v.order == fresh_walk().order
            &&& step matches DispatchStep::Ask(p) ==> v.at > n && v.asked == Some(p)
                && v.order[v.at - 1] == p
        }),
    decreases n,
{
    if n > 0 {
        lemma_walked(first, turns, n - 1);
        let before = walked(first, turns, n - 1).0;
        lemma_next_active(before.order, turns[n - 1].facts, before.at);
    } else {
        lemma_next_active(fresh_walk().order, first, 0);
    }
}

proof fn lemma_walked_on(first: ShellFacts, turns: Seq<Turn>, i: int, j: int)
    requires
        0 <= i <= j <= turns.len(),
    ensures
        walked(first, turns, i).1 is Done ==> walked(first, turns, j) == walked(first, turns, i),
        i < j && walked(first, turns, j).1 is Ask ==> walked(first, turns, i).0.at < walked(
            first,
            turns,
            j,
        ).0.at,
    decreases j - i,
{
    if i < j {
        lemma_walked_on(first, turns, i, j - 1);
        lemma_walked(first, turns, j - 1);
        let before = walked(first, turns, j - 1).0;
        lemma_next_active(before.order, turns[j - 1].facts, before.at);
    }
}

pub proof fn lemma_input_order()
    ensures
        fresh_walk().order.no_duplicates(),
        forall|p: ShellPlugin| #[trigger] fresh_walk().order.contains(p),
{
    broadcast use vstd::seq_lib::group_to_multiset_ensures;

    let n = registry().len() as int;
    let order = fresh_walk().order;
    law_ranked_keeps(registry(), Priority::Input, n);
    assert(registry().take(n) =~= registry());
    registry().lemma_multiset_has_no_duplicates();
    assert forall|p: ShellPlugin| #[trigger] order.to_multiset().contains(p) implies
        order.to_multiset().count(p) == 1 by {
        assert(registry().to_multiset().contains(p));
    }
    order.lemma_multiset_has_no_duplicates_conv();
    assert forall|p: ShellPlugin| #[trigger] order.contains(p) by {
        lemma_registered(p);
        assert(order.to_multiset().count(p) > 0);
    }
}

proof fn lemma_registered(p: ShellPlugin)
    ensures
        registry().contains(p),
{
    let i = match p {
        ShellPlugin::Selection => 0int,
        ShellPlugin::Overview => 1,
        ShellPlugin::Onboarding => 2,
        ShellPlugin::Screenshot => 3,
        ShellPlugin::AppsMenu => 4,
        ShellPlugin::ControlCenter => 5,
        ShellPlugin::Network => 6,
        ShellPlugin::Audio => 7,
        ShellPlugin::DesktopSettings => 8,
        ShellPlugin::Uzakel => 9,
        ShellPlugin::RemoteDesktop => 10,
        ShellPlugin::Keyboard => 11,
        ShellPlugin::Dock => 12,
        ShellPlugin::Gestures => 13,
    };
    assert(registry()[i] == p);
}

/// The first plugin that consumes an event ends its walk: nobody is asked after
/// it, and the walk stays over with it, whatever would be answered.
pub proof fn law_first_consumer_ends(first: ShellFacts, turns: Seq<Turn>, i: int, j: int)
    requires
        0 <= i < j <= turns.len(),
        walked(first, turns, i).1 is Ask,
        turns[i].consumed,
    ensures
        walked(first, turns, j).1 == DispatchStep::Done(Some(walked(first, turns, i).1->Ask_0)),
{
    lemma_walked(first, turns, i);
    lemma_walked_on(first, turns, i + 1, j);
}

/// A walk ends with a plugin only where that plugin was asked and consumed the
/// event, and without one only where all that were asked declined.
pub proof fn law_consumer_was_asked(first: ShellFacts, turns: Seq<Turn>, n: int)
    requires
        0 <= n <= turns.len(),
    ensures
        walked(first, turns, n).1 matches DispatchStep::Done(Some(p)) ==> exists|i: int|
            0 <= i < n && turns[i].consumed && #[trigger] walked(first, turns, i).1
                == DispatchStep::Ask(p),
        walked(first, turns, n).1 == DispatchStep::Done(None) ==> forall|i: int|
            0 <= i < n && #[trigger] walked(first, turns, i).1 is Ask ==> !turns[i].consumed,
    decreases n,
{
    if n > 0 {
        law_consumer_was_asked(first, turns, n - 1);
        lemma_walked(first, turns, n - 1);
        let before = walked(first, turns, n - 1);
        if before.1 is Ask && turns[n - 1].consumed {
            assert(walked(first, turns, n - 1).1 == DispatchStep::Ask(before.0.asked->0));
        }
        if walked(first, turns, n).1 == DispatchStep::Done(None) {
            assert forall|i: int| 0 <= i < n && #[trigger] walked(first, turns, i).1 is Ask implies
                !turns[i].consumed by {
                if turns[i].consumed {
                    law_first_consumer_ends(first, turns, i, n);
                }
            }
        }
    }
}

/// Each plugin is asked at most once, and none before one of higher input
/// priority that is asked too.
pub proof fn law_asked_once_in_order(first: ShellFacts, turns: Seq<Turn>, i: int, j: int)
    requires
        0 <= i < j <= turns.len(),
        walked(first, turns, i).1 is Ask,
        walked(first, turns, j).1 is Ask,
    ensures
        ({
            let p = walked(first, turns, i).1->Ask_0;
            let q = walked(first, turns, j).1->Ask_0;
            p != q && rank(p, Priority::Input) >= rank(q, Priority::Input)
        }),
{
    lemma_walked(first, turns, i);
    lemma_walked(first, turns, j);
    lemma_walked_on(first, turns, i, j);
    lemma_input_order();
    law_ranked(registry(), Priority::Input, registry().len() as int);
}

/// Where a walk that is at `at` ends, for an event that the plugins of which
/// `consumes` holds would consume, in a session that stays as it is; the length
/// where all decline.
pub open spec fn consumed_at(
    order: Seq<ShellPlugin>,
    facts: ShellFacts,
    consumes: spec_fn(ShellPlugin) -> bool,
    at: int,
) -> int
    decreases order.len() - at,
    when 0 <= at
{
    let i = next_active(order, facts, at);
    if i >= order.len() || i < at {
        order.len() as int
    } else if consumes(order[i]) {
        i
    } else {
        consumed_at(order, facts, consumes, i + 1)
    }
}

/// Whether a plugin would get the event if it were asked.
pub open spec fn takes(
    p: ShellPlugin,
    facts: ShellFacts,
    consumes: spec_fn(ShellPlugin) -> bool,
) -> bool {
    p.enabled_spec(facts) && consumes(p)
}

pub proof fn lemma_next_active(list: Seq<ShellPlugin>, facts: ShellFacts, i: int)
    requires
        0 <= i <= list.len(),
    ensures
        i <= next_active(list, facts, i) <= list.len(),
        next_active(list, facts, i) < list.len() ==> list[next_active(
            list,
            facts,
            i,
        )].enabled_spec(facts),
        forall|k: int|
            i <= k < next_active(list, facts, i) ==> !(#[trigger] list[k]).enabled_spec(facts),
    decreases list.len() - i,
{
    if i < list.len() && !list[i].enabled_spec(facts) {
        lemma_next_active(list, facts, i + 1);
    }
}

proof fn lemma_consumed_at(
    order: Seq<ShellPlugin>,
    facts: ShellFacts,
    consumes: spec_fn(ShellPlugin) -> bool,
    at: int,
    j: int,
)
    requires
        0 <= at <= j < order.len(),
        takes(order[j], facts, consumes),
    ensures
        at <= consumed_at(order, facts, consumes, at) <= j,
        takes(order[consumed_at(order, facts, consumes, at)], facts, consumes),
    decreases order.len() - at,
{
    lemma_next_active(order, facts, at);
    let i = next_active(order, facts, at);
    assert(i <= j);
    if !consumes(order[i]) {
        lemma_consumed_at(order, facts, consumes, i + 1, j);
    }
}

/// An event that some active plugin consumes goes to one of those with the
/// highest input priority.
pub proof fn law_event_goes_to_first(
    facts: ShellFacts,
    consumes: spec_fn(ShellPlugin) -> bool,
    q: ShellPlugin,
)
    requires
        registry().contains(q),
        takes(q, facts, consumes),
    ensures
        ({
            let order = ranked(registry(), Priority::Input, registry().len() as int);
            let k = consumed_at(order, facts, consumes, 0);
            &&& k < order.len()
            &&& takes(order[k], facts, consumes)
            &&& rank(order[k], Priority::Input) >= rank(q, Priority::Input)
        }),
{
    broadcast use vstd::seq_lib::group_to_multiset_ensures;

    let n = registry().len() as int;
    let order = ranked(registry(), Priority::Input, n);
    law_ranked(registry(), Priority::Input, n);
    law_ranked_keeps(registry(), Priority::Input, n);
    assert(registry().take(n) =~= registry());
    assert(order.to_multiset().count(q) > 0);
    assert(order.contains(q));
    let j = choose|j: int| 0 <= j < order.len() && order[j] == q;
    lemma_consumed_at(order, facts, consumes, 0, j);
}

/// From the top: what the keyboard does not take goes to a selection, then to first
/// steps, the screenshot, the overview, the remote desktop, the panels, the launcher and
/// the dock; gestures get what nobody wanted.
pub proof fn law_who_is_asked_first()
    ensures
        ShellPlugin::Keyboard.input_z_spec() > ShellPlugin::Selection.input_z_spec(),
        ShellPlugin::Selection.input_z_spec() > ShellPlugin::Onboarding.input_z_spec(),
        ShellPlugin::Onboarding.input_z_spec() > ShellPlugin::Screenshot.input_z_spec(),
        ShellPlugin::Screenshot.input_z_spec() > ShellPlugin::Overview.input_z_spec(),
        ShellPlugin::Overview.input_z_spec() > ShellPlugin::RemoteDesktop.input_z_spec(),
        ShellPlugin::RemoteDesktop.input_z_spec() > ShellPlugin::Audio.input_z_spec(),
        ShellPlugin::Audio.input_z_spec() == ShellPlugin::DesktopSettings.input_z_spec(),
        ShellPlugin::Audio.input_z_spec() == ShellPlugin::Uzakel.input_z_spec(),
        ShellPlugin::Audio.input_z_spec() > ShellPlugin::Network.input_z_spec(),
        ShellPlugin::Network.input_z_spec() > ShellPlugin::ControlCenter.input_z_spec(),
        ShellPlugin::ControlCenter.input_z_spec() > ShellPlugin::AppsMenu.input_z_spec(),
        ShellPlugin::AppsMenu.input_z_spec() > ShellPlugin::Dock.input_z_spec(),
        ShellPlugin::Dock.input_z_spec() > ShellPlugin::Gestures.input_z_spec(),
{
}

/// From the top: a selection's menu is drawn over everything, then the overview, first
/// steps, the screenshot, the remote desktop, the panels, the launcher, the keyboard and
/// the dock; gestures draw nothing that could cover anything.
pub proof fn law_who_is_drawn_on_top()
    ensures
        ShellPlugin::Selection.z_spec() > ShellPlugin::Overview.z_spec(),
        ShellPlugin::Overview.z_spec() > ShellPlugin::Onboarding.z_spec(),
        ShellPlugin::Onboarding.z_spec() > ShellPlugin::Screenshot.z_spec(),
        ShellPlugin::Screenshot.z_spec() > ShellPlugin::RemoteDesktop.z_spec(),
        ShellPlugin::RemoteDesktop.z_spec() > ShellPlugin::Audio.z_spec(),
        ShellPlugin::Audio.z_spec() == ShellPlugin::DesktopSettings.z_spec(),
        ShellPlugin::Audio.z_spec() == ShellPlugin::Uzakel.z_spec(),
        ShellPlugin::Audio.z_spec() > ShellPlugin::Network.z_spec(),
        ShellPlugin::Network.z_spec() > ShellPlugin::ControlCenter.z_spec(),
        ShellPlugin::ControlCenter.z_spec() == ShellPlugin::AppsMenu.z_spec(),
        ShellPlugin::AppsMenu.z_spec() > ShellPlugin::Keyboard.z_spec(),
        ShellPlugin::Keyboard.z_spec() > ShellPlugin::Dock.z_spec(),
        ShellPlugin::Dock.z_spec() > ShellPlugin::Gestures.z_spec(),
{
}

/// The dock hides on the login screen and behind a window that covers an output; the
/// launcher and the control center go with the dock's switch, each optional plugin with
/// its package, and every other plugin is always there.
pub proof fn law_who_is_active(f: ShellFacts)
    ensures
        ShellPlugin::Dock.enabled_spec(f) <==> f.dock && !f.greeter && !f.fullscreen,
        ShellPlugin::AppsMenu.enabled_spec(f) <==> f.dock,
        ShellPlugin::ControlCenter.enabled_spec(f) <==> f.dock,
        ShellPlugin::Network.enabled_spec(f) <==> f.network,
        ShellPlugin::Audio.enabled_spec(f) <==> f.audio,
        ShellPlugin::DesktopSettings.enabled_spec(f) <==> f.desktop_settings,
        ShellPlugin::Uzakel.enabled_spec(f) <==> f.uzakel,
        ShellPlugin::RemoteDesktop.enabled_spec(f) <==> f.remote_desktop,
        ShellPlugin::Keyboard.enabled_spec(f),
        ShellPlugin::Selection.enabled_spec(f),
        ShellPlugin::Overview.enabled_spec(f),
        ShellPlugin::Onboarding.enabled_spec(f),
        ShellPlugin::Screenshot.enabled_spec(f),
        ShellPlugin::Gestures.enabled_spec(f),
{
}

/// A plugin is known by its own name, and the optional ones are looked for where their
/// packages leave their manifests.
pub proof fn law_names()
    ensures
        ShellPlugin::Selection.id_spec() == "selection"@,
        ShellPlugin::Overview.id_spec() == "overview"@,
        ShellPlugin::Onboarding.id_spec() == "onboarding"@,
        ShellPlugin::Screenshot.id_spec() == "screenshot"@,
        ShellPlugin::AppsMenu.id_spec() == "apps_menu"@,
        ShellPlugin::ControlCenter.id_spec() == "control_center"@,
        ShellPlugin::Network.id_spec() == "network"@,
        ShellPlugin::Audio.id_spec() == "audio"@,
        ShellPlugin::DesktopSettings.id_spec() == "desktop_settings"@,
        ShellPlugin::Uzakel.id_spec() == "uzakel"@,
        ShellPlugin::RemoteDesktop.id_spec() == "remote_desktop"@,
        ShellPlugin::Keyboard.id_spec() == "keyboard"@,
        ShellPlugin::Dock.id_spec() == "dock"@,
        ShellPlugin::Gestures.id_spec() == "gestures"@,
        manifest_of(ShellPlugin::Network) == Some("/usr/share/bacak/plugins/network.plugin"@),
        manifest_of(ShellPlugin::Audio) == Some("/usr/share/bacak/plugins/audio.plugin"@),
        manifest_of(ShellPlugin::DesktopSettings) == Some(
            "/usr/share/bacak/plugins/desktop-settings.plugin"@,
        ),
        manifest_of(ShellPlugin::Uzakel) == Some("/usr/share/uzakel/plugins/uzakel.plugin"@),
        manifest_of(ShellPlugin::Dock) is None,
        manifest_of(ShellPlugin::Keyboard) is None,
        manifest_of(ShellPlugin::RemoteDesktop) is None,
{
}

/// Every plugin is registered, once.
pub proof fn law_all_registered(p: ShellPlugin)
    ensures
        registry().contains(p),
        registry().len() == 14,
{
    let r = registry();
    assert(r[0] == ShellPlugin::Selection && r[1] == ShellPlugin::Overview && r[2]
        == ShellPlugin::Onboarding && r[3] == ShellPlugin::Screenshot && r[4]
        == ShellPlugin::AppsMenu && r[5] == ShellPlugin::ControlCenter && r[6]
        == ShellPlugin::Network && r[7] == ShellPlugin::Audio && r[8]
        == ShellPlugin::DesktopSettings && r[9] == ShellPlugin::Uzakel && r[10]
        == ShellPlugin::RemoteDesktop && r[11] == ShellPlugin::Keyboard && r[12]
        == ShellPlugin::Dock && r[13] == ShellPlugin::Gestures);
}

/// What is drawn is just what is active: an active plugin is among them, and one that
/// is not is not.
pub proof fn law_active(facts: ShellFacts, p: ShellPlugin)
    ensures
        active(facts).contains(p) == p.enabled_spec(facts),
{
    law_all_registered(p);
    lemma_active(registry(), facts, p, registry().len() as int);
    assert(registry().take(registry().len() as int) =~= registry());
}

proof fn lemma_active(list: Seq<ShellPlugin>, facts: ShellFacts, p: ShellPlugin, n: int)
    requires
        0 <= n <= list.len(),
    ensures
        active_upto(list, facts, n).contains(p) == (list.take(n).contains(p) && p.enabled_spec(
            facts,
        )),
    decreases n,
{
    if n > 0 {
        lemma_active(list, facts, p, n - 1);
        let a = active_upto(list, facts, n - 1);
        assert(list.take(n) =~= list.take(n - 1).push(list[n - 1]));
        lemma_one_more(a, list[n - 1], p);
        lemma_one_more(list.take(n - 1), list[n - 1], p);
    }
}

proof fn lemma_one_more(s: Seq<ShellPlugin>, a: ShellPlugin, b: ShellPlugin)
    ensures
        s.push(a).contains(b) == (s.contains(b) || a == b),
{
    let t = s.push(a);
    if s.contains(b) {
        let i = choose|i: int| 0 <= i < s.len() && s[i] == b;
        assert(t[i] == b);
    }
    assert(t[s.len() as int] == a);
    if t.contains(b) {
        let i = choose|i: int| 0 <= i < t.len() && t[i] == b;
        if i < s.len() {
            assert(s[i] == b);
        }
    }
}

/// An output is covered by a fullscreen window on it, and by no window elsewhere or
/// shown otherwise.
pub proof fn law_covered(w: ShownWindow, output: OutputId)
    ensures
        covered(seq![w], output) <==> w.output == output && w.state == WinState::Fullscreen,
        !covered(seq![], output),
{
    assert(seq![w][0] == w);
}

} // verus!
