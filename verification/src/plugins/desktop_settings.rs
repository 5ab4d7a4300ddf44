//! Desktop settings: appearance, and what needs the root password.

use vstd::prelude::*;

use crate::config::default_config;
use crate::text::{chars_of, extension, extension_of, lowercase, str_eq, string_of};

verus! {

/// The solid colours that a wallpaper can have.
pub open spec fn preset_colours() -> Seq<[u8; 3]> {
    seq![
        [10, 14, 22],
        [28, 65, 110],
        [20, 78, 60],
        [88, 42, 114],
        [128, 32, 48],
        [176, 96, 22],
        [72, 76, 84],
        [225, 225, 215],
    ]
}

/// The solid colours that a wallpaper can have; the first is the default.
pub fn wallpaper_presets() -> (r: Vec<[u8; 3]>)
    ensures
        r@ == preset_colours(),
{
    let r: Vec<[u8; 3]> = vec![
        [10, 14, 22],
        [28, 65, 110],
        [20, 78, 60],
        [88, 42, 114],
        [128, 32, 48],
        [176, 96, 22],
        [72, 76, 84],
        [225, 225, 215],
    ];
    assert(r@ =~= preset_colours());
    r
}

/// What a row of the settings does when it is tapped.
#[derive(Debug, Clone, PartialEq, Eq)]
pub enum DsAction {
    ToggleDarkMode,
    SetWallpaper(usize),
    SetWallpaperImage,
    OpenResolutionList,
    SetResolution(usize),
    /// The highest supported mode.
    ResolutionAuto,
    OpenFontList,
    SetFont(usize),
    FontAuto,
    OpenIconThemeList,
    SetIconTheme(usize),
    IconThemeAuto,
    BackToMain,
    /// These three need the root password.
    EditHostname,
    ToggleAutoLogin,
    ChangePassword,
}

/// What the settings panel shows.
#[derive(Debug, Clone, PartialEq, Eq)]
pub enum DsMode {
    Main,
    /// The root password is asked for; then `pending` runs.
    Auth { pending: DsAction },
    HostnameEntry { original: String },
    WallpaperImageEntry,
    /// The new password, then the same again.
    PwChange { phase: u8, new_pw: String },
}

/// What a background worker hands to the panel.
#[derive(Debug, Clone, PartialEq, Eq)]
pub enum DsResult {
    /// The password was right; the action goes on with it.
    AuthOk(DsAction, String),
    AuthFail,
    HostnameSet(bool),
    AutoLoginSet(bool),
    PasswordSet(bool),
}

/// Whether pictures with this extension can be shown, given in lower case.
pub open spec fn picture_extension(lowered: Seq<char>) -> bool {
    lowered == "png"@ || lowered == "jpg"@ || lowered == "jpeg"@ || lowered == "webp"@
}

/// Whether pictures with this extension can be shown, given in lower case.
pub fn is_picture_extension(lowered: &str) -> (r: bool)
    ensures
        r == picture_extension(lowered@),
{
    str_eq(lowered, "png") || str_eq(lowered, "jpg") || str_eq(lowered, "jpeg") || str_eq(
        lowered,
        "webp",
    )
}

/// Whether a path has the extension of a picture that can be shown, in whatever
/// case it is written.
pub fn is_image_path(path: &str) -> (r: bool)
    ensures
        r == (extension(path@) matches Some(e) && picture_extension(lowercase(e))),
{
    let path: Vec<char> = chars_of(path);
    match extension_of(path.as_slice()) {
        Some(e) => {
            let e: String = string_of(e.as_slice());
            let lowered: String = e.as_str().to_lowercase();
            is_picture_extension(lowered.as_str())
        },
        None => false,
    }
}

/// Pictures are PNG, JPEG and WebP files, and nothing else.
#[verifier::rlimit(30)]
pub proof fn law_picture_extensions(e: Seq<char>)
    ensures
        picture_extension("png"@),
        picture_extension("jpg"@),
        picture_extension("jpeg"@),
        picture_extension("webp"@),
        e.len() < 3 || e.len() > 4 ==> !picture_extension(e),
        !picture_extension("gif"@),
{
    reveal_strlit("png");
    reveal_strlit("jpg");
    reveal_strlit("jpeg");
    reveal_strlit("webp");
    reveal_strlit("gif");
    assert("gif"@[0] == 'g' && "png"@[0] == 'p' && "jpg"@[0] == 'j');
    assert("png"@.len() == 3 && "jpg"@.len() == 3 && "gif"@.len() == 3 && "jpeg"@.len() == 4
        && "webp"@.len() == 4);
}

/// The first colour on offer is the one a fresh configuration has, and no colour is
/// offered twice.
pub proof fn law_preset_colours(i: int, j: int)
    requires
        0 <= i < j < 8,
    ensures
        preset_colours().len() == 8,
        preset_colours()[0]@ == default_config().wallpaper_color,
        preset_colours()[i]@[0] != preset_colours()[j]@[0],
{
    assert(preset_colours()[0]@ =~= seq![10u8, 14u8, 22u8]);
}

} // verus!
