//! How apps are launched: the command line, the environment and the log file.
//! Spawning the process itself is left to the caller.

use vstd::prelude::*;

use crate::controls::{opt_run, run, Invocation, InvocationView};
use crate::text::{
    ascii_lower_all, chars_of, concat3, find_text_from, is_digit, is_str, lower_all, mentions, opt_str, own,
    split, split_at_char, string_of, strings, strs, texts, words, words_of, law_find_text,
    lemma_split_concat, lemma_split_whole,
};

verus! {

/// The session's startup client, given `$BACAK_STARTUP`: a command line parted at
/// white space. Nothing where it is unset or blank.
pub fn startup_command(command: Option<&str>) -> (r: Option<Vec<String>>)
    ensures
        match (r, command) {
            (Some(argv), Some(c)) => strings(argv@) == words(c@) && words(c@).len() > 0,
            (None, Some(c)) => words(c@).len() == 0,
            (None, None) => true,
            _ => false,
        },
{
    let c: &str = match command {
        Some(c) => c,
        None => {
            return None;
        },
    };
    let chars: Vec<char> = chars_of(c);
    let parts: Vec<&[char]> = words_of(chars.as_slice());
    let ghost all = words(c@);
    assert(all.len() == parts.len());
    if parts.len() == 0 {
        return None;
    }
    let mut argv: Vec<String> = Vec::new();
    let mut i: usize = 0;
    assert(strings(argv@) =~= all.take(0));
    while i < parts.len()
        invariant
            i <= parts.len(),
            texts(parts@) == all,
            strings(argv@) == all.take(i as int),
        decreases parts.len() - i,
    {
        let ghost done = strings(argv@);
        assert(all[i as int] == parts@[i as int]@);
        argv.push(string_of(parts[i]));
        assert(strings(argv@) =~= done.push(all[i as int]));
        assert(all.take(i + 1) =~= all.take(i as int).push(all[i as int]));
        i += 1;
    }
    assert(all.take(all.len() as int) =~= all);
    Some(argv)
}

/// The parts of a path that count: neither empty nor a single dot, among the
/// first `n`.
pub open spec fn parts_upto(parts: Seq<Seq<char>>, n: int) -> Seq<Seq<char>>
    decreases n,
{
    if n <= 0 {
        seq![]
    } else if parts[n - 1].len() == 0 || parts[n - 1] == "."@ {
        parts_upto(parts, n - 1)
    } else {
        parts_upto(parts, n - 1).push(parts[n - 1])
    }
}

/// The last component of a path, unless it is the parent directory.
pub open spec fn base_name(path: Seq<char>) -> Option<Seq<char>> {
    let parts = parts_upto(split(path, '/'), split(path, '/').len() as int);
    if parts.len() == 0 || parts.last() == ".."@ {
        None
    } else {
        Some(parts.last())
    }
}

fn base_of(path: &str) -> (r: Option<Vec<char>>)
    ensures
        match r {
            Some(v) => base_name(path@) == Some(v@),
            None => base_name(path@) is None,
        },
{
    let chars: Vec<char> = chars_of(path);
    let parts: Vec<&[char]> = split_at_char(chars.as_slice(), '/');
    let ghost all = split(path@, '/');
    assert(all.len() == parts.len());
    let mut last: Option<usize> = None;
    let mut i: usize = 0;
    while i < parts.len()
        invariant
            i <= parts.len(),
            texts(parts@) == all,
            all.len() == parts.len(),
            match last {
                Some(k) => k < i && parts_upto(all, i as int).len() > 0 && parts_upto(
                    all,
                    i as int,
                ).last() == all[k as int],
                None => parts_upto(all, i as int).len() == 0,
            },
        decreases parts.len() - i,
    {
        assert(all[i as int] == parts@[i as int]@);
        if parts[i].len() != 0 && !is_str(parts[i], ".") {
            last = Some(i);
        }
        i += 1;
    }
    match last {
        Some(k) => {
            assert(all[k as int] == parts@[k as int]@);
            if is_str(parts[k], "..") {
                None
            } else {
                Some(crate::text::copy(parts[k]))
            }
        },
        None => None,
    }
}

/// The name of a program, by its path.
pub fn program_name(path: &str) -> (r: Option<String>)
    ensures
        opt_str(r) == base_name(path@),
{
    match base_of(path) {
        Some(v) => Some(string_of(v.as_slice())),
        None => None,
    }
}

/// Browsers of the Chromium family, which default to X11.
pub open spec fn chromium_family(base: Seq<char>) -> bool {
    base == "chromium"@ || base == "chromium-browser"@ || base == "chrome"@ || base
        == "google-chrome"@ || base == "google-chrome-stable"@ || base == "brave"@ || base
        == "brave-browser"@ || base == "microsoft-edge"@ || base == "vivaldi-stable"@ || base
        == "opera"@
}

fn is_chromium(base: &[char]) -> (r: bool)
    ensures
        r == chromium_family(base@),
{
    is_str(base, "chromium") || is_str(base, "chromium-browser") || is_str(base, "chrome")
        || is_str(base, "google-chrome") || is_str(base, "google-chrome-stable") || is_str(
        base,
        "brave",
    ) || is_str(base, "brave-browser") || is_str(base, "microsoft-edge") || is_str(
        base,
        "vivaldi-stable",
    ) || is_str(base, "opera")
}

/// OnlyOffice under any of its names, whatever their case: its Qt breaks on
/// Wayland and its browser on the GPU.
pub open spec fn onlyoffice(base: Seq<char>) -> bool {
    find_text_from(ascii_lower_all(base), "desktopeditors"@, 0) >= 0 || find_text_from(
        ascii_lower_all(base),
        "onlyoffice"@,
        0,
    ) >= 0
}

fn is_onlyoffice(base: &[char]) -> (r: bool)
    ensures
        r == onlyoffice(base@),
{
    let lower: Vec<char> = lower_all(base);
    mentions(lower.as_slice(), "desktopeditors") || mentions(lower.as_slice(), "onlyoffice")
}

pub type EnvView = Seq<(Seq<char>, Seq<char>)>;

/// What every app is given, to steer toolkits that default to X11 toward Wayland
/// in a session without an X server.
pub open spec fn common_env(qt: Seq<char>) -> EnvView {
    seq![
        ("QT_QPA_PLATFORM"@, qt),
        ("QT_X11_NO_MITSHM"@, "1"@),
        ("SDL_VIDEODRIVER"@, "wayland"@),
        ("CLUTTER_BACKEND"@, "wayland"@),
        ("MOZ_ENABLE_WAYLAND"@, "1"@),
        ("ELECTRON_OZONE_PLATFORM_HINT"@, "auto"@),
        ("XDG_SESSION_TYPE"@, "wayland"@),
        ("QTWEBENGINE_DISABLE_SANDBOX"@, "1"@),
    ]
}

/// The environment of an app: OnlyOffice is forced onto X11 and software
/// rendering.
pub open spec fn env_of(base: Seq<char>) -> EnvView {
    if onlyoffice(base) {
        common_env("xcb"@).push(("LIBGL_ALWAYS_SOFTWARE"@, "1"@))
    } else {
        common_env("wayland;xcb"@)
    }
}

pub open spec fn env_view(v: Seq<(String, String)>) -> EnvView {
    v.map_values(|e: (String, String)| (e.0@, e.1@))
}

fn environment(base: &[char]) -> (r: Vec<(String, String)>)
    ensures
        env_view(r@) == env_of(base@),
{
    let office: bool = is_onlyoffice(base);
    let qt: &str = if office {
        "xcb"
    } else {
        "wayland;xcb"
    };
    let mut v: Vec<(String, String)> = Vec::new();
    v.push((own("QT_QPA_PLATFORM"), own(qt)));
    v.push((own("QT_X11_NO_MITSHM"), own("1")));
    v.push((own("SDL_VIDEODRIVER"), own("wayland")));
    v.push((own("CLUTTER_BACKEND"), own("wayland")));
    v.push((own("MOZ_ENABLE_WAYLAND"), own("1")));
    v.push((own("ELECTRON_OZONE_PLATFORM_HINT"), own("auto")));
    v.push((own("XDG_SESSION_TYPE"), own("wayland")));
    v.push((own("QTWEBENGINE_DISABLE_SANDBOX"), own("1")));
    assert(env_view(v@) =~= common_env(qt@));
    if office {
        let ghost before = env_view(v@);
        v.push((own("LIBGL_ALWAYS_SOFTWARE"), own("1")));
        assert(env_view(v@) =~= before.push(("LIBGL_ALWAYS_SOFTWARE"@, "1"@)));
    }
    v
}

/// Whether a character may stand in a log file's name.
pub open spec fn slug_char(c: char) -> bool {
    is_digit(c) || ('a' <= c <= 'z') || ('A' <= c <= 'Z') || c == '-' || c == '_' || c == '.'
}

/// A program's name with everything that a file name should not hold replaced.
pub open spec fn slug(name: Seq<char>) -> Seq<char> {
    name.map_values(
        |c: char|
            if slug_char(c) {
                c
            } else {
                '_'
            },
    )
}

fn slug_of(name: &[char]) -> (r: Vec<char>)
    ensures
        r@ == slug(name@),
{
    let mut v: Vec<char> = Vec::new();
    let mut i: usize = 0;
    while i < name.len()
        invariant
            i <= name.len(),
            v@ == slug(name@).take(i as int),
        decreases name.len() - i,
    {
        let c: char = name[i];
        let kept: char = if ('0' <= c && c <= '9') || ('a' <= c && c <= 'z') || ('A' <= c && c
            <= 'Z') || c == '-' || c == '_' || c == '.' {
            c
        } else {
            '_'
        };
        v.push(kept);
        assert(v@ =~= slug(name@).take(i + 1));
        i += 1;
    }
    assert(v@ =~= slug(name@));
    v
}

/// Everything needed to spawn an app.
#[derive(Debug, Clone, PartialEq, Eq)]
pub struct LaunchPlan {
    pub command: Invocation,
    pub env: Vec<(String, String)>,
    /// Name of the file, in the temporary directory, that takes its output.
    pub log_name: String,
}

/// The command, with Chromium told to use Wayland.
pub open spec fn launch_command(argv: Seq<Seq<char>>, base: Seq<char>) -> InvocationView {
    run(
        argv[0],
        if chromium_family(base) {
            argv.skip(1).push("--ozone-platform=wayland"@)
        } else {
            argv.skip(1)
        },
    )
}

/// How to spawn `argv`, whose first element is the program; nothing where it is
/// empty.
pub fn launch_plan(argv: &Vec<String>) -> (r: Option<LaunchPlan>)
    ensures
        match r {
            Some(p) => {
                let all = strings(argv@);
                let base = base_name(all[0]);
                &&& argv.len() > 0
                &&& p.command@ == launch_command(
                    all,
                    match base {
                        Some(b) => b,
                        None => ""@,
                    },
                )
                &&& env_view(p.env@) == env_of(
                    match base {
                        Some(b) => b,
                        None => ""@,
                    },
                )
                &&& p.log_name@ == "bacak-launch-"@ + slug(
                    match base {
                        Some(b) => b,
                        None => "app"@,
                    },
                ) + ".log"@
            },
            None => argv.len() == 0,
        },
{
    if argv.len() == 0 {
        return None;
    }
    let ghost all = strings(argv@);
    assert(all.len() == argv@.len());
    assert(all[0] == argv@[0]@);
    let found: Option<Vec<char>> = base_of(argv[0].as_str());
    let base: Vec<char> = match &found {
        Some(b) => crate::text::copy(b.as_slice()),
        None => chars_of(""),
    };
    let named: Vec<char> = match &found {
        Some(b) => crate::text::copy(b.as_slice()),
        None => chars_of("app"),
    };
    let mut args: Vec<String> = Vec::new();
    let mut i: usize = 1;
    assert(strings(args@) =~= all.subrange(1, 1));
    while i < argv.len()
        invariant
            1 <= i <= argv.len(),
            all == strings(argv@),
            strings(args@) == all.subrange(1, i as int),
        decreases argv.len() - i,
    {
        let ghost done = strings(args@);
        assert(all[i as int] == argv@[i as int]@);
        args.push(own(argv[i].as_str()));
        assert(strings(args@) =~= done.push(all[i as int]));
        assert(all.subrange(1, i + 1) =~= all.subrange(1, i as int).push(all[i as int]));
        i += 1;
    }
    assert(all.subrange(1, all.len() as int) =~= all.skip(1));
    if is_chromium(base.as_slice()) {
        let ghost done = strings(args@);
        args.push(own("--ozone-platform=wayland"));
        assert(strings(args@) =~= done.push("--ozone-platform=wayland"@));
    }
    let log: String = string_of(slug_of(named.as_slice()).as_slice());
    Some(
        LaunchPlan {
            command: Invocation { program: own(argv[0].as_str()), args },
            env: environment(base.as_slice()),
            log_name: concat3("bacak-launch-", log.as_str(), ".log"),
        },
    )
}

/// The tool that hands environment variables to services which other managers
/// start; nothing where there are none.
pub fn export_to_session(vars: &Vec<&str>) -> (r: Option<Invocation>)
    ensures
        opt_run(r) == (if vars.len() == 0 {
            None
        } else {
            Some(
                run(
                    "dbus-update-activation-environment"@,
                    seq!["--systemd"@] + strs(vars@),
                ),
            )
        }),
{
    if vars.len() == 0 {
        return None;
    }
    let mut args: Vec<String> = Vec::new();
    args.push(own("--systemd"));
    let ghost head = strings(args@);
    assert(head =~= seq!["--systemd"@]);
    let mut rest: Vec<String> = crate::text::own_all(vars);
    let ghost tail = strings(rest@);
    args.append(&mut rest);
    assert(strings(args@) =~= head + tail);
    Some(Invocation { program: own("dbus-update-activation-environment"), args })
}

/// A log file's name holds no separator, so it stays in the temporary directory.
pub proof fn law_log_stays_in_directory(name: Seq<char>)
    ensures
        !slug(name).contains('/'),
        slug(name).len() == name.len(),
{
    assert forall|k: int| 0 <= k < slug(name).len() implies slug(name)[k] != '/' by {}
}

/// Chromium and its relatives, by any directory's program, are told to use Wayland, as
/// their last argument; other programs get the arguments that were given.
#[verifier::rlimit(30)]
pub proof fn law_launch_command(argv: Seq<Seq<char>>, base: Seq<char>)
    requires
        argv.len() > 0,
    ensures
        launch_command(argv, base).program == argv[0],
        launch_command(argv, "chromium"@).args == argv.skip(1).push("--ozone-platform=wayland"@),
        launch_command(argv, "google-chrome"@).args == argv.skip(1).push(
            "--ozone-platform=wayland"@,
        ),
        launch_command(argv, "brave"@).args == argv.skip(1).push("--ozone-platform=wayland"@),
        launch_command(argv, "microsoft-edge"@).args == argv.skip(1).push(
            "--ozone-platform=wayland"@,
        ),
        launch_command(argv, "firefox"@).args == argv.skip(1),
        base.len() > 20 ==> launch_command(argv, base).args == argv.skip(1),
        forall|i: int|
            1 <= i < argv.len() ==> launch_command(argv, base).args[i - 1] == #[trigger] argv[i],
{
    reveal_strlit("firefox");
    reveal_strlit("chromium");
    reveal_strlit("chromium-browser");
    reveal_strlit("chrome");
    reveal_strlit("google-chrome");
    reveal_strlit("google-chrome-stable");
    reveal_strlit("brave");
    reveal_strlit("brave-browser");
    reveal_strlit("microsoft-edge");
    reveal_strlit("vivaldi-stable");
    reveal_strlit("opera");
    assert("firefox"@.len() == 7 && "chromium"@.len() == 8 && "chromium-browser"@.len() == 16
        && "chrome"@.len() == 6 && "google-chrome"@.len() == 13 && "google-chrome-stable"@.len()
        == 20 && "brave"@.len() == 5 && "brave-browser"@.len() == 13 && "microsoft-edge"@.len()
        == 14 && "vivaldi-stable"@.len() == 14 && "opera"@.len() == 5);
}

/// The platform an app's toolkit tries first is Wayland, for all but OnlyOffice, which
/// is kept on X11 and drawn in software; every app is told that the session is a
/// Wayland one.
pub proof fn law_app_environment(base: Seq<char>)
    ensures
        onlyoffice(base) ==> env_of(base)[0] == ("QT_QPA_PLATFORM"@, "xcb"@) && env_of(
            base,
        ).contains(("LIBGL_ALWAYS_SOFTWARE"@, "1"@)),
        !onlyoffice(base) ==> env_of(base)[0] == ("QT_QPA_PLATFORM"@, "wayland;xcb"@) && env_of(
            base,
        ).len() == 8,
        env_of(base)[1] == ("QT_X11_NO_MITSHM"@, "1"@),
        env_of(base)[2] == ("SDL_VIDEODRIVER"@, "wayland"@),
        env_of(base)[3] == ("CLUTTER_BACKEND"@, "wayland"@),
        env_of(base)[4] == ("MOZ_ENABLE_WAYLAND"@, "1"@),
        env_of(base)[5] == ("ELECTRON_OZONE_PLATFORM_HINT"@, "auto"@),
        env_of(base)[6] == ("XDG_SESSION_TYPE"@, "wayland"@),
        env_of(base)[7] == ("QTWEBENGINE_DISABLE_SANDBOX"@, "1"@),
{
    if onlyoffice(base) {
        assert(env_of(base)[8] == ("LIBGL_ALWAYS_SOFTWARE"@, "1"@));
    }
}

/// OnlyOffice is known by its name anywhere in the program's, in capitals too.
pub proof fn law_onlyoffice(before: Seq<char>, after: Seq<char>)
    requires
        ascii_lower_all(before) == before,
        ascii_lower_all(after) == after,
    ensures
        onlyoffice(before + "onlyoffice"@ + after),
        onlyoffice(before + "DesktopEditors"@ + after),
{
    lemma_lower_parts(before, "onlyoffice"@, after);
    lemma_lower_parts(before, "DesktopEditors"@, after);
    assert(ascii_lower_all("onlyoffice"@) == "onlyoffice"@) by {
        reveal_strlit("onlyoffice");
        assert(ascii_lower_all("onlyoffice"@) =~= "onlyoffice"@);
    }
    assert(ascii_lower_all("DesktopEditors"@) == "desktopeditors"@) by {
        reveal_strlit("DesktopEditors");
        reveal_strlit("desktopeditors");
        assert(ascii_lower_all("DesktopEditors"@) =~= "desktopeditors"@);
    }
    law_find_text(before, "onlyoffice"@, after);
    law_find_text(before, "desktopeditors"@, after);
}

proof fn lemma_lower_parts(a: Seq<char>, b: Seq<char>, c: Seq<char>)
    ensures
        ascii_lower_all(a + b + c) == ascii_lower_all(a) + ascii_lower_all(b) + ascii_lower_all(c),
{
    assert(ascii_lower_all(a + b + c) =~= ascii_lower_all(a) + ascii_lower_all(b)
        + ascii_lower_all(c));
}

/// The name of a program is the last part of its path, whatever directory it is in;
/// a path that ends in the parent directory has none.
pub proof fn law_program_name(dir: Seq<char>, name: Seq<char>)
    requires
        name.len() > 0,
        !name.contains('/'),
        name != "."@,
    ensures
        name != ".."@ ==> base_name(dir + seq!['/'] + name) == Some(name),
        name != ".."@ ==> base_name(name) == Some(name),
        name == ".."@ ==> base_name(dir + seq!['/'] + name) is None,
{
    lemma_split_whole(name, '/');
    lemma_split_concat(dir, '/', name, 0);
    let v = split(dir + seq!['/'] + name, '/');
    let n = v.len() as int;
    assert(v[n - 1] == name);
    assert(parts_upto(v, n).last() == name);
    let w = split(name, '/');
    assert(w[0] == name && w.len() == 1);
    reveal_with_fuel(parts_upto, 2);
    assert(parts_upto(w, 1).last() == name);
}

/// A log's name keeps letters, digits, dashes, underscores and dots, and has an
/// underscore for anything else, character by character.
pub proof fn law_slug(name: Seq<char>, i: int)
    requires
        0 <= i < name.len(),
    ensures
        slug(name).len() == name.len(),
        'a' <= name[i] <= 'z' || 'A' <= name[i] <= 'Z' || '0' <= name[i] <= '9' || name[i] == '-'
            || name[i] == '_' || name[i] == '.' ==> slug(name)[i] == name[i],
        name[i] == ' ' || name[i] == '/' || name[i] == ':' || (name[i] as u32) > 127 ==> slug(
            name,
        )[i] == '_',
{
}

} // verus!
