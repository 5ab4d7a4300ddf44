//! Desktop entries and icons.

use std::io::Cursor;

use bacak_compositor::icons::{
    app_id_alias, categorize, collect_apps, configured_icon_theme, data_dirs, decode_png_rgba,
    desktop_entry_value, find_desktop_file, generic_fallback_icon, generic_icon_names, icon_attempts, icon_format,
    icon_from, icon_from_svg, icon_names, icon_probes, icon_theme_candidates, installed_icon_themes,
    list_desktop_apps, parse_exec, parse_icon_key, resolve_app_name, resolve_exec,
    resolve_icon_path, resolve_icon_rgba, resolve_launch, scan_for_wmclass, sort_apps,
    terminal_candidates, terminal_emulator, AppEntry, AppsDir, DesktopFile, Icon, IconAttempt,
    IconFacts, IconFormat, CAT_DEVELOPMENT, CAT_INTERNET, CAT_MEDIA, CAT_SYSTEM, SVG_RASTER_PX,
};

/// No icon is found anywhere.
fn nothing_found(app_id: &str) -> Vec<Option<Icon>> {
    icon_attempts(app_id).iter().map(|_| None).collect()
}

#[test]
fn empty_app_id_is_none() {
    assert!(resolve_icon_rgba("", nothing_found("")).is_none());
    assert!(resolve_icon_rgba("   ", nothing_found("   ")).is_none());
    // There is nothing to try for them.
    assert!(icon_attempts("").is_empty());
    assert!(icon_attempts("   ").is_empty());
}

#[test]
fn unknown_app_id_is_none_not_panic() {
    // A name that can't have a .desktop file must fail gracefully.
    let id = "definitely-not-an-installed-app-zzz";
    assert!(!icon_attempts(id).is_empty());
    assert!(resolve_icon_rgba(id, nothing_found(id)).is_none());
}

#[test]
fn parse_exec_strips_field_codes_and_keeps_quotes() {
    assert_eq!(parse_exec("firefox %u"), vec!["firefox"]);
    assert_eq!(parse_exec("env FOO=bar app %F --flag"), vec![
        "env", "FOO=bar", "app", "--flag"
    ]);
    // Quoted arg with spaces stays one token; escapes unwrapped.
    assert_eq!(
        parse_exec(r#"prog "a b" "c\"d" %f"#),
        vec!["prog", "a b", r#"c"d"#]
    );
    // %% → literal %, glued field code stripped from the token.
    assert_eq!(parse_exec("p 100%% file%f"), vec!["p", "100%", "file"]);
    // Deprecated codes also dropped; empty result → empty vec.
    assert_eq!(parse_exec("%d %n").len(), 0);
    assert!(parse_exec("   ").is_empty());
}

#[test]
fn resolve_exec_reads_exec_key_from_first_group() {
    let entry =
        "[Desktop Entry]\nName=Foo\nExec=foo --bar %U\n\n[Desktop Action New]\nExec=other\n";
    assert_eq!(parse_exec(&desktop_entry_value(entry, "Exec").unwrap()), vec!["foo", "--bar"]);
    assert_eq!(
        resolve_exec("foo", Some(entry)).unwrap(),
        vec!["foo", "--bar"]
    );
    assert!(resolve_exec("", None).is_none());
    assert!(resolve_exec("definitely-not-installed-zzz", None).is_none());
}

#[test]
fn categorize_folds_freedesktop_categories_into_tabs() {
    // System and Settings both map to the System tab.
    assert_eq!(categorize("Settings;System;"), CAT_SYSTEM);
    // Audio/Video/Graphics all fold into Media; combined masks OR together.
    assert_eq!(
        categorize("GTK;Development;AudioVideo;"),
        CAT_DEVELOPMENT | CAT_MEDIA
    );
    assert_eq!(categorize("Network;WebBrowser;"), CAT_INTERNET);
    // Unknown-only categories yield no mask (app shows only under "Tümü").
    assert_eq!(categorize("Utility;Office;"), 0);
    assert_eq!(categorize(""), 0);
}

#[test]
fn parse_icon_key_reads_first_entry_group_only() {
    let entry = "[Desktop Entry]\nName=Foo\nIcon=foo-icon\n\n[Desktop Action New]\nIcon=other\n";
    assert_eq!(parse_icon_key(entry).as_deref(), Some("foo-icon"));
}

fn file(path: &str, text: &str) -> DesktopFile {
    DesktopFile { path: path.into(), text: Some(text.into()) }
}

#[test]
fn scan_for_wmclass_matches_exact_then_case_insensitive() {
    let files = vec![
        file("/apps/plain.desktop", "[Desktop Entry]\nName=Plain\nIcon=plain\n"),
        file(
            "/apps/game.desktop",
            "[Desktop Entry]\nName=Game\nIcon=game\nStartupWMClass=steam_app_42\n",
        ),
        file("/apps/ide.desktop", "[Desktop Entry]\nName=IDE\nStartupWMClass=jetbrains-idea\n"),
    ];

    // Exact match.
    let hit = scan_for_wmclass(&files, "steam_app_42").unwrap();
    assert!(hit.ends_with("game.desktop"));

    // Case-insensitive fallback when no exact match exists.
    let hit = scan_for_wmclass(&files, "JetBrains-Idea").unwrap();
    assert!(hit.ends_with("ide.desktop"));

    // No StartupWMClass anywhere for this id.
    assert!(scan_for_wmclass(&files, "nonexistent").is_none());
}

#[test]
fn data_dirs_has_spec_defaults_without_env() {
    let dirs = data_dirs(None, None, None);
    assert!(
        dirs.iter().any(|d| d.ends_with("share")),
        "expected a /usr[/local]/share entry, got {dirs:?}"
    );
    assert_eq!(
        data_dirs(None, Some("/home/u"), Some("/a::/b")),
        ["/home/u/.local/share", "/a", "/b"]
    );
    assert_eq!(data_dirs(Some("/x"), Some("/home/u"), None)[0], "/x");
    // Set but empty counts as unset.
    assert_eq!(data_dirs(Some(""), Some("/home/u"), None)[0], "/home/u/.local/share");
    assert_eq!(data_dirs(Some(""), None, Some("/a")), ["/a"]);
}

#[test]
fn only_the_first_entry_group_is_read() {
    let entry = "[Desktop Entry]\nName=One\n[Desktop Action New]\nExec=new\n\
                 [Desktop Entry]\nName=Two\nExec=two\n";
    assert_eq!(desktop_entry_value(entry, "Name").unwrap(), "One");
    assert_eq!(desktop_entry_value(entry, "Exec"), None);
    let entry = "[Other]\nName=Zero\n[Desktop Entry]\nName=One\n";
    assert_eq!(desktop_entry_value(entry, "Name").unwrap(), "One");
}

#[test]
fn probe_icon_pixels() {
    for id in ["foot", "footclient", "libreoffice-writer", "libreoffice-calc", "soffice", "libreoffice-startcenter"] {
        let n = icon_attempts(id).len();
        assert!(n > 0);
        // The first attempt that gives an icon decides.
        let mut outcomes: Vec<Option<Icon>> = (0..n).map(|_| None).collect();
        let last = Icon { rgba: vec![1, 2, 3, 255], width: 1, height: 1 };
        outcomes[n - 1] = Some(last.clone());
        match resolve_icon_rgba(id, outcomes) {
            Some(icon) => assert_eq!(icon, last),
            None => panic!("{id:?}: the last attempt gave an icon"),
        }
    }
}

#[test]
fn a_half_opaque_red_svg_becomes_straight() {
    // What a renderer gives for it is premultiplied.
    let n = (SVG_RASTER_PX * SVG_RASTER_PX) as usize;
    let icon = icon_from_svg([128, 0, 0, 128].repeat(n));
    assert_eq!((icon.width, icon.height), (SVG_RASTER_PX, SVG_RASTER_PX));
    assert_eq!(icon.rgba.len(), n * 4);
    assert_eq!(&icon.rgba[..4], &[255, 0, 0, 128]);
}

fn png(w: u32, h: u32, rgba: [u8; 4]) -> Vec<u8> {
    let mut out = Cursor::new(Vec::new());
    image::RgbaImage::from_pixel(w, h, image::Rgba(rgba))
        .write_to(&mut out, image::ImageFormat::Png)
        .unwrap();
    out.into_inner()
}

#[test]
fn png_icons_are_decoded() {
    let icon = decode_png_rgba(&png(3, 2, [9, 8, 7, 6])).unwrap();
    assert_eq!((icon.width, icon.height), (3, 2));
    assert_eq!(icon.rgba, [9, 8, 7, 6].repeat(6));
    assert!(decode_png_rgba(b"not a picture").is_none());
    assert!(icon_from(Some((vec![], 0, 4))).is_none());
    assert!(icon_from(None).is_none());
}

#[test]
fn the_turkish_name_wins() {
    let entry = "[Desktop Entry]\nName=Files\nName[tr]=Dosyalar\n";
    assert_eq!(resolve_app_name(Some(entry)).as_deref(), Some("Dosyalar"));
    assert_eq!(
        resolve_app_name(Some("[Desktop Entry]\nName=Files\n")).as_deref(),
        Some("Files")
    );
    assert_eq!(resolve_app_name(None), None);
}

#[test]
fn terminal_apps_are_wrapped_in_a_terminal() {
    let dirs = |exact| {
        vec![AppsDir { path: "/apps".into(), exact, lower: false, files: vec![] }]
    };
    let entry = "[Desktop Entry]\nExec=htop\nTerminal=true\n";
    let argv = resolve_launch(&dirs(true), "htop", Some(entry), Some("foot")).unwrap();
    assert_eq!(argv, ["foot", "-e", "htop"]);
    let argv = resolve_launch(&dirs(true), "htop", Some(entry), None).unwrap();
    assert_eq!(argv, ["htop"]);
    assert_eq!(resolve_launch(&dirs(false), "htop", Some(entry), None), None);
    assert_eq!(resolve_launch(&dirs(true), "htop", None, None), None);
    let entry = "[Desktop Entry]\nExec=gedit\n";
    let argv = resolve_launch(&dirs(true), "gedit", Some(entry), Some("foot")).unwrap();
    assert_eq!(argv, ["gedit"]);
    let mut present = vec![false; terminal_candidates().len()];
    assert_eq!(terminal_emulator(&present), None);
    present[1] = true;
    assert_eq!(terminal_emulator(&present).unwrap(), terminal_candidates()[1]);
}

#[test]
fn entries_are_found_by_name_then_in_lower_case_then_by_class() {
    let dir = |exact, lower, files| AppsDir { path: "/apps".into(), exact, lower, files };
    assert_eq!(
        find_desktop_file(&vec![dir(true, true, vec![])], "Foo").as_deref(),
        Some("/apps/Foo.desktop")
    );
    assert_eq!(
        find_desktop_file(&vec![dir(false, true, vec![])], "FOO").as_deref(),
        Some("/apps/foo.desktop")
    );
    let by_class = vec![file("/apps/x.desktop", "[Desktop Entry]\nStartupWMClass=Foo\n")];
    assert_eq!(
        find_desktop_file(&vec![dir(false, false, by_class)], "Foo").as_deref(),
        Some("/apps/x.desktop")
    );
    assert_eq!(find_desktop_file(&vec![dir(false, false, vec![])], "Foo"), None);
}

#[test]
fn the_menu_lists_each_shown_app_once_by_name() {
    let files = vec![
        file("/a/zed.desktop", "[Desktop Entry]\nType=Application\nName=zed\nExec=zed\n"),
        file("/a/gimp.desktop", "[Desktop Entry]\nType=Application\nName=Gimp\nExec=gimp\nCategories=Graphics;\n"),
        file("/b/zed.desktop", "[Desktop Entry]\nType=Application\nName=Other\nExec=other\n"),
        file("/b/hid.desktop", "[Desktop Entry]\nType=Application\nName=A\nExec=a\nNoDisplay=true\n"),
        file("/b/readme.txt", "[Desktop Entry]\nType=Application\nName=B\nExec=b\n"),
    ];
    let apps = list_desktop_apps(&files);
    let names: Vec<&str> = apps.iter().map(|a| a.name.as_str()).collect();
    assert_eq!(names, ["Gimp", "zed"]);
    assert_eq!(apps[0].mask, CAT_MEDIA);
    assert_eq!(collect_apps(&files).len(), 2);
    let app = |n: &str| AppEntry { id: n.into(), name: n.into(), mask: 0 };
    let sorted = sort_apps(
        vec![app("b"), app("a2"), app("a1")],
        vec!["b".into(), "a".into(), "a".into()],
    );
    let names: Vec<&str> = sorted.iter().map(|a| a.name.as_str()).collect();
    assert_eq!(names, ["a2", "a1", "b"]);
}

#[test]
fn clients_borrow_the_icon_of_their_app() {
    assert_eq!(app_id_alias("foot-client").as_deref(), Some("foot"));
    assert_eq!(app_id_alias("firefox"), None);
    assert!(matches!(&icon_attempts("foot")[0], IconAttempt::Declared { app_id } if app_id == "foot"));
}

#[test]
fn icon_paths_are_absolute_themed_or_probed() {
    let roots = vec!["/usr/share".to_string()];
    let none = IconFacts { is_file: false, themed: None, probed: vec![] };
    assert_eq!(resolve_icon_path("/x/a.png", &roots, &none), None);
    let there = IconFacts { is_file: true, ..none.clone() };
    assert_eq!(resolve_icon_path("/x/a.png", &roots, &there).as_deref(), Some("/x/a.png"));
    assert_eq!(resolve_icon_path("/x/a.xpm", &roots, &there), None);
    let themed = IconFacts { themed: Some("/t/a.svg".into()), ..none.clone() };
    assert_eq!(resolve_icon_path("a", &roots, &themed).as_deref(), Some("/t/a.svg"));
    let probes = icon_probes(&roots, "a");
    let mut probed = vec![false; probes.len()];
    probed[probes.len() - 1] = true;
    let found = IconFacts { probed, ..none };
    assert_eq!(resolve_icon_path("a", &roots, &found).as_ref(), probes.last());
    assert_eq!(icon_format("/t/a.svg"), IconFormat::Svg);
    assert_eq!(icon_format("/t/a.png"), IconFormat::Png);
    assert_eq!(icon_format("/t/a"), IconFormat::Unknown);
    assert_eq!(generic_icon_names()[0], "application-x-executable");
}

#[test]
fn icon_themes_come_from_gtk_settings() {
    let gtk = "[Settings]\ngtk-icon-theme-name=Papirus\n";
    assert_eq!(configured_icon_theme(Some(gtk), None).as_deref(), Some("Papirus"));
    assert_eq!(configured_icon_theme(None, Some(gtk)).as_deref(), Some("Papirus"));
    assert_eq!(configured_icon_theme(None, None), None);
    let found = vec!["Adwaita".to_string(), "hicolor".to_string(), "Adwaita".to_string()];
    let installed = installed_icon_themes(&found);
    assert_eq!(installed.iter().filter(|t| *t == "Adwaita").count(), 1);
    let candidates = icon_theme_candidates(Some("Papirus"), &installed);
    assert_eq!(candidates[0], "Papirus");
}

#[test]
fn an_id_is_a_name_in_two_cases() {
    assert_eq!(icon_names("Firefox"), ["Firefox", "firefox"]);
    assert_eq!(icon_names("foot"), ["foot", "foot"]);
}

#[test]
fn quoted_arguments_come_back() {
    for arg in ["a b", "say \"hi\"", "c:\\x", "$HOME `ls`", "  ", "ş"] {
        let escaped: String = arg
            .chars()
            .flat_map(|c| match c {
                '"' | '\\' | '`' | '$' => vec!['\\', c],
                _ => vec![c],
            })
            .collect();
        assert_eq!(parse_exec(&format!("\"{escaped}\"")), [arg]);
    }
}

#[test]
fn the_first_definition_decides() {
    let hidden = file("/a/x.desktop", "[Desktop Entry]\nType=Application\nExec=x\nHidden=true\n");
    let shown = file("/b/x.desktop", "[Desktop Entry]\nType=Application\nExec=x\nName=X\n");
    let link = file("/a/y.desktop", "[Desktop Entry]\nType=Link\n");
    let app = file("/b/y.desktop", "[Desktop Entry]\nType=Application\nExec=y\nName=Y\n");
    let ids = |files: &Vec<DesktopFile>| -> Vec<String> {
        collect_apps(files).into_iter().map(|a| a.id).collect()
    };
    assert!(ids(&vec![hidden.clone(), shown.clone()]).is_empty());
    assert_eq!(ids(&vec![shown, hidden]), ["x"]);
    // What is no application defines nothing.
    assert_eq!(ids(&vec![link, app]), ["y"]);
}

#[test]
fn the_fallback_theme_comes_last() {
    let installed = vec!["hicolor".to_string(), "Adwaita".into(), "Zed".into(), "Breeze".into()];
    assert_eq!(
        icon_theme_candidates(Some("Zed"), &installed),
        ["Zed", "Breeze", "Adwaita", "hicolor"]
    );
    assert_eq!(icon_theme_candidates(Some("hicolor"), &vec![]), ["hicolor"]);
}

#[test]
fn the_first_generic_icon_is_taken() {
    let icon = |v: u8| Some(Icon { rgba: vec![v; 4], width: 1, height: 1 });
    assert_eq!(generic_fallback_icon(vec![None, icon(7), icon(8)]), icon(7));
    assert_eq!(generic_fallback_icon(vec![None, None, None]), None);
    // There are three names only.
    assert_eq!(generic_fallback_icon(vec![None, None, None, icon(9)]), None);
}
