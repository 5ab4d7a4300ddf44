//! What the `bacak` command decides and prints.
//!
//! Reading arguments, files and devices, and printing, are left to the caller:
//! it hands in what it found and gets back the next step, the lines to print, or
//! the message to fail with.

use vstd::prelude::*;

use crate::config::{
    clean, default_config, law_defaults_are_sane, law_list_clean, law_list_grows_once,
    law_list_round_trip, law_sanitize_once, CompositorConfig, ConfigView, Number,
};
use crate::controls::{opt_run, run, Invocation, InvocationView};
use crate::text::{
    bool_text, chars_of, concat2, concat3, decimal, decimal_of, has_string, join_from, join_upto, opt_str, own,
    padded, push_all, push_bool, push_padded, push_str, string_of, strings, texts, trimmed, trim,
    words, words_of, nearest_even, is_whitespace, law_nearest, law_trim_blank,
    law_trim_undoes_padding, law_white_space, law_words,
};
use crate::wm::PX;

pub mod demo;
pub mod device;
pub mod files;
pub mod shell;

verus! {

/// An on/off argument.
#[derive(Debug, Clone, Copy, PartialEq, Eq, Structural)]
pub enum Toggle {
    On,
    Off,
}

impl Toggle {
    pub fn as_bool(self) -> (r: bool)
        ensures
            r == (self == Toggle::On),
    {
        match self {
            Toggle::On => true,
            Toggle::Off => false,
        }
    }
}

// ---------------------------------------------------------------------------
// The stored configuration
// ---------------------------------------------------------------------------

/// What stands at the path of the configuration: nothing, options that were
/// read and put right, or a file that was refused and why.
#[derive(Debug, Clone, PartialEq, Eq)]
pub enum StoredFile {
    Absent,
    Valid(CompositorConfig),
    Invalid(String),
}

/// How the numbers of a configuration are printed.
#[derive(Debug, Clone, PartialEq, Eq)]
pub struct NumberTexts {
    pub blur_radius: String,
    pub shadow_top: String,
    pub shadow_step: String,
    pub shadow_floor: String,
    pub dock_slot_w: String,
    pub dock_slot_h: String,
}

/// The options that an edit starts from: those of the file, so that its other
/// keys survive, or the defaults where there is none. A file that was refused is
/// not overwritten.
pub open spec fn starting_point(
    path: Seq<char>,
    file: StoredFile,
    hint: Seq<char>,
) -> Result<ConfigView, Seq<char>> {
    match file {
        StoredFile::Absent => Ok(default_config()),
        StoredFile::Valid(c) => Ok(c@),
        StoredFile::Invalid(m) => Err(path + ": "@ + m@ + hint),
    }
}

fn start_from(path: &str, file: StoredFile, hint: &str) -> (r: Result<CompositorConfig, String>)
    ensures
        match (r, starting_point(path@, file, hint@)) {
            (Ok(c), Ok(v)) => c@ == v,
            (Err(e), Err(m)) => e@ == m,
            _ => false,
        },
{
    match file {
        StoredFile::Absent => Ok(CompositorConfig::default()),
        StoredFile::Valid(c) => Ok(c),
        StoredFile::Invalid(m) => {
            let mut v: Vec<char> = chars_of(path);
            push_str(&mut v, ": ");
            push_str(&mut v, m.as_str());
            push_str(&mut v, hint);
            Err(string_of(v.as_slice()))
        },
    }
}

/// What is left to do for `bacak config`.
#[derive(Debug, Clone, PartialEq, Eq)]
pub enum ConfigOp {
    Show,
    /// Check a file, the configuration's own where none is named.
    Validate { file: Option<String> },
    Edit,
    /// Set `key`; `number` is what `value` reads as a single-precision number.
    SetKey { key: String, value: String, number: Option<Number> },
    /// Put `key`, or every key, back to its default.
    ResetKey { key: Option<String> },
}

/// What the caller does next.
#[derive(Debug, Clone, PartialEq, Eq)]
pub enum ConfigStep {
    /// Print the effective options.
    Show,
    /// Read `target` and report on it.
    Validate { target: String },
    /// Write the defaults first where `seed` is set, run the editor, and judge
    /// what it left behind. Without an editor, fail.
    Edit { path: String, seed: bool, editor: Option<Invocation> },
    /// Replace the file by `config`, then report.
    Write { path: String, config: CompositorConfig, what: String },
}

pub enum ConfigStepView {
    Show,
    Validate { target: Seq<char> },
    Edit { path: Seq<char>, seed: bool, editor: Option<InvocationView> },
    Write { path: Seq<char>, config: ConfigView, what: Seq<char> },
}

impl View for ConfigStep {
    type V = ConfigStepView;

    open spec fn view(&self) -> ConfigStepView {
        match *self {
            ConfigStep::Show => ConfigStepView::Show,
            ConfigStep::Validate { target } => ConfigStepView::Validate { target: target@ },
            ConfigStep::Edit { path, seed, editor } => ConfigStepView::Edit {
                path: path@,
                seed,
                editor: opt_run(editor),
            },
            ConfigStep::Write { path, config, what } => ConfigStepView::Write {
                path: path@,
                config: config@,
                what: what@,
            },
        }
    }
}

/// The editor's command line: `$VISUAL`, then `$EDITOR`, then `vi`. The value
/// may carry arguments, so it is parted at white space; the path comes last.
pub open spec fn editor_run(
    visual: Option<Seq<char>>,
    editor: Option<Seq<char>>,
    path: Seq<char>,
) -> Option<InvocationView> {
    let line = match (visual, editor) {
        (Some(v), _) => v,
        (None, Some(e)) => e,
        (None, None) => "vi"@,
    };
    if words(line).len() == 0 {
        None
    } else {
        Some(run(words(line)[0], words(line).skip(1).push(path)))
    }
}

pub open spec fn opt_ref(o: Option<&str>) -> Option<Seq<char>> {
    match o {
        Some(s) => Some(s@),
        None => None,
    }
}

/// The editor to run on `path`, given `$VISUAL` and `$EDITOR`; none where the
/// one that counts is blank.
pub fn editor_command(visual: Option<&str>, editor: Option<&str>, path: &str) -> (r: Option<
    Invocation,
>)
    ensures
        opt_run(r) == editor_run(opt_ref(visual), opt_ref(editor), path@),
{
    let line: &str = match visual {
        Some(v) => v,
        None => match editor {
            Some(e) => e,
            None => "vi",
        },
    };
    let line: Vec<char> = chars_of(line);
    let parts: Vec<&[char]> = words_of(line.as_slice());
    let ghost all = words(line@);
    assert(texts(parts@).len() == parts@.len());
    if parts.len() == 0 {
        return None;
    }
    assert(all[0] == parts@[0]@);
    let program: String = string_of(parts[0]);
    let mut args: Vec<String> = Vec::new();
    let mut i: usize = 1;
    assert(strings(args@) =~= all.subrange(1, 1));
    while i < parts.len()
        invariant
            1 <= i <= parts.len(),
            texts(parts@) == all,
            strings(args@) == all.subrange(1, i as int),
        decreases parts.len() - i,
    {
        let ghost before = strings(args@);
        assert(all[i as int] == parts@[i as int]@);
        args.push(string_of(parts[i]));
        assert(strings(args@) =~= before.push(all[i as int]));
        assert(before.push(all[i as int]) =~= all.subrange(1, i + 1));
        i += 1;
    }
    let ghost before = strings(args@);
    args.push(own(path));
    assert(strings(args@) =~= before.push(path@));
    assert(before =~= all.skip(1));
    Some(Invocation { program, args })
}

/// The next step of `bacak config`, or the message to fail with.
pub open spec fn config_step(
    op: ConfigOp,
    path: Option<Seq<char>>,
    file: StoredFile,
    visual: Option<Seq<char>>,
    editor: Option<Seq<char>>,
) -> Result<ConfigStepView, Seq<char>> {
    match (op, path) {
        (ConfigOp::Show, _) => Ok(ConfigStepView::Show),
        (ConfigOp::Validate { file: Some(f) }, _) => Ok(
            ConfigStepView::Validate { target: f@ },
        ),
        (ConfigOp::Validate { file: None }, Some(p)) => Ok(ConfigStepView::Validate { target: p }),
        (_, None) => Err("could not resolve a config path"@),
        (ConfigOp::Edit, Some(p)) => Ok(
            ConfigStepView::Edit {
                path: p,
                seed: file is Absent,
                editor: editor_run(visual, editor, p),
            },
        ),
        (ConfigOp::SetKey { key, value, number }, Some(p)) => match starting_point(
            p,
            file,
            "\nfix it or run `bacak config edit` first"@,
        ) {
            Err(m) => Err(m),
            Ok(c) => match c.with_field(key@, value@, number) {
                Err(m) => Err(m),
                Ok(c) => Ok(
                    ConfigStepView::Write { path: p, config: c.sane(), what: "set "@ + key@ },
                ),
            },
        },
        (ConfigOp::ResetKey { key: Some(key) }, Some(p)) => match starting_point(
            p,
            file,
            "\nfix it or run `bacak config reset` (no key) to recover"@,
        ) {
            Err(m) => Err(m),
            Ok(c) => match c.without_field(key@) {
                Err(m) => Err(m),
                Ok(c) => Ok(
                    ConfigStepView::Write { path: p, config: c.sane(), what: "reset "@ + key@ },
                ),
            },
        },
        (ConfigOp::ResetKey { key: None }, Some(p)) => Ok(
            ConfigStepView::Write {
                path: p,
                config: default_config().sane(),
                what: "reset all"@,
            },
        ),
    }
}

/// Decides what `bacak config` does, given where the configuration lies and what
/// stands there. Setting and resetting one key keep the others, so they need a
/// valid file; resetting everything does not look at it, which makes it the way
/// out of a corrupt one.
pub fn cmd_config(
    op: ConfigOp,
    path: Option<&str>,
    file: StoredFile,
    visual: Option<&str>,
    editor: Option<&str>,
) -> (r: Result<ConfigStep, String>)
    ensures
        match (r, config_step(op, opt_ref(path), file, opt_ref(visual), opt_ref(editor))) {
            (Ok(s), Ok(v)) => s@ == v,
            (Err(e), Err(m)) => e@ == m,
            _ => false,
        },
{
    match op {
        ConfigOp::Show => {
            return Ok(ConfigStep::Show);
        },
        ConfigOp::Validate { file: Some(f) } => {
            return Ok(ConfigStep::Validate { target: f });
        },
        _ => {},
    }
    let p: &str = match path {
        Some(p) => p,
        None => {
            return Err(own("could not resolve a config path"));
        },
    };
    match op {
        ConfigOp::Edit => {
            let seed: bool = matches!(file, StoredFile::Absent);
            Ok(
                ConfigStep::Edit {
                    path: own(p),
                    seed,
                    editor: editor_command(visual, editor, p),
                },
            )
        },
        ConfigOp::SetKey { key, value, number } => {
            match start_from(p, file, "\nfix it or run `bacak config edit` first") {
                Err(m) => Err(m),
                Ok(c) => {
                    let mut c = c;
                    match c.set_field(key.as_str(), value.as_str(), number) {
                        Err(m) => Err(m),
                        Ok(()) => {
                            c.sanitize();
                            Ok(
                                ConfigStep::Write {
                                    path: own(p),
                                    config: c,
                                    what: concat2("set ", key.as_str()),
                                },
                            )
                        },
                    }
                },
            }
        },
        ConfigOp::ResetKey { key: Some(key) } => {
            match start_from(
                p,
                file,
                "\nfix it or run `bacak config reset` (no key) to recover",
            ) {
                Err(m) => Err(m),
                Ok(c) => {
                    let mut c = c;
                    match c.reset_field(key.as_str()) {
                        Err(m) => Err(m),
                        Ok(()) => {
                            c.sanitize();
                            Ok(
                                ConfigStep::Write {
                                    path: own(p),
                                    config: c,
                                    what: concat2("reset ", key.as_str()),
                                },
                            )
                        },
                    }
                },
            }
        },
        ConfigOp::ResetKey { key: None } => {
            let mut c: CompositorConfig = CompositorConfig::default();
            c.sanitize();
            Ok(ConfigStep::Write { path: own(p), config: c, what: own("reset all") })
        },
        _ => Ok(ConfigStep::Validate { target: own(p) }),
    }
}

// ---------------------------------------------------------------------------
// Reports on the configuration
// ---------------------------------------------------------------------------

/// The line that says where a file is looked for.
pub open spec fn path_line(path: Option<Seq<char>>) -> Seq<char> {
    match path {
        Some(p) => "path:           "@ + p,
        None => "path:           <unresolved>"@,
    }
}

fn show_path(path: Option<&str>) -> (r: String)
    ensures
        r@ == path_line(opt_ref(path)),
{
    match path {
        Some(p) => concat2("path:           ", p),
        None => own("path:           <unresolved>"),
    }
}

fn flag_line(head: &str, on: bool) -> (r: String)
    ensures
        r@ == head@ + bool_text(on),
{
    let mut v: Vec<char> = chars_of(head);
    push_bool(&mut v, on);
    string_of(v.as_slice())
}

/// What `bacak config show` prints.
pub open spec fn config_lines(
    path: Option<Seq<char>>,
    exists: bool,
    blur: bool,
    forced: bool,
    n: NumberTexts,
) -> Seq<Seq<char>> {
    seq![
        path_line(path),
        "file exists:    "@ + bool_text(exists),
        "blur:           "@ + bool_text(blur),
        "blur effective: "@ + bool_text(forced || blur) + (if forced && !blur {
            "  (forced by BACAK_BLUR)"@
        } else {
            ""@
        }),
        "blur radius:    "@ + n.blur_radius@,
        "shadow ramp:    top "@ + n.shadow_top@ + " step "@ + n.shadow_step@ + " floor "@
            + n.shadow_floor@,
        "dock slot:      "@ + n.dock_slot_w@ + " x "@ + n.dock_slot_h@,
    ]
}

/// The effective options: those of the file and the defaults, and whether
/// `BACAK_BLUR` forces the blur.
pub fn show_config(
    path: Option<&str>,
    exists: bool,
    config: &CompositorConfig,
    forced: bool,
    n: &NumberTexts,
) -> (r: Vec<String>)
    ensures
        strings(r@) == config_lines(opt_ref(path), exists, config.blur, forced, *n),
{
    let effective: bool = config.blur_enabled(forced);
    let mut out: Vec<String> = Vec::new();
    out.push(show_path(path));
    out.push(flag_line("file exists:    ", exists));
    out.push(flag_line("blur:           ", config.blur));
    let mut v: Vec<char> = chars_of("blur effective: ");
    push_bool(&mut v, effective);
    push_str(
        &mut v,
        if effective && !config.blur {
            "  (forced by BACAK_BLUR)"
        } else {
            ""
        },
    );
    out.push(string_of(v.as_slice()));
    out.push(concat2("blur radius:    ", n.blur_radius.as_str()));
    let mut v: Vec<char> = chars_of("shadow ramp:    top ");
    push_str(&mut v, n.shadow_top.as_str());
    push_str(&mut v, " step ");
    push_str(&mut v, n.shadow_step.as_str());
    push_str(&mut v, " floor ");
    push_str(&mut v, n.shadow_floor.as_str());
    out.push(string_of(v.as_slice()));
    let mut v: Vec<char> = chars_of("dock slot:      ");
    push_str(&mut v, n.dock_slot_w.as_str());
    push_str(&mut v, " x ");
    push_str(&mut v, n.dock_slot_h.as_str());
    out.push(string_of(v.as_slice()));
    assert(strings(out@) =~= config_lines(opt_ref(path), exists, config.blur, forced, *n));
    out
}

/// The numbers of a configuration on one line.
pub open spec fn numbers_text(n: NumberTexts) -> Seq<char> {
    "blur_radius="@ + n.blur_radius@ + " shadow=("@ + n.shadow_top@ + ","@ + n.shadow_step@ + ","@
        + n.shadow_floor@ + ") dock=("@ + n.dock_slot_w@ + "x"@ + n.dock_slot_h@ + ")"@
}

fn numbers_line(n: &NumberTexts) -> (r: Vec<char>)
    ensures
        r@ == numbers_text(*n),
{
    let mut v: Vec<char> = chars_of("blur_radius=");
    push_str(&mut v, n.blur_radius.as_str());
    push_str(&mut v, " shadow=(");
    push_str(&mut v, n.shadow_top.as_str());
    push_str(&mut v, ",");
    push_str(&mut v, n.shadow_step.as_str());
    push_str(&mut v, ",");
    push_str(&mut v, n.shadow_floor.as_str());
    push_str(&mut v, ") dock=(");
    push_str(&mut v, n.dock_slot_w.as_str());
    push_str(&mut v, "x");
    push_str(&mut v, n.dock_slot_h.as_str());
    push_str(&mut v, ")");
    v
}

/// The verdict on a file: its numbers once put right, or why it was refused.
pub fn validate_report(target: &str, read: Result<NumberTexts, String>) -> (r: Result<
    Vec<String>,
    String,
>)
    ensures
        match (r, read) {
            (Ok(lines), Ok(n)) => strings(lines@) == seq![
                target@ + ": valid"@,
                "(sanitised) "@ + numbers_text(n),
            ],
            (Err(e), Err(m)) => e@ == target@ + ": "@ + m@,
            _ => false,
        },
{
    match read {
        Ok(n) => {
            let mut out: Vec<String> = Vec::new();
            out.push(concat2(target, ": valid"));
            let mut v: Vec<char> = chars_of("(sanitised) ");
            let numbers: Vec<char> = numbers_line(&n);
            push_all(&mut v, numbers.as_slice());
            out.push(string_of(v.as_slice()));
            assert(strings(out@) =~= seq![
                target@ + ": valid"@,
                "(sanitised) "@ + numbers_text(n),
            ]);
            Ok(out)
        },
        Err(m) => Err(concat3(target, ": ", m.as_str())),
    }
}

/// The verdict on what an editor left behind. Edits are never discarded.
pub fn edit_verdict(path: &str, read: Result<(), String>) -> (r: Result<String, String>)
    ensures
        match (r, read) {
            (Ok(line), Ok(())) => line@ == path@ + ": valid (hot-reload will pick it up)"@,
            (Err(e), Err(m)) => e@ == path@ + ": "@ + m@
                + "\n(your edits are kept; the compositor falls back to defaults until fixed)"@,
            _ => false,
        },
{
    match read {
        Ok(()) => Ok(concat2(path, ": valid (hot-reload will pick it up)")),
        Err(m) => {
            let mut v: Vec<char> = chars_of(path);
            push_str(&mut v, ": ");
            push_str(&mut v, m.as_str());
            push_str(
                &mut v,
                "\n(your edits are kept; the compositor falls back to defaults until fixed)",
            );
            Err(string_of(v.as_slice()))
        },
    }
}

/// What is printed once a key was set or reset.
pub fn report_stored(path: &str, what: &str, blur: bool, n: &NumberTexts) -> (r: Vec<String>)
    ensures
        strings(r@) == seq![
            path@ + ": "@ + what@ + " (stored config below)"@,
            "blur="@ + bool_text(blur) + " "@ + numbers_text(*n),
        ],
{
    let mut out: Vec<String> = Vec::new();
    let mut v: Vec<char> = chars_of(path);
    push_str(&mut v, ": ");
    push_str(&mut v, what);
    push_str(&mut v, " (stored config below)");
    out.push(string_of(v.as_slice()));
    let mut v: Vec<char> = chars_of("blur=");
    push_bool(&mut v, blur);
    push_str(&mut v, " ");
    let numbers: Vec<char> = numbers_line(n);
    push_all(&mut v, numbers.as_slice());
    out.push(string_of(v.as_slice()));
    assert(strings(out@) =~= seq![
        path@ + ": "@ + what@ + " (stored config below)"@,
        "blur="@ + bool_text(blur) + " "@ + numbers_text(*n),
    ]);
    out
}

// ---------------------------------------------------------------------------
// The dock's pins
// ---------------------------------------------------------------------------

/// What is asked of the dock's pins.
#[derive(Debug, Clone, PartialEq, Eq)]
pub enum DockOp {
    /// Pin an app; pinning one that is pinned changes nothing.
    Pin { app: String },
    /// Remove an app; removing one that is not pinned changes nothing.
    Unpin { app: String },
    /// List the pinned apps, in order.
    List,
}

/// What the caller does next.
#[derive(Debug, Clone, PartialEq, Eq)]
pub enum DockStep {
    /// Print the pins of the effective configuration.
    List,
    /// Replace the file by `config`, then report.
    Write { path: String, config: CompositorConfig, what: String, note: Option<String> },
}

pub enum DockStepView {
    List,
    Write { path: Seq<char>, config: ConfigView, what: Seq<char>, note: Option<Seq<char>> },
}

impl View for DockStep {
    type V = DockStepView;

    open spec fn view(&self) -> DockStepView {
        match *self {
            DockStep::List => DockStepView::List,
            DockStep::Write { path, config, what, note } => DockStepView::Write {
                path: path@,
                config: config@,
                what: what@,
                note: opt_str(note),
            },
        }
    }
}

/// The pins with one more, unless it is there.
pub open spec fn pinned(pins: Seq<Seq<char>>, app: Seq<char>) -> Seq<Seq<char>> {
    if pins.contains(app) {
        pins
    } else {
        pins.push(app)
    }
}

/// The first `n` pins that are not `app`.
pub open spec fn unpinned_upto(pins: Seq<Seq<char>>, app: Seq<char>, n: int) -> Seq<Seq<char>>
    decreases n,
{
    if n <= 0 {
        seq![]
    } else if pins[n - 1] == app {
        unpinned_upto(pins, app, n - 1)
    } else {
        unpinned_upto(pins, app, n - 1).push(pins[n - 1])
    }
}

/// The pins without `app`.
pub open spec fn unpinned(pins: Seq<Seq<char>>, app: Seq<char>) -> Seq<Seq<char>> {
    unpinned_upto(pins, app, pins.len() as int)
}

pub open spec fn dock_step(op: DockOp, path: Option<Seq<char>>, file: StoredFile) -> Result<
    DockStepView,
    Seq<char>,
> {
    match (op, path) {
        (DockOp::List, _) => Ok(DockStepView::List),
        (_, None) => Err("could not resolve a config path"@),
        (_, Some(p)) => match starting_point(
            p,
            file,
            "\nfix it or run `bacak config edit` first"@,
        ) {
            Err(m) => Err(m),
            Ok(c) => Ok(
                match op {
                    DockOp::Pin { app } => DockStepView::Write {
                        path: p,
                        config: (ConfigView {
                            dock_pinned: pinned(c.dock_pinned, app@),
                            ..c
                        }).sane(),
                        what: "pin "@ + app@,
                        note: if c.dock_pinned.contains(app@) {
                            Some(app@ + " was already pinned"@)
                        } else {
                            None
                        },
                    },
                    DockOp::Unpin { app } => DockStepView::Write {
                        path: p,
                        config: (ConfigView {
                            dock_pinned: unpinned(c.dock_pinned, app@),
                            ..c
                        }).sane(),
                        what: "unpin "@ + app@,
                        note: if unpinned(c.dock_pinned, app@).len() == c.dock_pinned.len() {
                            Some(app@ + " was not pinned"@)
                        } else {
                            None
                        },
                    },
                    DockOp::List => DockStepView::List,
                },
            ),
        },
    }
}

fn drop_pin(pins: &Vec<String>, app: &str) -> (r: Vec<String>)
    ensures
        strings(r@) == unpinned(strings(pins@), app@),
{
    let mut out: Vec<String> = Vec::new();
    let mut i: usize = 0;
    let ghost all = strings(pins@);
    assert(strings(out@) =~= seq![]);
    while i < pins.len()
        invariant
            i <= pins.len(),
            all == strings(pins@),
            strings(out@) == unpinned_upto(all, app@, i as int),
        decreases pins.len() - i,
    {
        let ghost before = strings(out@);
        assert(all[i as int] == pins@[i as int]@);
        if !crate::text::str_eq(pins[i].as_str(), app) {
            out.push(own(pins[i].as_str()));
            assert(strings(out@) =~= before.push(all[i as int]));
        }
        i += 1;
    }
    assert(all.len() == pins@.len());
    out
}

/// Decides what `bacak dock` does, given where the configuration lies and what
/// stands there. The other keys survive, and a file that was refused is not
/// overwritten.
pub fn cmd_dock(op: DockOp, path: Option<&str>, file: StoredFile) -> (r: Result<DockStep, String>)
    ensures
        match (r, dock_step(op, opt_ref(path), file)) {
            (Ok(s), Ok(v)) => s@ == v,
            (Err(e), Err(m)) => e@ == m,
            _ => false,
        },
{
    if let DockOp::List = op {
        return Ok(DockStep::List);
    }
    let p: &str = match path {
        Some(p) => p,
        None => {
            return Err(own("could not resolve a config path"));
        },
    };
    let mut c: CompositorConfig = match start_from(
        p,
        file,
        "\nfix it or run `bacak config edit` first",
    ) {
        Ok(c) => c,
        Err(m) => {
            return Err(m);
        },
    };
    let ghost pins = strings(c.dock_pinned@);
    match op {
        DockOp::Pin { app } => {
            let what: String = concat2("pin ", app.as_str());
            let mut note: Option<String> = None;
            if has_string(&c.dock_pinned, app.as_str()) {
                note = Some(concat2(app.as_str(), " was already pinned"));
            } else {
                c.dock_pinned.push(app);
                assert(strings(c.dock_pinned@) =~= pins.push(app@));
            }
            c.sanitize();
            Ok(DockStep::Write { path: own(p), config: c, what, note })
        },
        DockOp::Unpin { app } => {
            let what: String = concat2("unpin ", app.as_str());
            let left: Vec<String> = drop_pin(&c.dock_pinned, app.as_str());
            assert(strings(left@).len() == left@.len());
            assert(pins.len() == c.dock_pinned@.len());
            let note: Option<String> = if left.len() == c.dock_pinned.len() {
                Some(concat2(app.as_str(), " was not pinned"))
            } else {
                None
            };
            c.dock_pinned = left;
            c.sanitize();
            Ok(DockStep::Write { path: own(p), config: c, what, note })
        },
        DockOp::List => Ok(DockStep::List),
    }
}

/// The numbered lines of the first `n` pins.
pub open spec fn numbered(pins: Seq<Seq<char>>, n: int) -> Seq<Seq<char>>
    decreases n,
{
    if n <= 0 {
        seq![]
    } else {
        numbered(pins, n - 1).push(decimal(n as nat) + ". "@ + pins[n - 1])
    }
}

/// What `bacak dock list` prints.
pub fn dock_list(pins: &Vec<String>) -> (r: Vec<String>)
    ensures
        strings(r@) == (if pins.len() == 0 {
            seq!["(no pinned apps)"@]
        } else {
            numbered(strings(pins@), pins.len() as int)
        }),
{
    let mut out: Vec<String> = Vec::new();
    if pins.len() == 0 {
        out.push(own("(no pinned apps)"));
        assert(strings(out@) =~= seq!["(no pinned apps)"@]);
        return out;
    }
    let mut i: usize = 0;
    let ghost all = strings(pins@);
    assert(strings(out@) =~= seq![]);
    while i < pins.len()
        invariant
            i <= pins.len(),
            all == strings(pins@),
            strings(out@) == numbered(all, i as int),
        decreases pins.len() - i,
    {
        let ghost before = strings(out@);
        assert(all[i as int] == pins@[i as int]@);
        let mut v: Vec<char> = decimal_of(i as u64 + 1);
        push_str(&mut v, ". ");
        push_str(&mut v, pins[i].as_str());
        let line: String = string_of(v.as_slice());
        out.push(line);
        assert(strings(out@) =~= before.push(line@));
        i += 1;
    }
    out
}

/// What is printed once the pins were written.
pub open spec fn dock_report_lines(
    path: Seq<char>,
    what: Seq<char>,
    note: Option<Seq<char>>,
    pins: Seq<Seq<char>>,
) -> Seq<Seq<char>> {
    (match note {
        Some(n) => seq!["note: "@ + n],
        None => seq![],
    }) + seq![
        path + ": "@ + what,
        if pins.len() == 0 {
            "pinned: (none)"@
        } else {
            "pinned: "@ + join_upto(pins, 0, pins.len() as int, ", "@)
        },
    ]
}

/// What is printed once the pins were written.
pub fn dock_report(path: &str, what: &str, note: Option<&str>, pins: &Vec<String>) -> (r: Vec<
    String,
>)
    ensures
        strings(r@) == dock_report_lines(path@, what@, opt_ref(note), strings(pins@)),
{
    let mut out: Vec<String> = Vec::new();
    if let Some(n) = note {
        out.push(concat2("note: ", n));
    }
    out.push(concat3(path, ": ", what));
    if pins.len() == 0 {
        out.push(own("pinned: (none)"));
    } else {
        let mut v: Vec<char> = chars_of("pinned: ");
        assert(strings(pins@).len() == pins@.len());
        let list: Vec<char> = join_from(pins, 0, ", ");
        push_all(&mut v, list.as_slice());
        out.push(string_of(v.as_slice()));
    }
    assert(strings(out@) =~= dock_report_lines(path@, what@, opt_ref(note), strings(pins@)));
    out
}

// ---------------------------------------------------------------------------
// The saved session
// ---------------------------------------------------------------------------

/// How removing the session file ended.
#[derive(Debug, Clone, PartialEq, Eq)]
pub enum Removal {
    Removed,
    Missing,
    Failed(String),
}

/// The file that `bacak session clear` removes, or the message to fail with where
/// there is no place for one.
pub fn session_target(path: Option<&str>) -> (r: Result<String, String>)
    ensures
        match (r, path) {
            (Ok(target), Some(p)) => target@ == p@,
            (Err(e), None) => e@ == "could not resolve a session path"@,
            _ => false,
        },
{
    match path {
        Some(p) => Ok(own(p)),
        None => Err(own("could not resolve a session path")),
    }
}

/// What `bacak session clear` prints, or the message to fail with.
pub fn session_cleared(path: &str, removal: Removal) -> (r: Result<String, String>)
    ensures
        match (r, removal) {
            (Ok(line), Removal::Removed) => line@ == path@ + ": cleared"@,
            (Ok(line), Removal::Missing) => line@ == path@ + ": nothing to clear"@,
            (Err(e), Removal::Failed(m)) => e@ == "cannot remove "@ + path@ + ": "@ + m@,
            _ => false,
        },
{
    match removal {
        Removal::Removed => Ok(concat2(path, ": cleared")),
        Removal::Missing => Ok(concat2(path, ": nothing to clear")),
        Removal::Failed(m) => {
            let mut v: Vec<char> = chars_of("cannot remove ");
            push_str(&mut v, path);
            push_str(&mut v, ": ");
            push_str(&mut v, m.as_str());
            Err(string_of(v.as_slice()))
        },
    }
}

/// A window of the saved session; its place is in 256ths of a pixel.
#[derive(Debug, Clone, PartialEq, Eq)]
pub struct SessionWindow {
    pub app: String,
    pub title: String,
    pub x: i64,
    pub y: i64,
    pub w: i64,
    pub h: i64,
}

/// A length in whole pixels, the even one where two are as near.
pub open spec fn px_text(v: int) -> Seq<char> {
    if v < 0 {
        "-"@ + decimal(nearest_even((-v) as nat, PX as nat))
    } else {
        decimal(nearest_even(v as nat, PX as nat))
    }
}

fn nearest_px(v: u64) -> (r: u64)
    ensures
        r == nearest_even(v as nat, PX as nat),
{
    let q: u64 = v / 256;
    let rest: u64 = v % 256;
    if rest < 128 || (rest == 128 && q % 2 == 0) {
        q
    } else {
        q + 1
    }
}

/// Appends a length in whole pixels.
pub(crate) fn push_px(out: &mut Vec<char>, v: i64)
    ensures
        final(out)@ == old(out)@ + px_text(v as int),
{
    let ghost before = out@;
    if v < 0 {
        push_str(out, "-");
        let d: Vec<char> = decimal_of(nearest_px((-(v as i128)) as u64));
        push_all(out, d.as_slice());
    } else {
        let d: Vec<char> = decimal_of(nearest_px(v as u64));
        push_all(out, d.as_slice());
    }
    assert(out@ =~= before + px_text(v as int));
}

/// A rectangle in whole pixels.
pub open spec fn place_text(x: int, y: int, w: int, h: int) -> Seq<char> {
    "("@ + px_text(x) + ", "@ + px_text(y) + ", "@ + px_text(w) + ", "@ + px_text(h) + ")"@
}

pub(crate) fn place_line(x: i64, y: i64, w: i64, h: i64) -> (r: Vec<char>)
    ensures
        r@ == place_text(x as int, y as int, w as int, h as int),
{
    let mut v: Vec<char> = chars_of("(");
    push_px(&mut v, x);
    push_str(&mut v, ", ");
    push_px(&mut v, y);
    push_str(&mut v, ", ");
    push_px(&mut v, w);
    push_str(&mut v, ", ");
    push_px(&mut v, h);
    push_str(&mut v, ")");
    v
}

/// How a window of the session is called: by its app, and by its title where
/// that is not blank.
pub open spec fn window_label(w: SessionWindow) -> Seq<char> {
    if trim(w.title@).len() == 0 {
        w.app@
    } else {
        w.app@ + " — "@ + w.title@
    }
}

pub open spec fn window_line(w: SessionWindow) -> Seq<char> {
    "  "@ + padded(window_label(w), 28) + " "@ + place_text(
        w.x as int,
        w.y as int,
        w.w as int,
        w.h as int,
    )
}

pub open spec fn window_lines(ws: Seq<SessionWindow>, n: int) -> Seq<Seq<char>>
    decreases n,
{
    if n <= 0 {
        seq![]
    } else {
        window_lines(ws, n - 1).push(window_line(ws[n - 1]))
    }
}

fn show_window(w: &SessionWindow) -> (r: String)
    ensures
        r@ == window_line(*w),
{
    let title: Vec<char> = chars_of(w.title.as_str());
    let label: String = if trimmed(title.as_slice()).len() == 0 {
        own(w.app.as_str())
    } else {
        concat3(w.app.as_str(), " — ", w.title.as_str())
    };
    let mut v: Vec<char> = chars_of("  ");
    push_padded(&mut v, label.as_str(), 28);
    push_str(&mut v, " ");
    let place: Vec<char> = place_line(w.x, w.y, w.w, w.h);
    push_all(&mut v, place.as_slice());
    string_of(v.as_slice())
}

/// What `bacak session show` prints: where the file is, how many workspaces the
/// primary output has and which is active, and every window.
pub fn session_lines(
    path: Option<&str>,
    exists: bool,
    workspaces: u64,
    active: u64,
    windows: &Vec<SessionWindow>,
) -> (r: Vec<String>)
    ensures
        strings(r@) == seq![
            path_line(opt_ref(path)),
            "file exists:    "@ + bool_text(exists),
            "primary:        "@ + decimal(workspaces as nat) + " workspace(s), active #"@ + decimal(
                active as nat,
            ),
            "windows:        "@ + decimal(windows.len() as nat),
        ] + window_lines(windows@, windows.len() as int),
{
    let mut out: Vec<String> = Vec::new();
    out.push(show_path(path));
    out.push(flag_line("file exists:    ", exists));
    let mut v: Vec<char> = chars_of("primary:        ");
    let d: Vec<char> = decimal_of(workspaces);
    push_all(&mut v, d.as_slice());
    push_str(&mut v, " workspace(s), active #");
    let d: Vec<char> = decimal_of(active);
    push_all(&mut v, d.as_slice());
    out.push(string_of(v.as_slice()));
    let mut v: Vec<char> = chars_of("windows:        ");
    let d: Vec<char> = decimal_of(windows.len() as u64);
    push_all(&mut v, d.as_slice());
    out.push(string_of(v.as_slice()));
    let ghost head = strings(out@);
    assert(head =~= seq![
        path_line(opt_ref(path)),
        "file exists:    "@ + bool_text(exists),
        "primary:        "@ + decimal(workspaces as nat) + " workspace(s), active #"@ + decimal(
            active as nat,
        ),
        "windows:        "@ + decimal(windows.len() as nat),
    ]);
    let mut i: usize = 0;
    assert(head =~= head + seq![]);
    while i < windows.len()
        invariant
            i <= windows.len(),
            strings(out@) == head + window_lines(windows@, i as int),
        decreases windows.len() - i,
    {
        let ghost before = strings(out@);
        let line: String = show_window(&windows[i]);
        out.push(line);
        assert(strings(out@) =~= before.push(line@));
        assert(before.push(line@) =~= head + window_lines(windows@, i as int).push(line@));
        i += 1;
    }
    out
}

// ---------------------------------------------------------------------------
// Laws
// ---------------------------------------------------------------------------

/// An app id that the list of pins can hold as it is: not empty, not padded, and
/// without the separator.
pub open spec fn plain_app(app: Seq<char>) -> bool {
    app.len() > 0 && trim(app) == app && !app.contains(',')
}

proof fn lemma_unpinned_absent(pins: Seq<Seq<char>>, app: Seq<char>, n: int)
    requires
        0 <= n <= pins.len(),
        forall|k: int| 0 <= k < n ==> pins[k] != app,
    ensures
        unpinned_upto(pins, app, n) == pins.take(n),
    decreases n,
{
    if n > 0 {
        lemma_unpinned_absent(pins, app, n - 1);
        assert(pins.take(n) =~= pins.take(n - 1).push(pins[n - 1]));
    } else {
        assert(pins.take(0) =~= seq![]);
    }
}

proof fn lemma_unpinned_clean(pins: Seq<Seq<char>>, app: Seq<char>, n: int)
    requires
        clean(pins),
        0 <= n <= pins.len(),
    ensures
        clean(unpinned_upto(pins, app, n)),
        !unpinned_upto(pins, app, n).contains(app),
        forall|x: Seq<char>| #[trigger]
            unpinned_upto(pins, app, n).contains(x) ==> exists|k: int| 0 <= k < n && pins[k] == x,
    decreases n,
{
    if n > 0 {
        lemma_unpinned_clean(pins, app, n - 1);
        let list = unpinned_upto(pins, app, n - 1);
        let next = unpinned_upto(pins, app, n);
        if pins[n - 1] != app {
            assert forall|i: int, j: int| 0 <= i < j < next.len() implies next[i] != next[j] by {
                assert(list.contains(list[i]));
                if j == list.len() {
                    let k = choose|k: int| 0 <= k < n - 1 && pins[k] == list[i];
                    assert(pins[k] != pins[n - 1]);
                }
            }
            assert forall|x: Seq<char>| #[trigger] next.contains(x) implies exists|k: int|
                0 <= k < n && pins[k] == x by {
                let m = choose|m: int| 0 <= m < next.len() && next[m] == x;
                if m < list.len() {
                    assert(list.contains(list[m]));
                    let k = choose|k: int| 0 <= k < n - 1 && pins[k] == list[m];
                    assert(pins[k] == x);
                } else {
                    assert(pins[n - 1] == x);
                }
            }
            if next.contains(app) {
                let m = choose|m: int| 0 <= m < next.len() && next[m] == app;
                assert(m < list.len());
                assert(list.contains(list[m]));
            }
        }
    }
}

/// Pinning keeps the pins, in order and in front, and every other key; pinning
/// once more changes nothing, whatever the app's name.
pub proof fn law_pin_once(c: ConfigView, app: Seq<char>)
    ensures
        ({
            let pins = c.sane().dock_pinned;
            let once = (ConfigView { dock_pinned: pinned(pins, app), ..c.sane() }).sane();
            let twice = (ConfigView { dock_pinned: pinned(once.dock_pinned, app), ..once }).sane();
            &&& pins.len() <= once.dock_pinned.len()
            &&& once.dock_pinned.take(pins.len() as int) == pins
            &&& once == (ConfigView { dock_pinned: once.dock_pinned, ..c.sane() })
            &&& twice == once
        }),
{
    let pins = c.sane().dock_pinned;
    law_list_clean(join_upto(c.dock_pinned, 0, c.dock_pinned.len() as int, ","@));
    law_sanitize_once(c);
    law_list_round_trip(pins);
    law_list_grows_once(pins, app);
    assert(pins.take(pins.len() as int) =~= pins);
    let once = (ConfigView { dock_pinned: pinned(pins, app), ..c.sane() }).sane();
    law_list_round_trip(once.dock_pinned);
}

/// Pinning an app that is not pinned puts it last.
pub proof fn law_pin(c: ConfigView, app: Seq<char>)
    requires
        plain_app(app),
    ensures
        (ConfigView { dock_pinned: pinned(c.sane().dock_pinned, app), ..c.sane() }).sane()
            == (ConfigView { dock_pinned: pinned(c.sane().dock_pinned, app), ..c.sane() }),
{
    let pins = c.sane().dock_pinned;
    law_list_clean(join_upto(c.dock_pinned, 0, c.dock_pinned.len() as int, ","@));
    law_sanitize_once(c);
    let next = pinned(pins, app);
    assert(clean(next)) by {
        if !pins.contains(app) {
            assert forall|i: int, j: int| 0 <= i < j < next.len() implies next[i] != next[j] by {
                assert(pins.contains(pins[i]));
            }
        }
    }
    law_list_round_trip(next);
}

/// Unpinning leaves no pin of that name and keeps the others in order, and every
/// other key; unpinning an app that is not pinned changes nothing.
pub proof fn law_unpin(c: ConfigView, app: Seq<char>)
    ensures
        ({
            let pins = c.sane().dock_pinned;
            let off = (ConfigView { dock_pinned: unpinned(pins, app), ..c.sane() }).sane();
            &&& off == (ConfigView { dock_pinned: unpinned(pins, app), ..c.sane() })
            &&& !off.dock_pinned.contains(app)
            &&& !pins.contains(app) ==> off == c.sane()
        }),
{
    let pins = c.sane().dock_pinned;
    law_list_clean(join_upto(c.dock_pinned, 0, c.dock_pinned.len() as int, ","@));
    law_sanitize_once(c);
    lemma_unpinned_clean(pins, app, pins.len() as int);
    law_list_round_trip(unpinned(pins, app));
    if !pins.contains(app) {
        let n = pins.len() as int;
        assert forall|k: int| 0 <= k < n implies pins[k] != app by {
            assert(pins.contains(pins[k]));
        }
        lemma_unpinned_absent(pins, app, n);
        assert(pins.take(n) =~= pins);
    }
}

/// Unpinning undoes pinning an app that was not pinned.
pub proof fn law_unpin_undoes_pin(c: ConfigView, app: Seq<char>)
    requires
        plain_app(app),
        !c.sane().dock_pinned.contains(app),
    ensures
        ({
            let on = (ConfigView {
                dock_pinned: pinned(c.sane().dock_pinned, app),
                ..c.sane()
            }).sane();
            (ConfigView { dock_pinned: unpinned(on.dock_pinned, app), ..on }).sane() == c.sane()
        }),
{
    let pins = c.sane().dock_pinned;
    law_pin(c, app);
    law_sanitize_once(c);
    let n = pins.len() as int;
    let more = pins.push(app);
    assert forall|k: int| 0 <= k < n implies more[k] != app by {
        assert(pins.contains(pins[k]));
    }
    lemma_unpinned_absent(more, app, n);
    assert(more.take(n) =~= pins);
}

/// Resetting every key gives the defaults whatever stood in the file, a corrupt
/// one included.
pub proof fn law_reset_recovers(
    path: Seq<char>,
    file: StoredFile,
    visual: Option<Seq<char>>,
    editor: Option<Seq<char>>,
)
    ensures
        config_step(ConfigOp::ResetKey { key: None }, Some(path), file, visual, editor) == Ok::<
            ConfigStepView,
            Seq<char>,
        >(ConfigStepView::Write { path, config: default_config(), what: "reset all"@ }),
{
    law_defaults_are_sane("blur"@);
}

// ---------------------------------------------------------------------------
// Laws of the edits
// ---------------------------------------------------------------------------

/// Setting a key changes what is stored and nothing else: the other keys are written
/// back as they stood in the file, to the file they were read from.
pub proof fn law_set_keeps_the_rest(
    key: String,
    value: String,
    number: Option<Number>,
    path: Seq<char>,
    file: CompositorConfig,
    visual: Option<Seq<char>>,
    editor: Option<Seq<char>>,
)
    ensures
        match config_step(
            ConfigOp::SetKey { key, value, number },
            Some(path),
            StoredFile::Valid(file),
            visual,
            editor,
        ) {
            Ok(ConfigStepView::Write { path: p, config, what }) => {
                &&& p == path
                &&& file@.with_field(key@, value@, number) matches Ok(c)
                &&& config == c.sane()
                &&& what == "set "@ + key@
            },
            Ok(_) => false,
            Err(m) => file@.with_field(key@, value@, number) == Err::<ConfigView, Seq<char>>(m),
        },
{
}

/// A file that is not valid is never written over by setting or resetting one key, nor
/// by the pins; an absent one counts as the defaults.
pub proof fn law_corrupt_file_is_kept(
    key: String,
    value: String,
    number: Option<Number>,
    app: String,
    path: Seq<char>,
    why: String,
)
    ensures
        config_step(
            ConfigOp::SetKey { key, value, number },
            Some(path),
            StoredFile::Invalid(why),
            None,
            None,
        ) is Err,
        config_step(
            ConfigOp::ResetKey { key: Some(key) },
            Some(path),
            StoredFile::Invalid(why),
            None,
            None,
        ) is Err,
        dock_step(DockOp::Pin { app }, Some(path), StoredFile::Invalid(why)) is Err,
        dock_step(DockOp::Unpin { app }, Some(path), StoredFile::Invalid(why)) is Err,
        starting_point(path, StoredFile::Absent, value@) == Ok::<ConfigView, Seq<char>>(
            default_config(),
        ),
{
}

/// Where no place for the configuration is known nothing is written, but what is
/// effective can still be shown, and a named file judged.
pub proof fn law_no_path(op: ConfigOp, app: String, f: String, file: StoredFile)
    ensures
        config_step(op, None, file, None, None) matches Ok(s) ==> s is Show || s is Validate,
        config_step(ConfigOp::Show, None, file, None, None) == Ok::<ConfigStepView, Seq<char>>(
            ConfigStepView::Show,
        ),
        config_step(ConfigOp::Validate { file: Some(f) }, None, file, None, None) == Ok::<
            ConfigStepView,
            Seq<char>,
        >((ConfigStepView::Validate { target: f@ })),
        config_step(ConfigOp::Edit, None, file, None, None) is Err,
        dock_step(DockOp::Pin { app }, None, file) is Err,
        dock_step(DockOp::List, None, file) == Ok::<DockStepView, Seq<char>>(DockStepView::List),
{
}

/// The editor is `$VISUAL` before `$EDITOR` before `vi`; its own arguments come before
/// the path, which is the last.
pub proof fn law_editor(program: Seq<char>, argument: Seq<char>, other: Option<Seq<char>>, path: Seq<char>)
    requires
        program.len() > 0,
        argument.len() > 0,
        forall|i: int| 0 <= i < program.len() ==> !is_whitespace(#[trigger] program[i]),
        forall|i: int| 0 <= i < argument.len() ==> !is_whitespace(#[trigger] argument[i]),
    ensures
        editor_run(Some(program + seq![' '] + argument), other, path) == Some(
            run(program, seq![argument, path]),
        ),
        editor_run(None, Some(program), path) == Some(run(program, seq![path])),
        editor_run(None, None, path) == Some(run("vi"@, seq![path])),
        editor_run(Some(seq![' ']), other, path) is None,
{
    reveal_strlit("vi");
    law_white_space(' ');
    law_white_space('v');
    law_white_space('i');
    law_words(seq![], program, seq![' '] + argument);
    law_words(seq![' '], argument, seq![]);
    law_words(seq![], program, seq![]);
    law_words(seq![], "vi"@, seq![]);
    law_words(seq![' '], program, seq![]);
    assert(Seq::<char>::empty() + program + (seq![' '] + argument) =~= program + seq![' ']
        + argument);
    assert(seq![' '] + argument + Seq::<char>::empty() =~= seq![' '] + argument);
    assert(Seq::<char>::empty() + program + Seq::<char>::empty() =~= program);
    assert(Seq::<char>::empty() + "vi"@ + Seq::<char>::empty() =~= "vi"@);
    let none = Seq::<Seq<char>>::empty();
    assert((seq![program] + (seq![argument] + none)).skip(1).push(path) =~= seq![argument, path]);
    assert((seq![program] + none).skip(1).push(path) =~= seq![path]);
    assert((seq!["vi"@] + none).skip(1).push(path) =~= seq![path]);
}

/// The blur that is in effect is what the file says, unless it is forced on; the
/// reason is given just where the file says otherwise.
pub proof fn law_blur_line(path: Option<Seq<char>>, exists: bool, n: NumberTexts)
    ensures
        config_lines(path, exists, true, true, n)[3] == "blur effective: "@ + bool_text(true) + ""@,
        config_lines(path, exists, true, false, n)[3] == "blur effective: "@ + bool_text(true)
            + ""@,
        config_lines(path, exists, false, true, n)[3] == "blur effective: "@ + bool_text(true)
            + "  (forced by BACAK_BLUR)"@,
        config_lines(path, exists, false, false, n)[3] == "blur effective: "@ + bool_text(false)
            + ""@,
        config_lines(path, exists, false, true, n)[2] == "blur:           "@ + bool_text(false),
        config_lines(path, true, false, true, n)[1] == "file exists:    "@ + bool_text(true),
        bool_text(true) == "true"@,
        bool_text(false) == "false"@,
{
}

/// Pins are numbered from one, in order, each on a line of its own.
pub proof fn law_pins_are_numbered(pins: Seq<Seq<char>>, n: int, i: int)
    requires
        0 <= i < n <= pins.len(),
    ensures
        numbered(pins, n).len() == n,
        numbered(pins, n)[i] == decimal((i + 1) as nat) + ". "@ + pins[i],
    decreases n,
{
    if n > 1 {
        law_pins_are_numbered(
            pins,
            n - 1,
            if i < n - 1 {
                i
            } else {
                0
            },
        );
    } else {
        assert(numbered(pins, 0).len() == 0);
    }
}

/// A note is given just where a change of the pins came to nothing.
pub proof fn law_dock_notes(app: String, path: Seq<char>, file: CompositorConfig)
    ensures
        match dock_step(DockOp::Pin { app }, Some(path), StoredFile::Valid(file)) {
            Ok(DockStepView::Write { path: p, config, what, note }) => {
                &&& p == path
                &&& what == "pin "@ + app@
                &&& (note is Some) == file@.dock_pinned.contains(app@)
            },
            _ => false,
        },
        match dock_step(DockOp::Unpin { app }, Some(path), StoredFile::Valid(file)) {
            Ok(DockStepView::Write { path: p, config, what, note }) => {
                &&& p == path
                &&& what == "unpin "@ + app@
                &&& (note is Some) == !file@.dock_pinned.contains(app@)
            },
            _ => false,
        },
{
    lemma_unpinned_length(file@.dock_pinned, app@, file@.dock_pinned.len() as int);
}

proof fn lemma_unpinned_length(pins: Seq<Seq<char>>, app: Seq<char>, n: int)
    requires
        0 <= n <= pins.len(),
    ensures
        unpinned_upto(pins, app, n).len() <= n,
        (unpinned_upto(pins, app, n).len() == n) == (forall|i: int|
            0 <= i < n ==> #[trigger] pins[i] != app),
    decreases n,
{
    if n > 0 {
        lemma_unpinned_length(pins, app, n - 1);
        if pins[n - 1] != app && unpinned_upto(pins, app, n - 1).len() == n - 1 {
            assert(forall|i: int| 0 <= i < n ==> #[trigger] pins[i] != app);
        }
    }
}

/// A length is told in whole pixels of 256 units: it stands for the nearest pixel,
/// with its sign.
pub proof fn law_pixels_are_told(v: nat, p: nat)
    requires
        256 * p - 128 < v < 256 * p + 128,
    ensures
        px_text(v as int) == decimal(p),
        p > 0 ==> px_text(-(v as int)) == "-"@ + decimal(p),
{
    law_nearest(v, 256);
}

/// A window is called by its app, and by its title behind it where it has one.
pub proof fn law_window_label(w: SessionWindow)
    ensures
        w.title@.len() == 0 ==> window_label(w) == w.app@,
        w.title@.len() > 0 && !is_whitespace(w.title@[0]) && !is_whitespace(w.title@.last())
            ==> window_label(w) == w.app@ + " — "@ + w.title@,
{
    law_trim_blank(seq![]);
    assert(w.title@.len() == 0 ==> w.title@ =~= seq![]);
    if w.title@.len() > 0 && !is_whitespace(w.title@[0]) && !is_whitespace(w.title@.last()) {
        law_trim_undoes_padding(seq![], w.title@, seq![]);
        assert(Seq::<char>::empty() + w.title@ + Seq::<char>::empty() =~= w.title@);
    }
}

/// The numbers of a configuration are told in one line, the shadows from the topmost on,
/// and a slot by its width before its height.
pub proof fn law_numbers_line(n: NumberTexts)
    ensures
        numbers_text(n) == "blur_radius="@ + n.blur_radius@ + " shadow=("@ + n.shadow_top@ + ","@
            + n.shadow_step@ + ","@ + n.shadow_floor@ + ") dock=("@ + n.dock_slot_w@ + "x"@
            + n.dock_slot_h@ + ")"@,
{
}

/// A window's line has its name in a column of 28 and its place behind it, x before y
/// before width before height, in pixels.
pub proof fn law_window_lines(ws: Seq<SessionWindow>, n: int, i: int)
    requires
        0 <= i < n <= ws.len(),
    ensures
        window_lines(ws, n).len() == n,
        window_lines(ws, n)[i] == "  "@ + padded(window_label(ws[i]), 28) + " "@ + ("("@ + px_text(
            ws[i].x as int,
        ) + ", "@ + px_text(ws[i].y as int) + ", "@ + px_text(ws[i].w as int) + ", "@ + px_text(
            ws[i].h as int,
        ) + ")"@),
    decreases n,
{
    if n > 1 {
        law_window_lines(
            ws,
            n - 1,
            if i < n - 1 {
                i
            } else {
                0
            },
        );
    } else {
        assert(window_lines(ws, 0).len() == 0);
    }
}

/// The pins are told once they were written, behind the note where there is one.
pub proof fn law_dock_report(path: Seq<char>, what: Seq<char>, note: Seq<char>, a: Seq<char>, b: Seq<char>)
    ensures
        dock_report_lines(path, what, Some(note), seq![a, b]) == seq![
            "note: "@ + note,
            path + ": "@ + what,
            "pinned: "@ + (a + ", "@ + b),
        ],
        dock_report_lines(path, what, None, seq![a]) == seq![path + ": "@ + what, "pinned: "@ + a],
        dock_report_lines(path, what, None, seq![]) == seq![path + ": "@ + what, "pinned: (none)"@],
{
    reveal_with_fuel(join_upto, 3);
    assert(join_upto(seq![a, b], 0, 2, ", "@) =~= a + ", "@ + b);
    assert(Seq::<Seq<char>>::empty() + seq![path + ": "@ + what, "pinned: "@ + a] =~= seq![
        path + ": "@ + what,
        "pinned: "@ + a,
    ]);
    assert(Seq::<Seq<char>>::empty() + seq![path + ": "@ + what, "pinned: (none)"@] =~= seq![
        path + ": "@ + what,
        "pinned: (none)"@,
    ]);
    assert(seq!["note: "@ + note] + seq![path + ": "@ + what, "pinned: "@ + (a + ", "@ + b)]
        =~= seq!["note: "@ + note, path + ": "@ + what, "pinned: "@ + (a + ", "@ + b)]);
}

} // verus!
