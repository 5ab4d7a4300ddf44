//! Launching the shell session in a browser without chrome.

use vstd::prelude::*;

use crate::controls::{run, Invocation, InvocationView};
use crate::text::{
    chars_of, concat2, join_from, join_upto, own, own_all, push_all, push_str, string_of, strings, strs,
};

verus! {

/// Where the frontend is looked for, in order.
pub open spec fn ui_paths() -> Seq<Seq<char>> {
    seq![
        "/usr/share/bacak/ui/index.html"@,
        "/usr/local/share/bacak/ui/index.html"@,
        "./index.html"@,
    ]
}

/// Where the frontend is looked for, in order.
pub fn shell_candidates() -> (r: Vec<String>)
    ensures
        strings(r@) == ui_paths(),
{
    let paths: Vec<&str> = vec![
        "/usr/share/bacak/ui/index.html",
        "/usr/local/share/bacak/ui/index.html",
        "./index.html",
    ];
    assert(strs(paths@) =~= ui_paths());
    own_all(&paths)
}

/// The first place that holds the frontend, or the message to fail with.
pub fn shell_ui(in_share: bool, in_local_share: bool, here: bool) -> (r: Result<String, String>)
    ensures
        match r {
            Ok(p) => p@ == (if in_share {
                ui_paths()[0]
            } else if in_local_share {
                ui_paths()[1]
            } else {
                ui_paths()[2]
            }) && (in_share || in_local_share || here),
            Err(m) => !in_share && !in_local_share && !here && m@
                == "Bacak frontend not found (expected /usr/share/bacak/ui/index.html or ./index.html)"@,
        },
{
    if in_share {
        Ok(own("/usr/share/bacak/ui/index.html"))
    } else if in_local_share {
        Ok(own("/usr/local/share/bacak/ui/index.html"))
    } else if here {
        Ok(own("./index.html"))
    } else {
        Err(
            own(
                "Bacak frontend not found (expected /usr/share/bacak/ui/index.html or ./index.html)",
            ),
        )
    }
}

/// The browsers in order of preference, with what comes before the URL.
pub open spec fn browsers() -> Seq<InvocationView> {
    seq![
        run(
            "chromium"@,
            seq!["--kiosk"@, "--no-first-run"@, "--ozone-platform-hint=auto"@],
        ),
        run("chromium-browser"@, seq!["--kiosk"@, "--no-first-run"@]),
        run("google-chrome"@, seq!["--kiosk"@, "--no-first-run"@]),
        run("firefox"@, seq!["--kiosk"@]),
        run("xdg-open"@, seq![]),
    ]
}

fn browser(i: usize) -> (r: Invocation)
    requires
        i < browsers().len(),
    ensures
        r@ == browsers()[i as int],
{
    let (program, args): (&str, Vec<&str>) = if i == 0 {
        ("chromium", vec!["--kiosk", "--no-first-run", "--ozone-platform-hint=auto"])
    } else if i == 1 {
        ("chromium-browser", vec!["--kiosk", "--no-first-run"])
    } else if i == 2 {
        ("google-chrome", vec!["--kiosk", "--no-first-run"])
    } else if i == 3 {
        ("firefox", vec!["--kiosk"])
    } else {
        ("xdg-open", Vec::new())
    };
    assert(strs(args@) =~= browsers()[i as int].args);
    Invocation { program: own(program), args: own_all(&args) }
}

/// What the caller does next.
#[derive(Debug, Clone, PartialEq, Eq)]
pub enum ShellStep {
    /// Print what would run, and stop.
    Print { line: String },
    /// Run this browser and hand back how it ended.
    Run { browser: Invocation },
    /// Nothing is left to try.
    Fail { message: String },
}

pub enum ShellStepView {
    Print { line: Seq<char> },
    Run { browser: InvocationView },
    Fail { message: Seq<char> },
}

impl View for ShellStep {
    type V = ShellStepView;

    open spec fn view(&self) -> ShellStepView {
        match *self {
            ShellStep::Print { line } => ShellStepView::Print { line: line@ },
            ShellStep::Run { browser } => ShellStepView::Run { browser: browser@ },
            ShellStep::Fail { message } => ShellStepView::Fail { message: message@ },
        }
    }
}

/// What is done with the browser of rank `i`.
pub open spec fn shell_step_of(i: int, dry_run: bool, url: Seq<char>) -> ShellStepView {
    if i >= browsers().len() {
        ShellStepView::Fail {
            message:
                "no supported browser found — install chromium, firefox, or xdg-utils, or replace this command with the Bacak compositor"@,
        }
    } else if dry_run {
        let b = browsers()[i];
        ShellStepView::Print {
            line: "would exec: "@ + b.program + " "@ + join_upto(b.args, 0, b.args.len() as int, " "@)
                + " "@ + url,
        }
    } else {
        let b = browsers()[i];
        ShellStepView::Run { browser: run(b.program, b.args.push(url)) }
    }
}

/// What is done with the browser of rank `i`: it is run on the URL, or only
/// named on a dry run.
pub fn shell_step(i: usize, dry_run: bool, url: &str) -> (r: ShellStep)
    ensures
        r@ == shell_step_of(i as int, dry_run, url@),
{
    if i >= 5 {
        return ShellStep::Fail {
            message: own(
                "no supported browser found — install chromium, firefox, or xdg-utils, or replace this command with the Bacak compositor",
            ),
        };
    }
    let b: Invocation = browser(i);
    let ghost args = strings(b.args@);
    assert(args.len() == b.args@.len());
    if dry_run {
        let mut v: Vec<char> = chars_of("would exec: ");
        push_str(&mut v, b.program.as_str());
        push_str(&mut v, " ");
        let list: Vec<char> = join_from(&b.args, 0, " ");
        push_all(&mut v, list.as_slice());
        push_str(&mut v, " ");
        push_str(&mut v, url);
        ShellStep::Print { line: string_of(v.as_slice()) }
    } else {
        let mut b = b;
        b.args.push(own(url));
        assert(strings(b.args@) =~= args.push(url@));
        ShellStep::Run { browser: b }
    }
}

/// How a browser ended.
#[derive(Debug, Clone, Copy, PartialEq, Eq, Structural)]
pub enum BrowserOutcome {
    Success,
    /// It ran and failed.
    Failure,
    /// There is no such program.
    NotFound,
    /// It could not be started for another reason.
    NotStarted,
}

/// What follows a browser's end.
#[derive(Debug, Clone, PartialEq, Eq)]
pub enum ShellNext {
    Done,
    /// Try the browser of this rank.
    Try { rank: usize },
    /// Fail with this context around the reason.
    Fail { context: String },
}

/// After the browser of rank `i` ended: done where it succeeded, the next one
/// where it failed or is not installed, and failure where it could not be
/// started.
pub fn shell_next(i: usize, outcome: BrowserOutcome) -> (r: ShellNext)
    requires
        i < browsers().len(),
    ensures
        match (r, outcome) {
            (ShellNext::Done, BrowserOutcome::Success) => true,
            (ShellNext::Try { rank }, BrowserOutcome::Failure) => rank == i + 1,
            (ShellNext::Try { rank }, BrowserOutcome::NotFound) => rank == i + 1,
            (ShellNext::Fail { context }, BrowserOutcome::NotStarted) => context@
                == "failed to spawn "@ + browsers()[i as int].program,
            _ => false,
        },
{
    match outcome {
        BrowserOutcome::Success => ShellNext::Done,
        BrowserOutcome::Failure => ShellNext::Try { rank: i + 1 },
        BrowserOutcome::NotFound => ShellNext::Try { rank: i + 1 },
        BrowserOutcome::NotStarted => {
            let b: Invocation = browser(i);
            ShellNext::Fail { context: concat2("failed to spawn ", b.program.as_str()) }
        },
    }
}

/// The URL of the frontend.
pub fn shell_url(ui: &str) -> (r: String)
    ensures
        r@ == "file://"@ + ui@,
{
    concat2("file://", ui)
}

/// The frontend of the system comes before a local one and that of the directory; the
/// browsers are tried from Chromium on to whatever opens files, and each is handed the
/// URL as its last argument.
pub proof fn law_browsers(i: int, url: Seq<char>)
    requires
        0 <= i < 5,
    ensures
        browsers().len() == 5,
        browsers()[0].program == "chromium"@,
        browsers()[1].program == "chromium-browser"@,
        browsers()[2].program == "google-chrome"@,
        browsers()[3].program == "firefox"@,
        browsers()[4].program == "xdg-open"@,
        browsers()[4].args.len() == 0,
        i < 4 ==> browsers()[i].args[0] == "--kiosk"@,
        ui_paths() == seq![
            "/usr/share/bacak/ui/index.html"@,
            "/usr/local/share/bacak/ui/index.html"@,
            "./index.html"@,
        ],
        shell_step_of(i, false, url) matches ShellStepView::Run { browser } && browser.program
            == browsers()[i].program && browser.args.last() == url && browser.args.drop_last()
            == browsers()[i].args,
        shell_step_of(i, true, url) is Print,
        shell_step_of(5, true, url) is Fail,
        shell_step_of(5, false, url) is Fail,
{
    assert(browsers()[i].args.push(url).drop_last() =~= browsers()[i].args);
}

} // verus!
