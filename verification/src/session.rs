//! The shared browser session and the work that each tool does on it.
//!
//! One Chrome instance with one page is shared by every tool call. It is
//! launched lazily, by the first call that needs a page, and kept until it
//! is closed. Each tool call is a `Request`; the manager answers it with a
//! run of browser `Command`s, one at a time. Whoever holds the real browser
//! performs each command and hands back its `Outcome`; the manager then
//! says what to do next, until the run finishes with the tool's result.
use vstd::prelude::*;
use crate::flags::{parse_chrome_flags, string_views, words};

verus! {

/// The URL of the page that a freshly launched browser opens.
pub open spec fn blank_page() -> Seq<char> {
    "about:blank"@
}

/// The selector that `get_text` reads when none is given.
pub open spec fn default_text_selector() -> Seq<char> {
    "body"@
}

// ---------------------------------------------------------------------------
// Launch configuration

/// How Chrome is to be configured before it is launched.
#[derive(Debug, PartialEq, Eq)]
pub struct LaunchPlan {
    /// Show a browser window (Chrome runs headless otherwise).
    pub with_head: bool,
    /// The Chrome binary to run; detected on the `PATH` when absent.
    pub chrome_executable: Option<String>,
    /// Extra command-line arguments, in order.
    pub args: Vec<String>,
    /// Run Chrome without its sandbox.
    pub no_sandbox: bool,
}

pub struct LaunchPlanView {
    pub with_head: bool,
    pub chrome_executable: Option<Seq<char>>,
    pub args: Seq<Seq<char>>,
    pub no_sandbox: bool,
}

impl View for LaunchPlan {
    type V = LaunchPlanView;

    open spec fn view(&self) -> LaunchPlanView {
        LaunchPlanView {
            with_head: self.with_head,
            chrome_executable: self.chrome_executable.deep_view(),
            args: string_views(self.args@),
            no_sandbox: self.no_sandbox,
        }
    }
}

// ---------------------------------------------------------------------------
// Requests, commands, outcomes, results

/// One tool call against the shared page.
#[derive(Debug, PartialEq, Eq)]
#[allow(inconsistent_fields)]
pub enum Request {
    /// Go to `url`, wait for the load, answer with the page title.
    Navigate { url: String },
    /// Answer with the current URL.
    CurrentUrl,
    /// Answer with the page HTML, or the inner HTML of the first element
    /// matching `selector`.
    GetContent { selector: Option<String> },
    /// Answer with the rendered text of the first element matching
    /// `selector`, or of the page body.
    GetText { selector: Option<String> },
    /// Click the first element matching `selector`.
    Click { selector: String },
    /// Click the element matching `selector`, type `text`, then press
    /// `press_key_after` if there is one.
    TypeText { selector: String, text: String, press_key_after: Option<String> },
    /// Evaluate `script` in the page and answer with its JSON result.
    EvalJs { script: String },
    /// Answer with a PNG screenshot of the viewport or the full page.
    Screenshot { full_page: bool },
    /// Answer with the page rendered as PDF.
    Pdf,
    /// Shut the shared browser down, if one is running.
    Close,
}

#[allow(inconsistent_fields)]
pub enum RequestView {
    Navigate { url: Seq<char> },
    CurrentUrl,
    GetContent { selector: Option<Seq<char>> },
    GetText { selector: Option<Seq<char>> },
    Click { selector: Seq<char> },
    TypeText { selector: Seq<char>, text: Seq<char>, press_key_after: Option<Seq<char>> },
    EvalJs { script: Seq<char> },
    Screenshot { full_page: bool },
    Pdf,
    Close,
}

impl View for Request {
    type V = RequestView;

    open spec fn view(&self) -> RequestView {
        match self {
            Request::Navigate { url } => RequestView::Navigate { url: url@ },
            Request::CurrentUrl => RequestView::CurrentUrl,
            Request::GetContent { selector } => RequestView::GetContent {
                selector: selector.deep_view(),
            },
            Request::GetText { selector } => RequestView::GetText { selector: selector.deep_view() },
            Request::Click { selector } => RequestView::Click { selector: selector@ },
            Request::TypeText { selector, text, press_key_after } => RequestView::TypeText {
                selector: selector@,
                text: text@,
                press_key_after: press_key_after.deep_view(),
            },
            Request::EvalJs { script } => RequestView::EvalJs { script: script@ },
            Request::Screenshot { full_page } => RequestView::Screenshot { full_page: *full_page },
            Request::Pdf => RequestView::Pdf,
            Request::Close => RequestView::Close,
        }
    }
}

/// One thing to do with the browser.
#[derive(Debug, PartialEq, Eq)]
pub enum Command {
    /// Build the browser configuration from the plan.
    BuildConfig { plan: LaunchPlan },
    /// Launch Chrome with the configuration just built, and keep its event
    /// loop running.
    LaunchBrowser,
    /// Open a new page at `url` in the launched browser; it becomes the
    /// shared page.
    OpenPage { url: String },
    /// Load `url` in the shared page.
    Goto { url: String },
    /// Wait until the page has loaded.
    WaitForNavigation,
    /// Read the page title (it may have none).
    GetTitle,
    /// Read the page URL (it may have none).
    GetUrl,
    /// Read the whole page HTML.
    GetPageContent,
    /// Find the first element that matches `selector`; it becomes the
    /// current element.
    FindElement { selector: String },
    /// Read the inner HTML of the current element (it may have none).
    InnerHtml,
    /// Read the rendered text of the current element (it may have none).
    InnerText,
    /// Click the current element.
    ClickElement,
    /// Type `text` into the current element.
    TypeStr { text: String },
    /// Press `key` on the current element.
    PressKey { key: String },
    /// Evaluate `script`; the result is its JSON text, or none when it has
    /// no JSON value.
    Evaluate { script: String },
    /// Take a PNG screenshot of the viewport, or of the full page.
    CaptureScreenshot { full_page: bool },
    /// Render the page as PDF.
    PrintPdf,
    /// Close the browser.
    CloseBrowser,
}

pub enum CommandView {
    BuildConfig { plan: LaunchPlanView },
    LaunchBrowser,
    OpenPage { url: Seq<char> },
    Goto { url: Seq<char> },
    WaitForNavigation,
    GetTitle,
    GetUrl,
    GetPageContent,
    FindElement { selector: Seq<char> },
    InnerHtml,
    InnerText,
    ClickElement,
    TypeStr { text: Seq<char> },
    PressKey { key: Seq<char> },
    Evaluate { script: Seq<char> },
    CaptureScreenshot { full_page: bool },
    PrintPdf,
    CloseBrowser,
}

impl View for Command {
    type V = CommandView;

    open spec fn view(&self) -> CommandView {
        match self {
            Command::BuildConfig { plan } => CommandView::BuildConfig { plan: plan@ },
            Command::LaunchBrowser => CommandView::LaunchBrowser,
            Command::OpenPage { url } => CommandView::OpenPage { url: url@ },
            Command::Goto { url } => CommandView::Goto { url: url@ },
            Command::WaitForNavigation => CommandView::WaitForNavigation,
            Command::GetTitle => CommandView::GetTitle,
            Command::GetUrl => CommandView::GetUrl,
            Command::GetPageContent => CommandView::GetPageContent,
            Command::FindElement { selector } => CommandView::FindElement { selector: selector@ },
            Command::InnerHtml => CommandView::InnerHtml,
            Command::InnerText => CommandView::InnerText,
            Command::ClickElement => CommandView::ClickElement,
            Command::TypeStr { text } => CommandView::TypeStr { text: text@ },
            Command::PressKey { key } => CommandView::PressKey { key: key@ },
            Command::Evaluate { script } => CommandView::Evaluate { script: script@ },
            Command::CaptureScreenshot { full_page } => CommandView::CaptureScreenshot {
                full_page: *full_page,
            },
            Command::PrintPdf => CommandView::PrintPdf,
            Command::CloseBrowser => CommandView::CloseBrowser,
        }
    }
}

/// What came of a command.
#[derive(Debug, PartialEq, Eq)]
pub enum Outcome {
    /// It succeeded and gave nothing back.
    Completed,
    /// It succeeded and gave back a text, or no text.
    Text(Option<String>),
    /// It succeeded and gave back bytes.
    Data(Vec<u8>),
    /// It failed, with this message.
    Failed(String),
}

pub enum OutcomeView {
    Completed,
    Text(Option<Seq<char>>),
    Data(Seq<u8>),
    Failed(Seq<char>),
}

impl View for Outcome {
    type V = OutcomeView;

    open spec fn view(&self) -> OutcomeView {
        match self {
            Outcome::Completed => OutcomeView::Completed,
            Outcome::Text(t) => OutcomeView::Text(t.deep_view()),
            Outcome::Data(d) => OutcomeView::Data(d@),
            Outcome::Failed(m) => OutcomeView::Failed(m@),
        }
    }
}

/// The result of a tool call that succeeded.
#[derive(Debug, PartialEq, Eq)]
pub enum Reply {
    Text(String),
    Data(Vec<u8>),
    Unit,
}

pub enum ReplyView {
    Text(Seq<char>),
    Data(Seq<u8>),
    Unit,
}

impl View for Reply {
    type V = ReplyView;

    open spec fn view(&self) -> ReplyView {
        match self {
            Reply::Text(t) => ReplyView::Text(t@),
            Reply::Data(d) => ReplyView::Data(d@),
            Reply::Unit => ReplyView::Unit,
        }
    }
}

impl Reply {
    /// The text of a text result; empty for any other result.
    pub fn into_text(self) -> (t: String)
        ensures
            t@ == (match self@ {
                ReplyView::Text(t) => t,
                _ => seq![],
            }),
    {
        match self {
            Reply::Text(t) => t,
            _ => String::new(),
        }
    }

    /// The bytes of a binary result; empty for any other result.
    pub fn into_data(self) -> (d: Vec<u8>)
        ensures
            d@ == (match self@ {
                ReplyView::Data(d) => d,
                _ => seq![],
            }),
    {
        match self {
            Reply::Data(d) => d,
            _ => Vec::new(),
        }
    }
}

/// Why a tool call failed.
#[derive(Debug, PartialEq, Eq)]
pub enum BrowserError {
    /// The browser configuration could not be built; the builder's message.
    ConfigBuild(String),
    /// Chrome could not be launched; the launcher's message.
    Launch(String),
    /// No element matches the selector.
    NoElement(String),
    /// A DevTools command failed; its message.
    Cdp(String),
}

pub enum BrowserErrorView {
    ConfigBuild(Seq<char>),
    Launch(Seq<char>),
    NoElement(Seq<char>),
    Cdp(Seq<char>),
}

impl View for BrowserError {
    type V = BrowserErrorView;

    open spec fn view(&self) -> BrowserErrorView {
        match self {
            BrowserError::ConfigBuild(m) => BrowserErrorView::ConfigBuild(m@),
            BrowserError::Launch(m) => BrowserErrorView::Launch(m@),
            BrowserError::NoElement(s) => BrowserErrorView::NoElement(s@),
            BrowserError::Cdp(m) => BrowserErrorView::Cdp(m@),
        }
    }
}

/// The message a tool answers with when it fails.
pub open spec fn error_message(e: BrowserErrorView) -> Seq<char> {
    match e {
        BrowserErrorView::ConfigBuild(m) => "failed to build browser config: "@ + m,
        BrowserErrorView::Launch(_) => "failed to launch chrome/chromium (is it installed and on PATH?)"@,
        BrowserErrorView::NoElement(s) => "no element matching selector `"@ + s + "`"@,
        BrowserErrorView::Cdp(m) => m,
    }
}

impl BrowserError {
    /// The message the tool answers with for this error.
    pub fn message(&self) -> (m: String)
        ensures
            m@ == error_message(self@),
    {
        match self {
            BrowserError::ConfigBuild(m) => String::from_str(
                "failed to build browser config: ",
            ).concat(m.as_str()),
            BrowserError::Launch(_) => String::from_str(
                "failed to launch chrome/chromium (is it installed and on PATH?)",
            ),
            BrowserError::NoElement(s) => String::from_str("no element matching selector `").concat(
                s.as_str(),
            ).concat("`"),
            BrowserError::Cdp(m) => m.clone(),
        }
    }
}

/// What to do next.
#[derive(Debug, PartialEq, Eq)]
pub enum Step {
    /// Perform this command and hand back its outcome.
    Perform(Command),
    /// The call is over, with this result.
    Finish(Result<Reply, BrowserError>),
}

pub enum StepView {
    Perform(CommandView),
    Finish(Result<ReplyView, BrowserErrorView>),
}

impl View for Step {
    type V = StepView;

    open spec fn view(&self) -> StepView {
        match self {
            Step::Perform(c) => StepView::Perform(c@),
            Step::Finish(Ok(r)) => StepView::Finish(Ok(r@)),
            Step::Finish(Err(e)) => StepView::Finish(Err(e@)),
        }
    }
}

// ---------------------------------------------------------------------------
// The plan of a call

/// The manager's state: the configuration it launches Chrome with, and
/// whether a browser with its shared page is running.
pub struct ManagerView {
    pub headless: bool,
    pub chrome_path: Option<Seq<char>>,
    pub chrome_flags: Seq<Seq<char>>,
    pub session_open: bool,
}

/// The configuration that Chrome is launched with.
pub open spec fn launch_plan(m: ManagerView) -> LaunchPlanView {
    LaunchPlanView {
        with_head: !m.headless,
        chrome_executable: m.chrome_path,
        args: m.chrome_flags,
        no_sandbox: true,
    }
}

/// The commands that start a browser and its shared page: build the
/// configuration, launch Chrome, open a blank page.
pub open spec fn launch_sequence(m: ManagerView) -> Seq<CommandView> {
    seq![
        CommandView::BuildConfig { plan: launch_plan(m) },
        CommandView::LaunchBrowser,
        CommandView::OpenPage { url: blank_page() },
    ]
}

/// The commands that start a browser and its shared page when a call
/// needs one: none when one is running already.
pub open spec fn launch_commands(m: ManagerView) -> Seq<CommandView> {
    if m.session_open {
        seq![]
    } else {
        launch_sequence(m)
    }
}

/// The commands that a call performs on the shared page.
pub open spec fn page_commands(r: RequestView) -> Seq<CommandView> {
    match r {
        RequestView::Navigate { url } => seq![
            CommandView::Goto { url },
            CommandView::WaitForNavigation,
            CommandView::GetTitle,
        ],
        RequestView::CurrentUrl => seq![CommandView::GetUrl],
        RequestView::GetContent { selector } => match selector {
            None => seq![CommandView::GetPageContent],
            Some(s) => seq![CommandView::FindElement { selector: s }, CommandView::InnerHtml],
        },
        RequestView::GetText { selector } => seq![
            CommandView::FindElement {
                selector: match selector {
                    Some(s) => s,
                    None => default_text_selector(),
                },
            },
            CommandView::InnerText,
        ],
        RequestView::Click { selector } => seq![
            CommandView::FindElement { selector },
            CommandView::ClickElement,
        ],
        RequestView::TypeText { selector, text, press_key_after } => seq![
            CommandView::FindElement { selector },
            CommandView::ClickElement,
            CommandView::TypeStr { text },
        ] + match press_key_after {
            Some(key) => seq![CommandView::PressKey { key }],
            None => seq![],
        },
        RequestView::EvalJs { script } => seq![CommandView::Evaluate { script }],
        RequestView::Screenshot { full_page } => seq![CommandView::CaptureScreenshot { full_page }],
        RequestView::Pdf => seq![CommandView::PrintPdf],
        RequestView::Close => seq![],
    }
}

/// All commands of a call, in order, as long as none fails. A call on the
/// page first launches the browser if none is running; closing closes the
/// running browser, if any, and nothing else.
pub open spec fn plan(m: ManagerView, r: RequestView) -> Seq<CommandView> {
    if r is Close {
        if m.session_open {
            seq![CommandView::CloseBrowser]
        } else {
            seq![]
        }
    } else {
        launch_commands(m) + page_commands(r)
    }
}

/// What a failure of the command that a run waits on turns into.
pub enum Awaiting {
    Config,
    Launch,
    Page,
    Element(String),
    Other,
    Close,
}

pub enum AwaitingView {
    Config,
    Launch,
    Page,
    Element(Seq<char>),
    Other,
    Close,
}

impl View for Awaiting {
    type V = AwaitingView;

    open spec fn view(&self) -> AwaitingView {
        match self {
            Awaiting::Config => AwaitingView::Config,
            Awaiting::Launch => AwaitingView::Launch,
            Awaiting::Page => AwaitingView::Page,
            Awaiting::Element(s) => AwaitingView::Element(s@),
            Awaiting::Other => AwaitingView::Other,
            Awaiting::Close => AwaitingView::Close,
        }
    }
}

/// What a run waits on once it has issued `c`.
pub open spec fn awaiting_of(c: CommandView) -> AwaitingView {
    match c {
        CommandView::BuildConfig { .. } => AwaitingView::Config,
        CommandView::LaunchBrowser => AwaitingView::Launch,
        CommandView::OpenPage { .. } => AwaitingView::Page,
        CommandView::FindElement { selector } => AwaitingView::Element(selector),
        CommandView::CloseBrowser => AwaitingView::Close,
        _ => AwaitingView::Other,
    }
}

/// The error of a call whose awaited command failed with `msg`.
pub open spec fn failure_error(a: AwaitingView, msg: Seq<char>) -> BrowserErrorView {
    match a {
        AwaitingView::Config => BrowserErrorView::ConfigBuild(msg),
        AwaitingView::Launch => BrowserErrorView::Launch(msg),
        AwaitingView::Element(s) => BrowserErrorView::NoElement(s),
        _ => BrowserErrorView::Cdp(msg),
    }
}

/// The text an outcome carries; none counts as empty.
pub open spec fn text_or_empty(o: OutcomeView) -> Seq<char> {
    match o {
        OutcomeView::Text(Some(t)) => t,
        _ => seq![],
    }
}

/// The JSON text an outcome carries; none counts as `null`.
pub open spec fn json_or_null(o: OutcomeView) -> Seq<char> {
    match o {
        OutcomeView::Text(Some(t)) => t,
        _ => "null"@,
    }
}

/// The bytes an outcome carries; none counts as empty.
pub open spec fn bytes_or_empty(o: OutcomeView) -> Seq<u8> {
    match o {
        OutcomeView::Data(d) => d,
        _ => seq![],
    }
}

/// The result of call `r` whose last command ended with `last`.
pub open spec fn reply_of(r: RequestView, last: OutcomeView) -> ReplyView {
    match r {
        RequestView::Navigate { .. } => ReplyView::Text(text_or_empty(last)),
        RequestView::CurrentUrl => ReplyView::Text(text_or_empty(last)),
        RequestView::GetContent { .. } => ReplyView::Text(text_or_empty(last)),
        RequestView::GetText { .. } => ReplyView::Text(text_or_empty(last)),
        RequestView::EvalJs { .. } => ReplyView::Text(json_or_null(last)),
        RequestView::Screenshot { .. } => ReplyView::Data(bytes_or_empty(last)),
        RequestView::Pdf => ReplyView::Data(bytes_or_empty(last)),
        _ => ReplyView::Unit,
    }
}

// ---------------------------------------------------------------------------
// Runs

/// A call in progress: the request, what the last issued command's failure
/// means, the commands still to come, and whether it is over.
pub struct RunView {
    pub request: RequestView,
    pub awaiting: AwaitingView,
    pub remaining: Seq<CommandView>,
    pub finished: bool,
}

/// The views of `v` from the last element to the first.
pub open spec fn reversed_views(v: Seq<Command>) -> Seq<CommandView> {
    Seq::new(v.len(), |i: int| v[v.len() - 1 - i]@)
}

/// A call in progress.
pub struct Run {
    request: Request,
    awaiting: Awaiting,
    /// The commands still to come, the next one last.
    pending: Vec<Command>,
    finished: bool,
}

impl View for Run {
    type V = RunView;

    closed spec fn view(&self) -> RunView {
        RunView {
            request: self.request@,
            awaiting: self.awaiting@,
            remaining: reversed_views(self.pending@),
            finished: self.finished,
        }
    }
}

impl Run {
    /// Whether the call is over.
    pub fn is_finished(&self) -> (b: bool)
        ensures
            b == self@.finished,
    {
        self.finished
    }
}

/// How a call starts, in a manager in state `m`: the state it leaves the
/// manager in, the run, and the first step. Closing forgets the session at
/// once.
pub open spec fn start(m: ManagerView, r: RequestView) -> (ManagerView, RunView, StepView) {
    let p = plan(m, r);
    let m2 = if r is Close {
        ManagerView { session_open: false, ..m }
    } else {
        m
    };
    if p.len() == 0 {
        (
            m2,
            RunView { request: r, awaiting: AwaitingView::Close, remaining: seq![], finished: true },
            StepView::Finish(Ok(ReplyView::Unit)),
        )
    } else {
        (
            m2,
            RunView {
                request: r,
                awaiting: awaiting_of(p[0]),
                remaining: p.drop_first(),
                finished: false,
            },
            StepView::Perform(p[0]),
        )
    }
}

/// How an unfinished run goes on when its awaited command ended with `o`:
/// a failure ends the call with the matching error (a failure to close is
/// ignored); otherwise the next command follows, or, after the last one,
/// the call's result. A page that opened becomes the shared session.
pub open spec fn transition(m: ManagerView, run: RunView, o: OutcomeView) -> (
    ManagerView,
    RunView,
    StepView,
) {
    if o is Failed && !(run.awaiting is Close) {
        (
            m,
            RunView { finished: true, ..run },
            StepView::Finish(Err(failure_error(run.awaiting, o->Failed_0))),
        )
    } else {
        let m2 = if run.awaiting is Page {
            ManagerView { session_open: true, ..m }
        } else {
            m
        };
        if run.remaining.len() > 0 {
            (
                m2,
                RunView {
                    awaiting: awaiting_of(run.remaining[0]),
                    remaining: run.remaining.drop_first(),
                    ..run
                },
                StepView::Perform(run.remaining[0]),
            )
        } else {
            (m2, RunView { finished: true, ..run }, StepView::Finish(Ok(reply_of(run.request, o))))
        }
    }
}

// ---------------------------------------------------------------------------
// The manager

/// The shared browser: how to launch it, and whether it is running.
pub struct BrowserManager {
    headless: bool,
    chrome_path: Option<String>,
    chrome_flags: Vec<String>,
    session_open: bool,
}

impl View for BrowserManager {
    type V = ManagerView;

    closed spec fn view(&self) -> ManagerView {
        ManagerView {
            headless: self.headless,
            chrome_path: self.chrome_path.deep_view(),
            chrome_flags: string_views(self.chrome_flags@),
            session_open: self.session_open,
        }
    }
}

fn clone_strings(v: &Vec<String>) -> (r: Vec<String>)
    ensures
        string_views(r@) == string_views(v@),
{
    let mut r: Vec<String> = Vec::new();
    let mut i: usize = 0;
    while i < v.len()
        invariant
            i <= v.len(),
            string_views(r@) == string_views(v@.take(i as int)),
        decreases v.len() - i,
    {
        let s = v[i].clone();
        proof {
            assert(string_views(r@.push(s)) =~= string_views(r@).push(s@));
            assert(v@.take(i + 1) =~= v@.take(i as int).push(v@[i as int]));
            assert(string_views(v@.take(i + 1)) =~= string_views(v@.take(i as int)).push(
                v@[i as int]@,
            ));
        }
        r.push(s);
        i = i + 1;
    }
    assert(v@.take(v.len() as int) =~= v@);
    r
}

fn clone_opt_string(o: &Option<String>) -> (r: Option<String>)
    ensures
        r.deep_view() == o.deep_view(),
{
    match o {
        Some(s) => Some(s.clone()),
        None => None,
    }
}

/// Pushes `c` so that it comes before the commands already pending.
fn push_front(pending: &mut Vec<Command>, c: Command)
    ensures
        reversed_views(final(pending)@) == seq![c@] + reversed_views(old(pending)@),
{
    let ghost before = pending@;
    pending.push(c);
    assert(reversed_views(pending@) =~= seq![c@] + reversed_views(before));
}

impl BrowserManager {
    /// A manager that launches Chrome headless or not, from `chrome_path`
    /// or the one found on the `PATH`, with the whitespace-separated extra
    /// flags of `chrome_flags` (the `CHROME_FLAGS` value); no browser runs
    /// yet.
    pub fn new(headless: bool, chrome_path: Option<String>, chrome_flags: &str) -> (m: Self)
        ensures
            m@ == (ManagerView {
                headless,
                chrome_path: chrome_path.deep_view(),
                chrome_flags: words(chrome_flags@),
                session_open: false,
            }),
    {
        let flags = parse_chrome_flags(chrome_flags);
        BrowserManager { headless, chrome_path, chrome_flags: flags, session_open: false }
    }

    /// Whether Chrome is launched without a window.
    pub fn headless(&self) -> (b: bool)
        ensures
            b == self@.headless,
    {
        self.headless
    }

    /// The Chrome binary to launch, if one was given.
    pub fn chrome_path(&self) -> (p: &Option<String>)
        ensures
            p.deep_view() == self@.chrome_path,
    {
        &self.chrome_path
    }

    /// The extra flags Chrome is launched with.
    pub fn chrome_flags(&self) -> (f: &Vec<String>)
        ensures
            string_views(f@) == self@.chrome_flags,
    {
        &self.chrome_flags
    }

    /// Whether a browser with its shared page is running.
    pub fn session_open(&self) -> (b: bool)
        ensures
            b == self@.session_open,
    {
        self.session_open
    }

    /// The configuration that Chrome is launched with.
    pub fn launch_plan(&self) -> (p: LaunchPlan)
        ensures
            p@ == launch_plan(self@),
    {
        LaunchPlan {
            with_head: !self.headless,
            chrome_executable: clone_opt_string(&self.chrome_path),
            args: clone_strings(&self.chrome_flags),
            no_sandbox: true,
        }
    }

    /// Pushes the commands of `request` on the page, so that they come
    /// before the commands already pending.
    fn push_page_commands(request: &Request, pending: &mut Vec<Command>)
        ensures
            reversed_views(final(pending)@) == page_commands(request@) + reversed_views(
                old(pending)@,
            ),
    {
        let ghost before = reversed_views(pending@);
        match request {
            Request::Navigate { url } => {
                push_front(pending, Command::GetTitle);
                push_front(pending, Command::WaitForNavigation);
                push_front(pending, Command::Goto { url: url.clone() });
            },
            Request::CurrentUrl => {
                push_front(pending, Command::GetUrl);
            },
            Request::GetContent { selector } => {
                match selector {
                    None => {
                        push_front(pending, Command::GetPageContent);
                    },
                    Some(s) => {
                        push_front(pending, Command::InnerHtml);
                        push_front(pending, Command::FindElement { selector: s.clone() });
                    },
                }
            },
            Request::GetText { selector } => {
                let target = match selector {
                    Some(s) => s.clone(),
                    None => String::from_str("body"),
                };
                push_front(pending, Command::InnerText);
                push_front(pending, Command::FindElement { selector: target });
            },
            Request::Click { selector } => {
                push_front(pending, Command::ClickElement);
                push_front(pending, Command::FindElement { selector: selector.clone() });
            },
            Request::TypeText { selector, text, press_key_after } => {
                match press_key_after {
                    Some(key) => {
                        push_front(pending, Command::PressKey { key: key.clone() });
                    },
                    None => {},
                }
                push_front(pending, Command::TypeStr { text: text.clone() });
                push_front(pending, Command::ClickElement);
                push_front(pending, Command::FindElement { selector: selector.clone() });
            },
            Request::EvalJs { script } => {
                push_front(pending, Command::Evaluate { script: script.clone() });
            },
            Request::Screenshot { full_page } => {
                push_front(pending, Command::CaptureScreenshot { full_page: *full_page });
            },
            Request::Pdf => {
                push_front(pending, Command::PrintPdf);
            },
            Request::Close => {},
        }
        assert(reversed_views(pending@) =~= page_commands(request@) + before);
    }

    /// What the run waits on once `c` is issued.
    fn awaiting_for(c: &Command) -> (a: Awaiting)
        ensures
            a@ == awaiting_of(c@),
    {
        match c {
            Command::BuildConfig { .. } => Awaiting::Config,
            Command::LaunchBrowser => Awaiting::Launch,
            Command::OpenPage { .. } => Awaiting::Page,
            Command::FindElement { selector } => Awaiting::Element(selector.clone()),
            Command::CloseBrowser => Awaiting::Close,
            _ => Awaiting::Other,
        }
    }

    /// Starts the call `request`: decides its commands, and gives the first
    /// step.
    pub fn begin(&mut self, request: Request) -> (res: (Run, Step))
        ensures
            ({
                let (m2, r2, s) = start(old(self)@, request@);
                &&& final(self)@ == m2
                &&& res.0@ == r2
                &&& res.1@ == s
            }),
    {
        let ghost m0 = self@;
        let ghost p = plan(m0, request@);
        let mut pending: Vec<Command> = Vec::new();
        assert(reversed_views(pending@) =~= seq![]);
        let is_close = match request {
            Request::Close => true,
            _ => false,
        };
        if is_close {
            if self.session_open {
                push_front(&mut pending, Command::CloseBrowser);
            }
            self.session_open = false;
        } else {
            Self::push_page_commands(&request, &mut pending);
            if !self.session_open {
                let ghost page = reversed_views(pending@);
                push_front(&mut pending, Command::OpenPage { url: String::from_str("about:blank") });
                push_front(&mut pending, Command::LaunchBrowser);
                push_front(&mut pending, Command::BuildConfig { plan: self.launch_plan() });
                assert(reversed_views(pending@) =~= launch_commands(m0) + page);
            } else {
                assert(launch_commands(m0) + page_commands(request@) =~= page_commands(
                    request@,
                ));
            }
        }
        assert(reversed_views(pending@) =~= p);
        match pending.pop() {
            None => {
                let run = Run { request, awaiting: Awaiting::Close, pending, finished: true };
                assert(run@.remaining =~= seq![]);
                (run, Step::Finish(Ok(Reply::Unit)))
            },
            Some(first) => {
                let awaiting = Self::awaiting_for(&first);
                let run = Run { request, awaiting, pending, finished: false };
                assert(run@.remaining =~= p.drop_first());
                (run, Step::Perform(first))
            },
        }
    }

    /// Starts `navigate`: go to `url`, wait for the load, answer with the title.
    pub fn navigate(&mut self, url: String) -> (res: (Run, Step))
        ensures
            ({
                let (m2, r2, s) = start(
                    old(self)@,
                    RequestView::Navigate { url: url@ },
                );
                &&& final(self)@ == m2
                &&& res.0@ == r2
                &&& res.1@ == s
            }),
    {
        self.begin(Request::Navigate { url })
    }

    /// Starts `get_url`: answer with the current URL.
    pub fn current_url(&mut self) -> (res: (Run, Step))
        ensures
            ({
                let (m2, r2, s) = start(
                    old(self)@,
                    RequestView::CurrentUrl,
                );
                &&& final(self)@ == m2
                &&& res.0@ == r2
                &&& res.1@ == s
            }),
    {
        self.begin(Request::CurrentUrl)
    }

    /// Starts `get_content`: the page HTML, or the inner HTML of the first
    /// element matching `selector`.
    pub fn get_content(&mut self, selector: Option<String>) -> (res: (Run, Step))
        ensures
            ({
                let (m2, r2, s) = start(
                    old(self)@,
                    RequestView::GetContent { selector: selector.deep_view() },
                );
                &&& final(self)@ == m2
                &&& res.0@ == r2
                &&& res.1@ == s
            }),
    {
        self.begin(Request::GetContent { selector })
    }

    /// Starts `get_text`: the rendered text of the first element matching
    /// `selector`, or of the body.
    pub fn get_text(&mut self, selector: Option<String>) -> (res: (Run, Step))
        ensures
            ({
                let (m2, r2, s) = start(
                    old(self)@,
                    RequestView::GetText { selector: selector.deep_view() },
                );
                &&& final(self)@ == m2
                &&& res.0@ == r2
                &&& res.1@ == s
            }),
    {
        self.begin(Request::GetText { selector })
    }

    /// Starts `click` on the first element matching `selector`.
    pub fn click(&mut self, selector: String) -> (res: (Run, Step))
        ensures
            ({
                let (m2, r2, s) = start(
                    old(self)@,
                    RequestView::Click { selector: selector@ },
                );
                &&& final(self)@ == m2
                &&& res.0@ == r2
                &&& res.1@ == s
            }),
    {
        self.begin(Request::Click { selector })
    }

    /// Starts `type_text`: click the element matching `selector`, type `text`,
    /// then press `press_key_after` if given.
    pub fn type_text(&mut self, selector: String, text: String, press_key_after: Option<String>) -> (res: (Run, Step))
        ensures
            ({
                let (m2, r2, s) = start(
                    old(self)@,
                    RequestView::TypeText {
                    selector: selector@,
                    text: text@,
                    press_key_after: press_key_after.deep_view(),
                },
                );
                &&& final(self)@ == m2
                &&& res.0@ == r2
                &&& res.1@ == s
            }),
    {
        self.begin(Request::TypeText { selector, text, press_key_after })
    }

    /// Starts `eval_js`: evaluate `script` and answer with its JSON text.
    pub fn eval_js(&mut self, script: String) -> (res: (Run, Step))
        ensures
            ({
                let (m2, r2, s) = start(
                    old(self)@,
                    RequestView::EvalJs { script: script@ },
                );
                &&& final(self)@ == m2
                &&& res.0@ == r2
                &&& res.1@ == s
            }),
    {
        self.begin(Request::EvalJs { script })
    }

    /// Starts `screenshot` of the viewport or the full page.
    pub fn screenshot(&mut self, full_page: bool) -> (res: (Run, Step))
        ensures
            ({
                let (m2, r2, s) = start(
                    old(self)@,
                    RequestView::Screenshot { full_page },
                );
                &&& final(self)@ == m2
                &&& res.0@ == r2
                &&& res.1@ == s
            }),
    {
        self.begin(Request::Screenshot { full_page })
    }

    /// Starts `pdf`: the page rendered as PDF.
    pub fn pdf(&mut self) -> (res: (Run, Step))
        ensures
            ({
                let (m2, r2, s) = start(
                    old(self)@,
                    RequestView::Pdf,
                );
                &&& final(self)@ == m2
                &&& res.0@ == r2
                &&& res.1@ == s
            }),
    {
        self.begin(Request::Pdf)
    }

    /// Starts `close_browser`: shut the browser down if one runs.
    pub fn close(&mut self) -> (res: (Run, Step))
        ensures
            ({
                let (m2, r2, s) = start(
                    old(self)@,
                    RequestView::Close,
                );
                &&& final(self)@ == m2
                &&& res.0@ == r2
                &&& res.1@ == s
            }),
    {
        self.begin(Request::Close)
    }

    /// The result of `request` whose last command ended with `last`.
    fn reply(request: &Request, last: Outcome) -> (r: Reply)
        ensures
            r@ == reply_of(request@, last@),
    {
        match request {
            Request::Navigate { .. } | Request::CurrentUrl | Request::GetContent { .. }
            | Request::GetText { .. } => match last {
                Outcome::Text(Some(t)) => Reply::Text(t),
                _ => Reply::Text(String::new()),
            },
            Request::EvalJs { .. } => match last {
                Outcome::Text(Some(t)) => Reply::Text(t),
                _ => Reply::Text(String::from_str("null")),
            },
            Request::Screenshot { .. } | Request::Pdf => match last {
                Outcome::Data(d) => Reply::Data(d),
                _ => Reply::Data(Vec::new()),
            },
            _ => Reply::Unit,
        }
    }

    /// The error of a call whose awaited command failed with `msg`.
    fn failure(awaiting: &Awaiting, msg: String) -> (e: BrowserError)
        ensures
            e@ == failure_error(awaiting@, msg@),
    {
        match awaiting {
            Awaiting::Config => BrowserError::ConfigBuild(msg),
            Awaiting::Launch => BrowserError::Launch(msg),
            Awaiting::Element(s) => BrowserError::NoElement(s.clone()),
            _ => BrowserError::Cdp(msg),
        }
    }

    /// Goes on with `run`, whose awaited command ended with `outcome`.
    pub fn advance(&mut self, run: &mut Run, outcome: Outcome) -> (step: Step)
        requires
            !old(run)@.finished,
        ensures
            ({
                let (m2, r2, s) = transition(old(self)@, old(run)@, outcome@);
                &&& final(self)@ == m2
                &&& final(run)@ == r2
                &&& step@ == s
            }),
    {
        let ghost r0 = run@;
        let is_close = match run.awaiting {
            Awaiting::Close => true,
            _ => false,
        };
        let failed = match outcome {
            Outcome::Failed(_) => true,
            _ => false,
        };
        if failed && !is_close {
            let msg = match outcome {
                Outcome::Failed(m) => m,
                _ => String::new(),
            };
            let e = Self::failure(&run.awaiting, msg);
            run.finished = true;
            return Step::Finish(Err(e));
        }
        match run.awaiting {
            Awaiting::Page => {
                self.session_open = true;
            },
            _ => {},
        }
        let ghost before = run.pending@;
        match run.pending.pop() {
            Some(next) => {
                assert(r0.remaining.len() > 0);
                assert(next@ == r0.remaining[0]);
                run.awaiting = Self::awaiting_for(&next);
                assert(run@.remaining =~= r0.remaining.drop_first());
                Step::Perform(next)
            },
            None => {
                run.finished = true;
                let r = Self::reply(&run.request, outcome);
                Step::Finish(Ok(r))
            },
        }
    }
}

} // verus!
