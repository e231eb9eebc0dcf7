use chromium_mcp::session::{
    BrowserError, BrowserManager, Command, LaunchPlan, Outcome, Reply, Request, Run, Step,
};

/// Drives one call, answering each command from `answer`; returns the
/// commands performed and the result.
fn drive(
    m: &mut BrowserManager,
    req: Request,
    mut answer: impl FnMut(&Command) -> Outcome,
) -> (Vec<Command>, Result<Reply, BrowserError>) {
    let (mut run, mut step): (Run, Step) = m.begin(req);
    let mut done = Vec::new();
    loop {
        match step {
            Step::Perform(cmd) => {
                assert!(!run.is_finished());
                let o = answer(&cmd);
                done.push(cmd);
                step = m.advance(&mut run, o);
            }
            Step::Finish(r) => {
                assert!(run.is_finished());
                return (done, r);
            }
        }
    }
}

fn all_ok(c: &Command) -> Outcome {
    match c {
        Command::GetTitle => Outcome::Text(Some("Example Domain".into())),
        Command::GetUrl => Outcome::Text(Some("https://example.com/".into())),
        Command::GetPageContent => Outcome::Text(Some("<html></html>".into())),
        Command::InnerHtml => Outcome::Text(Some("<b>hi</b>".into())),
        Command::InnerText => Outcome::Text(Some("hi".into())),
        Command::Evaluate { .. } => Outcome::Text(Some("42".into())),
        Command::CaptureScreenshot { .. } => Outcome::Data(vec![1, 2, 3]),
        Command::PrintPdf => Outcome::Data(vec![9]),
        _ => Outcome::Completed,
    }
}

fn launch(m: &BrowserManager) -> Vec<Command> {
    vec![
        Command::BuildConfig { plan: m.launch_plan() },
        Command::LaunchBrowser,
        Command::OpenPage { url: "about:blank".into() },
    ]
}

#[test]
fn new_manager_parses_flags_and_has_no_session() {
    let m = BrowserManager::new(true, Some("/usr/bin/chromium".into()), " --a  --b ");
    assert!(m.headless());
    assert_eq!(m.chrome_path(), &Some("/usr/bin/chromium".to_string()));
    assert_eq!(m.chrome_flags(), &vec!["--a".to_string(), "--b".to_string()]);
    assert!(!m.session_open());
    assert_eq!(
        m.launch_plan(),
        LaunchPlan {
            with_head: false,
            chrome_executable: Some("/usr/bin/chromium".into()),
            args: vec!["--a".into(), "--b".into()],
            no_sandbox: true,
        }
    );
    let headed = BrowserManager::new(false, None, "");
    assert_eq!(
        headed.launch_plan(),
        LaunchPlan { with_head: true, chrome_executable: None, args: vec![], no_sandbox: true }
    );
}

#[test]
fn first_call_launches_then_navigates() {
    let mut m = BrowserManager::new(true, None, "--x");
    let (cmds, r) = drive(&mut m, Request::Navigate { url: "https://example.com".into() }, all_ok);
    let mut expected = launch(&m);
    expected.extend([
        Command::Goto { url: "https://example.com".into() },
        Command::WaitForNavigation,
        Command::GetTitle,
    ]);
    assert_eq!(cmds, expected);
    assert_eq!(r, Ok(Reply::Text("Example Domain".into())));
    assert!(m.session_open());
}

#[test]
fn later_calls_reuse_the_session() {
    let mut m = BrowserManager::new(true, None, "");
    drive(&mut m, Request::CurrentUrl, all_ok);
    let (cmds, r) = drive(&mut m, Request::CurrentUrl, all_ok);
    assert_eq!(cmds, vec![Command::GetUrl]);
    assert_eq!(r, Ok(Reply::Text("https://example.com/".into())));
}

#[test]
fn missing_title_is_empty() {
    let mut m = BrowserManager::new(true, None, "");
    let (_, r) = drive(&mut m, Request::Navigate { url: "about:blank".into() }, |c| match c {
        Command::GetTitle => Outcome::Text(None),
        _ => Outcome::Completed,
    });
    assert_eq!(r, Ok(Reply::Text(String::new())));
}

#[test]
fn content_of_page_or_element() {
    let mut m = BrowserManager::new(true, None, "");
    drive(&mut m, Request::CurrentUrl, all_ok);
    let (cmds, r) = drive(&mut m, Request::GetContent { selector: None }, all_ok);
    assert_eq!(cmds, vec![Command::GetPageContent]);
    assert_eq!(r, Ok(Reply::Text("<html></html>".into())));
    let (cmds, r) = drive(&mut m, Request::GetContent { selector: Some("p".into()) }, all_ok);
    assert_eq!(cmds, vec![Command::FindElement { selector: "p".into() }, Command::InnerHtml]);
    assert_eq!(r, Ok(Reply::Text("<b>hi</b>".into())));
}

#[test]
fn text_defaults_to_body() {
    let mut m = BrowserManager::new(true, None, "");
    drive(&mut m, Request::CurrentUrl, all_ok);
    let (cmds, r) = drive(&mut m, Request::GetText { selector: None }, all_ok);
    assert_eq!(cmds, vec![Command::FindElement { selector: "body".into() }, Command::InnerText]);
    assert_eq!(r, Ok(Reply::Text("hi".into())));
}

#[test]
fn type_text_presses_key_only_when_given() {
    let mut m = BrowserManager::new(true, None, "");
    drive(&mut m, Request::CurrentUrl, all_ok);
    let (cmds, r) = drive(
        &mut m,
        Request::TypeText { selector: "#q".into(), text: "rust".into(), press_key_after: Some("Enter".into()) },
        all_ok,
    );
    assert_eq!(
        cmds,
        vec![
            Command::FindElement { selector: "#q".into() },
            Command::ClickElement,
            Command::TypeStr { text: "rust".into() },
            Command::PressKey { key: "Enter".into() },
        ]
    );
    assert_eq!(r, Ok(Reply::Unit));
    let (cmds, _) = drive(
        &mut m,
        Request::TypeText { selector: "#q".into(), text: "rust".into(), press_key_after: None },
        all_ok,
    );
    assert_eq!(cmds.len(), 3);
}

#[test]
fn missing_element_is_reported_with_selector() {
    let mut m = BrowserManager::new(true, None, "");
    drive(&mut m, Request::CurrentUrl, all_ok);
    let (cmds, r) = drive(&mut m, Request::Click { selector: "#nope".into() }, |c| match c {
        Command::FindElement { .. } => Outcome::Failed("Could not find node".into()),
        _ => Outcome::Completed,
    });
    assert_eq!(cmds, vec![Command::FindElement { selector: "#nope".into() }]);
    let e = r.unwrap_err();
    assert_eq!(e, BrowserError::NoElement("#nope".into()));
    assert_eq!(e.message(), "no element matching selector `#nope`");
    assert!(m.session_open());
}

#[test]
fn command_failure_keeps_its_message() {
    let mut m = BrowserManager::new(true, None, "");
    drive(&mut m, Request::CurrentUrl, all_ok);
    let (_, r) = drive(&mut m, Request::Pdf, |_| Outcome::Failed("PrintToPDF is not implemented".into()));
    let e = r.unwrap_err();
    assert_eq!(e, BrowserError::Cdp("PrintToPDF is not implemented".into()));
    assert_eq!(e.message(), "PrintToPDF is not implemented");
}

#[test]
fn eval_without_json_value_is_null() {
    let mut m = BrowserManager::new(true, None, "");
    let (_, r) = drive(&mut m, Request::EvalJs { script: "undefined".into() }, |c| match c {
        Command::Evaluate { .. } => Outcome::Text(None),
        _ => Outcome::Completed,
    });
    assert_eq!(r, Ok(Reply::Text("null".into())));
    let (_, r) = drive(&mut m, Request::EvalJs { script: "6*7".into() }, all_ok);
    assert_eq!(r, Ok(Reply::Text("42".into())));
}

#[test]
fn screenshot_and_pdf_bytes() {
    let mut m = BrowserManager::new(true, None, "");
    drive(&mut m, Request::CurrentUrl, all_ok);
    let (cmds, r) = drive(&mut m, Request::Screenshot { full_page: true }, all_ok);
    assert_eq!(cmds, vec![Command::CaptureScreenshot { full_page: true }]);
    assert_eq!(r, Ok(Reply::Data(vec![1, 2, 3])));
    let (_, r) = drive(&mut m, Request::Pdf, all_ok);
    assert_eq!(r, Ok(Reply::Data(vec![9])));
}

#[test]
fn config_failure_is_reported_and_retried() {
    let mut m = BrowserManager::new(true, None, "");
    let (cmds, r) = drive(&mut m, Request::CurrentUrl, |c| match c {
        Command::BuildConfig { .. } => Outcome::Failed("Chrome executable not found".into()),
        _ => Outcome::Completed,
    });
    assert_eq!(cmds.len(), 1);
    let e = r.unwrap_err();
    assert_eq!(e.message(), "failed to build browser config: Chrome executable not found");
    assert!(!m.session_open());
    let (cmds, _) = drive(&mut m, Request::CurrentUrl, all_ok);
    assert_eq!(cmds[0], Command::BuildConfig { plan: m.launch_plan() });
}

#[test]
fn launch_failure_is_reported_and_retried() {
    let mut m = BrowserManager::new(true, None, "");
    let (cmds, r) = drive(&mut m, Request::CurrentUrl, |c| match c {
        Command::LaunchBrowser => Outcome::Failed("No such file or directory".into()),
        _ => Outcome::Completed,
    });
    assert_eq!(cmds.len(), 2);
    let e = r.unwrap_err();
    assert_eq!(e, BrowserError::Launch("No such file or directory".into()));
    assert_eq!(e.message(), "failed to launch chrome/chromium (is it installed and on PATH?)");
    assert!(!m.session_open());
}

#[test]
fn failure_opening_the_page_leaves_no_session() {
    let mut m = BrowserManager::new(true, None, "");
    let (cmds, r) = drive(&mut m, Request::CurrentUrl, |c| match c {
        Command::OpenPage { .. } => Outcome::Failed("target crashed".into()),
        _ => Outcome::Completed,
    });
    assert_eq!(cmds.len(), 3);
    assert_eq!(r, Err(BrowserError::Cdp("target crashed".into())));
    assert!(!m.session_open());
}

#[test]
fn failure_after_opening_keeps_the_session() {
    let mut m = BrowserManager::new(true, None, "");
    let (_, r) = drive(&mut m, Request::Navigate { url: "bad://".into() }, |c| match c {
        Command::Goto { .. } => Outcome::Failed("net::ERR_ABORTED".into()),
        _ => Outcome::Completed,
    });
    assert_eq!(r, Err(BrowserError::Cdp("net::ERR_ABORTED".into())));
    assert!(m.session_open());
}

#[test]
fn close_closes_once_and_always_succeeds() {
    let mut m = BrowserManager::new(true, None, "");
    let (cmds, r) = drive(&mut m, Request::Close, all_ok);
    assert!(cmds.is_empty());
    assert_eq!(r, Ok(Reply::Unit));
    drive(&mut m, Request::CurrentUrl, all_ok);
    assert!(m.session_open());
    let (cmds, r) = drive(&mut m, Request::Close, |_| Outcome::Failed("already gone".into()));
    assert_eq!(cmds, vec![Command::CloseBrowser]);
    assert_eq!(r, Ok(Reply::Unit));
    assert!(!m.session_open());
    let (cmds, _) = drive(&mut m, Request::CurrentUrl, all_ok);
    let mut expected = launch(&m);
    expected.push(Command::GetUrl);
    assert_eq!(cmds, expected);
}

#[test]
fn named_calls_start_like_their_requests() {
    let pairs: Vec<(fn(&mut BrowserManager) -> (Run, Step), Request)> = vec![
        (|m| m.navigate("https://a.test".into()), Request::Navigate { url: "https://a.test".into() }),
        (|m| m.current_url(), Request::CurrentUrl),
        (|m| m.get_content(Some("p".into())), Request::GetContent { selector: Some("p".into()) }),
        (|m| m.get_text(None), Request::GetText { selector: None }),
        (|m| m.click("#b".into()), Request::Click { selector: "#b".into() }),
        (
            |m| m.type_text("#q".into(), "x".into(), Some("Tab".into())),
            Request::TypeText { selector: "#q".into(), text: "x".into(), press_key_after: Some("Tab".into()) },
        ),
        (|m| m.eval_js("1".into()), Request::EvalJs { script: "1".into() }),
        (|m| m.screenshot(true), Request::Screenshot { full_page: true }),
        (|m| m.pdf(), Request::Pdf),
        (|m| m.close(), Request::Close),
    ];
    for (start, request) in pairs {
        for open in [false, true] {
            let mut a = BrowserManager::new(false, None, "--z");
            let mut b = BrowserManager::new(false, None, "--z");
            if open {
                drive(&mut a, Request::CurrentUrl, all_ok);
                drive(&mut b, Request::CurrentUrl, all_ok);
            }
            let (run_a, step_a) = start(&mut a);
            let (run_b, step_b) = b.begin(request_copy(&request));
            assert_eq!(step_a, step_b);
            assert_eq!(run_a.is_finished(), run_b.is_finished());
            assert_eq!(a.session_open(), b.session_open());
        }
    }
}

fn request_copy(r: &Request) -> Request {
    match r {
        Request::Navigate { url } => Request::Navigate { url: url.clone() },
        Request::CurrentUrl => Request::CurrentUrl,
        Request::GetContent { selector } => Request::GetContent { selector: selector.clone() },
        Request::GetText { selector } => Request::GetText { selector: selector.clone() },
        Request::Click { selector } => Request::Click { selector: selector.clone() },
        Request::TypeText { selector, text, press_key_after } => Request::TypeText {
            selector: selector.clone(),
            text: text.clone(),
            press_key_after: press_key_after.clone(),
        },
        Request::EvalJs { script } => Request::EvalJs { script: script.clone() },
        Request::Screenshot { full_page } => Request::Screenshot { full_page: *full_page },
        Request::Pdf => Request::Pdf,
        Request::Close => Request::Close,
    }
}

#[test]
fn reply_contents() {
    assert_eq!(Reply::Text("t".into()).into_text(), "t");
    assert_eq!(Reply::Data(vec![1]).into_text(), "");
    assert_eq!(Reply::Unit.into_text(), "");
    assert_eq!(Reply::Data(vec![1, 2]).into_data(), vec![1, 2]);
    assert_eq!(Reply::Text("t".into()).into_data(), Vec::<u8>::new());
}
