//! What each tool does with the shared page, step by step, in terms of its
//! arguments and the outcomes of its commands: which element it finds,
//! what it reads, clicks, types or evaluates, and what it answers.
use vstd::prelude::*;
use crate::laws::{law_lazy_launch, lemma_page_commands_shape};
use crate::session::{
    error_message, page_commands, plan, start, transition, BrowserErrorView, CommandView, LaunchPlanView,
    ManagerView, OutcomeView, ReplyView, RequestView, StepView,
};

verus! {

/// The text a read gave back; none counts as empty.
pub open spec fn read_text(o: OutcomeView) -> Seq<char> {
    match o {
        OutcomeView::Text(Some(t)) => t,
        _ => seq![],
    }
}

/// On an open session a call on the page performs its page commands and
/// nothing else.
proof fn lemma_open_plan(m: ManagerView, r: RequestView)
    requires
        m.session_open,
        !(r is Close),
    ensures
        plan(m, r) == page_commands(r),
{
    law_lazy_launch(m, r);
}

/// `get_text` finds the element that the selector matches, or the page
/// body when no selector is given, and answers with that element's
/// rendered text; when no element matches, it fails naming the selector
/// it looked for.
pub proof fn law_get_text(
    m: ManagerView,
    selector: Option<Seq<char>>,
    found: OutcomeView,
    read: OutcomeView,
    msg: Seq<char>,
)
    requires
        m.session_open,
        !(found is Failed),
        !(read is Failed),
    ensures
        ({
            let target = match selector {
                Some(s) => s,
                None => "body"@,
            };
            let (m1, r1, s1) = start(m, RequestView::GetText { selector });
            let (m2, r2, s2) = transition(m1, r1, found);
            let (m3, r3, s3) = transition(m2, r2, read);
            let (mf, rf, sf) = transition(m1, r1, OutcomeView::Failed(msg));
            &&& s1 == StepView::Perform(CommandView::FindElement { selector: target })
            &&& s2 == StepView::Perform(CommandView::InnerText)
            &&& s3 == StepView::Finish(Ok(ReplyView::Text(read_text(read))))
            &&& sf == StepView::Finish(Err(BrowserErrorView::NoElement(target)))
            &&& m3 == m
        }),
{
    let r = RequestView::GetText { selector };
    lemma_open_plan(m, r);
    let p = plan(m, r);
    let (m1, r1, s1) = start(m, r);
    assert(r1.remaining =~= p.drop_first());
    assert(p.drop_first() =~= seq![CommandView::InnerText]);
    let (m2, r2, s2) = transition(m1, r1, found);
    assert(r2.remaining =~= seq![]);
}

/// `type_text` finds the element that the selector matches, clicks it,
/// types exactly the given text, and then presses the given key if there
/// is one; it answers with nothing. The typed text does not depend on
/// whether a key is pressed.
pub proof fn law_type_text(
    m: ManagerView,
    selector: Seq<char>,
    text: Seq<char>,
    key: Option<Seq<char>>,
    o1: OutcomeView,
    o2: OutcomeView,
    o3: OutcomeView,
    o4: OutcomeView,
    msg: Seq<char>,
)
    requires
        m.session_open,
        !(o1 is Failed),
        !(o2 is Failed),
        !(o3 is Failed),
        !(o4 is Failed),
    ensures
        ({
            let (m1, r1, s1) = start(
                m,
                RequestView::TypeText { selector, text, press_key_after: key },
            );
            let (m2, r2, s2) = transition(m1, r1, o1);
            let (m3, r3, s3) = transition(m2, r2, o2);
            let (m4, r4, s4) = transition(m3, r3, o3);
            let (m5, r5, s5) = transition(m4, r4, o4);
            &&& s1 == StepView::Perform(CommandView::FindElement { selector })
            &&& s2 == StepView::Perform(CommandView::ClickElement)
            &&& s3 == StepView::Perform(CommandView::TypeStr { text })
            &&& match key {
                Some(k) => {
                    &&& s4 == StepView::Perform(CommandView::PressKey { key: k })
                    &&& s5 == StepView::Finish(Ok(ReplyView::Unit))
                },
                None => s4 == StepView::Finish(Ok(ReplyView::Unit)),
            }
            &&& transition(m1, r1, OutcomeView::Failed(msg)).2 == StepView::Finish(
                Err(BrowserErrorView::NoElement(selector)),
            )
            &&& transition(m2, r2, OutcomeView::Failed(msg)).2 == StepView::Finish(
                Err(BrowserErrorView::Cdp(msg)),
            )
            &&& transition(m3, r3, OutcomeView::Failed(msg)).2 == StepView::Finish(
                Err(BrowserErrorView::Cdp(msg)),
            )
        }),
{
    let r = RequestView::TypeText { selector, text, press_key_after: key };
    lemma_open_plan(m, r);
    let p = plan(m, r);
    let (m1, r1, s1) = start(m, r);
    let (m2, r2, s2) = transition(m1, r1, o1);
    let (m3, r3, s3) = transition(m2, r2, o2);
    let (m4, r4, s4) = transition(m3, r3, o3);
    match key {
        Some(k) => {
            assert(p =~= seq![
                CommandView::FindElement { selector },
                CommandView::ClickElement,
                CommandView::TypeStr { text },
                CommandView::PressKey { key: k },
            ]);
            assert(r1.remaining =~= p.drop_first());
            assert(r2.remaining =~= seq![CommandView::TypeStr { text }, CommandView::PressKey { key: k }]);
            assert(r3.remaining =~= seq![CommandView::PressKey { key: k }]);
            assert(r4.remaining =~= seq![]);
        },
        None => {
            assert(p =~= seq![
                CommandView::FindElement { selector },
                CommandView::ClickElement,
                CommandView::TypeStr { text },
            ]);
            assert(r1.remaining =~= p.drop_first());
            assert(r2.remaining =~= seq![CommandView::TypeStr { text }]);
            assert(r3.remaining =~= seq![]);
        },
    }
}

/// `click` finds the element that the selector matches and clicks it; it
/// answers with nothing once the click is done, fails naming the selector
/// when no element matches, and fails with the click's own message when
/// the click fails.
pub proof fn law_click(
    m: ManagerView,
    selector: Seq<char>,
    found: OutcomeView,
    clicked: OutcomeView,
    msg: Seq<char>,
)
    requires
        m.session_open,
        !(found is Failed),
        !(clicked is Failed),
    ensures
        ({
            let (m1, r1, s1) = start(m, RequestView::Click { selector });
            let (m2, r2, s2) = transition(m1, r1, found);
            let (m3, r3, s3) = transition(m2, r2, clicked);
            &&& s1 == StepView::Perform(CommandView::FindElement { selector })
            &&& s2 == StepView::Perform(CommandView::ClickElement)
            &&& s3 == StepView::Finish(Ok(ReplyView::Unit))
            &&& transition(m1, r1, OutcomeView::Failed(msg)).2 == StepView::Finish(
                Err(BrowserErrorView::NoElement(selector)),
            )
            &&& transition(m2, r2, OutcomeView::Failed(msg)).2 == StepView::Finish(
                Err(BrowserErrorView::Cdp(msg)),
            )
            &&& m3 == m
        }),
{
    let r = RequestView::Click { selector };
    lemma_open_plan(m, r);
    let p = plan(m, r);
    let (m1, r1, s1) = start(m, r);
    assert(r1.remaining =~= p.drop_first());
    assert(p.drop_first() =~= seq![CommandView::ClickElement]);
    let (m2, r2, s2) = transition(m1, r1, found);
    assert(r2.remaining =~= seq![]);
}

/// `screenshot` captures the full page exactly when the full page is asked
/// for, the viewport otherwise, and answers with the captured bytes.
pub proof fn law_screenshot(m: ManagerView, full_page: bool, shot: Seq<u8>, msg: Seq<char>)
    requires
        m.session_open,
    ensures
        ({
            let (m1, r1, s1) = start(m, RequestView::Screenshot { full_page });
            &&& s1 == StepView::Perform(CommandView::CaptureScreenshot { full_page })
            &&& transition(m1, r1, OutcomeView::Data(shot)).2 == StepView::Finish(
                Ok(ReplyView::Data(shot)),
            )
            &&& transition(m1, r1, OutcomeView::Failed(msg)).2 == StepView::Finish(
                Err(BrowserErrorView::Cdp(msg)),
            )
        }),
{
    let r = RequestView::Screenshot { full_page };
    lemma_open_plan(m, r);
    let (m1, r1, s1) = start(m, r);
    assert(r1.remaining =~= plan(m, r).drop_first());
    assert(r1.remaining =~= seq![]);
}

/// `pdf` prints the page and answers with the PDF bytes.
pub proof fn law_pdf(m: ManagerView, doc: Seq<u8>, msg: Seq<char>)
    requires
        m.session_open,
    ensures
        ({
            let (m1, r1, s1) = start(m, RequestView::Pdf);
            &&& s1 == StepView::Perform(CommandView::PrintPdf)
            &&& transition(m1, r1, OutcomeView::Data(doc)).2 == StepView::Finish(
                Ok(ReplyView::Data(doc)),
            )
            &&& transition(m1, r1, OutcomeView::Failed(msg)).2 == StepView::Finish(
                Err(BrowserErrorView::Cdp(msg)),
            )
        }),
{
    let r = RequestView::Pdf;
    lemma_open_plan(m, r);
    let (m1, r1, s1) = start(m, r);
    assert(r1.remaining =~= plan(m, r).drop_first());
    assert(r1.remaining =~= seq![]);
}

/// `eval_js` evaluates exactly the script it is given and answers with the
/// JSON text of the result, or `null` when the result has no JSON value.
pub proof fn law_eval_js(m: ManagerView, script: Seq<char>, json: Seq<char>, msg: Seq<char>)
    requires
        m.session_open,
    ensures
        ({
            let (m1, r1, s1) = start(m, RequestView::EvalJs { script });
            &&& s1 == StepView::Perform(CommandView::Evaluate { script })
            &&& transition(m1, r1, OutcomeView::Text(Some(json))).2 == StepView::Finish(
                Ok(ReplyView::Text(json)),
            )
            &&& transition(m1, r1, OutcomeView::Text(None)).2 == StepView::Finish(
                Ok(ReplyView::Text("null"@)),
            )
            &&& transition(m1, r1, OutcomeView::Failed(msg)).2 == StepView::Finish(
                Err(BrowserErrorView::Cdp(msg)),
            )
        }),
{
    let r = RequestView::EvalJs { script };
    lemma_open_plan(m, r);
    let (m1, r1, s1) = start(m, r);
    assert(r1.remaining =~= plan(m, r).drop_first());
    assert(r1.remaining =~= seq![]);
}

/// `navigate` loads exactly the given URL, waits for the load, reads the
/// title, and answers with it (empty when the page has none).
pub proof fn law_navigate(
    m: ManagerView,
    url: Seq<char>,
    o1: OutcomeView,
    o2: OutcomeView,
    title: OutcomeView,
    msg: Seq<char>,
)
    requires
        m.session_open,
        !(o1 is Failed),
        !(o2 is Failed),
        !(title is Failed),
    ensures
        ({
            let (m1, r1, s1) = start(m, RequestView::Navigate { url });
            let (m2, r2, s2) = transition(m1, r1, o1);
            let (m3, r3, s3) = transition(m2, r2, o2);
            let (m4, r4, s4) = transition(m3, r3, title);
            &&& s1 == StepView::Perform(CommandView::Goto { url })
            &&& s2 == StepView::Perform(CommandView::WaitForNavigation)
            &&& s3 == StepView::Perform(CommandView::GetTitle)
            &&& s4 == StepView::Finish(Ok(ReplyView::Text(read_text(title))))
            &&& transition(m1, r1, OutcomeView::Failed(msg)).2 == StepView::Finish(
                Err(BrowserErrorView::Cdp(msg)),
            )
        }),
{
    let r = RequestView::Navigate { url };
    lemma_open_plan(m, r);
    let p = plan(m, r);
    let (m1, r1, s1) = start(m, r);
    assert(r1.remaining =~= p.drop_first());
    assert(p.drop_first() =~= seq![CommandView::WaitForNavigation, CommandView::GetTitle]);
    let (m2, r2, s2) = transition(m1, r1, o1);
    assert(r2.remaining =~= seq![CommandView::GetTitle]);
    let (m3, r3, s3) = transition(m2, r2, o2);
    assert(r3.remaining =~= seq![]);
}

/// `get_url` reads the URL of the page and answers with it (empty when the
/// page has none).
pub proof fn law_current_url(m: ManagerView, read: OutcomeView)
    requires
        m.session_open,
        !(read is Failed),
    ensures
        ({
            let (m1, r1, s1) = start(m, RequestView::CurrentUrl);
            &&& s1 == StepView::Perform(CommandView::GetUrl)
            &&& transition(m1, r1, read).2 == StepView::Finish(Ok(ReplyView::Text(read_text(read))))
        }),
{
    let r = RequestView::CurrentUrl;
    lemma_open_plan(m, r);
    let (m1, r1, s1) = start(m, r);
    assert(r1.remaining =~= plan(m, r).drop_first());
    assert(r1.remaining =~= seq![]);
}

/// `get_content` answers with the HTML of the whole page when no selector
/// is given, and with the inner HTML of the element that the selector
/// matches otherwise; when no element matches, it fails naming the
/// selector.
pub proof fn law_get_content(
    m: ManagerView,
    selector: Option<Seq<char>>,
    found: OutcomeView,
    read: OutcomeView,
    msg: Seq<char>,
)
    requires
        m.session_open,
        !(found is Failed),
        !(read is Failed),
    ensures
        ({
            let (m1, r1, s1) = start(m, RequestView::GetContent { selector });
            match selector {
                None => {
                    &&& s1 == StepView::Perform(CommandView::GetPageContent)
                    &&& transition(m1, r1, read).2 == StepView::Finish(
                        Ok(ReplyView::Text(read_text(read))),
                    )
                },
                Some(s) => {
                    let (m2, r2, s2) = transition(m1, r1, found);
                    &&& s1 == StepView::Perform(CommandView::FindElement { selector: s })
                    &&& s2 == StepView::Perform(CommandView::InnerHtml)
                    &&& transition(m2, r2, read).2 == StepView::Finish(
                        Ok(ReplyView::Text(read_text(read))),
                    )
                    &&& transition(m1, r1, OutcomeView::Failed(msg)).2 == StepView::Finish(
                        Err(BrowserErrorView::NoElement(s)),
                    )
                },
            }
        }),
{
    let r = RequestView::GetContent { selector };
    lemma_open_plan(m, r);
    let p = plan(m, r);
    let (m1, r1, s1) = start(m, r);
    assert(r1.remaining =~= p.drop_first());
    match selector {
        None => {
            assert(r1.remaining =~= seq![]);
        },
        Some(s) => {
            assert(r1.remaining =~= seq![CommandView::InnerHtml]);
            let (m2, r2, s2) = transition(m1, r1, found);
            assert(r2.remaining =~= seq![]);
        },
    }
}

/// With no browser running, a call on the page first builds a
/// configuration from the manager's settings (a window exactly when not
/// headless, the given Chrome binary, the extra flags, no sandbox),
/// launches Chrome and opens a blank page; from then on the session is
/// open and the call goes on exactly as it would have on an open session.
/// A failure while launching ends the call with the matching error and
/// leaves no session.
pub proof fn law_launch(
    m: ManagerView,
    r: RequestView,
    o1: OutcomeView,
    o2: OutcomeView,
    o3: OutcomeView,
    msg: Seq<char>,
)
    requires
        !m.session_open,
        !(r is Close),
        !(o1 is Failed),
        !(o2 is Failed),
        !(o3 is Failed),
    ensures
        ({
            let (m1, r1, s1) = start(m, r);
            let (m2, r2, s2) = transition(m1, r1, o1);
            let (m3, r3, s3) = transition(m2, r2, o2);
            let (m4, r4, s4) = transition(m3, r3, o3);
            let open = ManagerView { session_open: true, ..m };
            let (mo, ro, so) = start(open, r);
            &&& s1 == StepView::Perform(
                CommandView::BuildConfig {
                    plan: LaunchPlanView {
                        with_head: !m.headless,
                        chrome_executable: m.chrome_path,
                        args: m.chrome_flags,
                        no_sandbox: true,
                    },
                },
            )
            &&& s2 == StepView::Perform(CommandView::LaunchBrowser)
            &&& s3 == StepView::Perform(CommandView::OpenPage { url: "about:blank"@ })
            &&& m4 == open
            &&& r4 == ro
            &&& s4 == so
            &&& transition(m1, r1, OutcomeView::Failed(msg)).0 == m
            &&& transition(m1, r1, OutcomeView::Failed(msg)).2 == StepView::Finish(
                Err(BrowserErrorView::ConfigBuild(msg)),
            )
            &&& transition(m2, r2, OutcomeView::Failed(msg)).0 == m
            &&& transition(m2, r2, OutcomeView::Failed(msg)).2 == StepView::Finish(
                Err(BrowserErrorView::Launch(msg)),
            )
            &&& transition(m3, r3, OutcomeView::Failed(msg)).0 == m
            &&& transition(m3, r3, OutcomeView::Failed(msg)).2 == StepView::Finish(
                Err(BrowserErrorView::Cdp(msg)),
            )
        }),
{
    law_lazy_launch(m, r);
    let open = ManagerView { session_open: true, ..m };
    law_lazy_launch(open, r);
    let pc = page_commands(r);
    lemma_page_commands_shape(r);
    let p = plan(m, r);
    let (m1, r1, s1) = start(m, r);
    assert(r1.remaining =~= p.drop_first());
    let (m2, r2, s2) = transition(m1, r1, o1);
    assert(r2.remaining =~= p.skip(2));
    let (m3, r3, s3) = transition(m2, r2, o2);
    assert(r3.remaining =~= p.skip(3));
    assert(p.skip(3) =~= pc);
    let (m4, r4, s4) = transition(m3, r3, o3);
    let (mo, ro, so) = start(open, r);
    assert(r4.remaining =~= pc.drop_first());
    assert(ro.remaining =~= pc.drop_first());
}

/// What a failed tool answers: a configuration failure quotes the
/// builder's message after `failed to build browser config: `; a launch
/// failure asks whether Chrome is installed and on the PATH; a missing
/// element names the selector in backquotes; any other failure is the
/// command's own message.
pub proof fn law_error_messages(msg: Seq<char>, selector: Seq<char>)
    ensures
        error_message(BrowserErrorView::ConfigBuild(msg)) == "failed to build browser config: "@
            + msg,
        error_message(BrowserErrorView::Launch(msg))
            == "failed to launch chrome/chromium (is it installed and on PATH?)"@,
        error_message(BrowserErrorView::NoElement(selector)) == "no element matching selector `"@
            + selector + "`"@,
        error_message(BrowserErrorView::Cdp(msg)) == msg,
{
}

} // verus!
