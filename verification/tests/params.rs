use chromium_mcp::params::{
    ClickParams, EvalJsParams, NavigateParams, ScreenshotParams, SelectorParams, TypeTextParams,
};
use chromium_mcp::session::Request;

#[test]
fn navigate_params_request() {
    let r = NavigateParams { url: "https://example.com".into() }.into_request();
    assert_eq!(r, Request::Navigate { url: "https://example.com".into() });
}

#[test]
fn selector_params_requests() {
    let p = || SelectorParams { selector: Some("#main".into()) };
    assert_eq!(p().into_content_request(), Request::GetContent { selector: Some("#main".into()) });
    assert_eq!(p().into_text_request(), Request::GetText { selector: Some("#main".into()) });
    let none = || SelectorParams { selector: None };
    assert_eq!(none().into_content_request(), Request::GetContent { selector: None });
    assert_eq!(none().into_text_request(), Request::GetText { selector: None });
}

#[test]
fn click_params_request() {
    assert_eq!(
        ClickParams { selector: "a.next".into() }.into_request(),
        Request::Click { selector: "a.next".into() }
    );
}

#[test]
fn type_text_empty_key_presses_nothing() {
    let p = TypeTextParams { selector: "#q".into(), text: "rust".into(), press_key_after: String::new() };
    assert_eq!(
        p.into_request(),
        Request::TypeText { selector: "#q".into(), text: "rust".into(), press_key_after: None }
    );
}

#[test]
fn type_text_key_is_pressed() {
    let p = TypeTextParams { selector: "#q".into(), text: "rust".into(), press_key_after: "Enter".into() };
    assert_eq!(
        p.into_request(),
        Request::TypeText { selector: "#q".into(), text: "rust".into(), press_key_after: Some("Enter".into()) }
    );
}

#[test]
fn eval_params_request() {
    assert_eq!(
        EvalJsParams { script: "document.title".into() }.into_request(),
        Request::EvalJs { script: "document.title".into() }
    );
}

#[test]
fn screenshot_defaults_to_viewport() {
    assert_eq!(ScreenshotParams { full_page: None }.into_request(), Request::Screenshot { full_page: false });
    assert_eq!(ScreenshotParams { full_page: Some(true) }.into_request(), Request::Screenshot { full_page: true });
    assert_eq!(ScreenshotParams { full_page: Some(false) }.into_request(), Request::Screenshot { full_page: false });
}
