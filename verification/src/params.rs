//! The arguments of the tools, and the call on the shared page that each
//! tool makes of them.
use vstd::prelude::*;
use crate::session::{Request, RequestView};

verus! {

/// Arguments of `navigate`.
#[derive(Debug, PartialEq, Eq)]
pub struct NavigateParams {
    /// The URL to navigate to, e.g. "https://example.com".
    pub url: String,
}

/// Arguments of `get_content` and `get_text`.
#[derive(Debug, PartialEq, Eq)]
pub struct SelectorParams {
    /// CSS selector; when absent the tool applies to the whole page.
    pub selector: Option<String>,
}

/// Arguments of `click`.
#[derive(Debug, PartialEq, Eq)]
pub struct ClickParams {
    /// CSS selector of the element to click, e.g. "#submit" or "a.next".
    pub selector: String,
}

/// Arguments of `type_text`.
#[derive(Debug, PartialEq, Eq)]
pub struct TypeTextParams {
    /// CSS selector of the input or textarea to type into.
    pub selector: String,
    /// Text to type.
    pub text: String,
    /// Key to press after typing, e.g. "Enter"; empty for none.
    pub press_key_after: String,
}

/// Arguments of `eval_js`.
#[derive(Debug, PartialEq, Eq)]
pub struct EvalJsParams {
    /// A JavaScript expression or function to evaluate in the page.
    pub script: String,
}

/// Arguments of `screenshot`.
#[derive(Debug, PartialEq, Eq)]
pub struct ScreenshotParams {
    /// Capture the full scrollable page instead of the viewport; no by
    /// default.
    pub full_page: Option<bool>,
}

/// The key to press after typing: none when the argument is empty.
pub open spec fn key_to_press(k: Seq<char>) -> Option<Seq<char>> {
    if k.len() == 0 {
        None
    } else {
        Some(k)
    }
}

impl NavigateParams {
    /// The call that `navigate` makes.
    pub fn into_request(self) -> (r: Request)
        ensures
            r@ == (RequestView::Navigate { url: self.url@ }),
    {
        Request::Navigate { url: self.url }
    }
}

impl SelectorParams {
    /// The call that `get_content` makes.
    pub fn into_content_request(self) -> (r: Request)
        ensures
            r@ == (RequestView::GetContent { selector: self.selector.deep_view() }),
    {
        Request::GetContent { selector: self.selector }
    }

    /// The call that `get_text` makes.
    pub fn into_text_request(self) -> (r: Request)
        ensures
            r@ == (RequestView::GetText { selector: self.selector.deep_view() }),
    {
        Request::GetText { selector: self.selector }
    }
}

impl ClickParams {
    /// The call that `click` makes.
    pub fn into_request(self) -> (r: Request)
        ensures
            r@ == (RequestView::Click { selector: self.selector@ }),
    {
        Request::Click { selector: self.selector }
    }
}

impl TypeTextParams {
    /// The call that `type_text` makes: an empty key means no key press.
    pub fn into_request(self) -> (r: Request)
        ensures
            r@ == (RequestView::TypeText {
                selector: self.selector@,
                text: self.text@,
                press_key_after: key_to_press(self.press_key_after@),
            }),
    {
        let key = if self.press_key_after.as_str().is_empty() {
            None
        } else {
            Some(self.press_key_after)
        };
        Request::TypeText { selector: self.selector, text: self.text, press_key_after: key }
    }
}

impl EvalJsParams {
    /// The call that `eval_js` makes.
    pub fn into_request(self) -> (r: Request)
        ensures
            r@ == (RequestView::EvalJs { script: self.script@ }),
    {
        Request::EvalJs { script: self.script }
    }
}

impl ScreenshotParams {
    /// The call that `screenshot` makes: the viewport unless the full page
    /// is asked for.
    pub fn into_request(self) -> (r: Request)
        ensures
            r@ == (RequestView::Screenshot {
                full_page: match self.full_page {
                    Some(b) => b,
                    None => false,
                },
            }),
    {
        let full_page = match self.full_page {
            Some(b) => b,
            None => false,
        };
        Request::Screenshot { full_page }
    }
}

/// After typing, a key is pressed exactly when the key argument is not
/// empty, and it is that argument.
pub proof fn law_key_to_press(k: Seq<char>)
    ensures
        key_to_press(k) is None <==> k.len() == 0,
        key_to_press(k) is Some ==> key_to_press(k)->0 == k,
{
}

} // verus!
