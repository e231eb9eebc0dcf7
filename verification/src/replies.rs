//! The texts that the tools answer with, and the encoding of binary
//! answers (screenshots, PDFs) as Base64.
use vstd::prelude::*;
use base64::Engine;

verus! {

/// The character of a decimal digit `d` (for `d < 10`).
pub open spec fn digit_char(d: nat) -> char {
    (d + 48) as char
}

/// The decimal notation of `n`, without leading zeros.
pub open spec fn decimal(n: nat) -> Seq<char>
    decreases n,
{
    if n < 10 {
        seq![digit_char(n)]
    } else {
        decimal(n / 10).push(digit_char(n % 10))
    }
}

/// The one-character text of the decimal digit `d`.
fn digit_text(d: u128) -> (t: &'static str)
    requires
        d < 10,
    ensures
        t@ == seq![digit_char(d as nat)],
{
    if d == 0 {
        proof { reveal_strlit("0"); }
        "0"
    } else if d == 1 {
        proof { reveal_strlit("1"); }
        "1"
    } else if d == 2 {
        proof { reveal_strlit("2"); }
        "2"
    } else if d == 3 {
        proof { reveal_strlit("3"); }
        "3"
    } else if d == 4 {
        proof { reveal_strlit("4"); }
        "4"
    } else if d == 5 {
        proof { reveal_strlit("5"); }
        "5"
    } else if d == 6 {
        proof { reveal_strlit("6"); }
        "6"
    } else if d == 7 {
        proof { reveal_strlit("7"); }
        "7"
    } else if d == 8 {
        proof { reveal_strlit("8"); }
        "8"
    } else {
        proof { reveal_strlit("9"); }
        "9"
    }
}

/// The decimal notation of `n`, as `format!("{}", n)` writes it.
pub fn decimal_text(n: u128) -> (t: String)
    ensures
        t@ == decimal(n as nat),
{
    let mut text = String::from_str(digit_text(n % 10));
    let mut rest: u128 = n / 10;
    assert(decimal(n as nat) == (if rest > 0 {
        decimal(rest as nat)
    } else {
        seq![]
    }) + text@);
    while rest > 0
        invariant
            decimal(n as nat) == (if rest > 0 {
                decimal(rest as nat)
            } else {
                seq![]
            }) + text@,
        decreases rest,
    {
        let digit = String::from_str(digit_text(rest % 10));
        let ghost old_text = text@;
        text = digit.concat(text.as_str());
        proof {
            if rest < 10 {
                assert(decimal(rest as nat) == seq![digit_char(rest as nat)]);
            } else {
                assert(decimal(rest as nat) == decimal((rest / 10) as nat).push(
                    digit_char((rest % 10) as nat),
                ));
                assert(decimal((rest / 10) as nat).push(digit_char((rest % 10) as nat))
                    + old_text == decimal((rest / 10) as nat) + (seq![
                    digit_char((rest % 10) as nat),
                ] + old_text));
            }
        }
        rest = rest / 10;
    }
    text
}

/// The number that a text of decimal digits stands for.
pub open spec fn digits_value(t: Seq<char>) -> int
    decreases t.len(),
{
    if t.len() == 0 {
        0
    } else {
        digits_value(t.drop_last()) * 10 + (t.last() as int - 48)
    }
}

/// The decimal notation of `n` is made of the digits `0`-`9` only, starts
/// with a non-zero digit unless `n` is zero, and stands for `n`.
pub proof fn law_decimal(n: nat)
    ensures
        decimal(n).len() > 0,
        forall|i: int| 0 <= i < decimal(n).len() ==> 48 <= #[trigger] (decimal(n)[i] as int) <= 57,
        n > 0 ==> decimal(n)[0] != '0',
        digits_value(decimal(n)) == n,
    decreases n,
{
    if n < 10 {
        assert(decimal(n) == seq![digit_char(n)]);
        assert(digits_value(decimal(n)) == digits_value(seq![digit_char(n)].drop_last()) * 10 + (
        digit_char(n) as int - 48));
        assert(seq![digit_char(n)].drop_last() =~= Seq::<char>::empty());
    } else {
        let q = n / 10;
        let d = n % 10;
        law_decimal(q);
        let t = decimal(n);
        assert(t == decimal(q).push(digit_char(d)));
        assert(t.drop_last() =~= decimal(q));
        assert(n == q * 10 + d) by (nonlinear_arith)
            requires
                q == n / 10,
                d == n % 10,
        ;
        assert forall|i: int| 0 <= i < t.len() implies 48 <= #[trigger] (t[i] as int) <= 57 by {
            if i < t.len() - 1 {
                assert(t[i] == decimal(q)[i]);
            }
        }
        assert(t[0] == decimal(q)[0]);
    }
}

/// A screenshot's file name is `screenshot_`, then the decimal digits of
/// the milliseconds, then `.png`.
pub proof fn law_screenshot_file_name(millis: nat)
    ensures
        ({
            let name = screenshot_file_name_spec(millis);
            let digits = name.subrange(11, name.len() - 4);
            &&& name.take(11) == "screenshot_"@
            &&& name.skip(name.len() - 4) == ".png"@
            &&& digits == decimal(millis)
            &&& digits_value(digits) == millis
        }),
{
    reveal_strlit("screenshot_");
    reveal_strlit(".png");
    law_decimal(millis);
    let name = screenshot_file_name_spec(millis);
    let d = decimal(millis);
    assert(name.take(11) =~= "screenshot_"@);
    assert(name.skip(name.len() - 4) =~= ".png"@);
    assert(name.subrange(11, name.len() - 4) =~= d);
}

/// The file name under which a screenshot taken at `millis` milliseconds
/// after the Unix epoch is saved.
pub open spec fn screenshot_file_name_spec(millis: nat) -> Seq<char> {
    "screenshot_"@ + decimal(millis) + ".png"@
}

/// The file name under which a screenshot taken at `millis` milliseconds
/// after the Unix epoch is saved: `screenshot_<millis>.png`.
pub fn screenshot_file_name(millis: u128) -> (name: String)
    ensures
        name@ == screenshot_file_name_spec(millis as nat),
{
    let digits = decimal_text(millis);
    String::from_str("screenshot_").concat(digits.as_str()).concat(".png")
}

/// The answer of the `navigate` tool: the URL that was asked for and the
/// title of the page that loaded.
pub fn navigate_message(url: &str, title: &str) -> (m: String)
    ensures
        m@ == "Navigated to "@ + url@ + ". Page title: "@ + title@,
{
    String::from_str("Navigated to ").concat(url).concat(". Page title: ").concat(title)
}

/// The answer of the `click` tool.
pub fn clicked_message(selector: &str) -> (m: String)
    ensures
        m@ == "Clicked `"@ + selector@ + "`"@,
{
    String::from_str("Clicked `").concat(selector).concat("`")
}

/// The answer of the `type_text` tool.
pub fn typed_message(selector: &str) -> (m: String)
    ensures
        m@ == "Typed into `"@ + selector@ + "`"@,
{
    String::from_str("Typed into `").concat(selector).concat("`")
}

/// The answer of the `close_browser` tool.
pub fn closed_message() -> (m: String)
    ensures
        m@ == "Browser closed"@,
{
    String::from_str("Browser closed")
}

/// The text that goes with a screenshot, naming the file it was saved to.
pub fn screenshot_saved_message(path: &str) -> (m: String)
    ensures
        m@ == "Screenshot saved to "@ + path@,
{
    String::from_str("Screenshot saved to ").concat(path)
}

/// The MIME type of a screenshot.
pub fn screenshot_mime_type() -> (m: String)
    ensures
        m@ == "image/png"@,
{
    String::from_str("image/png")
}

/// The character that stands for the six-bit value `v` in the standard
/// Base64 alphabet (RFC 4648): `A`-`Z`, `a`-`z`, `0`-`9`, `+`, `/`.
pub open spec fn base64_digit(v: int) -> char {
    if v < 26 {
        (65 + v) as char
    } else if v < 52 {
        (97 + v - 26) as char
    } else if v < 62 {
        (48 + v - 52) as char
    } else if v == 62 {
        '+'
    } else {
        '/'
    }
}

/// The six-bit value that the character `c` stands for in the standard
/// Base64 alphabet.
pub open spec fn base64_value(c: char) -> int {
    let n = c as int;
    if 65 <= n <= 90 {
        n - 65
    } else if 97 <= n <= 122 {
        n - 71
    } else if 48 <= n <= 57 {
        n + 4
    } else if c == '+' {
        62
    } else {
        63
    }
}

/// The standard Base64 text of `bytes` (RFC 4648, with `=` padding): each
/// group of three bytes becomes four characters of six bits each; a last
/// group of one or two bytes is padded with `==` or `=`.
pub open spec fn base64_standard(bytes: Seq<u8>) -> Seq<char>
    decreases bytes.len(),
{
    if bytes.len() == 0 {
        seq![]
    } else if bytes.len() == 1 {
        let b0 = bytes[0] as int;
        seq![base64_digit(b0 / 4), base64_digit((b0 % 4) * 16), '=', '=']
    } else if bytes.len() == 2 {
        let b0 = bytes[0] as int;
        let b1 = bytes[1] as int;
        seq![
            base64_digit(b0 / 4),
            base64_digit((b0 % 4) * 16 + b1 / 16),
            base64_digit((b1 % 16) * 4),
            '=',
        ]
    } else {
        let b0 = bytes[0] as int;
        let b1 = bytes[1] as int;
        let b2 = bytes[2] as int;
        seq![
            base64_digit(b0 / 4),
            base64_digit((b0 % 4) * 16 + b1 / 16),
            base64_digit((b1 % 16) * 4 + b2 / 64),
            base64_digit(b2 % 64),
        ] + base64_standard(bytes.skip(3))
    }
}

/// The bytes that the standard Base64 text `text` stands for: each group
/// of four characters gives three bytes, or one or two when it ends in
/// `==` or `=`.
pub open spec fn base64_decode(text: Seq<char>) -> Seq<u8>
    decreases text.len(),
{
    if text.len() < 4 {
        seq![]
    } else {
        let v0 = base64_value(text[0]);
        let v1 = base64_value(text[1]);
        let v2 = base64_value(text[2]);
        let v3 = base64_value(text[3]);
        let b0 = (v0 * 4 + v1 / 16) as u8;
        let b1 = ((v1 % 16) * 16 + v2 / 4) as u8;
        let b2 = ((v2 % 4) * 64 + v3) as u8;
        if text[2] == '=' {
            seq![b0]
        } else if text[3] == '=' {
            seq![b0, b1]
        } else {
            seq![b0, b1, b2] + base64_decode(text.skip(4))
        }
    }
}

proof fn lemma_base64_digit(v: int)
    requires
        0 <= v < 64,
    ensures
        base64_value(base64_digit(v)) == v,
        base64_digit(v) != '=',
{
}

proof fn lemma_base64_group(b0: int, b1: int, b2: int)
    requires
        0 <= b0 < 256,
        0 <= b1 < 256,
        0 <= b2 < 256,
    ensures
        0 <= b0 / 4 < 64,
        0 <= (b0 % 4) * 16 + b1 / 16 < 64,
        0 <= (b1 % 16) * 4 + b2 / 64 < 64,
        0 <= b2 % 64 < 64,
        (b0 / 4) * 4 + ((b0 % 4) * 16 + b1 / 16) / 16 == b0,
        (((b0 % 4) * 16 + b1 / 16) % 16) * 16 + ((b1 % 16) * 4 + b2 / 64) / 4 == b1,
        (((b1 % 16) * 4 + b2 / 64) % 4) * 64 + b2 % 64 == b2,
{
    assert(0 <= b0 / 4 < 64) by (nonlinear_arith)
        requires
            0 <= b0 < 256,
    ;
    assert((b0 / 4) * 4 + b0 % 4 == b0) by (nonlinear_arith);
    assert(((b0 % 4) * 16 + b1 / 16) / 16 == b0 % 4 && ((b0 % 4) * 16 + b1 / 16) % 16 == b1
        / 16) by (nonlinear_arith)
        requires
            0 <= b0 < 256,
            0 <= b1 < 256,
    ;
    assert((b1 / 16) * 16 + b1 % 16 == b1) by (nonlinear_arith);
    assert(((b1 % 16) * 4 + b2 / 64) / 4 == b1 % 16 && ((b1 % 16) * 4 + b2 / 64) % 4 == b2
        / 64) by (nonlinear_arith)
        requires
            0 <= b1 < 256,
            0 <= b2 < 256,
    ;
    assert((b2 / 64) * 64 + b2 % 64 == b2) by (nonlinear_arith);
    assert(0 <= (b0 % 4) * 16 + b1 / 16 < 64) by (nonlinear_arith)
        requires
            0 <= b0 < 256,
            0 <= b1 < 256,
    ;
    assert(0 <= (b1 % 16) * 4 + b2 / 64 < 64) by (nonlinear_arith)
        requires
            0 <= b1 < 256,
            0 <= b2 < 256,
    ;
}

/// Decoding the standard Base64 text of any bytes gives back those bytes.
pub proof fn law_base64_round_trip(bytes: Seq<u8>)
    ensures
        base64_decode(base64_standard(bytes)) == bytes,
    decreases bytes.len(),
{
    let t = base64_standard(bytes);
    if bytes.len() == 0 {
    } else if bytes.len() == 1 {
        let b0 = bytes[0] as int;
        lemma_base64_group(b0, 0, 0);
        lemma_base64_digit(b0 / 4);
        lemma_base64_digit((b0 % 4) * 16);
        assert(base64_decode(t) =~= bytes);
    } else if bytes.len() == 2 {
        let b0 = bytes[0] as int;
        let b1 = bytes[1] as int;
        lemma_base64_group(b0, b1, 0);
        lemma_base64_digit(b0 / 4);
        lemma_base64_digit((b0 % 4) * 16 + b1 / 16);
        lemma_base64_digit((b1 % 16) * 4);
        assert(base64_decode(t) =~= bytes);
    } else {
        let b0 = bytes[0] as int;
        let b1 = bytes[1] as int;
        let b2 = bytes[2] as int;
        lemma_base64_group(b0, b1, b2);
        lemma_base64_digit(b0 / 4);
        lemma_base64_digit((b0 % 4) * 16 + b1 / 16);
        lemma_base64_digit((b1 % 16) * 4 + b2 / 64);
        lemma_base64_digit(b2 % 64);
        let rest = bytes.skip(3);
        law_base64_round_trip(rest);
        let head = seq![
            base64_digit(b0 / 4),
            base64_digit((b0 % 4) * 16 + b1 / 16),
            base64_digit((b1 % 16) * 4 + b2 / 64),
            base64_digit(b2 % 64),
        ];
        assert(t == head + base64_standard(rest));
        assert(t.skip(4) =~= base64_standard(rest));
        assert(t[2] == head[2]);
        assert(t[3] == head[3]);
        assert(bytes =~= seq![bytes[0], bytes[1], bytes[2]] + rest);
        assert(base64_decode(t) =~= bytes);
    }
}

/// The standard Base64 alphabet: `A`-`Z` stand for 0-25, `a`-`z` for
/// 26-51, `0`-`9` for 52-61, `+` for 62 and `/` for 63.
pub proof fn law_base64_alphabet(v: int)
    requires
        0 <= v < 64,
    ensures
        v < 26 ==> base64_digit(v) as int == 'A' as int + v,
        26 <= v < 52 ==> base64_digit(v) as int == 'a' as int + (v - 26),
        52 <= v < 62 ==> base64_digit(v) as int == '0' as int + (v - 52),
        v == 62 ==> base64_digit(v) == '+',
        v == 63 ==> base64_digit(v) == '/',
{
}

/// Standard Base64 text has four characters for every three bytes or part
/// of them.
pub proof fn law_base64_length(bytes: Seq<u8>)
    ensures
        base64_standard(bytes).len() == 4 * ((bytes.len() + 2) / 3),
    decreases bytes.len(),
{
    if bytes.len() >= 3 {
        law_base64_length(bytes.skip(3));
    }
}

/// Calls `base64::engine::general_purpose::STANDARD.encode`, which writes
/// `bytes` in the standard Base64 alphabet with `=` padding (RFC 4648); the
/// contract states that text as `base64_standard`.
#[verifier::external_body]
fn encode_standard(bytes: &[u8]) -> (text: String)
    ensures
        text@ == base64_standard(bytes@),
{
    base64::engine::general_purpose::STANDARD.encode(bytes)
}

/// The answer of the `pdf` tool: the PDF bytes in standard Base64.
pub fn pdf_reply(bytes: &Vec<u8>) -> (text: String)
    ensures
        text@ == base64_standard(bytes@),
        base64_decode(text@) == bytes@,
{
    proof {
        law_base64_round_trip(bytes@);
    }
    encode_standard(bytes.as_slice())
}

/// What the `screenshot` tool answers with: a line of text that names the
/// file, and the image itself, Base64-encoded, with its MIME type.
#[derive(Debug, PartialEq, Eq)]
pub struct ScreenshotReply {
    pub text: String,
    pub image_data: String,
    pub mime_type: String,
}

/// Assembles the answer of the `screenshot` tool from the Base64 text of
/// the image and the path of the saved file.
pub fn screenshot_reply_from(encoded: String, path: &str) -> (r: ScreenshotReply)
    ensures
        r.text@ == "Screenshot saved to "@ + path@,
        r.image_data@ == encoded@,
        r.mime_type@ == "image/png"@,
{
    ScreenshotReply {
        text: screenshot_saved_message(path),
        image_data: encoded,
        mime_type: screenshot_mime_type(),
    }
}

/// The answer of the `screenshot` tool for the PNG bytes `bytes`, saved
/// under `path`.
pub fn screenshot_reply(bytes: &Vec<u8>, path: &str) -> (r: ScreenshotReply)
    ensures
        r.text@ == "Screenshot saved to "@ + path@,
        r.image_data@ == base64_standard(bytes@),
        base64_decode(r.image_data@) == bytes@,
        r.mime_type@ == "image/png"@,
{
    proof {
        law_base64_round_trip(bytes@);
    }
    let encoded = encode_standard(bytes.as_slice());
    screenshot_reply_from(encoded, path)
}

} // verus!
