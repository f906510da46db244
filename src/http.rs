//! The header values that accompany every response.

use vstd::prelude::*;
use vstd::string::StringExecFns;

verus! {

/// One year, in seconds: how long clients may keep a response.
pub const YEAR_TO_SECONDS: u32 = 31536000;

/// The headers of a response, as plain values.
pub struct ResponseHeaders {
    pub cache_control: String,
    pub content_type: String,
    pub content_disposition: String,
}

/// The decimal digits of `n`, most significant first, without sign or padding.
pub open spec fn decimal(n: nat) -> Seq<char>
    decreases n,
{
    if n < 10 {
        seq![digit(n)]
    } else {
        decimal(n / 10).push(digit(n % 10))
    }
}

/// The character of a decimal digit.
pub open spec fn digit(d: nat) -> char {
    (('0' as u32) + d) as char
}

/// Relies on `u32::to_string` (through `Display`): the decimal digits of
/// the number, with no sign and no padding.
#[verifier::external_body]
fn decimal_string(n: u32) -> (r: String)
    ensures
        r@ == decimal(n as nat),
{
    n.to_string()
}

/// The `Cache-Control` value for a response that clients may keep `age`
/// seconds: `no-cache` for zero, else `public, max-age=<age>`.
pub fn cache_control(age: u32) -> (r: String)
    ensures
        age == 0 ==> r@ == "no-cache"@,
        age > 0 ==> r@ == "public, max-age="@ + decimal(age as nat),
{
    if age == 0 {
        "no-cache".to_owned()
    } else {
        let digits = decimal_string(age);
        "public, max-age=".to_owned().concat(digits.as_str())
    }
}

/// The headers of a response: caching for `age` seconds, the given media
/// type (`text/plain` when there is none), and a download file name.
pub fn get_header(age: u32, mime_type: Option<&str>) -> (r: ResponseHeaders)
    ensures
        age == 0 ==> r.cache_control@ == "no-cache"@,
        age > 0 ==> r.cache_control@ == "public, max-age="@ + decimal(age as nat),
        match mime_type {
            Some(m) => r.content_type@ == m@,
            None => r.content_type@ == "text/plain"@,
        },
        r.content_disposition@ == "attachment; filename=\"qrcode.webp\""@,
{
    let content_type = match mime_type {
        Some(m) => m.to_owned(),
        None => "text/plain".to_owned(),
    };
    ResponseHeaders {
        cache_control: cache_control(age),
        content_type,
        content_disposition: "attachment; filename=\"qrcode.webp\"".to_owned(),
    }
}

} // verus!
