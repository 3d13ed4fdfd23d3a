//! What the development server tells its user.

use vstd::prelude::*;
use crate::markdown::{decimal, decimal_digits};
use crate::text::{append_chars, append_str, chars_of, same_text, string_of};

verus! {

/// The host under which a server bound to `bind` is reached from the
/// machine itself: `localhost` for a server bound to every address.
pub open spec fn shown_host(bind: Seq<char>) -> Seq<char> {
    if bind == "0.0.0.0"@ {
        "localhost"@
    } else {
        bind
    }
}

/// The URL under which the site is served.
pub open spec fn shown_url(bind: Seq<char>, port: u16) -> Seq<char> {
    "http://"@ + shown_host(bind) + ":"@ + decimal(port as nat)
}

/// The address that the server binds to: the host and the port.
pub open spec fn socket_text(bind: Seq<char>, port: u16) -> Seq<char> {
    bind + ":"@ + decimal(port as nat)
}

/// The URL that is shown to the user and opened in the browser; see
/// [`shown_url`].
pub fn display_url(bind: &str, port: u16) -> (r: String)
    ensures
        r@ == shown_url(bind@, port),
{
    let mut out = chars_of("http://");
    if same_text(bind, "0.0.0.0") {
        append_str(&mut out, "localhost");
    } else {
        append_str(&mut out, bind);
    }
    append_str(&mut out, ":");
    let digits = decimal_digits(port as usize);
    append_chars(&mut out, &digits);
    string_of(&out)
}

/// The address that the server binds to, as text; see [`socket_text`].
pub fn bind_address(bind: &str, port: u16) -> (r: String)
    ensures
        r@ == socket_text(bind@, port),
{
    let mut out = chars_of(bind);
    append_str(&mut out, ":");
    let digits = decimal_digits(port as usize);
    append_chars(&mut out, &digits);
    string_of(&out)
}

} // verus!
