//! The answer of the web front end to one request.

use vstd::prelude::*;
use vstd::string::StringExecFns;
use vstd::utf8::decode_utf8;
use vstd::utf8::encode_utf8;
use vstd::utf8::valid_utf8;

use crate::text::copy_of;
use crate::text::has_prefix;
use crate::text::starts_with;
use crate::text::text_of;
use crate::text::InvalidUtf8;

verus! {

/// First line of the one request that is served.
pub const GET_ROOT: &'static str = "GET / HTTP/1.1\r\n";

/// Status line and blank line of a served request.
pub const STATUS_OK: &'static str = "HTTP/1.1 200 OK\r\n\r\n";

/// Status line and blank line of any other request.
pub const STATUS_NOT_FOUND: &'static str = "HTTP/1.1 404 NOT FOUND\r\n\r\n";

/// The page up to the place where the request is shown.
pub const PAGE_HEAD: &'static str =
    "<!DOCTYPE html>\n        <html lang='no'>\n          <head>\n            <meta charset='utf-8'>\n            <title>Calcumulator</title>\n          </head>\n          <body>\n            <h1>Hei og velkommen til min web-tjener</h1>\n            <div>Header fra klient gav f\u{221a}\u{220f}lgende: ";

/// The page after the request.
pub const PAGE_TAIL: &'static str =
    "\n            </div>\n          </body>\n        </html>\n        ";

/// Whether `request` asks for the root page.
pub open spec fn asks_for_root(request: Seq<u8>) -> bool {
    has_prefix(request, encode_utf8(GET_ROOT@))
}

/// The answer to a request for the root page: the page, with the text of
/// the request shown in it.
pub open spec fn root_page(request: Seq<u8>) -> Seq<char> {
    STATUS_OK@ + PAGE_HEAD@ + decode_utf8(request) + PAGE_TAIL@
}

/// The answer to `request`. A request for the root page is answered with
/// the page, any other request with "not found". A request for the root
/// page that is not UTF-8 text cannot be shown and is refused.
pub fn web_response(request: &[u8]) -> (response: Result<String, InvalidUtf8>)
    ensures
        match response {
            Ok(answer) => if asks_for_root(request@) {
                valid_utf8(request@) && answer@ == root_page(request@)
            } else {
                answer@ == STATUS_NOT_FOUND@
            },
            Err(_) => asks_for_root(request@) && !valid_utf8(request@),
        },
{
    if !starts_with(request, GET_ROOT.as_bytes()) {
        return Ok(STATUS_NOT_FOUND.to_owned());
    }
    match text_of(copy_of(request)) {
        Ok(shown) => {
            let answer = STATUS_OK.to_owned().concat(PAGE_HEAD).concat(shown.as_str()).concat(
                PAGE_TAIL,
            );
            Ok(answer)
        },
        Err(refused) => Err(refused),
    }
}

} // verus!
