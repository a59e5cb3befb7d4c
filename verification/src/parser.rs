//! Trusted boundary to the MIME parsing library and to lossy UTF-8
//! decoding. The library's own logic never reimplements header folding,
//! encoded-word decoding or transfer-encoding; it calls through these
//! wrappers and reasons about the named results.

use vstd::prelude::*;
use vstd::utf8::decode_utf8;
use vstd::utf8::valid_utf8;

verus! {

/// The header list the MIME parser derives from a raw message: decoded
/// (name, value) pairs in order of appearance, or `None` when the parser
/// rejects the bytes. A function of the input bytes alone.
pub uninterp spec fn parsed_headers(raw: Seq<u8>) -> Option<Seq<(Seq<char>, Seq<char>)>>;

/// The decoded body text of a raw message: transfer-encoding unapplied and
/// charset decoded, or `None` when the parser or the decoding rejects the
/// bytes. A function of the input bytes alone.
pub uninterp spec fn parsed_body_text(raw: Seq<u8>) -> Option<Seq<char>>;

/// The lossy UTF-8 reading of a byte sequence: invalid sequences replaced
/// by the replacement character. A function of the input bytes alone.
pub uninterp spec fn lossy_utf8(raw: Seq<u8>) -> Seq<char>;

/// Relies on `mailparse::parse_mail` and `MailHeader::get_key` /
/// `get_value`: parsing is deterministic in the raw bytes, and either
/// fails or yields the decoded header (name, value) pairs in order.
#[verifier::external_body]
pub(crate) fn parse_header_list(raw: &[u8]) -> (r: Result<Vec<(String, String)>, String>)
    ensures
        match r {
            Ok(hs) => parsed_headers(raw@) == Some(hs.deep_view()),
            Err(_) => parsed_headers(raw@) is None,
        },
{
    match mailparse::parse_mail(raw) {
        Ok(mail) => {
            let mut hs: Vec<(String, String)> = Vec::new();
            for h in &mail.headers {
                hs.push((h.get_key(), h.get_value()));
            }
            Ok(hs)
        },
        Err(e) => Err(e.to_string()),
    }
}

/// Relies on `mailparse::parse_mail` and `ParsedMail::get_body`: the
/// decoded body text is a function of the raw bytes alone.
#[verifier::external_body]
pub(crate) fn parse_body_string(raw: &[u8]) -> (r: Result<String, String>)
    ensures
        match r {
            Ok(b) => parsed_body_text(raw@) == Some(b@),
            Err(_) => parsed_body_text(raw@) is None,
        },
{
    match mailparse::parse_mail(raw) {
        Ok(mail) => match mail.get_body() {
            Ok(b) => Ok(b),
            Err(e) => Err(e.to_string()),
        },
        Err(e) => Err(e.to_string()),
    }
}

/// Relies on `String::from_utf8_lossy`: deterministic in the bytes, and
/// the identity on valid UTF-8.
#[verifier::external_body]
pub(crate) fn decode_utf8_lossy(raw: &[u8]) -> (r: String)
    ensures
        r@ == lossy_utf8(raw@),
        valid_utf8(raw@) ==> r@ == decode_utf8(raw@),
{
    String::from_utf8_lossy(raw).to_string()
}

} // verus!
