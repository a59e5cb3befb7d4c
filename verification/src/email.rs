//! Identity extraction from header values and resolution of the reply
//! identity of a raw message: `Reply-To` wins over `From`, and a display
//! name falls back to the local part of the address.

use vstd::prelude::*;
use crate::domain::DomainError;
use crate::domain::EmailAddress;
use crate::domain::EmailBody;
use crate::domain::Subject;
use crate::domain::valid_email_chars;
use crate::parser::decode_utf8_lossy;
use crate::parser::lossy_utf8;
use crate::parser::parse_body_string;
use crate::parser::parse_header_list;
use crate::parser::parsed_body_text;
use crate::parser::parsed_headers;
use crate::text::char_is_ws;
use crate::text::eq_ascii_ci;
use crate::text::find_char;
use crate::text::first_index_of;
use crate::text::lemma_first_index_of;
use crate::text::is_ws_char;
use crate::text::spec_strip_quotes;
use crate::text::spec_trim;
use crate::text::str_eq_ignore_ascii_case;
use crate::text::strip_quotes_str;
use crate::text::token_end;
use crate::text::token_start;
use crate::text::trim_str;

verus! {

#[derive(Debug, Clone)]
pub enum EmailError {
    ParseError(String),
    MissingHeader(String),
    DomainError(DomainError),
}

/// The characters before the first `@`, or the whole sequence when there
/// is none.
pub open spec fn local_part(s: Seq<char>) -> Seq<char> {
    match first_index_of(s, '@') {
        Some(i) => s.subrange(0, i),
        None => s,
    }
}

/// The address drawn from a header value without an angle-bracket pair:
/// the first whitespace-delimited token holding an `@`, or the whole
/// trimmed value when no `@` occurs.
pub open spec fn fallback_address(s: Seq<char>) -> Seq<char> {
    match first_index_of(s, '@') {
        Some(i) => s.subrange(token_start(s, i), token_end(s, i)),
        None => spec_trim(s),
    }
}

/// The address drawn from a header value: the characters strictly between
/// the first `<` and the first `>` after it, else `fallback_address`.
pub open spec fn extracted_address(s: Seq<char>) -> Seq<char> {
    match first_index_of(s, '<') {
        Some(i) => match first_index_of(s.skip(i + 1), '>') {
            Some(k) => s.subrange(i + 1, i + 1 + k),
            None => fallback_address(s),
        },
        None => fallback_address(s),
    }
}

/// The display name drawn from a header value: the part before the first
/// `<`, trimmed and with surrounding double quotes stripped; when that is
/// empty or there is no `<`, the local part of the whole value.
pub open spec fn extracted_name(s: Seq<char>) -> Seq<char> {
    match first_index_of(s, '<') {
        Some(i) => {
            let stripped = spec_strip_quotes(spec_trim(s.subrange(0, i)));
            if stripped.len() > 0 {
                stripped
            } else {
                local_part(s)
            }
        },
        None => local_part(s),
    }
}

/// The value of the first header whose name equals `name` up to ASCII
/// case.
pub open spec fn find_header(hs: Seq<(Seq<char>, Seq<char>)>, name: Seq<char>) -> Option<Seq<char>>
    decreases hs.len(),
{
    if hs.len() == 0 {
        None
    } else if eq_ascii_ci(hs[0].0, name) {
        Some(hs[0].1)
    } else {
        find_header(hs.drop_first(), name)
    }
}

/// The (address, display name) pair resolved from a header list:
/// `Reply-To` preferred, then `From`, else nothing.
pub open spec fn resolved_identity(hs: Seq<(Seq<char>, Seq<char>)>) -> Option<
    (Seq<char>, Seq<char>),
> {
    match find_header(hs, "Reply-To"@) {
        Some(v) => Some((extracted_address(v), extracted_name(v))),
        None => match find_header(hs, "From"@) {
            Some(v) => Some((extracted_address(v), extracted_name(v))),
            None => None,
        },
    }
}

/// The subject header value, or the fixed placeholder when absent.
pub open spec fn subject_or_default(hs: Seq<(Seq<char>, Seq<char>)>) -> Seq<char> {
    match find_header(hs, "Subject"@) {
        Some(v) => v,
        None => "Forwarded Email"@,
    }
}

/// The decoded body text, or the lossy reading of the raw bytes when body
/// extraction fails.
pub open spec fn body_text_or_raw(raw: Seq<u8>) -> Seq<char> {
    match parsed_body_text(raw) {
        Some(t) => t,
        None => lossy_utf8(raw),
    }
}

/// The part of `s` before the first `@`, or all of `s` without one.
fn local_part_str(s: &str) -> (r: String)
    ensures
        r@ == local_part(s@),
{
    proof {
        lemma_first_index_of(s@, '@');
    }
    match find_char(s, '@') {
        Some(i) => String::from_str(s.substring_char(0, i)),
        None => String::from_str(s),
    }
}

/// The first whitespace-delimited token of `s` holding an `@`, or the
/// trimmed value without one.
fn fallback_address_str(s: &str) -> (r: String)
    ensures
        r@ == fallback_address(s@),
{
    let n: usize = s.unicode_len();
    proof {
        lemma_first_index_of(s@, '@');
    }
    match find_char(s, '@') {
        Some(i) => {
            let mut a: usize = i;
            loop
                invariant
                    n == s@.len(),
                    0 <= a <= i < n,
                    token_start(s@, i as int) == token_start(s@, a as int),
                ensures
                    0 <= a <= i,
                    token_start(s@, i as int) == a,
                decreases a,
            {
                if a == 0 {
                    break ;
                }
                if char_is_ws(s.get_char(a - 1)) {
                    break ;
                }
                a -= 1;
            }
            let mut b: usize = i;
            loop
                invariant
                    n == s@.len(),
                    0 <= i <= b <= n,
                    token_end(s@, i as int) == token_end(s@, b as int),
                ensures
                    i <= b <= n,
                    token_end(s@, i as int) == b,
                decreases n - b,
            {
                if b == n {
                    break ;
                }
                if char_is_ws(s.get_char(b)) {
                    break ;
                }
                b += 1;
            }
            String::from_str(s.substring_char(a, b))
        },
        None => trim_str(s),
    }
}

/// Extract the bare address from a `From`/`Reply-To` style header value.
/// Never fails; validity of the result is checked later by
/// `EmailAddress`.
pub fn extract_email_address(from_header: &str) -> (r: Result<String, EmailError>)
    ensures
        r matches Ok(a) && a@ == extracted_address(from_header@),
{
    let n: usize = from_header.unicode_len();
    proof {
        lemma_first_index_of(from_header@, '<');
    }
    match find_char(from_header, '<') {
        Some(i) => {
            let rest = from_header.substring_char(i + 1, n);
            proof {
                assert(rest@ =~= from_header@.skip(i + 1));
                lemma_first_index_of(rest@, '>');
            }
            match find_char(rest, '>') {
                Some(k) => {
                    let out = rest.substring_char(0, k);
                    proof {
                        assert(rest@.subrange(0, k as int) =~= from_header@.subrange(
                            i + 1,
                            i + 1 + k,
                        ));
                    }
                    Ok(String::from_str(out))
                },
                None => Ok(fallback_address_str(from_header)),
            }
        },
        None => Ok(fallback_address_str(from_header)),
    }
}

/// Extract the display name from a `From`/`Reply-To` style header value.
pub fn extract_sender_name(from_header: &str) -> (r: String)
    ensures
        r@ == extracted_name(from_header@),
{
    proof {
        lemma_first_index_of(from_header@, '<');
    }
    match find_char(from_header, '<') {
        Some(i) => {
            let before = from_header.substring_char(0, i);
            let trimmed = trim_str(before);
            let stripped = strip_quotes_str(trimmed.as_str());
            if stripped.as_str().unicode_len() > 0 {
                stripped
            } else {
                local_part_str(from_header)
            }
        },
        None => local_part_str(from_header),
    }
}

/// The value of the first header matching `name` up to ASCII case, if
/// any.
fn lookup_header(hs: &Vec<(String, String)>, name: &str) -> (r: Option<String>)
    ensures
        match r {
            Some(v) => find_header(hs.deep_view(), name@) == Some(v@),
            None => find_header(hs.deep_view(), name@) is None,
        },
{
    let ghost full = hs.deep_view();
    proof {
        assert(full.skip(0) =~= full);
    }
    let mut idx: usize = 0;
    loop
        invariant
            full == hs.deep_view(),
            full.len() == hs@.len(),
            0 <= idx <= hs.len(),
            find_header(full, name@) == find_header(full.skip(idx as int), name@),
        ensures
            idx <= hs.len(),
            match find_header(full, name@) {
                Some(v) => idx < hs.len() && eq_ascii_ci(full[idx as int].0, name@)
                    && v == full[idx as int].1,
                None => idx == hs.len(),
            },
        decreases hs.len() - idx,
    {
        if idx == hs.len() {
            proof {
                assert(full.skip(idx as int) =~= Seq::<(Seq<char>, Seq<char>)>::empty());
            }
            break ;
        }
        let matched = str_eq_ignore_ascii_case(hs[idx].0.as_str(), name);
        proof {
            assert(full.skip(idx as int)[0] == full[idx as int]);
            assert(full[idx as int].0 == hs@[idx as int].0@);
        }
        if matched {
            break ;
        }
        proof {
            assert(full.skip(idx as int).drop_first() =~= full.skip(idx as int + 1));
        }
        idx += 1;
    }
    if idx < hs.len() {
        Some(hs[idx].1.clone())
    } else {
        None
    }
}

/// Resolve the reply identity of a raw message: the `Reply-To` value when
/// present, else the `From` value, else a missing-header failure. Returns
/// the extracted (address, display name) pair.
pub fn extract_reply_to_info(raw_email: &[u8]) -> (r: Result<(String, String), EmailError>)
    ensures
        match r {
            Ok(p) => parsed_headers(raw_email@) matches Some(hs) && resolved_identity(hs) == Some(
                (p.0@, p.1@),
            ),
            Err(e) => match e {
                EmailError::ParseError(_) => parsed_headers(raw_email@) is None,
                EmailError::MissingHeader(h) => parsed_headers(raw_email@) matches Some(hs)
                    && resolved_identity(hs) is None && h@ == "From or Reply-To"@,
                _ => false,
            },
        },
{
    let headers = match parse_header_list(raw_email) {
        Ok(h) => h,
        Err(m) => {
            return Err(EmailError::ParseError(m));
        },
    };
    let value = match lookup_header(&headers, "Reply-To") {
        Some(v) => v,
        None => match lookup_header(&headers, "From") {
            Some(v) => v,
            None => {
                return Err(EmailError::MissingHeader(String::from_str("From or Reply-To")));
            },
        },
    };
    let name = extract_sender_name(value.as_str());
    match extract_email_address(value.as_str()) {
        Ok(addr) => Ok((addr, name)),
        Err(e) => Err(e),
    }
}

/// A message reduced to the fields the simple (non-MIME-preserving) send
/// path uses.
pub struct ParsedEmail {
    pub subject: Subject,
    pub from: EmailAddress,
    pub body: EmailBody,
}

/// Parse a raw message into subject, sender address and trimmed body
/// text. The subject falls back to a fixed placeholder; the sender header
/// is mandatory and its address must pass the shape check; body
/// extraction falls back to a lossy reading of the raw bytes.
pub fn parse_email(raw_email: &[u8]) -> (r: Result<ParsedEmail, EmailError>)
    ensures
        match r {
            Ok(pe) => parsed_headers(raw_email@) matches Some(hs) && {
                &&& find_header(hs, "From"@) matches Some(fv) && pe.from@ == extracted_address(fv)
                    && valid_email_chars(pe.from@)
                &&& pe.subject@ == subject_or_default(hs)
                &&& pe.body@ == spec_trim(body_text_or_raw(raw_email@))
            },
            Err(e) => match e {
                EmailError::ParseError(_) => parsed_headers(raw_email@) is None,
                EmailError::MissingHeader(h) => parsed_headers(raw_email@) matches Some(hs)
                    && find_header(hs, "From"@) is None && h@ == "From"@,
                EmailError::DomainError(de) => parsed_headers(raw_email@) matches Some(hs) && {
                    &&& find_header(hs, "From"@) matches Some(fv) && {
                        &&& !valid_email_chars(extracted_address(fv))
                        &&& de matches DomainError::InvalidEmail(s) && s@ == extracted_address(fv)
                    }
                },
            },
        },
{
    let headers = match parse_header_list(raw_email) {
        Ok(h) => h,
        Err(m) => {
            return Err(EmailError::ParseError(m));
        },
    };
    let subject = match lookup_header(&headers, "Subject") {
        Some(v) => v,
        None => String::from_str("Forwarded Email"),
    };
    let from_header = match lookup_header(&headers, "From") {
        Some(v) => v,
        None => {
            return Err(EmailError::MissingHeader(String::from_str("From")));
        },
    };
    let from_raw = match extract_email_address(from_header.as_str()) {
        Ok(a) => a,
        Err(e) => {
            return Err(e);
        },
    };
    let body_text = match parse_body_string(raw_email) {
        Ok(b) => b,
        Err(_) => decode_utf8_lossy(raw_email),
    };
    let trimmed_body = trim_str(body_text.as_str());
    let subject_v = match Subject::try_from(subject) {
        Ok(s) => s,
        Err(e) => {
            return Err(EmailError::DomainError(e));
        },
    };
    let from_v = match EmailAddress::try_from(from_raw) {
        Ok(a) => a,
        Err(e) => {
            return Err(EmailError::DomainError(e));
        },
    };
    let body_v = match EmailBody::try_from(trimmed_body) {
        Ok(b) => b,
        Err(e) => {
            return Err(EmailError::DomainError(e));
        },
    };
    Ok(ParsedEmail { subject: subject_v, from: from_v, body: body_v })
}

} // verus!
