//! Header rewriting over raw message bytes: locate the header/body
//! boundary, drop the forbidden header set, append the three new envelope
//! headers, and keep the body bytes untouched.

use vstd::prelude::*;
use crate::parser::parse_header_list;
use crate::parser::parsed_headers;
use crate::text::eq_ascii_ci;
use crate::text::str_eq_ignore_ascii_case;
use vstd::string::StringSliceAdditionalSpecFns;
use vstd::utf8::encode_utf8;

verus! {

#[derive(Debug, Clone)]
pub enum MimeError {
    ParseError(String),
    InvalidStructure(String),
}

/// A CRLF CRLF group starts at position `i`.
pub open spec fn is_crlfcrlf_at(b: Seq<u8>, i: int) -> bool
    recommends
        0 <= i,
        i + 4 <= b.len(),
{
    b[i] == 13 && b[i + 1] == 10 && b[i + 2] == 13 && b[i + 3] == 10
}

/// Offset just past the first CRLF CRLF at or after position `i`.
pub open spec fn boundary_from(b: Seq<u8>, i: int) -> Option<int>
    decreases b.len() - i,
{
    if i < 0 || i + 4 > b.len() {
        None
    } else if is_crlfcrlf_at(b, i) {
        Some(i + 4)
    } else {
        boundary_from(b, i + 1)
    }
}

/// Offset of the first byte after the first CRLF CRLF of `b`, if any.
pub open spec fn boundary_of(b: Seq<u8>) -> Option<int> {
    boundary_from(b, 0)
}

/// The body bytes: everything after the first CRLF CRLF.
pub open spec fn body_of(b: Seq<u8>) -> Seq<u8> {
    match boundary_of(b) {
        Some(o) => b.skip(o),
        None => Seq::empty(),
    }
}

proof fn lemma_boundary_from_first(b: Seq<u8>, i: int)
    requires
        0 <= i,
    ensures
        match boundary_from(b, i) {
            Some(o) => i + 4 <= o <= b.len() && is_crlfcrlf_at(b, o - 4) && (forall|j: int|
                i <= j < o - 4 ==> !is_crlfcrlf_at(b, j)),
            None => forall|j: int| i <= j && j + 4 <= b.len() ==> !is_crlfcrlf_at(b, j),
        },
    decreases b.len() - i,
{
    if i + 4 <= b.len() && !is_crlfcrlf_at(b, i) {
        lemma_boundary_from_first(b, i + 1);
    }
}

proof fn lemma_boundary_from_position(b: Seq<u8>, i: int, o: int)
    requires
        0 <= i,
        i + 4 <= o <= b.len(),
        is_crlfcrlf_at(b, o - 4),
        forall|j: int| i <= j < o - 4 ==> !is_crlfcrlf_at(b, j),
    ensures
        boundary_from(b, i) == Some(o),
    decreases o - i,
{
    if i < o - 4 {
        lemma_boundary_from_position(b, i + 1, o);
    }
}

/// The boundary marks the first CRLF CRLF of the message, and the body is
/// exactly the bytes that follow it.
pub proof fn lemma_boundary_is_first(b: Seq<u8>)
    ensures
        match boundary_of(b) {
            Some(o) => 4 <= o <= b.len() && is_crlfcrlf_at(b, o - 4) && (forall|j: int|
                0 <= j < o - 4 ==> !is_crlfcrlf_at(b, j)) && body_of(b) == b.skip(o),
            None => forall|j: int| 0 <= j && j + 4 <= b.len() ==> !is_crlfcrlf_at(b, j),
        },
{
    lemma_boundary_from_first(b, 0);
}

/// Scan for the first CRLF CRLF group and return the offset of the first
/// byte after it, or `None` when the message has no header/body
/// boundary.
pub fn find_header_body_boundary(email: &[u8]) -> (r: Option<usize>)
    ensures
        match r {
            Some(o) => boundary_of(email@) == Some(o as int),
            None => boundary_of(email@) is None,
        },
{
    let n: usize = email.len();
    let mut i: usize = 0;
    loop
        invariant
            n == email@.len(),
            0 <= i <= n,
            boundary_of(email@) == boundary_from(email@, i as int),
        ensures
            i <= n,
            i + 3 < n ==> boundary_of(email@) == Some(i + 4 as int),
            i + 3 >= n ==> boundary_of(email@) is None,
        decreases n - i,
    {
        if n - i <= 3 {
            break ;
        }
        if email[i] == 13 && email[i + 1] == 10 && email[i + 2] == 13 && email[i + 3] == 10 {
            break ;
        }
        i += 1;
    }
    if n - i > 3 {
        Some(i + 4)
    } else {
        None
    }
}

/// The header names stripped during rewriting, compared up to ASCII case:
/// the three replaced envelope headers and the headers tied to the
/// original sending domain or to the outbound relay.
pub open spec fn is_forbidden_name(name: Seq<char>) -> bool {
    ||| eq_ascii_ci(name, "from"@)
    ||| eq_ascii_ci(name, "to"@)
    ||| eq_ascii_ci(name, "reply-to"@)
    ||| eq_ascii_ci(name, "dkim-signature"@)
    ||| eq_ascii_ci(name, "return-path"@)
    ||| eq_ascii_ci(name, "sender"@)
    ||| eq_ascii_ci(name, "message-id"@)
    ||| eq_ascii_ci(name, "x-ses-message-id"@)
    ||| eq_ascii_ci(name, "x-ses-outgoing"@)
}

/// Whether a header must be removed before re-injection.
pub fn is_forbidden_header(key: &str) -> (r: bool)
    ensures
        r == is_forbidden_name(key@),
{
    str_eq_ignore_ascii_case(key, "from") || str_eq_ignore_ascii_case(key, "to")
        || str_eq_ignore_ascii_case(key, "reply-to") || str_eq_ignore_ascii_case(
        key,
        "dkim-signature",
    ) || str_eq_ignore_ascii_case(key, "return-path") || str_eq_ignore_ascii_case(key, "sender")
        || str_eq_ignore_ascii_case(key, "message-id") || str_eq_ignore_ascii_case(
        key,
        "x-ses-message-id",
    ) || str_eq_ignore_ascii_case(key, "x-ses-outgoing")
}

/// The bytes of one serialized header line: `name: value` followed by
/// CRLF.
pub open spec fn header_line(name: Seq<char>, value: Seq<char>) -> Seq<u8> {
    encode_utf8(name) + seq![58u8, 32u8] + encode_utf8(value) + seq![13u8, 10u8]
}

/// The serialized form of a header list, line by line.
pub open spec fn serialized_headers(hs: Seq<(Seq<char>, Seq<char>)>) -> Seq<u8>
    decreases hs.len(),
{
    if hs.len() == 0 {
        Seq::empty()
    } else {
        header_line(hs[0].0, hs[0].1) + serialized_headers(hs.drop_first())
    }
}

/// The headers that survive rewriting: every header whose name is not in
/// the forbidden set, in their original order.
pub open spec fn kept_headers(hs: Seq<(Seq<char>, Seq<char>)>) -> Seq<(Seq<char>, Seq<char>)>
    decreases hs.len(),
{
    if hs.len() == 0 {
        Seq::empty()
    } else if is_forbidden_name(hs[0].0) {
        kept_headers(hs.drop_first())
    } else {
        seq![hs[0]] + kept_headers(hs.drop_first())
    }
}

/// The rewritten header block: the kept original headers followed by the
/// three new envelope headers.
pub open spec fn new_header_block(
    hs: Seq<(Seq<char>, Seq<char>)>,
    new_from: Seq<char>,
    new_to: Seq<char>,
    new_reply_to: Seq<char>,
) -> Seq<u8> {
    serialized_headers(kept_headers(hs)) + header_line("From"@, new_from) + header_line(
        "To"@,
        new_to,
    ) + header_line("Reply-To"@, new_reply_to)
}

/// The whole rewritten message: new header block, blank separator line,
/// and the original body bytes verbatim.
pub open spec fn rewritten_bytes(
    hs: Seq<(Seq<char>, Seq<char>)>,
    new_from: Seq<char>,
    new_to: Seq<char>,
    new_reply_to: Seq<char>,
    raw: Seq<u8>,
) -> Seq<u8>
    recommends
        boundary_of(raw) is Some,
{
    new_header_block(hs, new_from, new_to, new_reply_to) + seq![13u8, 10u8] + raw.skip(
        boundary_of(raw)->0,
    )
}

/// Appending one header to a list appends its line to the serialized
/// form.
proof fn lemma_serialized_headers_push(hs: Seq<(Seq<char>, Seq<char>)>, h: (Seq<char>, Seq<char>))
    ensures
        serialized_headers(hs + seq![h]) == serialized_headers(hs) + header_line(h.0, h.1),
    decreases hs.len(),
{
    let line = header_line(h.0, h.1);
    if hs.len() == 0 {
        assert(hs + seq![h] =~= seq![h]);
        assert(seq![h].drop_first() =~= Seq::<(Seq<char>, Seq<char>)>::empty());
        assert(serialized_headers(Seq::<(Seq<char>, Seq<char>)>::empty()) == Seq::<u8>::empty());
        assert(seq![h][0] == h);
        assert(serialized_headers(seq![h]) == line + Seq::<u8>::empty());
        assert(line + Seq::<u8>::empty() =~= line);
        assert(serialized_headers(hs) + line =~= line);
    } else {
        assert((hs + seq![h]).drop_first() =~= hs.drop_first() + seq![h]);
        lemma_serialized_headers_push(hs.drop_first(), h);
        assert((hs + seq![h])[0] == hs[0]);
        assert((hs + seq![h]).len() > 0);
        let first = header_line(hs[0].0, hs[0].1);
        assert(serialized_headers(hs + seq![h]) == first + serialized_headers(
            hs.drop_first() + seq![h],
        ));
        assert(serialized_headers(hs) == first + serialized_headers(hs.drop_first()));
        assert(first + (serialized_headers(hs.drop_first()) + line) =~= (first
            + serialized_headers(hs.drop_first())) + line);
    }
}

/// Appending one header to a list keeps it exactly when its name is not
/// forbidden.
proof fn lemma_kept_headers_push(hs: Seq<(Seq<char>, Seq<char>)>, h: (Seq<char>, Seq<char>))
    ensures
        kept_headers(hs + seq![h]) == kept_headers(hs) + (if is_forbidden_name(h.0) {
            Seq::<(Seq<char>, Seq<char>)>::empty()
        } else {
            seq![h]
        }),
    decreases hs.len(),
{
    let tail = if is_forbidden_name(h.0) {
        Seq::<(Seq<char>, Seq<char>)>::empty()
    } else {
        seq![h]
    };
    if hs.len() == 0 {
        assert(hs + seq![h] =~= seq![h]);
        assert(seq![h].drop_first() =~= Seq::<(Seq<char>, Seq<char>)>::empty());
        assert(kept_headers(Seq::<(Seq<char>, Seq<char>)>::empty()) == Seq::<
            (Seq<char>, Seq<char>),
        >::empty());
        assert(seq![h][0] == h);
        if is_forbidden_name(h.0) {
            assert(kept_headers(seq![h]) == Seq::<(Seq<char>, Seq<char>)>::empty());
        } else {
            assert(kept_headers(seq![h]) == seq![h] + Seq::<(Seq<char>, Seq<char>)>::empty());
        }
        assert(kept_headers(hs) + tail =~= tail);
        assert(kept_headers(seq![h]) =~= tail);
    } else {
        assert((hs + seq![h]).drop_first() =~= hs.drop_first() + seq![h]);
        lemma_kept_headers_push(hs.drop_first(), h);
        assert((hs + seq![h])[0] == hs[0]);
        assert((hs + seq![h]).len() > 0);
        if is_forbidden_name(hs[0].0) {
            assert(kept_headers(hs + seq![h]) == kept_headers(hs.drop_first() + seq![h]));
            assert(kept_headers(hs) == kept_headers(hs.drop_first()));
        } else {
            assert(kept_headers(hs + seq![h]) == seq![hs[0]] + kept_headers(
                hs.drop_first() + seq![h],
            ));
            assert(kept_headers(hs) == seq![hs[0]] + kept_headers(hs.drop_first()));
            assert(seq![hs[0]] + (kept_headers(hs.drop_first()) + tail) =~= (seq![hs[0]]
                + kept_headers(hs.drop_first())) + tail);
        }
    }
}

/// Appends `name: value` and CRLF to the output buffer.
fn append_header_line(out: &mut Vec<u8>, name: &str, value: &str)
    ensures
        final(out)@ == old(out)@ + header_line(name@, value@),
{
    out.extend_from_slice(name.as_bytes());
    out.push(58);
    out.push(32);
    out.extend_from_slice(value.as_bytes());
    out.push(13);
    out.push(10);
    proof {
        assert(out@ =~= old(out)@ + header_line(name@, value@));
    }
}

/// Rewrite the envelope headers of a raw message: copy every header
/// outside the forbidden set, append fresh `From`, `To` and `Reply-To`
/// headers, and keep the body bytes after the first CRLF CRLF untouched.
pub fn modify_email_headers(
    raw_email: &[u8],
    new_from: &str,
    new_to: &str,
    new_reply_to: &str,
) -> (r: Result<Vec<u8>, MimeError>)
    ensures
        match r {
            Ok(out) => parsed_headers(raw_email@) matches Some(hs) && {
                &&& boundary_of(raw_email@) is Some
                &&& out@ == rewritten_bytes(hs, new_from@, new_to@, new_reply_to@, raw_email@)
            },
            Err(e) => match e {
                MimeError::ParseError(_) => parsed_headers(raw_email@) is None,
                MimeError::InvalidStructure(_) => parsed_headers(raw_email@) is Some
                    && boundary_of(raw_email@) is None,
            },
        },
{
    let headers = match parse_header_list(raw_email) {
        Ok(h) => h,
        Err(m) => {
            return Err(MimeError::ParseError(m));
        },
    };
    let boundary = match find_header_body_boundary(raw_email) {
        Some(o) => o,
        None => {
            return Err(
                MimeError::InvalidStructure(
                    String::from_str("Could not find header/body boundary"),
                ),
            );
        },
    };
    let ghost hs = headers.deep_view();
    let mut out: Vec<u8> = Vec::new();
    proof {
        assert(hs.take(0) =~= Seq::<(Seq<char>, Seq<char>)>::empty());
    }
    let mut idx: usize = 0;
    while idx < headers.len()
        invariant
            hs == headers.deep_view(),
            hs.len() == headers@.len(),
            0 <= idx <= headers.len(),
            out@ == serialized_headers(kept_headers(hs.take(idx as int))),
        decreases headers.len() - idx,
    {
        let pair = &headers[idx];
        proof {
            assert(hs[idx as int] == (headers@[idx as int].0@, headers@[idx as int].1@));
            assert(hs.take(idx as int + 1) =~= hs.take(idx as int) + seq![hs[idx as int]]);
            lemma_kept_headers_push(hs.take(idx as int), hs[idx as int]);
        }
        if !is_forbidden_header(pair.0.as_str()) {
            append_header_line(&mut out, pair.0.as_str(), pair.1.as_str());
            proof {
                lemma_serialized_headers_push(kept_headers(hs.take(idx as int)), hs[idx as int]);
            }
        } else {
            proof {
                assert(kept_headers(hs.take(idx as int)) + Seq::<(Seq<char>, Seq<char>)>::empty()
                    =~= kept_headers(hs.take(idx as int)));
            }
        }
        idx += 1;
    }
    proof {
        assert(hs.take(headers@.len() as int) =~= hs);
    }
    append_header_line(&mut out, "From", new_from);
    append_header_line(&mut out, "To", new_to);
    append_header_line(&mut out, "Reply-To", new_reply_to);
    out.push(13);
    out.push(10);
    proof {
        lemma_boundary_is_first(raw_email@);
    }
    let body = vstd::slice::slice_subrange(raw_email, boundary, raw_email.len());
    out.extend_from_slice(body);
    proof {
        assert(out@ =~= rewritten_bytes(hs, new_from@, new_to@, new_reply_to@, raw_email@));
    }
    Ok(out)
}

/// Rewriting never retains a header from the forbidden set: every entry
/// of the kept list has an allowed name, whatever the input list holds.
pub proof fn lemma_kept_headers_never_forbidden(hs: Seq<(Seq<char>, Seq<char>)>)
    ensures
        forall|i: int|
            0 <= i < kept_headers(hs).len() ==> !is_forbidden_name(
                #[trigger] kept_headers(hs)[i].0,
            ),
    decreases hs.len(),
{
    if hs.len() > 0 {
        lemma_kept_headers_never_forbidden(hs.drop_first());
        if !is_forbidden_name(hs[0].0) {
            assert forall|i: int| 0 <= i < kept_headers(hs).len() implies !is_forbidden_name(
                kept_headers(hs)[i].0,
            ) by {
                if i > 0 {
                    assert(kept_headers(hs)[i] == kept_headers(hs.drop_first())[i - 1]);
                }
            }
        }
    }
}

/// Stripping the forbidden set is idempotent: stripping an already
/// stripped header list changes nothing, so re-running the rewriter on
/// its own output never reintroduces or drops another header.
pub proof fn lemma_kept_headers_idempotent(hs: Seq<(Seq<char>, Seq<char>)>)
    ensures
        kept_headers(kept_headers(hs)) == kept_headers(hs),
    decreases hs.len(),
{
    if hs.len() == 0 {
        assert(kept_headers(kept_headers(hs)) =~= kept_headers(hs));
    } else {
        lemma_kept_headers_idempotent(hs.drop_first());
        if !is_forbidden_name(hs[0].0) {
            let rest = kept_headers(hs.drop_first());
            assert((seq![hs[0]] + rest).drop_first() =~= rest);
            assert((seq![hs[0]] + rest)[0] == hs[0]);
            assert(kept_headers(kept_headers(hs)) =~= kept_headers(hs));
        }
    }
}

/// No position inside `block` starts a CRLF CRLF group.
pub open spec fn free_of_boundary(block: Seq<u8>) -> bool {
    forall|i: int| 0 <= i && i + 4 <= block.len() ==> !is_crlfcrlf_at(block, i)
}

/// Rewriting preserves the body bytes exactly: as long as the rewritten
/// header block holds no CRLF CRLF of its own, the boundary of the
/// rewritten message falls right after the inserted blank line, and the
/// bytes after it are the original body, byte for byte.
pub proof fn lemma_rewrite_preserves_body(
    hs: Seq<(Seq<char>, Seq<char>)>,
    new_from: Seq<char>,
    new_to: Seq<char>,
    new_reply_to: Seq<char>,
    raw: Seq<u8>,
)
    requires
        boundary_of(raw) is Some,
        free_of_boundary(new_header_block(hs, new_from, new_to, new_reply_to)),
    ensures
        ({
            let out = rewritten_bytes(hs, new_from, new_to, new_reply_to, raw);
            let block = new_header_block(hs, new_from, new_to, new_reply_to);
            &&& boundary_of(out) == Some((block.len() + 2) as int)
            &&& body_of(out) == body_of(raw)
        }),
{
    let out = rewritten_bytes(hs, new_from, new_to, new_reply_to, raw);
    let block = new_header_block(hs, new_from, new_to, new_reply_to);
    let last = header_line("Reply-To"@, new_reply_to);
    let body = raw.skip(boundary_of(raw)->0);
    lemma_boundary_is_first(raw);
    assert(last.len() >= 2);
    assert(last[last.len() - 1] == 10 && last[last.len() - 2] == 13);
    assert(block[block.len() - 1] == 10 && block[block.len() - 2] == 13);
    assert(out.len() == block.len() + 2 + body.len());
    assert forall|k: int| 0 <= k < block.len() implies out[k] == block[k] by {}
    assert(out[block.len() as int] == 13 && out[block.len() + 1 as int] == 10);
    assert(is_crlfcrlf_at(out, block.len() - 2));
    assert forall|j: int| 0 <= j < block.len() - 2 implies !is_crlfcrlf_at(out, j) by {
        if j + 4 <= block.len() {
            assert(!is_crlfcrlf_at(block, j));
        } else {
            assert(j == block.len() - 3);
            assert(out[j + 2] == block[block.len() - 1]);
        }
    }
    lemma_boundary_from_position(out, 0, block.len() + 2 as int);
    assert(out.skip(block.len() + 2 as int) =~= body);
}

} // verus!
