//! What writing a message and reading it back gives.

use crate::text::{
    ascii_bytes, decimal, eq_ignore_case, find_from, is_ws, occurs_at, lemma_decimal, lemma_encode_ascii,
    lemma_encode_concat, lemma_parse_decimal, sep_index, trim,
};
use crate::transport::{
    additional_text, apply_header, crlf_index, default_content_type, encoding_of, frame_bytes,
    header_text, insert_header, scan_frame, scan_headers, split_header, FrameScan, HeaderList,
    HeaderScan, HeaderState, HeadersView,
};
use vstd::prelude::*;
use vstd::utf8::*;

verus! {

/// No CR LF pair occurs in `b`.
pub open spec fn no_crlf(b: Seq<u8>) -> bool {
    forall|k: int| 0 <= k < b.len() - 1 ==> !(b[k] == 13 && #[trigger] b[k + 1] == 10)
}

proof fn lemma_crlf_at(buf: Seq<u8>, pos: int, e: int)
    requires
        0 <= pos <= e,
        e + 1 < buf.len(),
        buf[e] == 13,
        buf[e + 1] == 10,
        forall|k: int| pos <= k < e ==> !(buf[k] == 13 && #[trigger] buf[k + 1] == 10),
    ensures
        crlf_index(buf, pos) == e,
    decreases e - pos,
{
    if pos < e {
        lemma_crlf_at(buf, pos + 1, e);
    }
}

proof fn lemma_sep_at(s: Seq<char>, i: int, j: int)
    requires
        0 <= i <= j,
        j + 1 < s.len(),
        s[j] == ':',
        s[j + 1] == ' ',
        forall|k: int| i <= k < j ==> !(s[k] == ':' && #[trigger] s[k + 1] == ' '),
    ensures
        sep_index(s, i) == j,
    decreases j - i,
{
    if i < j {
        lemma_sep_at(s, i + 1, j);
    }
}

proof fn lemma_sep_found(s: Seq<char>, i: int, j: int)
    requires
        0 <= i <= j,
        j + 1 < s.len(),
        s[j] == ':',
        s[j + 1] == ' ',
    ensures
        i <= sep_index(s, i) <= j,
    decreases j - i,
{
    if i < j && !(s[i] == ':' && s[i + 1] == ' ') {
        lemma_sep_found(s, i + 1, j);
    }
}

proof fn lemma_trim_plain(s: Seq<char>)
    requires
        s.len() > 0,
        !is_ws(s[0]),
        !is_ws(s.last()),
    ensures
        trim(s) == s,
{
}

proof fn lemma_crlf_bytes()
    ensures
        encode_utf8("\r\n"@) == seq![13u8, 10u8],
{
    reveal_strlit("\r\n");
    lemma_encode_ascii("\r\n"@);
    assert(ascii_bytes("\r\n"@) =~= seq![13u8, 10u8]);
}

/// One header line `t`, ended by CR LF at `pos`, moves the scan past it.
proof fn lemma_scan_line(buf: Seq<u8>, pos: int, t: Seq<char>, st: HeaderState, next: HeaderState)
    requires
        0 <= pos,
        pos + encode_utf8(t).len() + 2 <= buf.len(),
        buf.subrange(pos, pos + encode_utf8(t).len() + 2) == encode_utf8(t) + seq![13u8, 10u8],
        no_crlf(encode_utf8(t)),
        t.len() > 0,
        split_header(t) matches Some((n, v)) && apply_header(st, n, v) == Some(next),
    ensures
        scan_headers(buf, pos, st) == scan_headers(buf, pos + encode_utf8(t).len() + 2, next),
{
    let b = encode_utf8(t);
    let e = pos + b.len();
    let w = buf.subrange(pos, e + 2);
    assert(w[b.len() as int] == 13u8);
    assert(w[b.len() + 1int] == 10u8);
    assert forall|k: int| pos <= k < e implies !(buf[k] == 13 && #[trigger] buf[k + 1] == 10) by {
        assert(buf[k] == w[k - pos]);
        assert(buf[k + 1] == w[k + 1 - pos]);
        if k < e - 1 {
            assert(w[k - pos] == b[k - pos]);
            assert(w[k + 1 - pos] == b[k + 1 - pos]);
            let j = k - pos;
            assert(!(b[j] == 13 && b[j + 1] == 10));
        } else {
            assert(w[k + 1 - pos] == 13u8);
        }
    }
    lemma_crlf_at(buf, pos, e);
    assert(buf.subrange(pos, e) =~= b);
    encode_utf8_valid_utf8(t);
    encode_utf8_decode_utf8(t);
    assert(b.len() > 0) by {
        assert(encode_utf8(t) == encode_scalar(t[0] as u32) + encode_utf8(t.drop_first()));
    }
}

/// The empty line at `pos` ends the header block.
proof fn lemma_scan_blank(buf: Seq<u8>, pos: int, st: HeaderState)
    requires
        0 <= pos,
        pos + 2 <= buf.len(),
        buf[pos] == 13,
        buf[pos + 1] == 10,
        st.length is Some,
    ensures
        scan_headers(buf, pos, st) == HeaderScan::Done(st, pos + 2),
{
    assert(crlf_index(buf, pos) == pos);
    assert(buf.subrange(pos, pos) =~= Seq::<u8>::empty());
}

/// The `Content-Length` line for `n`.
pub open spec fn length_line(n: nat) -> Seq<char> {
    "Content-Length: "@ + decimal(n)
}

proof fn lemma_length_line(n: nat, st: HeaderState)
    requires
        n <= usize::MAX,
    ensures
        length_line(n).len() > 0,
        no_crlf(encode_utf8(length_line(n))),
        split_header(length_line(n)) matches Some((name, v)) && apply_header(st, name, v) == Some(
            HeaderState { length: Some(n), ..st },
        ),
{
    reveal_strlit("Content-Length: ");
    reveal_strlit("content-length");
    let lit = "Content-Length: "@;
    let t = length_line(n);
    let d = decimal(n);
    lemma_decimal(n);
    lemma_parse_decimal(n);
    assert(is_ascii_chars(t)) by {
        assert forall|i: int| 0 <= i < t.len() implies '\0' <= #[trigger] t[i] <= '\u{7f}' by {
            if i >= 16 {
                assert(t[i] == d[i - 16]);
            }
        }
    }
    lemma_encode_ascii(t);
    assert forall|k: int| 0 <= k < t.len() implies #[trigger] t[k] != '\r' by {
        if k >= 16 {
            assert(t[k] == d[k - 16]);
        }
    }
    assert(no_crlf(encode_utf8(t))) by {
        assert forall|k: int| 0 <= k < encode_utf8(t).len() - 1 implies !(encode_utf8(t)[k] == 13
            && #[trigger] encode_utf8(t)[k + 1] == 10) by {
            assert(encode_utf8(t)[k] == t[k] as u8);
        }
    }
    assert forall|k: int| 0 <= k < 14 implies !(t[k] == ':' && #[trigger] t[k + 1] == ' ') by {}
    lemma_sep_at(t, 0, 14);
    let name = t.subrange(0, 14);
    assert(t.subrange(16, t.len() as int) =~= d);
    lemma_trim_plain(name);
    lemma_trim_plain(d);
    assert(eq_ignore_case(name, "content-length"@));
}


proof fn lemma_no_crlf_concat(a: Seq<u8>, b: Seq<u8>)
    requires
        no_crlf(a),
        no_crlf(b),
        a.len() == 0 || a.last() != 13,
    ensures
        no_crlf(a + b),
{
    let c = a + b;
    assert forall|k: int| 0 <= k < c.len() - 1 implies !(c[k] == 13 && #[trigger] c[k + 1] == 10) by {
        if k + 1 < a.len() {
            assert(c[k] == a[k] && c[k + 1] == a[k + 1]);
        } else if k >= a.len() {
            let j = k - a.len();
            assert(c[k] == b[j] && c[k + 1] == b[j + 1]);
        } else {
            assert(c[k] == a.last());
        }
    }
}

/// The `Content-Type` line for `ct`.
pub open spec fn type_line(ct: Seq<char>) -> Seq<char> {
    "Content-Type: "@ + ct
}

proof fn lemma_type_line(ct: Seq<char>, st: HeaderState)
    requires
        no_crlf(encode_utf8(ct)),
    ensures
        type_line(ct).len() > 0,
        no_crlf(encode_utf8(type_line(ct))),
        split_header(type_line(ct)) matches Some((name, v)) && apply_header(st, name, v) == Some(
            HeaderState { content_type: trim(ct), ..st },
        ),
{
    reveal_strlit("Content-Type: ");
    reveal_strlit("content-length");
    reveal_strlit("content-type");
    let lit = "Content-Type: "@;
    let t = type_line(ct);
    lemma_encode_ascii(lit);
    lemma_encode_concat(lit, ct);
    assert(no_crlf(encode_utf8(lit))) by {
        assert forall|k: int| 0 <= k < encode_utf8(lit).len() - 1 implies !(encode_utf8(lit)[k] == 13
            && #[trigger] encode_utf8(lit)[k + 1] == 10) by {
            assert(encode_utf8(lit)[k] == lit[k] as u8);
        }
    }
    assert(encode_utf8(lit).last() == ' ' as u8);
    lemma_no_crlf_concat(encode_utf8(lit), encode_utf8(ct));
    assert forall|k: int| 0 <= k < 12 implies !(t[k] == ':' && #[trigger] t[k + 1] == ' ') by {}
    lemma_sep_at(t, 0, 12);
    let name = t.subrange(0, 12);
    assert(t.subrange(14, t.len() as int) =~= ct);
    lemma_trim_plain(name);
    assert(eq_ignore_case(name, "content-type"@));
    assert(!eq_ignore_case(name, "content-length"@));
}

/// The text of the header line of one additional field.
pub open spec fn field_line(x: (Seq<char>, Seq<char>)) -> Seq<char> {
    x.0 + ": "@ + x.1
}

/// A field that reads back as an additional field: its line holds no CR LF,
/// and the name read from it is neither `Content-Length` nor `Content-Type`.
pub open spec fn field_ok(x: (Seq<char>, Seq<char>)) -> bool {
    &&& no_crlf(encode_utf8(field_line(x)))
    &&& match split_header(field_line(x)) {
        Some((name, _)) => !eq_ignore_case(name, "content-length"@) && !eq_ignore_case(
            name,
            "content-type"@,
        ),
        None => true,
    }
}

/// The header state once the additional fields `a` have been read.
pub open spec fn absorb(st: HeaderState, a: HeaderList) -> HeaderState
    decreases a.len(),
{
    if a.len() == 0 {
        st
    } else {
        let s1 = absorb(st, a.drop_last());
        match split_header(field_line(a.last())) {
            Some((name, value)) => HeaderState {
                additional: insert_header(s1.additional, name, value),
                ..s1
            },
            None => s1,
        }
    }
}

proof fn lemma_scan_fields(buf: Seq<u8>, pos: int, st: HeaderState, a: HeaderList)
    requires
        0 <= pos,
        forall|i: int| 0 <= i < a.len() ==> field_ok(#[trigger] a[i]),
        pos + encode_utf8(additional_text(a)).len() <= buf.len(),
        buf.subrange(pos, pos + encode_utf8(additional_text(a)).len()) == encode_utf8(
            additional_text(a),
        ),
    ensures
        scan_headers(buf, pos, st) == scan_headers(
            buf,
            pos + encode_utf8(additional_text(a)).len(),
            absorb(st, a),
        ),
        absorb(st, a).length == st.length,
        absorb(st, a).content_type == st.content_type,
    decreases a.len(),
{
    if a.len() > 0 {
        let a1 = a.drop_last();
        let x = a.last();
        let t = field_line(x);
        let crlf = "\r\n"@;
        assert(additional_text(a) =~= additional_text(a1) + (t + crlf));
        lemma_encode_concat(additional_text(a1), t + crlf);
        lemma_encode_concat(t, crlf);
        lemma_crlf_bytes();
        let e1 = encode_utf8(additional_text(a1));
        let et = encode_utf8(t);
        let whole = encode_utf8(additional_text(a));
        assert(whole =~= e1 + (et + seq![13u8, 10u8]));
        assert forall|i: int| 0 <= i < a1.len() implies field_ok(#[trigger] a1[i]) by {
            assert(a1[i] == a[i]);
        }
        let w = buf.subrange(pos, pos + whole.len());
        assert(w == whole);
        assert(buf.subrange(pos, pos + e1.len()) =~= w.subrange(0, e1.len() as int));
        assert(whole.subrange(0, e1.len() as int) =~= e1);
        lemma_scan_fields(buf, pos, st, a1);
        let s1 = absorb(st, a1);
        assert(field_ok(a[a.len() - 1]));
        reveal_strlit(": ");
        assert(t[x.0.len() as int] == ':' && t[x.0.len() + 1int] == ' ');
        lemma_sep_found(t, 0, x.0.len() as int);
        let p = pos + e1.len();
        assert(buf.subrange(p, p + et.len() + 2) =~= w.subrange(
            e1.len() as int,
            whole.len() as int,
        ));
        assert(whole.subrange(e1.len() as int, whole.len() as int) =~= et + seq![13u8, 10u8]);
        lemma_scan_line(buf, p, t, s1, absorb(st, a));
    }
}

/// The content type a reader ends up with: the default when none is written,
/// else the written one, trimmed.
pub open spec fn received_content_type(ct: Seq<char>) -> Seq<char> {
    if ct == default_content_type() {
        ct
    } else {
        trim(ct)
    }
}

/// Headers and body that make a valid frame: the length is the body's length
/// in bytes, the header lines hold no CR LF, a content type other than the
/// default declares UTF-8, and no additional field reads back as
/// `Content-Length` or `Content-Type`.
pub open spec fn frame_valid(h: HeadersView, content: Seq<char>) -> bool {
    &&& h.content_length == encode_utf8(content).len()
    &&& h.content_length <= usize::MAX
    &&& h.content_type != default_content_type() ==> no_crlf(encode_utf8(h.content_type))
        && encoding_of(trim(h.content_type)) == "utf-8"@
    &&& forall|i: int| 0 <= i < h.additional.len() ==> field_ok(#[trigger] h.additional[i])
}

/// Reading back the bytes written for a valid frame, whatever follows them,
/// gives the same body and the same `Content-Length`, and takes exactly the
/// frame's bytes.
#[verifier::rlimit(100)]
pub proof fn lemma_frame_round_trip(h: HeadersView, content: Seq<char>, rest: Seq<u8>)
    requires
        frame_valid(h, content),
    ensures
        scan_frame(frame_bytes(h, content) + rest) matches FrameScan::Complete(h2, c, n) && c
            == content && h2.content_length == h.content_length && n == frame_bytes(
            h,
            content,
        ).len(),
{
    let n = h.content_length;
    let crlf = "\r\n"@;
    let len_text = length_line(n);
    let type_text = if h.content_type == default_content_type() {
        Seq::<char>::empty()
    } else {
        type_line(h.content_type) + crlf
    };
    let a = additional_text(h.additional);
    let t = header_text(h);
    assert(t + content =~= len_text + (crlf + (type_text + (a + (crlf + content)))));
    lemma_crlf_bytes();
    lemma_encode_concat(len_text, crlf + (type_text + (a + (crlf + content))));
    lemma_encode_concat(crlf, type_text + (a + (crlf + content)));
    lemma_encode_concat(type_text, a + (crlf + content));
    lemma_encode_concat(a, crlf + content);
    lemma_encode_concat(crlf, content);
    lemma_encode_concat(t, content);
    let e1 = encode_utf8(len_text);
    let e2 = encode_utf8(type_text);
    let ea = encode_utf8(a);
    let ec = encode_utf8(content);
    let c2 = seq![13u8, 10u8];
    let fb = frame_bytes(h, content);
    assert(fb =~= e1 + (c2 + (e2 + (ea + (c2 + ec)))));
    let buf = fb + rest;
    let q1: int = e1.len() + 2int;
    let q2: int = q1 + e2.len();
    let q3: int = q2 + ea.len();
    let start: int = q3 + 2;
    assert(start + ec.len() == fb.len());
    let init = crate::transport::initial_header_state();
    lemma_length_line(n, init);
    let st1 = HeaderState { length: Some(n), ..init };
    assert(buf.subrange(0, e1.len() + 2int) =~= e1 + c2);
    lemma_scan_line(buf, 0, len_text, init, st1);
    let st2 = if h.content_type == default_content_type() {
        st1
    } else {
        HeaderState { content_type: trim(h.content_type), ..st1 }
    };
    if h.content_type != default_content_type() {
        let tl = type_line(h.content_type);
        lemma_type_line(h.content_type, st1);
        lemma_encode_concat(tl, crlf);
        assert(buf.subrange(q1, q1 + encode_utf8(tl).len() + 2int) =~= encode_utf8(tl) + c2);
        lemma_scan_line(buf, q1, tl, st1, st2);
    } else {
        assert(e2 =~= Seq::<u8>::empty());
    }
    assert(buf.subrange(q2, q3) =~= ea);
    lemma_scan_fields(buf, q2, st2, h.additional);
    let st3 = absorb(st2, h.additional);
    assert(buf[q3] == 13u8 && buf[q3 + 1] == 10u8);
    lemma_scan_blank(buf, q3, st3);
    assert(st3.content_type == received_content_type(h.content_type));
    lemma_default_encoding();
    assert(buf.subrange(start, start + n) =~= ec);
    encode_utf8_valid_utf8(content);
    encode_utf8_decode_utf8(content);
}

/// A message made by `Message::new` is a valid frame.
pub proof fn lemma_new_message_is_valid(content: Seq<char>)
    requires
        encode_utf8(content).len() <= usize::MAX,
    ensures
        frame_valid(
            HeadersView {
                content_length: encode_utf8(content).len(),
                content_type: default_content_type(),
                additional: Seq::empty(),
            },
            content,
        ),
{
}

/// Two valid frames written one after the other are read back in order: the
/// first read gives the first body and consumes exactly its frame, and the
/// second read, on what is left, gives the second body.
pub proof fn lemma_frames_read_in_order(
    h1: HeadersView,
    c1: Seq<char>,
    h2: HeadersView,
    c2: Seq<char>,
)
    requires
        frame_valid(h1, c1),
        frame_valid(h2, c2),
    ensures
        ({
            let f1 = frame_bytes(h1, c1);
            let f2 = frame_bytes(h2, c2);
            let buf = f1 + f2;
            &&& scan_frame(buf) matches FrameScan::Complete(_, b1, k1) && b1 == c1 && k1
                == f1.len()
            &&& scan_frame(buf.subrange(f1.len() as int, buf.len() as int)) matches FrameScan::Complete(
                _,
                b2,
                k2,
            ) && b2 == c2 && k2 == f2.len()
        }),
{
    let f1 = frame_bytes(h1, c1);
    let f2 = frame_bytes(h2, c2);
    lemma_frame_round_trip(h1, c1, f2);
    lemma_frame_round_trip(h2, c2, Seq::empty());
    assert((f1 + f2).subrange(f1.len() as int, (f1 + f2).len() as int) =~= f2 + Seq::<u8>::empty());
}


/// A header block that ends before any `Content-Length` line is a framing
/// error, whatever follows it.
pub proof fn lemma_missing_length_is_invalid(buf: Seq<u8>)
    requires
        buf.len() >= 2,
        buf[0] == 13,
        buf[1] == 10,
    ensures
        scan_frame(buf) == FrameScan::Invalid,
{
    assert(crlf_index(buf, 0) == 0);
    assert(buf.subrange(0, 0) =~= Seq::<u8>::empty());
}


proof fn lemma_not_at(s: Seq<char>, pat: Seq<char>, k: int)
    requires
        0 <= k,
        pat.len() > 0,
        k + pat.len() > s.len() || s[k] != pat[0] || (pat.len() > 1 && s[k + 1] != pat[1]),
    ensures
        !occurs_at(s, pat, k),
{
    if occurs_at(s, pat, k) {
        assert(s.subrange(k, k + pat.len())[0] == s[k]);
        if pat.len() > 1 {
            assert(s.subrange(k, k + pat.len())[1] == s[k + 1]);
        }
    }
}

proof fn lemma_find_at(s: Seq<char>, pat: Seq<char>, i: int, j: int)
    requires
        0 <= i <= j,
        occurs_at(s, pat, j),
        forall|k: int| i <= k < j ==> !#[trigger] occurs_at(s, pat, k),
    ensures
        find_from(s, pat, i) == j,
    decreases j - i,
{
    if i < j {
        lemma_find_at(s, pat, i + 1, j);
    }
}

proof fn lemma_find_none(s: Seq<char>, pat: Seq<char>, i: int)
    requires
        0 <= i,
        forall|k: int| i <= k ==> !#[trigger] occurs_at(s, pat, k),
    ensures
        find_from(s, pat, i) == -1,
    decreases s.len() + 1 - i,
{
    if i + pat.len() <= s.len() {
        lemma_find_none(s, pat, i + 1);
    }
}

/// The default content type declares UTF-8.
pub proof fn lemma_default_encoding()
    ensures
        encoding_of(default_content_type()) == "utf-8"@,
{
    reveal_strlit("application/vscode-jsonrpc; charset=utf-8");
    reveal_strlit("charset=");
    reveal_strlit(";");
    reveal_strlit("utf8");
    reveal_strlit("utf-8");
    let s = default_content_type();
    let pat = "charset="@;
    assert(s.len() == 41);
    assert(pat.len() == 8);
    lemma_not_at(s, pat, 0);
    lemma_not_at(s, pat, 1);
    lemma_not_at(s, pat, 2);
    lemma_not_at(s, pat, 3);
    lemma_not_at(s, pat, 4);
    lemma_not_at(s, pat, 5);
    lemma_not_at(s, pat, 6);
    lemma_not_at(s, pat, 7);
    lemma_not_at(s, pat, 8);
    lemma_not_at(s, pat, 9);
    lemma_not_at(s, pat, 10);
    lemma_not_at(s, pat, 11);
    lemma_not_at(s, pat, 12);
    lemma_not_at(s, pat, 13);
    lemma_not_at(s, pat, 14);
    lemma_not_at(s, pat, 15);
    lemma_not_at(s, pat, 16);
    lemma_not_at(s, pat, 17);
    lemma_not_at(s, pat, 18);
    lemma_not_at(s, pat, 19);
    lemma_not_at(s, pat, 20);
    lemma_not_at(s, pat, 21);
    lemma_not_at(s, pat, 22);
    lemma_not_at(s, pat, 23);
    lemma_not_at(s, pat, 24);
    lemma_not_at(s, pat, 25);
    lemma_not_at(s, pat, 26);
    lemma_not_at(s, pat, 27);
    assert(s.subrange(28, 36) =~= pat);
    lemma_find_at(s, pat, 0, 28);
    let after = s.subrange(36, 41);
    assert forall|k: int| 0 <= k implies !#[trigger] occurs_at(after, pat, k) by {}
    lemma_find_none(after, pat, 0);
    let semi = ";"@;
    assert forall|k: int| 0 <= k implies !#[trigger] occurs_at(after, semi, k) by {
        if k < 5 {
            lemma_not_at(after, semi, k);
        }
    }
    lemma_find_none(after, semi, 0);
    assert(after =~= "utf-8"@);
    lemma_trim_plain(after);
    assert(after != "utf8"@);
}

} // verus!
