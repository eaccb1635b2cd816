//! The framing engine: `Content-Length`-framed messages of the base protocol,
//! written to bytes and read back from a byte buffer.

use crate::error::LspError;
use crate::text::{
    decimal, lemma_decimal, lemma_encode_ascii, lemma_encode_concat, parse_unsigned,
    parse_usize, push_decimal, str_eq_ignore_case, string_from_utf8, utf8_bytes, eq_ignore_case, find_from, find_separator, find_str, occurs_at, sep_index, trim, trim_bounds,
};
use vstd::prelude::*;
use vstd::string::*;
use vstd::utf8::*;

pub mod laws;

verus! {

/// The content type assumed when a message carries no `Content-Type` header.
pub const DEFAULT_CONTENT_TYPE: &'static str = "application/vscode-jsonrpc; charset=utf-8";

pub open spec fn default_content_type() -> Seq<char> {
    DEFAULT_CONTENT_TYPE@
}

/// Header names and values, as text.
pub type HeaderList = Seq<(Seq<char>, Seq<char>)>;

/// The abstract value of [`MessageHeaders`].
pub struct HeadersView {
    pub content_length: nat,
    pub content_type: Seq<char>,
    pub additional: HeaderList,
}

/// Index of the first header named `name` at or after `i`, or -1.
pub open spec fn header_pos(a: HeaderList, name: Seq<char>, i: int) -> int
    decreases a.len() - i,
{
    if i < 0 || i >= a.len() {
        -1
    } else if a[i].0 == name {
        i
    } else {
        header_pos(a, name, i + 1)
    }
}

/// `a` with `name` set to `value`: an existing entry is replaced in place, a
/// new one goes last.
pub open spec fn insert_header(a: HeaderList, name: Seq<char>, value: Seq<char>) -> HeaderList {
    let i = header_pos(a, name, 0);
    if i >= 0 {
        a.update(i, (name, value))
    } else {
        a.push((name, value))
    }
}

pub open spec fn names_unique(a: HeaderList) -> bool {
    forall|i: int, j: int| 0 <= i < j < a.len() ==> a[i].0 != a[j].0
}

pub proof fn lemma_header_pos(a: HeaderList, name: Seq<char>, i: int)
    requires
        0 <= i,
    ensures
        -1 <= header_pos(a, name, i) < a.len(),
        header_pos(a, name, i) >= 0 ==> i <= header_pos(a, name, i) && a[header_pos(
            a,
            name,
            i,
        )].0 == name,
        header_pos(a, name, i) == -1 ==> forall|k: int| i <= k < a.len() ==> a[k].0 != name,
    decreases a.len() - i,
{
    if i < a.len() && a[i].0 != name {
        lemma_header_pos(a, name, i + 1);
    }
}

pub proof fn lemma_insert_keeps_unique(a: HeaderList, name: Seq<char>, value: Seq<char>)
    requires
        names_unique(a),
    ensures
        names_unique(insert_header(a, name, value)),
{
    lemma_header_pos(a, name, 0);
}

/// The header fields of one message.
pub struct MessageHeaders {
    /// Length of the body in bytes.
    pub content_length: usize,
    /// MIME type of the body.
    pub content_type: String,
    /// Other header fields, kept but not interpreted; names are unique.
    pub additional: Vec<(String, String)>,
}

pub open spec fn header_list_view(v: Seq<(String, String)>) -> HeaderList {
    v.map_values(|p: (String, String)| (p.0@, p.1@))
}

impl MessageHeaders {
    pub open spec fn view(&self) -> HeadersView {
        HeadersView {
            content_length: self.content_length as nat,
            content_type: self.content_type@,
            additional: header_list_view(self.additional@),
        }
    }

    pub open spec fn wf(&self) -> bool {
        names_unique(self.view().additional)
    }

    /// Headers for a body of `content_length` bytes of the default type.
    pub fn new(content_length: usize) -> (r: Self)
        ensures
            r.wf(),
            r.view() == (HeadersView {
                content_length: content_length as nat,
                content_type: default_content_type(),
                additional: Seq::empty(),
            }),
    {
        let r = MessageHeaders {
            content_length,
            content_type: DEFAULT_CONTENT_TYPE.to_owned(),
            additional: Vec::new(),
        };
        assert(r.view().additional =~= Seq::empty());
        r
    }

    /// Headers for a body of `content_length` bytes of type `content_type`.
    pub fn with_content_type(content_length: usize, content_type: &str) -> (r: Self)
        ensures
            r.wf(),
            r.view() == (HeadersView {
                content_length: content_length as nat,
                content_type: content_type@,
                additional: Seq::empty(),
            }),
    {
        let r = MessageHeaders {
            content_length,
            content_type: content_type.to_owned(),
            additional: Vec::new(),
        };
        assert(r.view().additional =~= Seq::empty());
        r
    }

    /// These headers with the field `name` set to `value`.
    pub fn add_header(self, name: &str, value: &str) -> (r: Self)
        requires
            self.wf(),
        ensures
            r.wf(),
            r.view() == (HeadersView {
                additional: insert_header(self.view().additional, name@, value@),
                ..self.view()
            }),
    {
        let mut h = self;
        insert_field(&mut h.additional, name.to_owned(), value.to_owned());
        proof {
            lemma_insert_keeps_unique(self.view().additional, name@, value@);
        }
        h
    }

    /// The value of the additional field `name`, if there is one.
    pub fn header_value(&self, name: &str) -> (r: Option<String>)
        ensures
            ({
                let a = self.view().additional;
                let i = header_pos(a, name@, 0);
                match r {
                    Some(v) => i >= 0 && v@ == a[i].1,
                    None => i == -1,
                }
            }),
    {
        let ghost a = self.view().additional;
        proof {
            lemma_header_pos(a, name@, 0);
        }
        let key = name.to_owned();
        let mut i: usize = 0;
        while i < self.additional.len()
            invariant
                key@ == name@,
                a == self.view().additional,
                i <= self.additional@.len(),
                header_pos(a, name@, 0) == header_pos(a, name@, i as int),
            decreases self.additional@.len() - i,
        {
            if self.additional[i].0 == key {
                assert(a[i as int].0 == name@);
                return Some(self.additional[i].1.clone());
            }
            i = i + 1;
        }
        None
    }

    /// The character encoding named by the content type.
    pub fn get_encoding(&self) -> (r: String)
        ensures
            r@ == encoding_of(self.content_type@),
    {
        content_type_encoding(self.content_type.as_str())
    }
}

/// Sets `name` to `value` in a field list.
fn insert_field(fields: &mut Vec<(String, String)>, name: String, value: String)
    ensures
        header_list_view(final(fields)@) == insert_header(
            header_list_view(old(fields)@),
            name@,
            value@,
        ),
{
    let ghost a = header_list_view(fields@);
    let mut i: usize = 0;
    while i < fields.len()
        invariant
            a == header_list_view(fields@),
            a == header_list_view(old(fields)@),
            i <= fields@.len(),
            header_pos(a, name@, 0) == header_pos(a, name@, i as int),
        decreases fields@.len() - i,
    {
        if fields[i].0 == name {
            assert(a[i as int].0 == name@);
            assert(header_pos(a, name@, i as int) == i);
            let ghost nv = name@;
            let ghost vv = value@;
            fields.set(i, (name, value));
            proof {
                assert(header_list_view(fields@) =~= a.update(i as int, (nv, vv)));
                assert(nv == name@ && vv == value@);
                assert(insert_header(a, name@, value@) == a.update(i as int, (nv, vv)));
            }
            return;
        }
        i = i + 1;
    }
    let ghost nv = name@;
    let ghost vv = value@;
    fields.push((name, value));
    assert(header_list_view(fields@) =~= a.push((nv, vv)));
}

/// The charset parameter of a content type, as `MessageHeaders::get_encoding`
/// reports it: `utf-8` when there is none, and `utf8` read as `utf-8`.
pub open spec fn encoding_of(ct: Seq<char>) -> Seq<char> {
    let i = find_from(ct, "charset="@, 0);
    if i < 0 {
        "utf-8"@
    } else {
        let after = ct.subrange(i + "charset="@.len(), ct.len() as int);
        let j = find_from(after, "charset="@, 0);
        let piece = if j < 0 {
            after
        } else {
            after.subrange(0, j)
        };
        let k = find_from(piece, ";"@, 0);
        let cs = trim(
            if k < 0 {
                piece
            } else {
                piece.subrange(0, k)
            },
        );
        if cs == "utf8"@ {
            "utf-8"@
        } else {
            cs
        }
    }
}

proof fn lemma_find_from_bounds(s: Seq<char>, pat: Seq<char>, i: int)
    requires
        0 <= i,
    ensures
        -1 <= find_from(s, pat, i),
        find_from(s, pat, i) >= 0 ==> i <= find_from(s, pat, i) && find_from(s, pat, i)
            + pat.len() <= s.len(),
    decreases s.len() + 1 - i,
{
    if i + pat.len() <= s.len() && !occurs_at(s, pat, i) {
        lemma_find_from_bounds(s, pat, i + 1);
    }
}

fn content_type_encoding(ct: &str) -> (r: String)
    ensures
        r@ == encoding_of(ct@),
{
    let key = "charset=";
    match find_str(ct, key) {
        None => "utf-8".to_owned(),
        Some(i) => {
            proof {
                lemma_find_from_bounds(ct@, key@, 0);
            }
            let n = ct.unicode_len();
            let after = ct.substring_char(i + key.unicode_len(), n);
            let piece = match find_str(after, key) {
                None => after,
                Some(j) => {
                    proof {
                        lemma_find_from_bounds(after@, key@, 0);
                    }
                    after.substring_char(0, j)
                },
            };
            let end = match find_str(piece, ";") {
                None => piece.unicode_len(),
                Some(k) => {
                    proof {
                        lemma_find_from_bounds(piece@, ";"@, 0);
                    }
                    k
                },
            };
            let (lo, hi) = trim_bounds(piece, 0, end);
            assert(piece@.subrange(0, piece@.len() as int) =~= piece@);
            let cs = piece.substring_char(lo, hi).to_owned();
            let utf8 = "utf8".to_owned();
            if cs == utf8 {
                "utf-8".to_owned()
            } else {
                cs
            }
        },
    }
}

/// Splits a header line at its first `": "` into a trimmed name and value.
pub open spec fn split_header(line: Seq<char>) -> Option<(Seq<char>, Seq<char>)> {
    let i = sep_index(line, 0);
    if i < 0 {
        None
    } else {
        Some((trim(line.subrange(0, i)), trim(line.subrange(i + 2, line.len() as int))))
    }
}

proof fn lemma_sep_index_bounds(s: Seq<char>, i: int)
    requires
        0 <= i,
    ensures
        -1 <= sep_index(s, i),
        sep_index(s, i) >= 0 ==> i <= sep_index(s, i) && sep_index(s, i) + 2 <= s.len(),
    decreases s.len() - i,
{
    if i + 1 < s.len() && !(s[i] == ':' && s[i + 1] == ' ') {
        lemma_sep_index_bounds(s, i + 1);
    }
}

/// Parses one header line: `None` for the empty line that ends a header block,
/// the trimmed name and value around the first `": "` otherwise.
pub fn parse_header_field(line: &str) -> (r: Result<Option<(String, String)>, LspError>)
    ensures
        line@.len() == 0 ==> r matches Ok(None),
        line@.len() > 0 ==> match split_header(line@) {
            Some((name, value)) => r matches Ok(Some((n, v))) && n@ == name && v@ == value,
            None => r matches Err(LspError::Transport(_)),
        },
{
    let n = line.unicode_len();
    if n == 0 {
        return Ok(None);
    }
    match find_separator(line) {
        None => {
            let msg = "Invalid header field: ".to_owned().concat(line);
            Err(LspError::Transport(msg))
        },
        Some(i) => {
            proof {
                lemma_sep_index_bounds(line@, 0);
            }
            let (a, b) = trim_bounds(line, 0, i);
            let (c, d) = trim_bounds(line, i + 2, n);
            let name = line.substring_char(a, b).to_owned();
            let value = line.substring_char(c, d).to_owned();
            Ok(Some((name, value)))
        },
    }
}


/// The header lines of the additional fields, in order.
pub open spec fn additional_text(a: HeaderList) -> Seq<char>
    decreases a.len(),
{
    if a.len() == 0 {
        Seq::empty()
    } else {
        additional_text(a.drop_last()) + a.last().0 + ": "@ + a.last().1 + "\r\n"@
    }
}

/// The header block that precedes a body: `Content-Length` first,
/// `Content-Type` only when it is not the default, then the other fields, then
/// the empty line.
pub open spec fn header_text(h: HeadersView) -> Seq<char> {
    "Content-Length: "@ + decimal(h.content_length) + "\r\n"@ + (if h.content_type
        == default_content_type() {
        Seq::empty()
    } else {
        "Content-Type: "@ + h.content_type + "\r\n"@
    }) + additional_text(h.additional) + "\r\n"@
}

/// The bytes on the wire for a message with headers `h` and body `content`.
pub open spec fn frame_bytes(h: HeadersView, content: Seq<char>) -> Seq<u8> {
    encode_utf8(header_text(h) + content)
}

/// Appends the UTF-8 bytes of `s` to a buffer that holds the encoding of `t`.
fn append_text(out: &mut Vec<u8>, s: &str, Ghost(t): Ghost<Seq<char>>)
    requires
        old(out)@ == encode_utf8(t),
    ensures
        final(out)@ == encode_utf8(t + s@),
{
    let b = utf8_bytes(s);
    let mut i: usize = 0;
    while i < b.len()
        invariant
            b@ == encode_utf8(s@),
            i <= b@.len(),
            out@ == encode_utf8(t) + b@.subrange(0, i as int),
        decreases b@.len() - i,
    {
        out.push(b[i]);
        assert(out@ =~= encode_utf8(t) + b@.subrange(0, i + 1));
        i = i + 1;
    }
    proof {
        assert(b@.subrange(0, b@.len() as int) =~= b@);
        lemma_encode_concat(t, s@);
    }
}

/// A complete message: headers and body.
pub struct Message {
    pub headers: MessageHeaders,
    pub content: String,
}

impl Message {
    /// The headers are well formed and `content_length` is the body's length in
    /// bytes.
    pub open spec fn wf(&self) -> bool {
        self.headers.wf() && self.headers.content_length == encode_utf8(self.content@).len()
    }

    /// A message with default headers around `content`.
    pub fn new(content: &str) -> (r: Self)
        ensures
            r.wf(),
            r.content@ == content@,
            r.headers.view() == (HeadersView {
                content_length: encode_utf8(content@).len(),
                content_type: default_content_type(),
                additional: Seq::empty(),
            }),
    {
        let n = utf8_bytes(content).len();
        Message { headers: MessageHeaders::new(n), content: content.to_owned() }
    }

    /// The message as it goes on the wire.
    pub fn to_bytes(&self) -> (r: Vec<u8>)
        ensures
            r@ == frame_bytes(self.headers.view(), self.content@),
    {
        let h = &self.headers;
        let ghost hv = h.view();
        let mut out: Vec<u8> = Vec::new();
        assert(out@ =~= encode_utf8(Seq::<char>::empty()));
        append_text(&mut out, "Content-Length: ", Ghost(Seq::empty()));
        let ghost t1 = Seq::<char>::empty() + "Content-Length: "@;
        let ghost t2 = t1 + decimal(hv.content_length);
        proof {
            lemma_decimal(hv.content_length);
            lemma_encode_ascii(decimal(hv.content_length));
            lemma_encode_concat(t1, decimal(hv.content_length));
        }
        push_decimal(&mut out, h.content_length as u64);
        append_text(&mut out, "\r\n", Ghost(t2));
        let ghost mut t = t2 + "\r\n"@;
        let default = DEFAULT_CONTENT_TYPE.to_owned();
        if !(h.content_type == default) {
            append_text(&mut out, "Content-Type: ", Ghost(t));
            append_text(&mut out, h.content_type.as_str(), Ghost(t + "Content-Type: "@));
            append_text(&mut out, "\r\n", Ghost(t + "Content-Type: "@ + hv.content_type));
            proof {
                t = t + "Content-Type: "@ + hv.content_type + "\r\n"@;
            }
        }
        let ghost t3 = t;
        let mut i: usize = 0;
        while i < h.additional.len()
            invariant
                hv == h.view(),
                i <= h.additional@.len(),
                out@ == encode_utf8(t3 + additional_text(hv.additional.subrange(0, i as int))),
            decreases h.additional@.len() - i,
        {
            let ghost a = additional_text(hv.additional.subrange(0, i as int));
            let name = h.additional[i].0.as_str();
            let value = h.additional[i].1.as_str();
            append_text(&mut out, name, Ghost(t3 + a));
            append_text(&mut out, ": ", Ghost(t3 + a + name@));
            append_text(&mut out, value, Ghost(t3 + a + name@ + ": "@));
            append_text(&mut out, "\r\n", Ghost(t3 + a + name@ + ": "@ + value@));
            proof {
                let next = hv.additional.subrange(0, i + 1);
                assert(next.drop_last() =~= hv.additional.subrange(0, i as int));
                assert(next.last() == hv.additional[i as int]);
                assert(t3 + a + name@ + ": "@ + value@ + "\r\n"@ =~= t3 + additional_text(next));
            }
            i = i + 1;
        }
        assert(hv.additional.subrange(0, i as int) =~= hv.additional);
        let ghost t4 = t3 + additional_text(hv.additional);
        append_text(&mut out, "\r\n", Ghost(t4));
        assert(t4 + "\r\n"@ =~= header_text(hv));
        append_text(&mut out, self.content.as_str(), Ghost(header_text(hv)));
        out
    }
}

/// What has been learned from the header lines read so far.
pub struct HeaderState {
    pub length: Option<nat>,
    pub content_type: Seq<char>,
    pub additional: HeaderList,
}

pub open spec fn initial_header_state() -> HeaderState {
    HeaderState { length: None, content_type: default_content_type(), additional: Seq::empty() }
}

/// Index of the first CR LF pair in `buf` at or after `i`, or -1.
pub open spec fn crlf_index(buf: Seq<u8>, i: int) -> int
    decreases buf.len() - i,
{
    if i < 0 || i + 1 >= buf.len() {
        -1
    } else if buf[i] == 13 && buf[i + 1] == 10 {
        i
    } else {
        crlf_index(buf, i + 1)
    }
}

/// The effect of one header field: `Content-Length` must be a number,
/// `Content-Type` is recorded, anything else is kept.
pub open spec fn apply_header(st: HeaderState, name: Seq<char>, value: Seq<char>) -> Option<
    HeaderState,
> {
    if eq_ignore_case(name, "content-length"@) {
        match parse_unsigned(value) {
            Some(n) => Some(HeaderState { length: Some(n), ..st }),
            None => None,
        }
    } else if eq_ignore_case(name, "content-type"@) {
        Some(HeaderState { content_type: value, ..st })
    } else {
        Some(HeaderState { additional: insert_header(st.additional, name, value), ..st })
    }
}

pub enum HeaderScan {
    /// The header block does not end within the bytes given.
    Incomplete,
    /// A header line is broken, or `Content-Length` is missing.
    Invalid,
    /// The block ends, and the body starts at the given index.
    Done(HeaderState, int),
}

/// Reads header lines, each ended by CR LF, from `pos` on.
pub open spec fn scan_headers(buf: Seq<u8>, pos: int, st: HeaderState) -> HeaderScan
    decreases buf.len() - pos,
{
    let e = crlf_index(buf, pos);
    if pos < 0 || e < pos || e + 2 > buf.len() {
        HeaderScan::Incomplete
    } else {
        let line = buf.subrange(pos, e);
        if !valid_utf8(line) {
            HeaderScan::Invalid
        } else if line.len() == 0 {
            if st.length is Some {
                HeaderScan::Done(st, e + 2)
            } else {
                HeaderScan::Invalid
            }
        } else {
            match split_header(decode_utf8(line)) {
                None => HeaderScan::Invalid,
                Some((name, value)) => match apply_header(st, name, value) {
                    None => HeaderScan::Invalid,
                    Some(next) => scan_headers(buf, e + 2, next),
                },
            }
        }
    }
}

pub enum FrameScan {
    /// More bytes are needed.
    Incomplete,
    /// The bytes can never start a valid frame.
    Invalid,
    /// A frame with these headers and body takes the first bytes given.
    Complete(HeadersView, Seq<char>, nat),
}

/// How the start of `buf` reads as a frame.
pub open spec fn scan_frame(buf: Seq<u8>) -> FrameScan {
    match scan_headers(buf, 0, initial_header_state()) {
        HeaderScan::Incomplete => FrameScan::Incomplete,
        HeaderScan::Invalid => FrameScan::Invalid,
        HeaderScan::Done(st, start) => {
            let n = st.length.unwrap();
            if start + n > buf.len() {
                FrameScan::Incomplete
            } else if encoding_of(st.content_type) != "utf-8"@ {
                FrameScan::Invalid
            } else if !valid_utf8(buf.subrange(start, start + n)) {
                FrameScan::Invalid
            } else {
                FrameScan::Complete(
                    HeadersView {
                        content_length: n,
                        content_type: st.content_type,
                        additional: st.additional,
                    },
                    decode_utf8(buf.subrange(start, start + n)),
                    (start + n) as nat,
                )
            }
        },
    }
}


/// The outcome of reading a frame from the start of a byte buffer.
pub enum FrameRead {
    /// More bytes are needed before anything can be said.
    Incomplete,
    /// A message, and how many bytes of the buffer it took.
    Complete(Message, usize),
    /// The bytes are not a valid frame.
    Failed(LspError),
}

fn find_crlf(buf: &[u8], from: usize) -> (r: Option<usize>)
    ensures
        match r {
            Some(e) => e as int == crlf_index(buf@, from as int),
            None => crlf_index(buf@, from as int) == -1,
        },
{
    let n = buf.len();
    let mut i = from;
    while i < n && i + 1 < n
        invariant
            n == buf@.len(),
            from <= i,
            crlf_index(buf@, from as int) == crlf_index(buf@, i as int),
        decreases n - i,
    {
        if buf[i] == 13 && buf[i + 1] == 10 {
            return Some(i);
        }
        i = i + 1;
    }
    None
}

proof fn lemma_crlf_index_bounds(buf: Seq<u8>, i: int)
    requires
        0 <= i,
    ensures
        -1 <= crlf_index(buf, i),
        crlf_index(buf, i) >= 0 ==> i <= crlf_index(buf, i) && crlf_index(buf, i) + 2 <= buf.len(),
    decreases buf.len() - i,
{
    if i + 1 < buf.len() && !(buf[i] == 13 && buf[i + 1] == 10) {
        lemma_crlf_index_bounds(buf, i + 1);
    }
}

fn copy_range(buf: &[u8], lo: usize, hi: usize) -> (r: Vec<u8>)
    requires
        lo <= hi <= buf@.len(),
    ensures
        r@ == buf@.subrange(lo as int, hi as int),
{
    let mut out: Vec<u8> = Vec::new();
    let mut i = lo;
    while i < hi
        invariant
            lo <= i <= hi <= buf@.len(),
            out@ == buf@.subrange(lo as int, i as int),
        decreases hi - i,
    {
        out.push(buf[i]);
        assert(out@ =~= buf@.subrange(lo as int, i + 1));
        i = i + 1;
    }
    out
}

fn transport_error(msg: &str) -> (r: LspError)
    ensures
        r is Transport,
{
    LspError::Transport(msg.to_owned())
}

proof fn lemma_decoded_string(s: Seq<char>, b: Seq<u8>)
    requires
        encode_utf8(s) == b,
    ensures
        valid_utf8(b),
        decode_utf8(b) == s,
        b.len() == 0 <==> s.len() == 0,
{
    encode_utf8_valid_utf8(s);
    encode_utf8_decode_utf8(s);
    if s.len() > 0 {
        assert(encode_utf8(s) == encode_scalar(s[0] as u32) + encode_utf8(s.drop_first()));
    }
}

pub open spec fn header_state_view(
    length: Option<usize>,
    ct: String,
    add: Seq<(String, String)>,
) -> HeaderState {
    HeaderState {
        length: match length {
            Some(n) => Some(n as nat),
            None => None,
        },
        content_type: ct@,
        additional: header_list_view(add),
    }
}

/// Reads one frame from the start of `buf`.
pub fn read_frame(buf: &[u8]) -> (r: FrameRead)
    ensures
        match scan_frame(buf@) {
            FrameScan::Incomplete => r is Incomplete,
            FrameScan::Invalid => r matches FrameRead::Failed(LspError::Transport(_)),
            FrameScan::Complete(h, c, n) => r matches FrameRead::Complete(m, k) && m.wf()
                && m.headers.view() == h && m.content@ == c && k == n,
        },
        r matches FrameRead::Complete(_, k) ==> k <= buf@.len(),
{
    let mut pos: usize = 0;
    let mut length: Option<usize> = None;
    let mut content_type = DEFAULT_CONTENT_TYPE.to_owned();
    let mut additional: Vec<(String, String)> = Vec::new();
    assert(header_state_view(length, content_type, additional@) == initial_header_state()) by {
        assert(header_list_view(additional@) =~= Seq::empty());
    }
    let buf_len = buf.len();
    let start: usize;
    let n: usize;
    loop
        invariant
            buf_len == buf@.len(),
            pos <= buf@.len(),
            names_unique(header_list_view(additional@)),
            scan_headers(buf@, 0, initial_header_state()) == scan_headers(
                buf@,
                pos as int,
                header_state_view(length, content_type, additional@),
            ),
        ensures
            start <= buf@.len(),
            length == Some(n),
            names_unique(header_list_view(additional@)),
            scan_headers(buf@, 0, initial_header_state()) == HeaderScan::Done(
                header_state_view(length, content_type, additional@),
                start as int,
            ),
        decreases buf@.len() - pos,
    {
        let ghost st = header_state_view(length, content_type, additional@);
        let e = match find_crlf(buf, pos) {
            None => {
                return FrameRead::Incomplete;
            },
            Some(e) => e,
        };
        proof {
            lemma_crlf_index_bounds(buf@, pos as int);
        }
        assert(pos <= e && e + 2 <= buf@.len());
        let ghost line = buf@.subrange(pos as int, e as int);
        if e == pos {
            assert(line.len() == 0);
            assert(valid_utf8(line));
            match length {
                None => {
                    return FrameRead::Failed(transport_error("Missing Content-Length header"));
                },
                Some(len) => {
                    n = len;
                },
            }
            start = e + 2;
            assert(scan_headers(buf@, pos as int, st) == HeaderScan::Done(st, e + 2));
            break;
        }
        let text = match string_from_utf8(copy_range(buf, pos, e)) {
            None => {
                return FrameRead::Failed(transport_error("Invalid UTF-8 in header"));
            },
            Some(t) => t,
        };
        proof {
            lemma_decoded_string(text@, line);
        }
        let (name, value) = match parse_header_field(text.as_str()) {
            Err(err) => {
                return FrameRead::Failed(err);
            },
            Ok(None) => {
                return FrameRead::Failed(transport_error("Invalid header field"));
            },
            Ok(Some(field)) => field,
        };
        if str_eq_ignore_case(name.as_str(), "content-length") {
            match parse_usize(value.as_str()) {
                None => {
                    let msg = "Invalid Content-Length: ".to_owned().concat(value.as_str());
                    return FrameRead::Failed(LspError::Transport(msg));
                },
                Some(n) => {
                    length = Some(n);
                },
            }
        } else if str_eq_ignore_case(name.as_str(), "content-type") {
            content_type = value;
        } else {
            proof {
                lemma_insert_keeps_unique(header_list_view(additional@), name@, value@);
            }
            insert_field(&mut additional, name, value);
        }
        pos = e + 2;
    }
    if buf_len - start < n {
        return FrameRead::Incomplete;
    }
    let encoding = content_type_encoding(content_type.as_str());
    let utf8 = "utf-8".to_owned();
    if !(encoding == utf8) {
        let msg = "Unsupported encoding: ".to_owned().concat(encoding.as_str());
        return FrameRead::Failed(LspError::Transport(msg));
    }
    let ghost body = buf@.subrange(start as int, start + n);
    let content = match string_from_utf8(copy_range(buf, start, start + n)) {
        None => {
            return FrameRead::Failed(transport_error("Invalid UTF-8 content"));
        },
        Some(c) => c,
    };
    proof {
        lemma_decoded_string(content@, body);
    }
    let headers = MessageHeaders { content_length: n, content_type, additional };
    FrameRead::Complete(Message { headers, content }, start + n)
}


/// A byte stream split into a reading half and a writing half, with the bytes
/// received but not yet read as messages.
pub struct Transport<R, W> {
    pub reader: R,
    pub writer: W,
    buffer: Vec<u8>,
}

impl<R, W> Transport<R, W> {
    /// Bytes received and not yet consumed by a complete frame.
    pub closed spec fn pending(&self) -> Seq<u8> {
        self.buffer@
    }

    pub fn new(reader: R, writer: W) -> (r: Self)
        ensures
            r.pending() == Seq::<u8>::empty(),
    {
        Transport { reader, writer, buffer: Vec::new() }
    }

    /// Adds bytes read from the stream.
    pub fn receive_bytes(&mut self, bytes: &[u8])
        ensures
            final(self).pending() == old(self).pending() + bytes@,
    {
        let mut i: usize = 0;
        let ghost start = self.buffer@;
        while i < bytes.len()
            invariant
                start == old(self).pending(),
                i <= bytes@.len(),
                self.buffer@ == start + bytes@.subrange(0, i as int),
            decreases bytes@.len() - i,
        {
            self.buffer.push(bytes[i]);
            assert(self.buffer@ =~= start + bytes@.subrange(0, i + 1));
            i = i + 1;
        }
        assert(bytes@.subrange(0, bytes@.len() as int) =~= bytes@);
    }

    /// What the end of the stream means here: nothing when no bytes are left
    /// over, a framing error when it cuts a frame short.
    pub fn finish(&self) -> (r: Option<LspError>)
        ensures
            self.pending().len() == 0 <==> r is None,
            r matches Some(e) ==> e is Transport,
    {
        if self.buffer.len() == 0 {
            None
        } else {
            Some(transport_error("Stream ended inside a message frame"))
        }
    }

    /// Takes the next message off the received bytes. Bytes are consumed only
    /// when a whole frame is there.
    pub fn next_message(&mut self) -> (r: FrameRead)
        ensures
            match scan_frame(old(self).pending()) {
                FrameScan::Incomplete => r is Incomplete && final(self).pending() == old(
                    self,
                ).pending(),
                FrameScan::Invalid => r matches FrameRead::Failed(LspError::Transport(_))
                    && final(self).pending() == old(self).pending(),
                FrameScan::Complete(h, c, n) => r matches FrameRead::Complete(m, k) && m.wf()
                    && m.headers.view() == h && m.content@ == c && k == n && final(self).pending()
                    == old(self).pending().subrange(n as int, old(self).pending().len() as int),
            },
    {
        let r = read_frame(self.buffer.as_slice());
        if let FrameRead::Complete(_, k) = &r {
            let rest = copy_range(self.buffer.as_slice(), *k, self.buffer.len());
            self.buffer = rest;
        }
        r
    }
}

} // verus!
