use vstd::prelude::*;
use vstd::utf8::{encode_utf8, is_ascii_chars};
use crate::request::pair_views;
use crate::status::{canonical_reason, code_of, reason_of, HttpStatus};

verus! {

/// A response: a status, extra headers, and either a text body or binary
/// contents (when `contents` is present the body is empty).
#[derive(Debug)]
pub struct HttpResponse {
    pub status: HttpStatus,
    pub headers: Vec<(String, String)>,
    pub body: String,
    pub contents: Option<Vec<u8>>,
}

/// The decimal digits of `n`, as ASCII bytes.
pub open spec fn dec(n: nat) -> Seq<u8>
    decreases n,
{
    if n < 10 {
        seq![(48 + n) as u8]
    } else {
        dec(n / 10).push((48 + n % 10) as u8)
    }
}

/// The status line: `HTTP/1.1 <code> <reason>` and a line break.
pub open spec fn status_line(s: HttpStatus) -> Seq<u8> {
    encode_utf8("HTTP/1.1 "@) + dec(code_of(s) as nat) + encode_utf8(" "@) + encode_utf8(
        reason_of(s),
    ) + encode_utf8("\r\n"@)
}

/// The header lines `<name>: <value>` of a list of pairs, in order.
pub open spec fn header_lines(h: Seq<(Seq<char>, Seq<char>)>) -> Seq<u8>
    decreases h.len(),
{
    if h.len() == 0 {
        Seq::empty()
    } else {
        header_lines(h.drop_last()) + encode_utf8(h.last().0) + encode_utf8(": "@) + encode_utf8(
            h.last().1,
        ) + encode_utf8("\r\n"@)
    }
}

impl HttpResponse {
    /// Binary contents, when present, are the only payload.
    pub open spec fn wf(&self) -> bool {
        self.contents is Some ==> self.body@.len() == 0
    }

    /// The bytes of the text body.
    pub open spec fn body_bytes(&self) -> Seq<u8> {
        encode_utf8(self.body@)
    }

    /// The number announced in `Content-Length`.
    pub open spec fn content_length(&self) -> nat {
        match self.contents {
            Some(c) => c@.len(),
            None => self.body_bytes().len(),
        }
    }

    /// The header block: status line, headers, and `Content-Length` with the blank line.
    pub open spec fn header_block(&self) -> Seq<u8> {
        status_line(self.status) + header_lines(pair_views(self.headers@)) + encode_utf8(
            "Content-Length: "@,
        ) + dec(self.content_length()) + encode_utf8("\r\n\r\n"@)
    }

    /// What follows the header block on the wire.
    pub open spec fn payload(&self) -> Seq<u8> {
        match self.contents {
            Some(c) => self.body_bytes() + c@,
            None => self.body_bytes(),
        }
    }

    /// The first write of a response: header block and text body.
    pub open spec fn head(&self) -> Seq<u8> {
        self.header_block() + self.body_bytes()
    }

    /// Everything a response puts on the wire.
    pub open spec fn wire(&self) -> Seq<u8> {
        self.header_block() + self.payload()
    }

    /// A response with a text body and no extra headers.
    pub fn text(status: HttpStatus, body: String) -> (r: HttpResponse)
        ensures
            r.status == status,
            r.headers@.len() == 0,
            r.body@ == body@,
            r.contents is None,
            r.wf(),
    {
        HttpResponse { status, headers: Vec::new(), body, contents: None }
    }

    /// A response with binary contents, an empty body and no extra headers.
    pub fn binary(status: HttpStatus, contents: Vec<u8>) -> (r: HttpResponse)
        ensures
            r.status == status,
            r.headers@.len() == 0,
            r.body@.len() == 0,
            r.contents == Some(contents),
            r.wf(),
    {
        HttpResponse { status, headers: Vec::new(), body: String::new(), contents: Some(contents) }
    }

    /// The header block followed by the text body: the first write of this response.
    pub fn head_bytes(&self) -> (r: Vec<u8>)
        ensures
            r@ == self.head(),
    {
        let mut out: Vec<u8> = Vec::new();
        out.extend_from_slice("HTTP/1.1 ".as_bytes());
        push_decimal(&mut out, self.status.code() as u64);
        out.extend_from_slice(" ".as_bytes());
        out.extend_from_slice(self.status.reason().as_bytes());
        out.extend_from_slice("\r\n".as_bytes());
        assert(out@ == status_line(self.status));
        let ghost hv = pair_views(self.headers@);
        let mut i: usize = 0;
        while i < self.headers.len()
            invariant
                hv == pair_views(self.headers@),
                i <= self.headers.len(),
                out@ == status_line(self.status) + header_lines(hv.subrange(0, i as int)),
            decreases self.headers.len() - i,
        {
            let ghost before = out@;
            out.extend_from_slice(self.headers[i].0.as_str().as_bytes());
            out.extend_from_slice(": ".as_bytes());
            out.extend_from_slice(self.headers[i].1.as_str().as_bytes());
            out.extend_from_slice("\r\n".as_bytes());
            assert(hv.subrange(0, i + 1).drop_last() == hv.subrange(0, i as int));
            assert(out@ == status_line(self.status) + header_lines(hv.subrange(0, i + 1)));
            i = i + 1;
        }
        assert(hv.subrange(0, i as int) == hv);
        let len: usize = match &self.contents {
            Some(c) => c.len(),
            None => self.body.as_str().as_bytes().len(),
        };
        assert(len == self.content_length());
        out.extend_from_slice("Content-Length: ".as_bytes());
        push_decimal(&mut out, len as u64);
        out.extend_from_slice("\r\n\r\n".as_bytes());
        out.extend_from_slice(self.body.as_str().as_bytes());
        out
    }

    /// Everything this response puts on the wire: the head, then the binary contents.
    pub fn to_bytes(&self) -> (r: Vec<u8>)
        ensures
            r@ == self.wire(),
    {
        let mut out = self.head_bytes();
        if let Some(c) = &self.contents {
            out.extend_from_slice(c.as_slice());
        }
        out
    }
}

/// Appends the decimal digits of `n` to `out`.
pub fn push_decimal(out: &mut Vec<u8>, n: u64)
    ensures
        final(out)@ == old(out)@ + dec(n as nat),
    decreases n,
{
    if n >= 10 {
        push_decimal(out, n / 10);
    }
    out.push((48 + n % 10) as u8);
}


/// The `Content-Length` a response announces is the exact length of the payload
/// that follows its header block, text or binary.
pub proof fn lemma_content_length_accurate(r: &HttpResponse)
    requires
        r.wf(),
    ensures
        r.content_length() == r.payload().len(),
        r.wire() == status_line(r.status) + header_lines(pair_views(r.headers@)) + encode_utf8(
            "Content-Length: "@,
        ) + dec(r.payload().len()) + encode_utf8("\r\n\r\n"@) + r.payload(),
{
    if let Some(c) = r.contents {
        assert(encode_utf8(r.body@) == Seq::<u8>::empty());
        assert(r.payload() == c@);
    }
}

/// The first position at or after `i` where `s` holds byte `c`, or `s.len()` if none.
pub open spec fn find_byte(s: Seq<u8>, c: u8, i: int) -> int
    decreases s.len() - i,
{
    if i >= s.len() {
        s.len() as int
    } else if s[i] == c {
        i
    } else {
        find_byte(s, c, i + 1)
    }
}

pub open spec fn is_digit(b: u8) -> bool {
    48 <= b <= 57
}

/// The code and reason phrase of the status line at the start of `b`: the
/// prefix `HTTP/1.1 `, three digits, a space, and the reason up to a line break.
pub open spec fn status_line_fields(b: Seq<u8>) -> Option<(u16, Seq<u8>)> {
    let pre = encode_utf8("HTTP/1.1 "@);
    let n = pre.len() as int;
    if b.len() >= n + 4 && b.subrange(0, n) == pre && is_digit(b[n]) && is_digit(b[n + 1])
        && is_digit(b[n + 2]) && b[n + 3] == 32 {
        let rest = b.subrange(n + 4, b.len() as int);
        let e = find_byte(rest, 13, 0);
        if e + 1 < rest.len() && rest[e + 1] == 10 {
            Some(
                (
                    (100 * (b[n] - 48) + 10 * (b[n + 1] - 48) + (b[n + 2] - 48)) as u16,
                    rest.subrange(0, e),
                ),
            )
        } else {
            None
        }
    } else {
        None
    }
}

/// Reads the status line at the start of `b`: its code and its reason phrase.
pub fn parse_status_line(b: &[u8]) -> (r: Option<(u16, Vec<u8>)>)
    ensures
        match (r, status_line_fields(b@)) {
            (Some((c, rs)), Some((c2, rs2))) => c == c2 && rs@ == rs2,
            (None, None) => true,
            _ => false,
        },
{
    let pre = "HTTP/1.1 ".as_bytes();
    let n = pre.len();
    if b.len() < n || b.len() - n < 4 {
        return None;
    }
    let mut i: usize = 0;
    while i < n
        invariant
            pre@ == encode_utf8("HTTP/1.1 "@),
            n == pre@.len(),
            n + 4 <= b@.len(),
            i <= n,
            forall|j: int| 0 <= j < i ==> b@[j] == pre@[j],
        decreases n - i,
    {
        if b[i] != pre[i] {
            assert(b@.subrange(0, n as int)[i as int] != pre@[i as int]);
            return None;
        }
        i = i + 1;
    }
    assert(b@.subrange(0, n as int) == pre@);
    let d0 = b[n];
    let d1 = b[n + 1];
    let d2 = b[n + 2];
    if !(48 <= d0 && d0 <= 57 && 48 <= d1 && d1 <= 57 && 48 <= d2 && d2 <= 57 && b[n + 3] == 32) {
        return None;
    }
    let start = n + 4;
    let ghost rest = b@.subrange(start as int, b@.len() as int);
    let mut k: usize = start;
    while k < b.len() && b[k] != 13
        invariant
            start <= k <= b@.len(),
            rest == b@.subrange(start as int, b@.len() as int),
            find_byte(rest, 13, 0) == find_byte(rest, 13, k - start),
        decreases b@.len() - k,
    {
        k = k + 1;
    }
    if k >= b.len() - 1 || b[k + 1] != 10 {
        return None;
    }
    let mut reason: Vec<u8> = Vec::new();
    let mut j: usize = start;
    while j < k
        invariant
            start <= j <= k,
            k < b@.len(),
            reason@ == b@.subrange(start as int, j as int),
        decreases k - j,
    {
        reason.push(b[j]);
        j = j + 1;
    }
    assert(rest.subrange(0, k - start) == b@.subrange(start as int, k as int));
    let code = 100 * (d0 - 48) as u16 + 10 * (d1 - 48) as u16 + (d2 - 48) as u16;
    Some((code, reason))
}

proof fn lemma_find_byte_at(s: Seq<u8>, c: u8, i: int, k: int)
    requires
        0 <= i <= k < s.len(),
        s[k] == c,
        forall|j: int| i <= j < k ==> s[j] != c,
    ensures
        find_byte(s, c, i) == k,
    decreases k - i,
{
    if i < k {
        lemma_find_byte_at(s, c, i + 1, k);
    }
}

/// The three digits of a status code and its reason phrase, as the status line writes them.
proof fn lemma_status_line_shape(s: HttpStatus)
    ensures
        dec(code_of(s) as nat).len() == 3,
        is_digit(dec(code_of(s) as nat)[0]),
        is_digit(dec(code_of(s) as nat)[1]),
        is_digit(dec(code_of(s) as nat)[2]),
        100 * (dec(code_of(s) as nat)[0] - 48) + 10 * (dec(code_of(s) as nat)[1] - 48) + (dec(
            code_of(s) as nat,
        )[2] - 48) == code_of(s),
        forall|j: int| 0 <= j < encode_utf8(reason_of(s)).len() ==> encode_utf8(reason_of(s))[j]
            != 13,
        encode_utf8(" "@) == seq![32u8],
        encode_utf8("\r\n"@) == seq![13u8, 10u8],
{
    reveal_with_fuel(dec, 3);
    reveal_with_fuel(encode_utf8, 3);
    reveal_strlit(" ");
    reveal_strlit("\r\n");
    reveal_strlit("OK");
    reveal_strlit("Forbidden");
    reveal_strlit("Not Found");
    reveal_strlit("Internal Server Error");
    let r = reason_of(s);
    assert(is_ascii_chars(" "@));
    vstd::utf8::is_ascii_chars_encode_utf8(" "@);
    assert(encode_utf8(" "@) =~= seq![32u8]);
    assert(is_ascii_chars("\r\n"@));
    vstd::utf8::is_ascii_chars_encode_utf8("\r\n"@);
    assert(encode_utf8("\r\n"@) =~= seq![13u8, 10u8]);
    assert(is_ascii_chars(r));
    vstd::utf8::is_ascii_chars_encode_utf8(r);
    assert forall|j: int| 0 <= j < encode_utf8(r).len() implies encode_utf8(r)[j] != 13 by {
        assert(r[j] as u8 == encode_utf8(r)[j]);
    }
}

/// Reading back the status line of a serialized response gives the response's
/// status code and reason phrase.
pub proof fn lemma_status_line_round_trip(r: &HttpResponse)
    ensures
        status_line_fields(r.wire()) == Some((code_of(r.status), encode_utf8(reason_of(r.status)))),
        status_line_fields(r.head()) == Some((code_of(r.status), encode_utf8(reason_of(r.status)))),
{
    lemma_status_line_shape(r.status);
    let pre = encode_utf8("HTTP/1.1 "@);
    let d = dec(code_of(r.status) as nat);
    let rb = encode_utf8(reason_of(r.status));
    let n = pre.len() as int;
    let tail1 = header_lines(pair_views(r.headers@)) + encode_utf8("Content-Length: "@) + dec(
        r.content_length(),
    ) + encode_utf8("\r\n\r\n"@) + r.body_bytes();
    assert(r.head() =~= pre + d + seq![32u8] + rb + seq![13u8, 10u8] + tail1);
    let tail2 = tail1 + (match r.contents {
        Some(c) => c@,
        None => Seq::empty(),
    });
    assert(r.wire() =~= pre + d + seq![32u8] + rb + seq![13u8, 10u8] + tail2);
    assert forall|tail: Seq<u8>| #![auto]
        status_line_fields(pre + d + seq![32u8] + rb + seq![13u8, 10u8] + tail) == Some(
            (code_of(r.status), rb),
        ) by {
        let b = pre + d + seq![32u8] + rb + seq![13u8, 10u8] + tail;
        assert(b.subrange(0, n) =~= pre);
        assert(b[n] == d[0] && b[n + 1] == d[1] && b[n + 2] == d[2] && b[n + 3] == 32);
        let rest = b.subrange(n + 4, b.len() as int);
        assert(rest =~= rb + seq![13u8, 10u8] + tail);
        lemma_find_byte_at(rest, 13, 0, rb.len() as int);
        assert(rest.subrange(0, rb.len() as int) =~= rb);
    }
}

/// Every emitted status line pairs its code with that code's canonical reason phrase.
pub proof fn lemma_emitted_reason_is_canonical(r: &HttpResponse)
    ensures
        status_line_fields(r.wire()) matches Some((c, rs)) && rs == encode_utf8(
            canonical_reason(c as int),
        ),
{
    lemma_status_line_round_trip(r);
}

} // verus!
