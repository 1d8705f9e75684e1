//! The HTTP bytes that the server writes to browsers: the multipart stream
//! of frames and the error answer, with their `Content-Length` lines.

use crate::frame::append_bytes;
use crate::registry::DeviceEnum;
use vstd::prelude::*;
use vstd::utf8::{decode_utf8, encode_utf8, encode_utf8_decode_utf8};

verus! {

/// The decimal digits of `n` as ASCII bytes, without leading zeros.
pub open spec fn decimal(n: nat) -> Seq<u8>
    decreases n,
{
    if n < 10 {
        seq![(48 + n) as u8]
    } else {
        decimal(n / 10).push((48 + n % 10) as u8)
    }
}

/// The decimal digits of `n` as ASCII bytes.
pub fn decimal_bytes(n: u64) -> (r: Vec<u8>)
    ensures
        r@ == decimal(n as nat),
    decreases n,
{
    if n < 10 {
        let mut v: Vec<u8> = Vec::new();
        v.push((48 + n) as u8);
        v
    } else {
        let mut v = decimal_bytes(n / 10);
        v.push((48 + n % 10) as u8);
        v
    }
}

/// Whether two strings hold the same characters.
pub fn same_text(a: &str, b: &str) -> (r: bool)
    ensures
        r == (a@ == b@),
{
    let x = a.as_bytes();
    let y = b.as_bytes();
    proof {
        encode_utf8_decode_utf8(a@);
        encode_utf8_decode_utf8(b@);
    }
    if x.len() != y.len() {
        return false;
    }
    let mut i: usize = 0;
    while i < x.len()
        invariant
            x@ == encode_utf8(a@),
            y@ == encode_utf8(b@),
            x@.len() == y@.len(),
            i <= x@.len(),
            forall|j: int| 0 <= j < i ==> x@[j] == y@[j],
        decreases x@.len() - i,
    {
        if x[i] != y[i] {
            return false;
        }
        i = i + 1;
    }
    assert(x@ =~= y@);
    true
}

/// `Content-Length: <n>` followed by the blank line that ends a header block.
pub open spec fn content_length_line(n: nat) -> Seq<u8> {
    encode_utf8("Content-Length: "@) + decimal(n) + encode_utf8("\r\n\r\n"@)
}

/// The part header that opens each frame of the multipart stream of `device`.
pub open spec fn part_head(device: DeviceEnum) -> Seq<u8> {
    match device {
        DeviceEnum::Video => encode_utf8("--frame\r\nContent-Type: image/jpeg\r\n"@),
        DeviceEnum::Audio => encode_utf8("--frame\r\nContent-Type: audio/mpeg\r\n"@),
    }
}

/// The `Content-Length` line for a body of `n` bytes, with the blank line after it.
pub fn content_length_header(n: usize) -> (r: Vec<u8>)
    ensures
        r@ == content_length_line(n as nat),
{
    let mut out: Vec<u8> = Vec::new();
    append_bytes(&mut out, "Content-Length: ".as_bytes());
    let digits = decimal_bytes(n as u64);
    append_bytes(&mut out, digits.as_slice());
    append_bytes(&mut out, "\r\n\r\n".as_bytes());
    assert(out@ =~= content_length_line(n as nat));
    out
}

/// One part of the multipart stream of `device`: its header, then `msg`.
pub fn stream_packet(device: DeviceEnum, msg: &[u8]) -> (r: Vec<u8>)
    ensures
        r@ == part_head(device) + content_length_line(msg@.len()) + msg@,
{
    let mut out: Vec<u8> = Vec::new();
    match device {
        DeviceEnum::Video => append_bytes(
            &mut out,
            "--frame\r\nContent-Type: image/jpeg\r\n".as_bytes(),
        ),
        DeviceEnum::Audio => append_bytes(
            &mut out,
            "--frame\r\nContent-Type: audio/mpeg\r\n".as_bytes(),
        ),
    }
    let header = content_length_header(msg.len());
    append_bytes(&mut out, header.as_slice());
    append_bytes(&mut out, msg);
    assert(out@ =~= part_head(device) + content_length_line(msg@.len()) + msg@);
    out
}

/// The answer to a failed request: the status lines `status_head`, the
/// `Content-Length` of `body`, then `body`.
pub fn error_response(status_head: &[u8], body: &[u8]) -> (r: Vec<u8>)
    ensures
        r@ == status_head@ + content_length_line(body@.len()) + body@,
{
    let mut out: Vec<u8> = Vec::new();
    append_bytes(&mut out, status_head);
    let header = content_length_header(body.len());
    append_bytes(&mut out, header.as_slice());
    append_bytes(&mut out, body);
    assert(out@ =~= status_head@ + content_length_line(body@.len()) + body@);
    out
}

/// The number that a string of ASCII decimal digits stands for.
pub open spec fn decimal_value(digits: Seq<u8>) -> nat
    decreases digits.len(),
{
    if digits.len() == 0 {
        0
    } else {
        decimal_value(digits.drop_last()) * 10 + (digits.last() - 48) as nat
    }
}

/// The digits written for `n` are ASCII digits that read back as `n`, so a
/// `Content-Length` line states the exact length of the body behind it.
pub proof fn law_decimal_read_back(n: nat)
    ensures
        decimal_value(decimal(n)) == n,
        decimal(n).len() >= 1,
        forall|i: int| 0 <= i < decimal(n).len() ==> 48 <= #[trigger] decimal(n)[i] <= 57,
    decreases n,
{
    if n >= 10 {
        law_decimal_read_back(n / 10);
        let d = decimal(n);
        assert(d.drop_last() =~= decimal(n / 10));
        assert(d.last() == (48 + n % 10) as u8);
        assert(decimal_value(d) == decimal_value(decimal(n / 10)) * 10 + (n % 10));
        assert((n / 10) * 10 + n % 10 == n);
        assert forall|i: int| 0 <= i < d.len() implies 48 <= #[trigger] d[i] <= 57 by {
            if i < d.len() - 1 {
                assert(d[i] == decimal(n / 10)[i]);
            }
        }
    } else {
        assert(decimal(n).drop_last() =~= Seq::<u8>::empty());
        assert(decimal(n).last() == (48 + n) as u8);
        assert(decimal_value(decimal(n)) == decimal_value(Seq::<u8>::empty()) * 10 + n);
    }
}

/// A `Content-Length` line states the exact length of the body: between its
/// fixed `Content-Length: ` prefix and the closing blank line stand ASCII
/// digits only, and they read back as `n`, for every `n`.
pub proof fn law_content_length_states_length(n: nat)
    ensures
        ({
            let line = content_length_line(n);
            let prefix = encode_utf8("Content-Length: "@);
            let suffix = encode_utf8("\r\n\r\n"@);
            let digits = line.subrange(prefix.len() as int, line.len() - suffix.len());
            &&& line.subrange(0, prefix.len() as int) == prefix
            &&& line.subrange(line.len() - suffix.len(), line.len() as int) == suffix
            &&& digits.len() >= 1
            &&& forall|i: int| 0 <= i < digits.len() ==> 48 <= #[trigger] digits[i] <= 57
            &&& decimal_value(digits) == n
        }),
{
    let line = content_length_line(n);
    let prefix = encode_utf8("Content-Length: "@);
    let suffix = encode_utf8("\r\n\r\n"@);
    law_decimal_read_back(n);
    assert(line.subrange(0, prefix.len() as int) =~= prefix);
    assert(line.subrange(line.len() - suffix.len(), line.len() as int) =~= suffix);
    assert(line.subrange(prefix.len() as int, line.len() - suffix.len()) =~= decimal(n));
}

} // verus!
