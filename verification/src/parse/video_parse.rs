//! The video pipeline: the kind byte that opens a camera's stream, the label
//! that a browser's request names, and the file a stream is recorded to.

use crate::error::CaptureError;
use crate::http::{decimal, decimal_bytes, same_text};
use crate::label::{padded, Label};
use crate::registry::{flag_set, DeviceEnum, LabelFlagMap};
use vstd::prelude::*;
use vstd::string::StrSliceExecFns;
use vstd::utf8::{decode_utf8, encode_utf8, valid_utf8};

verus! {

/// What a connection is for, by its first byte.
#[derive(Debug, Clone, Copy, PartialEq, Eq, Structural)]
pub enum StreamType {
    /// The server makes up a label for the camera.
    LabelGenerate,
    /// Authentication.
    Auth,
    /// A camera sends its video.
    VideoSend,
    Other,
}

/// The kind that the byte `b` stands for.
pub open spec fn stream_type_of(b: u8) -> StreamType {
    if b == 0 {
        StreamType::LabelGenerate
    } else if b == 1 {
        StreamType::Auth
    } else if b == 2 {
        StreamType::VideoSend
    } else {
        StreamType::Other
    }
}

impl<'a> From<&'a u8> for StreamType {
    fn from(value: &'a u8) -> (r: StreamType) {
        match *value {
            0 => StreamType::LabelGenerate,
            1 => StreamType::Auth,
            2 => StreamType::VideoSend,
            _ => StreamType::Other,
        }
    }
}

impl<'a> vstd::std_specs::convert::FromSpecImpl<&'a u8> for StreamType {
    open spec fn obeys_from_spec() -> bool {
        true
    }

    open spec fn from_spec(v: &'a u8) -> StreamType {
        stream_type_of(*v)
    }
}

/// What `http_parse` makes of a request text: the path of the request line
/// without its query, the query's `(name, value)` pairs, and the headers'
/// `(name, value)` pairs, each in the order of the text. Of headers whose
/// names agree ignoring case only the first is kept, and unless the method is
/// POST or PUT, lines after the blank line are read as headers too.
pub uninterp spec fn http_request_parts(text: Seq<char>) -> (
    Seq<char>,
    Seq<(Seq<char>, Seq<char>)>,
    Seq<(Seq<char>, Seq<char>)>,
);

/// Parses `text` with `http_parse::Request::parse_from_str` and hands out
/// its path, queries and headers. The contract names the result and says
/// nothing more of how the crate splits a request.
#[verifier::external_body]
fn parse_http_request(text: &str) -> (r: (String, Vec<(String, String)>, Vec<(String, String)>))
    ensures
        (r.0@, r.1.deep_view(), r.2.deep_view()) == http_request_parts(text@),
{
    let mut request = http_parse::Request::new();
    request.parse_from_str(text);
    let queries = request.query().iter().map(|q| (q.name().clone(), q.value().clone())).collect();
    let headers = request.headers().iter().map(|h| (h.name().clone(), h.value().clone())).collect();
    (request.path().clone(), queries, headers)
}

/// The value of the last pair of `pairs` that is named `label`.
pub open spec fn last_label_value(pairs: Seq<(Seq<char>, Seq<char>)>) -> Option<Seq<char>>
    decreases pairs.len(),
{
    if pairs.len() == 0 {
        None
    } else if pairs.last().0 == "label"@ {
        Some(pairs.last().1)
    } else {
        last_label_value(pairs.drop_last())
    }
}

/// The label bytes that a request asks for: a favicon request is refused;
/// otherwise the last `label` query wins, then the last `label` header, and
/// a request with neither is refused.
pub open spec fn requested_label(
    path: Seq<char>,
    queries: Seq<(Seq<char>, Seq<char>)>,
    headers: Seq<(Seq<char>, Seq<char>)>,
) -> Result<Seq<u8>, CaptureError> {
    if path == "/favicon.ico"@ {
        Err(CaptureError::InvalidLabel("favicon.ico request."))
    } else {
        match last_label_value(queries) {
            Some(v) => Ok(padded(encode_utf8(v), 2)),
            None => match last_label_value(headers) {
                Some(v) => Ok(padded(encode_utf8(v), 2)),
                None => Err(CaptureError::InvalidLabel("no label in request.")),
            },
        }
    }
}

/// The label that the request text `text` asks for.
pub open spec fn label_of_request_text(text: Seq<char>) -> Result<Seq<u8>, CaptureError> {
    let parts = http_request_parts(text);
    requested_label(parts.0, parts.1, parts.2)
}

/// `r` is the label whose bytes `expected` gives, or the same error.
pub open spec fn label_result_matches(
    r: Result<Label, CaptureError>,
    expected: Result<Seq<u8>, CaptureError>,
) -> bool {
    match expected {
        Ok(bytes) => r matches Ok(l) && l@ == bytes,
        Err(e) => r == Err::<Label, CaptureError>(e),
    }
}

/// The value of the last pair of `pairs` that is named `label`.
fn find_last_label<'a>(pairs: &'a Vec<(String, String)>) -> (r: Option<&'a String>)
    ensures
        match last_label_value(pairs.deep_view()) {
            Some(v) => r matches Some(s) && s@ == v,
            None => r is None,
        },
{
    let mut found: Option<&String> = None;
    let mut i: usize = 0;
    while i < pairs.len()
        invariant
            i <= pairs@.len(),
            match last_label_value(pairs.deep_view().take(i as int)) {
                Some(v) => found matches Some(s) && s@ == v,
                None => found is None,
            },
        decreases pairs@.len() - i,
    {
        let ghost before = pairs.deep_view().take(i as int);
        assert(pairs.deep_view().take(i + 1 as int).drop_last() =~= before);
        if same_text(pairs[i].0.as_str(), "label") {
            found = Some(&pairs[i].1);
        }
        i = i + 1;
    }
    assert(pairs.deep_view().take(pairs@.len() as int) =~= pairs.deep_view());
    found
}

/// The label that a parsed request asks for; see [`requested_label`].
pub fn label_from_request(
    path: &str,
    queries: &Vec<(String, String)>,
    headers: &Vec<(String, String)>,
) -> (r: Result<Label, CaptureError>)
    ensures
        label_result_matches(r, requested_label(path@, queries.deep_view(), headers.deep_view())),
{
    if same_text(path, "/favicon.ico") {
        return Err(CaptureError::InvalidLabel("favicon.ico request."));
    }
    match find_last_label(queries) {
        Some(v) => Ok(Label::from_byte_slice(v.as_str().as_bytes())),
        None => match find_last_label(headers) {
            Some(v) => Ok(Label::from_byte_slice(v.as_str().as_bytes())),
            None => Err(CaptureError::InvalidLabel("no label in request.")),
        },
    }
}

/// The label that the HTTP request text `s` asks for.
pub fn parse_label_data(s: &str) -> (r: Result<Label, CaptureError>)
    ensures
        label_result_matches(r, label_of_request_text(s@)),
{
    let (path, queries, headers) = parse_http_request(s);
    label_from_request(path.as_str(), &queries, &headers)
}

/// What `String::from_utf8_lossy` makes of `bytes`.
pub uninterp spec fn lossy_utf8(bytes: Seq<u8>) -> Seq<char>;

/// Decodes `bytes` with `String::from_utf8_lossy`, which replaces each
/// invalid sequence by U+FFFD and, as its documentation says, hands valid
/// UTF-8 back unchanged. How invalid input is replaced is left unsaid.
#[verifier::external_body]
fn lossy_text(bytes: &[u8]) -> (r: String)
    ensures
        r@ == lossy_utf8(bytes@),
        valid_utf8(bytes@) ==> r@ == decode_utf8(bytes@),
{
    String::from_utf8_lossy(bytes).to_string()
}

/// Whether a chunk that a camera sends for `label` goes on to the browsers:
/// it does while the label's video is watched (both pipelines ask this
/// question). `EmptyLabelName` when the label is not registered.
pub fn frame_wanted(flags: &LabelFlagMap, label: &Label) -> (r: Result<bool, CaptureError>)
    ensures
        flags@.contains_key(label@) ==> r == Ok::<bool, CaptureError>(flags@[label@].0),
        !flags@.contains_key(label@) ==> r == Err::<bool, CaptureError>(
            CaptureError::EmptyLabelName,
        ),
{
    match flags.get_flag(label) {
        Ok((video, _audio)) => Ok(video),
        Err(e) => Err(e),
    }
}

/// Admits a browser to the stream of `device` for `label`: refuses a label
/// that no camera registered, and otherwise marks `device` as watched.
pub fn admit_viewer(flags: &mut LabelFlagMap, label: &Label, device: DeviceEnum) -> (r: Result<
    (),
    CaptureError,
>)
    ensures
        old(flags)@.contains_key(label@) ==> r is Ok && final(flags)@ == old(flags)@.insert(
            label@,
            flag_set(old(flags)@[label@], device, true),
        ),
        !old(flags)@.contains_key(label@) ==> r == Err::<(), CaptureError>(
            CaptureError::InvalidLabel("the label is not registered."),
        ) && final(flags)@ == old(flags)@,
{
    if !flags.is_labeled(label) {
        return Err(CaptureError::InvalidLabel("the label is not registered."));
    }
    flags.set_flag(label, true, device)
}

/// Starts serving a browser the stream of `device`: reads the label from
/// the request bytes `peeked` and admits the browser for it.
pub fn open_web_stream(flags: &mut LabelFlagMap, peeked: &[u8], device: DeviceEnum) -> (r: Result<
    Label,
    CaptureError,
>)
    ensures
        match label_of_request_text(lossy_utf8(peeked@)) {
            Err(e) => r == Err::<Label, CaptureError>(e) && final(flags)@ == old(flags)@,
            Ok(bytes) => if old(flags)@.contains_key(bytes) {
                r matches Ok(l) && l@ == bytes && final(flags)@ == old(flags)@.insert(
                    bytes,
                    flag_set(old(flags)@[bytes], device, true),
                )
            } else {
                r == Err::<Label, CaptureError>(
                    CaptureError::InvalidLabel("the label is not registered."),
                ) && final(flags)@ == old(flags)@
            },
        },
{
    let text = lossy_text(peeked);
    let label = match parse_label_data(text.as_str()) {
        Ok(l) => l,
        Err(e) => return Err(e),
    };
    match admit_viewer(flags, &label, device) {
        Ok(()) => Ok(label),
        Err(e) => Err(e),
    }
}

/// The decimal digits of `n` as characters.
pub open spec fn decimal_text(n: nat) -> Seq<char> {
    decimal(n).map_values(|b: u8| b as char)
}

/// `n` in decimal, with a leading `-` when negative.
pub open spec fn signed_decimal_text(n: int) -> Seq<char> {
    if n < 0 {
        seq!['-'] + decimal_text((-n) as nat)
    } else {
        decimal_text(n as nat)
    }
}

/// `addr` with each `.` and `:` replaced by `_`.
pub open spec fn address_stem(addr: Seq<char>) -> Seq<char> {
    addr.map_values(|c: char| if c == '.' || c == ':' { '_' } else { c })
}

/// The file that the video of the peer `addr` is recorded to, started at
/// `timestamp` seconds: `<addr with . and : as _>_<timestamp>.mp4`.
pub open spec fn recording_name(addr: Seq<char>, timestamp: int) -> Seq<char> {
    address_stem(addr) + seq!['_'] + signed_decimal_text(timestamp) + ".mp4"@
}

/// Collects `chars` into a `String` (`FromIterator<char>` for `String`),
/// which holds exactly those characters.
#[verifier::external_body]
fn string_from_chars(chars: &Vec<char>) -> (r: String)
    ensures
        r@ == chars@,
{
    chars.iter().collect()
}

/// Appends the decimal digits of `n` to `out`.
fn push_decimal(out: &mut Vec<char>, n: u64)
    ensures
        final(out)@ == old(out)@ + decimal_text(n as nat),
{
    let digits = decimal_bytes(n);
    let mut i: usize = 0;
    while i < digits.len()
        invariant
            i <= digits@.len(),
            digits@ == decimal(n as nat),
            out@ == old(out)@ + decimal_text(n as nat).take(i as int),
        decreases digits@.len() - i,
    {
        out.push(digits[i] as char);
        i = i + 1;
        assert(out@ =~= old(out)@ + decimal_text(n as nat).take(i as int));
    }
    assert(decimal_text(n as nat).take(digits@.len() as int) =~= decimal_text(n as nat));
}

/// The name of the file that records the video of the peer `addr`, started
/// at `timestamp` (seconds since the epoch).
pub fn recording_file_name(addr: &str, timestamp: i64) -> (r: String)
    ensures
        r@ == recording_name(addr@, timestamp as int),
{
    let mut out: Vec<char> = Vec::new();
    let n: usize = addr.unicode_len();
    let mut i: usize = 0;
    while i < n
        invariant
            n == addr@.len(),
            i <= n,
            out@ == address_stem(addr@).take(i as int),
        decreases n - i,
    {
        let c = addr.get_char(i);
        if c == '.' || c == ':' {
            out.push('_');
        } else {
            out.push(c);
        }
        i = i + 1;
        assert(out@ =~= address_stem(addr@).take(i as int));
    }
    assert(address_stem(addr@).take(n as int) =~= address_stem(addr@));
    out.push('_');
    if timestamp < 0 {
        out.push('-');
        let magnitude: u64 = if timestamp == i64::MIN {
            9223372036854775808u64
        } else {
            (-timestamp) as u64
        };
        push_decimal(&mut out, magnitude);
    } else {
        push_decimal(&mut out, timestamp as u64);
    }
    out.push('.');
    out.push('m');
    out.push('p');
    out.push('4');
    proof {
        reveal_strlit(".mp4");
    }
    assert(out@ =~= recording_name(addr@, timestamp as int));
    string_from_chars(&out)
}

/// What `str::to_lowercase` makes of a text.
pub uninterp spec fn lowercase(text: Seq<char>) -> Seq<char>;

/// Lower-cases `text` with `str::to_lowercase`; the Unicode case mapping it
/// applies is named, not stated.
#[verifier::external_body]
fn lowercase_text(text: &str) -> (r: String)
    ensures
        r@ == lowercase(text@),
{
    text.to_lowercase()
}

/// Whether the setting `is_transcribe` asks for recording: `true` in any
/// letter case; every other text, `false` among them, means no.
pub fn transcribe_enabled(is_transcribe: &str) -> (r: bool)
    ensures
        r == (lowercase(is_transcribe@) == "true"@),
{
    let lowered = lowercase_text(is_transcribe);
    same_text(lowered.as_str(), "true")
}

/// The address part of a recording's name holds no `.` and no `:`, and is as
/// long as the address.
pub proof fn law_recording_stem_has_no_separator(addr: Seq<char>)
    ensures
        address_stem(addr).len() == addr.len(),
        forall|i: int|
            0 <= i < addr.len() ==> #[trigger] address_stem(addr)[i] != '.' && address_stem(addr)[i]
                != ':',
{
}

/// Admitting a browser never registers a camera: the set of registered
/// labels stays as it was, and only the admitted label's flag of `device`
/// changes.
pub proof fn law_admission_keeps_registered_labels(
    m: Map<Seq<u8>, (bool, bool)>,
    k: Seq<u8>,
    device: DeviceEnum,
)
    requires
        m.contains_key(k),
    ensures
        m.insert(k, flag_set(m[k], device, true)).dom() == m.dom(),
        forall|j: Seq<u8>|
            j != k && m.contains_key(j) ==> #[trigger] m.insert(k, flag_set(m[k], device, true))[j]
                == m[j],
{
    assert(m.insert(k, flag_set(m[k], device, true)).dom() =~= m.dom());
}

/// A `label` query decides the label whatever the headers say; a `label`
/// header counts only when no query names one (for any path but the favicon's).
pub proof fn law_query_label_wins(
    path: Seq<char>,
    queries: Seq<(Seq<char>, Seq<char>)>,
    headers: Seq<(Seq<char>, Seq<char>)>,
    other_headers: Seq<(Seq<char>, Seq<char>)>,
)
    requires
        path != "/favicon.ico"@,
        last_label_value(queries) is Some,
    ensures
        requested_label(path, queries, headers) == requested_label(path, queries, other_headers),
        requested_label(path, queries, headers) == Ok::<Seq<u8>, CaptureError>(
            padded(encode_utf8(last_label_value(queries)->0), 2),
        ),
{
}

} // verus!
