//! Framing of the byte stream from a camera to the server: a 2-byte
//! big-endian length and the configuration, then per frame a 4-byte
//! big-endian length and the frame's bytes.

use vstd::prelude::*;

verus! {

/// The two big-endian bytes of `n`, which must be below 2^16.
pub open spec fn be16(n: nat) -> Seq<u8> {
    seq![(n / 256) as u8, (n % 256) as u8]
}

/// The four big-endian bytes of `n`, which must be below 2^32.
pub open spec fn be32(n: nat) -> Seq<u8> {
    seq![(n / 16777216) as u8, (n / 65536 % 256) as u8, (n / 256 % 256) as u8, (n % 256) as u8]
}

/// The number that two big-endian bytes stand for.
pub open spec fn be16_value(b: Seq<u8>) -> nat {
    (b[0] * 256 + b[1]) as nat
}

/// The number that four big-endian bytes stand for.
pub open spec fn be32_value(b: Seq<u8>) -> nat {
    (b[0] * 16777216 + b[1] * 65536 + b[2] * 256 + b[3]) as nat
}

/// Appends `bytes` to `out`.
pub fn append_bytes(out: &mut Vec<u8>, bytes: &[u8])
    ensures
        final(out)@ == old(out)@ + bytes@,
{
    let mut i: usize = 0;
    while i < bytes.len()
        invariant
            i <= bytes@.len(),
            out@ == old(out)@ + bytes@.subrange(0, i as int),
        decreases bytes@.len() - i,
    {
        out.push(bytes[i]);
        i = i + 1;
        assert(out@ =~= old(out)@ + bytes@.subrange(0, i as int));
    }
    assert(bytes@.subrange(0, bytes@.len() as int) =~= bytes@);
}

/// The length prefix sent before the configuration: the length taken
/// modulo 2^16, as two big-endian bytes.
pub fn config_size_prefix(len: usize) -> (r: [u8; 2])
    ensures
        r@ == be16(len as nat % 65536),
{
    let v: usize = len % 65536;
    let r = [(v / 256) as u8, (v % 256) as u8];
    assert(r@ =~= be16(len as nat % 65536));
    r
}

/// The length of the configuration that a 2-byte prefix announces.
pub fn config_size(size_buffer: [u8; 2]) -> (n: usize)
    ensures
        n == be16_value(size_buffer@),
        n < 65536,
{
    (size_buffer[0] as usize) * 256 + (size_buffer[1] as usize)
}

/// The length prefix sent before a frame: the length taken modulo 2^32, as
/// four big-endian bytes.
pub fn frame_size_prefix(len: usize) -> (r: [u8; 4])
    ensures
        r@ == be32(len as nat % 4294967296),
{
    let v: u64 = (len as u64) % 4294967296;
    let r = [
        (v / 16777216) as u8,
        (v / 65536 % 256) as u8,
        (v / 256 % 256) as u8,
        (v % 256) as u8,
    ];
    assert(r@ =~= be32(len as nat % 4294967296));
    r
}

/// The length of the frame that a 4-byte prefix announces.
pub fn frame_size(size_buffer: [u8; 4]) -> (n: usize)
    ensures
        n == be32_value(size_buffer@),
{
    let v: u64 = (size_buffer[0] as u64) * 16777216 + (size_buffer[1] as u64) * 65536
        + (size_buffer[2] as u64) * 256 + (size_buffer[3] as u64);
    assert(v <= u32::MAX);
    v as usize
}

/// What a camera sends first: the configuration's length prefix, then the configuration.
pub fn config_message(config: &[u8]) -> (r: Vec<u8>)
    ensures
        r@ == be16(config@.len() % 65536) + config@,
{
    let prefix = config_size_prefix(config.len());
    let mut out: Vec<u8> = Vec::new();
    append_bytes(&mut out, &prefix);
    append_bytes(&mut out, config);
    assert(Seq::<u8>::empty() + prefix@ =~= prefix@);
    out
}

/// What a camera sends per frame: the frame's length prefix, then the frame.
pub fn frame_message(frame: &[u8]) -> (r: Vec<u8>)
    ensures
        r@ == be32(frame@.len() % 4294967296) + frame@,
{
    let prefix = frame_size_prefix(frame.len());
    let mut out: Vec<u8> = Vec::new();
    append_bytes(&mut out, &prefix);
    append_bytes(&mut out, frame);
    assert(Seq::<u8>::empty() + prefix@ =~= prefix@);
    out
}

/// Reading back a configuration prefix gives the length that was sent, for
/// every length below 2^16.
pub proof fn lemma_config_size_roundtrip(n: nat)
    requires
        n < 65536,
    ensures
        be16_value(be16(n)) == n,
        be16(n).len() == 2,
{
}

/// Reading back a frame prefix gives the length that was sent, for every
/// length below 2^32.
pub proof fn lemma_frame_size_roundtrip(n: nat)
    requires
        n < 4294967296,
    ensures
        be32_value(be32(n)) == n,
        be32(n).len() == 4,
{
}

/// The prefix of a configuration message announces the length of the
/// configuration behind it, for every configuration below 2^16 bytes.
pub proof fn law_config_message_roundtrip(config: Seq<u8>)
    requires
        config.len() < 65536,
    ensures
        ({
            let m = be16(config.len() % 65536) + config;
            &&& be16_value(m.subrange(0, 2)) == config.len()
            &&& m.subrange(2, m.len() as int) == config
        }),
{
    let m = be16(config.len() % 65536) + config;
    lemma_config_size_roundtrip(config.len());
    assert(m.subrange(0, 2) =~= be16(config.len()));
    assert(m.subrange(2, m.len() as int) =~= config);
}

/// The prefix of a frame message announces the length of the frame behind
/// it, for every frame below 2^32 bytes.
pub proof fn law_frame_message_roundtrip(frame: Seq<u8>)
    requires
        frame.len() < 4294967296,
    ensures
        ({
            let m = be32(frame.len() % 4294967296) + frame;
            &&& be32_value(m.subrange(0, 4)) == frame.len()
            &&& m.subrange(4, m.len() as int) == frame
        }),
{
    let m = be32(frame.len() % 4294967296) + frame;
    lemma_frame_size_roundtrip(frame.len());
    assert(m.subrange(0, 4) =~= be32(frame.len()));
    assert(m.subrange(4, m.len() as int) =~= frame);
}

} // verus!
