use vstd::prelude::*;

verus! {

#[verifier::external_type_specification]
#[verifier::external_body]
pub struct ExIoError(std::io::Error);

/// The base64 digit for a six-bit value: `A`-`Z`, `a`-`z`, `0`-`9`, `+`, `/`.
pub open spec fn b64_digit(v: int) -> u8 {
    if v < 26 {
        (65 + v) as u8
    } else if v < 52 {
        (97 + v - 26) as u8
    } else if v < 62 {
        (48 + v - 52) as u8
    } else if v == 62 {
        43u8
    } else {
        47u8
    }
}

/// The four digits of three bytes.
pub open spec fn b64_full(b0: u8, b1: u8, b2: u8) -> Seq<u8> {
    seq![
        b64_digit((b0 / 4) as int),
        b64_digit(((b0 % 4) * 16 + b1 / 16) as int),
        b64_digit(((b1 % 16) * 4 + b2 / 64) as int),
        b64_digit((b2 % 64) as int),
    ]
}

/// The digits of the last one or two bytes, without padding: two digits for one byte,
/// three for two.
pub open spec fn b64_partial(rest: Seq<u8>) -> Seq<u8> {
    if rest.len() == 1 {
        seq![b64_digit((rest[0] / 4) as int), b64_digit(((rest[0] % 4) * 16) as int)]
    } else if rest.len() == 2 {
        seq![
            b64_digit((rest[0] / 4) as int),
            b64_digit(((rest[0] % 4) * 16 + rest[1] / 16) as int),
            b64_digit(((rest[1] % 16) * 4) as int),
        ]
    } else {
        Seq::empty()
    }
}

/// The digits of the whole groups of three bytes among the first `3 * n`.
pub open spec fn b64_groups(bytes: Seq<u8>, n: int) -> Seq<u8>
    decreases n,
{
    if n <= 0 {
        Seq::empty()
    } else {
        b64_groups(bytes, n - 1) + b64_full(
            bytes[3 * (n - 1)],
            bytes[3 * (n - 1) + 1],
            bytes[3 * (n - 1) + 2],
        )
    }
}

/// `bytes` in base64, without padding.
pub open spec fn b64_encode(bytes: Seq<u8>) -> Seq<u8> {
    let n = (bytes.len() / 3) as int;
    b64_groups(bytes, n) + b64_partial(bytes.subrange(3 * n, bytes.len() as int))
}

fn digit(v: u8) -> (r: u8)
    requires
        v < 64,
    ensures
        r == b64_digit(v as int),
{
    if v < 26 {
        65 + v
    } else if v < 52 {
        97 + (v - 26)
    } else if v < 62 {
        48 + (v - 52)
    } else if v == 62 {
        43
    } else {
        47
    }
}

/// Appends the four digits of a group of three bytes.
fn convert_full_bytes_to_b64(bytes: &[u8], buf: &mut Vec<u8>)
    requires
        bytes@.len() == 3,
    ensures
        final(buf)@ == old(buf)@ + b64_full(bytes@[0], bytes@[1], bytes@[2]),
{
    let b0 = bytes[0];
    let b1 = bytes[1];
    let b2 = bytes[2];
    buf.push(digit(b0 / 4));
    buf.push(digit((b0 % 4) * 16 + b1 / 16));
    buf.push(digit((b1 % 16) * 4 + b2 / 64));
    buf.push(digit(b2 % 64));
}

/// Appends the digits of the last one or two bytes; nothing for none, a full group for
/// three.
fn convert_partial_bytes_to_b64(bytes: &[u8], buf: &mut Vec<u8>)
    requires
        bytes@.len() <= 3,
    ensures
        bytes@.len() < 3 ==> final(buf)@ == old(buf)@ + b64_partial(bytes@),
        bytes@.len() == 3 ==> final(buf)@ == old(buf)@ + b64_full(bytes@[0], bytes@[1], bytes@[2]),
{
    if bytes.len() == 1 {
        let b0 = bytes[0];
        buf.push(digit(b0 / 4));
        buf.push(digit((b0 % 4) * 16));
    } else if bytes.len() == 2 {
        let b0 = bytes[0];
        let b1 = bytes[1];
        buf.push(digit(b0 / 4));
        buf.push(digit((b0 % 4) * 16 + b1 / 16));
        buf.push(digit((b1 % 16) * 4));
    } else if bytes.len() == 3 {
        convert_full_bytes_to_b64(bytes, buf);
    } else {
        proof {
            assert(b64_partial(bytes@) == Seq::<u8>::empty());
        }
    }
}

/// The bytes in base64, without padding: four digits for every three bytes, then two for a
/// last single byte or three for a last pair. Never fails.
pub fn read_bytes_to_b64(bytes: &[u8]) -> (r: Result<Vec<u8>, std::io::Error>)
    ensures
        r is Ok,
        r->Ok_0@ == b64_encode(bytes@),
{
    let len = bytes.len();
    let n = len / 3;
    proof {
        assert(3 * n <= len) by (nonlinear_arith)
            requires
                n == len / 3,
        ;
    }
    let mut out: Vec<u8> = Vec::new();
    let mut i: usize = 0;
    while i < n
        invariant
            len == bytes@.len(),
            n == bytes@.len() / 3,
            3 * n <= len,
            i <= n,
            out@ == b64_groups(bytes@, i as int),
        decreases n - i,
    {
        let chunk = slice_of(bytes, 3 * i, 3 * i + 3);
        convert_full_bytes_to_b64(chunk, &mut out);
        i = i + 1;
    }
    let rest = slice_of(bytes, 3 * n, bytes.len());
    convert_partial_bytes_to_b64(rest, &mut out);
    Ok(out)
}

/// The bytes `from..to` of `bytes`.
fn slice_of(bytes: &[u8], from: usize, to: usize) -> (r: &[u8])
    requires
        from <= to <= bytes@.len(),
    ensures
        r@ == bytes@.subrange(from as int, to as int),
{
    vstd::slice::slice_subrange(bytes, from, to)
}

} // verus!
