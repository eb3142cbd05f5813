use vstd::prelude::*;
use vstd::string::StringSliceAdditionalSpecFns;

verus! {

/// The base64 alphabet character for a 6-bit value.
pub open spec fn spec_b64_char(v: nat) -> char {
    "ABCDEFGHIJKLMNOPQRSTUVWXYZabcdefghijklmnopqrstuvwxyz0123456789+/"@[v as int]
}

/// Standard base64 with `=` padding, three input bytes to four output
/// characters.
pub open spec fn spec_base64(data: Seq<u8>) -> Seq<char>
    decreases data.len(),
{
    if data.len() == 0 {
        Seq::empty()
    } else {
        let b0 = data[0] as nat;
        let b1: nat = if data.len() > 1 {
            data[1] as nat
        } else {
            0
        };
        let b2: nat = if data.len() > 2 {
            data[2] as nat
        } else {
            0
        };
        let triple = b0 * 65536 + b1 * 256 + b2;
        let head = seq![
            spec_b64_char((triple / 262144) % 64),
            spec_b64_char((triple / 4096) % 64),
            if data.len() > 1 {
                spec_b64_char((triple / 64) % 64)
            } else {
                '='
            },
            if data.len() > 2 {
                spec_b64_char(triple % 64)
            } else {
                '='
            },
        ];
        if data.len() <= 3 {
            head
        } else {
            head + spec_base64(data.skip(3))
        }
    }
}

fn append_b64_char(out: &mut String, v: u32)
    requires
        v < 64,
    ensures
        final(out)@ == old(out)@ + seq![spec_b64_char(v as nat)],
{
    let table = "ABCDEFGHIJKLMNOPQRSTUVWXYZabcdefghijklmnopqrstuvwxyz0123456789+/";
    proof {
        reveal_strlit("ABCDEFGHIJKLMNOPQRSTUVWXYZabcdefghijklmnopqrstuvwxyz0123456789+/");
    }
    let piece = table.substring_char(v as usize, v as usize + 1);
    out.append(piece);
    proof {
        assert(piece@ =~= seq![spec_b64_char(v as nat)]);
    }
}

/// Encodes bytes as base64 text.
pub fn base64_encode(data: &Vec<u8>) -> (r: String)
    ensures
        r@ == spec_base64(data@),
{
    let mut out = String::new();
    proof {
        assert(data@.skip(0) =~= data@);
        assert(out@ + spec_base64(data@.skip(0)) =~= spec_base64(data@));
    }
    let mut i: usize = 0;
    while i < data.len()
        invariant
            0 <= i <= data@.len(),
            spec_base64(data@) == out@ + spec_base64(data@.skip(i as int)),
        decreases data@.len() - i,
    {
        let ghost rest = data@.skip(i as int);
        let remaining = data.len() - i;
        let b0 = data[i] as u32;
        let b1: u32 = if remaining > 1 {
            data[i + 1] as u32
        } else {
            0
        };
        let b2: u32 = if remaining > 2 {
            data[i + 2] as u32
        } else {
            0
        };
        let triple: u32 = b0 * 65536 + b1 * 256 + b2;
        proof {
            assert(rest.len() == data@.len() - i);
            assert(rest[0] == data@[i as int]);
            if rest.len() > 1 {
                assert(rest[1] == data@[i + 1]);
            }
            if rest.len() > 2 {
                assert(rest[2] == data@[i + 2]);
            }
        }
        append_b64_char(&mut out, (triple / 262144) % 64);
        append_b64_char(&mut out, (triple / 4096) % 64);
        if remaining > 1 {
            append_b64_char(&mut out, (triple / 64) % 64);
        } else {
            out.append("=");
            proof {
                reveal_strlit("=");
                assert("="@ =~= seq!['=']);
            }
        }
        if remaining > 2 {
            append_b64_char(&mut out, triple % 64);
        } else {
            out.append("=");
            proof {
                reveal_strlit("=");
                assert("="@ =~= seq!['=']);
            }
        }
        if remaining > 3 {
            proof {
                assert(rest.skip(3) =~= data@.skip(i + 3));
            }
            i += 3;
        } else {
            proof {
                assert(data@.skip(data@.len() as int) =~= Seq::<u8>::empty());
            }
            i = data.len();
        }
    }
    proof {
        assert(data@.skip(data@.len() as int) =~= Seq::<u8>::empty());
        assert(spec_base64(data@) =~= out@ + spec_base64(Seq::<u8>::empty()));
    }
    out
}

/// Rounds up to the next multiple of four.
#[verifier::opaque]
pub open spec fn spec_pad4(n: nat) -> nat {
    ((n + 3) / 4) * 4
}

/// The little-endian bytes of a 32-bit value.
pub open spec fn spec_u32_le(x: u32) -> Seq<u8> {
    seq![
        (x % 256) as u8,
        ((x / 256) % 256) as u8,
        ((x / 65536) % 256) as u8,
        ((x / 16777216) % 256) as u8,
    ]
}

/// One chunk of a binary glTF container: its padded length, its type tag,
/// the payload, and padding bytes up to the padded length.
#[verifier::opaque]
pub open spec fn spec_glb_chunk(tag: u32, payload: Seq<u8>, padded: nat, pad_byte: u8) -> Seq<u8> {
    spec_u32_le(padded as u32) + spec_u32_le(tag) + payload + Seq::new(
        (padded - payload.len()) as nat,
        |k: int| pad_byte,
    )
}

/// A complete binary glTF container: the 12-byte header, the JSON chunk
/// padded with spaces to a multiple of four bytes, and, when `bin` is not
/// empty, the binary chunk padded with zero bytes.
pub open spec fn spec_glb(json: Seq<u8>, bin: Seq<u8>) -> Seq<u8> {
    let jpad = spec_pad4(json.len());
    let bpad = spec_pad4(bin.len());
    let total: nat = if bin.len() == 0 {
        12 + 8 + jpad
    } else {
        12 + 8 + jpad + 8 + bpad
    };
    seq![0x67u8, 0x6cu8, 0x54u8, 0x46u8] + spec_u32_le(2) + spec_u32_le(total as u32)
        + spec_glb_chunk(0x4E4F534A, json, jpad, 32) + if bin.len() == 0 {
        Seq::empty()
    } else {
        spec_glb_chunk(0x004E4942, bin, bpad, 0)
    }
}

proof fn lemma_glb_chunk_len(tag: u32, payload: Seq<u8>, padded: nat, pad_byte: u8)
    requires
        payload.len() <= padded,
    ensures
        spec_glb_chunk(tag, payload, padded, pad_byte).len() == 8 + padded,
{
    reveal(spec_glb_chunk);
}

proof fn lemma_pad4(n: nat)
    ensures
        n <= spec_pad4(n) < n + 4,
        spec_pad4(n) % 4 == 0,
        spec_pad4(n) == ((n + 3) / 4) * 4,
{
    reveal(spec_pad4);
    let x = (n + 3) as int;
    vstd::arithmetic::div_mod::lemma_fundamental_div_mod(x, 4);
    vstd::arithmetic::div_mod::lemma_mod_bound(x, 4);
    vstd::arithmetic::div_mod::lemma_mod_multiples_basic(x / 4, 4);
}

fn push_u32_le(out: &mut Vec<u8>, x: u32)
    ensures
        final(out)@ == old(out)@ + spec_u32_le(x),
{
    out.push((x % 256) as u8);
    out.push(((x / 256) % 256) as u8);
    out.push(((x / 65536) % 256) as u8);
    out.push(((x / 16777216) % 256) as u8);
    proof {
        assert(out@ =~= old(out)@ + spec_u32_le(x));
    }
}

/// Appends one chunk: the padded length, the type tag, the payload, and
/// padding bytes of `pad_byte` up to `padded_len`.
fn append_glb_chunk(out: &mut Vec<u8>, tag: u32, payload: &[u8], padded_len: usize, pad_byte: u8)
    requires
        payload@.len() <= padded_len,
    ensures
        final(out)@ == old(out)@ + spec_glb_chunk(tag, payload@, padded_len as nat, pad_byte),
{
    push_u32_le(out, padded_len as u32);
    push_u32_le(out, tag);
    let ghost head = old(out)@ + spec_u32_le(padded_len as u32) + spec_u32_le(tag);
    proof {
        assert(out@ =~= head);
    }
    let mut k: usize = 0;
    let payload_len = payload.len();
    while k < payload_len
        invariant
            0 <= k <= payload@.len(),
            payload_len == payload@.len(),
            out@ == head + payload@.subrange(0, k as int),
        decreases payload@.len() - k,
    {
        out.push(payload[k]);
        proof {
            assert(head + payload@.subrange(0, k as int) + seq![payload@[k as int]] =~= head
                + payload@.subrange(0, k + 1 as int));
        }
        k += 1;
    }
    proof {
        assert(payload@.subrange(0, payload@.len() as int) =~= payload@);
    }
    let mut p: usize = 0;
    let padding = padded_len - payload_len;
    while p < padding
        invariant
            0 <= p <= padding,
            out@ == head + payload@ + Seq::new(p as nat, |q: int| pad_byte),
        decreases padding - p,
    {
        out.push(pad_byte);
        proof {
            assert(head + payload@ + Seq::new(p as nat, |q: int| pad_byte) + seq![pad_byte] =~= head
                + payload@ + Seq::new((p + 1) as nat, |q: int| pad_byte));
        }
        p += 1;
    }
    proof {
        reveal(spec_glb_chunk);
        assert(out@ =~= old(out)@ + spec_glb_chunk(tag, payload@, padded_len as nat, pad_byte));
    }
}

/// Assembles a binary glTF container from a JSON string and a binary
/// buffer.
///
/// The JSON chunk is padded with spaces and the binary chunk with zero
/// bytes, each to four-byte alignment; the header's total length field
/// counts every byte of the result.  An empty binary buffer produces a
/// container with the JSON chunk alone.
pub fn build_glb(json_str: &str, bin_buffer: &Vec<u8>) -> (glb: Vec<u8>)
    requires
        json_str.spec_bytes().len() + bin_buffer@.len() + 36 < 0x1_0000_0000,
    ensures
        glb@ == spec_glb(json_str.spec_bytes(), bin_buffer@),
        glb@.len() % 4 == 0,
{
    let ghost json = json_str.spec_bytes();
    let ghost bin = bin_buffer@;
    proof {
        lemma_pad4(json.len());
        lemma_pad4(bin.len());
    }
    let json_bytes = json_str.as_bytes();
    let json_len = json_bytes.len();
    let json_padded_len = (json_len + 3) / 4 * 4;
    let bin_len = bin_buffer.len();
    let bin_padded_len = (bin_len + 3) / 4 * 4;
    let total_length: usize = if bin_len == 0 {
        12 + 8 + json_padded_len
    } else {
        12 + 8 + json_padded_len + 8 + bin_padded_len
    };

    let mut glb: Vec<u8> = Vec::new();
    glb.push(0x67);
    glb.push(0x6c);
    glb.push(0x54);
    glb.push(0x46);
    push_u32_le(&mut glb, 2);
    push_u32_le(&mut glb, total_length as u32);
    let ghost head = seq![0x67u8, 0x6cu8, 0x54u8, 0x46u8] + spec_u32_le(2) + spec_u32_le(
        total_length as u32,
    );
    proof {
        assert(glb@ =~= head);
    }
    append_glb_chunk(&mut glb, 0x4E4F534A, json_bytes, json_padded_len, 32);
    if bin_len > 0 {
        append_glb_chunk(&mut glb, 0x004E4942, bin_buffer.as_slice(), bin_padded_len, 0);
    }
    proof {
        assert(json_padded_len as nat == spec_pad4(json.len()));
        assert(bin_padded_len as nat == spec_pad4(bin.len()));
        lemma_glb_chunk_len(0x4E4F534A, json, spec_pad4(json.len()), 32);
        lemma_glb_chunk_len(0x004E4942, bin, spec_pad4(bin.len()), 0);
        assert(glb@.len() == total_length);
    }
    glb
}

} // verus!
