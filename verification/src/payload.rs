use vstd::prelude::*;
use vstd::string::StringSliceAdditionalSpecFns;

verus! {

/// The byte of the decimal digit `d` (0 through 9).
pub open spec fn digit_byte(d: int) -> u8 {
    (0x30 + d) as u8
}

/// The decimal rendering of `n` as ASCII bytes, most significant first.
pub open spec fn dec_bytes(n: nat) -> Seq<u8>
    decreases n,
{
    if n < 10 {
        seq![digit_byte(n as int)]
    } else {
        dec_bytes(n / 10).push(digit_byte((n % 10) as int))
    }
}

/// The lower-case hexadecimal digit byte for `d` (0 through 15).
pub open spec fn hex_byte(d: int) -> u8 {
    if d < 10 {
        (0x30 + d) as u8
    } else {
        (0x57 + d) as u8
    }
}

/// How one byte of a string appears inside a JSON string literal:
/// quote and backslash are escaped, control bytes become `\u00XX`,
/// every other byte (including UTF-8 continuation bytes) stands as is.
pub open spec fn escaped_byte(b: u8) -> Seq<u8> {
    if b == 0x22 {  // quote
        seq![0x5c, 0x22]
    } else if b == 0x5c {  // backslash
        seq![0x5c, 0x5c]
    } else if b < 0x20 {  // control byte
        seq![0x5c, 0x75, 0x30, 0x30, hex_byte(b as int / 16), hex_byte(b as int % 16)]
    } else {
        seq![b]
    }
}

/// A byte string escaped for inclusion in a JSON string literal.
pub open spec fn json_escaped(s: Seq<u8>) -> Seq<u8>
    decreases s.len(),
{
    if s.len() == 0 {
        Seq::empty()
    } else {
        json_escaped(s.drop_last()) + escaped_byte(s.last())
    }
}

/// The bytes of `{"module_id":` — the opening of a spawn-event payload.
pub open spec fn payload_open() -> Seq<u8> {
    // { " m o d u l e _ i d " :
    seq![0x7b, 0x22, 0x6d, 0x6f, 0x64, 0x75, 0x6c, 0x65, 0x5f, 0x69, 0x64, 0x22, 0x3a]
}

/// The bytes of `,"name":"` — between the id and the name.
pub open spec fn payload_mid() -> Seq<u8> {
    // , " n a m e " : "
    seq![0x2c, 0x22, 0x6e, 0x61, 0x6d, 0x65, 0x22, 0x3a, 0x22]
}

/// The bytes of `"}` — the close of a spawn-event payload.
pub open spec fn payload_close() -> Seq<u8> {
    seq![0x22, 0x7d]
}

/// The payload of a `module_spawned` event: a JSON object carrying the
/// new module's id and its name, as UTF-8 bytes.
pub open spec fn spawn_payload(id: u64, name_bytes: Seq<u8>) -> Seq<u8> {
    payload_open() + dec_bytes(id as nat) + payload_mid() + json_escaped(name_bytes)
        + payload_close()
}

fn push_dec_bytes(out: &mut Vec<u8>, n: u64)
    ensures
        final(out)@ == old(out)@ + dec_bytes(n as nat),
    decreases n,
{
    if n >= 10 {
        push_dec_bytes(out, n / 10);
    }
    out.push(0x30 + (n % 10) as u8);
    proof {
        assert(out@ =~= old(out)@ + dec_bytes(n as nat));
    }
}

fn hex_byte_exec(d: u8) -> (r: u8)
    requires
        d < 16,
    ensures
        r == hex_byte(d as int),
{
    if d < 10 {
        0x30 + d
    } else {
        0x57 + d
    }
}

fn push_escaped(out: &mut Vec<u8>, bytes: &[u8])
    ensures
        final(out)@ == old(out)@ + json_escaped(bytes@),
{
    let n = bytes.len();
    let mut i: usize = 0;
    proof {
        assert(out@ =~= old(out)@ + json_escaped(bytes@.take(0)));
    }
    while i < n
        invariant
            n == bytes@.len(),
            i <= n,
            out@ == old(out)@ + json_escaped(bytes@.take(i as int)),
        decreases n - i,
    {
        let b = bytes[i];
        if b == 0x22 {
            out.push(0x5c);
            out.push(0x22);
        } else if b == 0x5c {
            out.push(0x5c);
            out.push(0x5c);
        } else if b < 0x20 {
            out.push(0x5c);
            out.push(0x75);
            out.push(0x30);
            out.push(0x30);
            out.push(hex_byte_exec(b / 16));
            out.push(hex_byte_exec(b % 16));
        } else {
            out.push(b);
        }
        proof {
            let pre = bytes@.take(i as int);
            let cur = bytes@.take(i as int + 1);
            assert(cur.drop_last() =~= pre);
            assert(cur.last() == bytes@[i as int]);
            assert(out@ =~= old(out)@ + json_escaped(cur));
        }
        i = i + 1;
    }
    proof {
        assert(bytes@.take(n as int) =~= bytes@);
    }
}

/// Encode the payload of a `module_spawned` event from the new module's
/// id and its caller-supplied name.
pub fn encode_spawn_payload(id: u64, name: &str) -> (r: Vec<u8>)
    ensures
        r@ == spawn_payload(id, name.spec_bytes()),
{
    let mut out: Vec<u8> = Vec::new();
    out.push(0x7b);
    out.push(0x22);
    out.push(0x6d);
    out.push(0x6f);
    out.push(0x64);
    out.push(0x75);
    out.push(0x6c);
    out.push(0x65);
    out.push(0x5f);
    out.push(0x69);
    out.push(0x64);
    out.push(0x22);
    out.push(0x3a);
    proof {
        assert(out@ =~= payload_open());
    }
    push_dec_bytes(&mut out, id);
    out.push(0x2c);
    out.push(0x22);
    out.push(0x6e);
    out.push(0x61);
    out.push(0x6d);
    out.push(0x65);
    out.push(0x22);
    out.push(0x3a);
    out.push(0x22);
    proof {
        assert(out@ =~= payload_open() + dec_bytes(id as nat) + payload_mid());
    }
    push_escaped(&mut out, name.as_bytes());
    out.push(0x22);
    out.push(0x7d);
    proof {
        assert(out@ =~= spawn_payload(id, name.spec_bytes()));
    }
    out
}

} // verus!
