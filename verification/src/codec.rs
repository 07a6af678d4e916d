use vstd::prelude::*;

verus! {

// ---------------------------------------------------------------------------
// Standard base64 (RFC 4648, section 4: `A-Z a-z 0-9 + /`, `=` padding)
// ---------------------------------------------------------------------------

/// The character of the standard base64 alphabet for the six-bit value `v`.
pub open spec fn base64_char(v: int) -> char {
    if v < 26 {
        (65 + v) as char
    } else if v < 52 {
        (97 + (v - 26)) as char
    } else if v < 62 {
        (48 + (v - 52)) as char
    } else if v == 62 {
        '+'
    } else {
        '/'
    }
}

/// The six-bit value of a character of the standard base64 alphabet, or -1
/// for any other character.
pub open spec fn base64_value(c: char) -> int {
    let u = c as u32 as int;
    if 65 <= u <= 90 {
        u - 65
    } else if 97 <= u <= 122 {
        u - 71
    } else if 48 <= u <= 57 {
        u + 4
    } else if c == '+' {
        62
    } else if c == '/' {
        63
    } else {
        -1
    }
}

/// The four characters that encode three bytes.
pub open spec fn base64_group(b0: int, b1: int, b2: int) -> Seq<char> {
    seq![
        base64_char(b0 / 4),
        base64_char((b0 % 4) * 16 + b1 / 16),
        base64_char((b1 % 16) * 4 + b2 / 64),
        base64_char(b2 % 64),
    ]
}

/// The standard base64 encoding of `data`, with padding: every three bytes
/// become four characters; a last byte or two become two or three
/// characters and `=` to fill four.
pub open spec fn base64_encode(data: Seq<u8>) -> Seq<char>
    decreases data.len(),
{
    if data.len() == 0 {
        Seq::empty()
    } else if data.len() == 1 {
        seq![base64_char((data[0] as int) / 4), base64_char(((data[0] as int) % 4) * 16), '=', '=']
    } else if data.len() == 2 {
        seq![
            base64_char((data[0] as int) / 4),
            base64_char(((data[0] as int) % 4) * 16 + (data[1] as int) / 16),
            base64_char(((data[1] as int) % 16) * 4),
            '=',
        ]
    } else {
        base64_group((data[0] as int), (data[1] as int), (data[2] as int)) + base64_encode(data.skip(3))
    }
}

/// The bytes that standard base64 text encodes, or nothing where it is not
/// such text.
pub open spec fn base64_decode(text: Seq<char>) -> Option<Seq<u8>>
    decreases text.len(),
{
    if text.len() == 0 {
        Some(Seq::empty())
    } else if text.len() < 4 {
        None
    } else {
        let v0 = base64_value(text[0]);
        let v1 = base64_value(text[1]);
        let v2 = base64_value(text[2]);
        let v3 = base64_value(text[3]);
        if v0 < 0 || v1 < 0 {
            None
        } else if text.len() == 4 && text[2] == '=' && text[3] == '=' {
            Some(seq![(v0 * 4 + v1 / 16) as u8])
        } else if v2 < 0 {
            None
        } else if text.len() == 4 && text[3] == '=' {
            Some(seq![(v0 * 4 + v1 / 16) as u8, ((v1 % 16) * 16 + v2 / 4) as u8])
        } else if v3 < 0 {
            None
        } else {
            match base64_decode(text.skip(4)) {
                Some(rest) => Some(
                    seq![
                        (v0 * 4 + v1 / 16) as u8,
                        ((v1 % 16) * 16 + v2 / 4) as u8,
                        ((v2 % 4) * 64 + v3) as u8,
                    ] + rest,
                ),
                None => None,
            }
        }
    }
}

/// Each six-bit value has its own character, which is not the padding.
pub proof fn lemma_base64_char(v: int)
    requires
        0 <= v < 64,
    ensures
        base64_value(base64_char(v)) == v,
        base64_char(v) != '=',
{
}

/// Decoding gives back the bytes that were encoded.
pub proof fn lemma_base64_round_trip(data: Seq<u8>)
    ensures
        base64_decode(base64_encode(data)) == Some(data),
    decreases data.len(),
{
    if data.len() == 0 {
    } else if data.len() == 1 {
        let b0 = data[0] as int;
        lemma_base64_char(b0 / 4);
        lemma_base64_char((b0 % 4) * 16);
        assert(((b0 / 4) * 4 + ((b0 % 4) * 16) / 16) == b0);
        assert(seq![data[0]] =~= data);
    } else if data.len() == 2 {
        let b0 = data[0] as int;
        let b1 = data[1] as int;
        lemma_base64_char(b0 / 4);
        lemma_base64_char((b0 % 4) * 16 + b1 / 16);
        lemma_base64_char((b1 % 16) * 4);
        assert(((b0 / 4) * 4 + ((b0 % 4) * 16 + b1 / 16) / 16) == b0);
        assert(((((b0 % 4) * 16 + b1 / 16) % 16) * 16 + ((b1 % 16) * 4) / 4) == b1);
        assert(seq![data[0], data[1]] =~= data);
    } else {
        let b0 = data[0] as int;
        let b1 = data[1] as int;
        let b2 = data[2] as int;
        let rest = data.skip(3);
        lemma_base64_round_trip(rest);
        let text = base64_encode(data);
        let v0 = b0 / 4;
        let v1 = (b0 % 4) * 16 + b1 / 16;
        let v2 = (b1 % 16) * 4 + b2 / 64;
        let v3 = b2 % 64;
        lemma_base64_char(v0);
        lemma_base64_char(v1);
        lemma_base64_char(v2);
        lemma_base64_char(v3);
        assert(text.skip(4) =~= base64_encode(rest));
        assert(text[0] == base64_char(v0));
        assert(text[1] == base64_char(v1));
        assert(text[2] == base64_char(v2));
        assert(text[3] == base64_char(v3));
        assert((v0 * 4 + v1 / 16) == b0);
        assert(((v1 % 16) * 16 + v2 / 4) == b1);
        assert(((v2 % 4) * 64 + v3) == b2);
        if base64_encode(rest).len() == 0 {
            assert(rest.len() == 0) by {
                if rest.len() > 0 {
                    assert(base64_encode(rest).len() > 0);
                }
            }
        }
        assert(seq![data[0], data[1], data[2]] + rest =~= data);
    }
}

} // verus!
