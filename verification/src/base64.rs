//! Standard base64 (RFC 4648), so that audio can ride inside a JSON body.
use vstd::prelude::*;

verus! {

/// The letter of a value below 64: `A`-`Z`, `a`-`z`, `0`-`9`, `+`, `/`.
pub open spec fn letter(n: int) -> char {
    if n < 26 {
        (65 + n) as u8 as char
    } else if n < 52 {
        (97 + (n - 26)) as u8 as char
    } else if n < 62 {
        (48 + (n - 52)) as u8 as char
    } else if n == 62 {
        '+'
    } else {
        '/'
    }
}

/// The four letters of three bytes: six bits each, the highest first.
pub open spec fn group(a: u8, b: u8, c: u8) -> Seq<char> {
    seq![
        letter(a as int / 4),
        letter((a as int % 4) * 16 + b as int / 16),
        letter((b as int % 16) * 4 + c as int / 64),
        letter(c as int % 64),
    ]
}

/// The base64 text of some bytes: four letters for each three of them; the
/// letters that a shorter last group does not reach are `=`.
pub open spec fn base64_text(bytes: Seq<u8>) -> Seq<char>
    decreases bytes.len(),
{
    if bytes.len() == 0 {
        Seq::empty()
    } else if bytes.len() == 1 {
        group(bytes[0], 0, 0).take(2) + seq!['=', '=']
    } else if bytes.len() == 2 {
        group(bytes[0], bytes[1], 0).take(3) + seq!['=']
    } else {
        group(bytes[0], bytes[1], bytes[2]) + base64_text(bytes.skip(3))
    }
}

fn letter_of(n: u8) -> (r: char)
    requires
        n < 64,
    ensures
        r == letter(n as int),
{
    if n < 26 {
        (65u8 + n) as char
    } else if n < 52 {
        (97u8 + (n - 26)) as char
    } else if n < 62 {
        (48u8 + (n - 52)) as char
    } else if n == 62 {
        '+'
    } else {
        '/'
    }
}

/// Encodes bytes as base64.
pub fn encode_base64(bytes: &[u8]) -> (r: String)
    ensures
        r@ == base64_text(bytes@),
{
    let ghost all = bytes@;
    let mut out = String::new();
    let mut i: usize = 0;
    assert(all.skip(0) =~= all);
    while i < bytes.len()
        invariant
            i <= bytes@.len(),
            all == bytes@,
            base64_text(all) == out@ + base64_text(all.skip(i as int)),
        decreases bytes@.len() - i,
    {
        let ghost rest = all.skip(i as int);
        let left: usize = bytes.len() - i;
        let a: u8 = bytes[i];
        let b: u8 = if left > 1 {
            bytes[i + 1]
        } else {
            0
        };
        let c: u8 = if left > 2 {
            bytes[i + 2]
        } else {
            0
        };
        out.push(letter_of(a / 4));
        out.push(letter_of((a % 4) * 16 + b / 16));
        if left > 1 {
            out.push(letter_of((b % 16) * 4 + c / 64));
        } else {
            out.push('=');
        }
        if left > 2 {
            out.push(letter_of(c % 64));
        } else {
            out.push('=');
        }
        proof {
            if left > 2 {
                assert(rest.skip(3) =~= all.skip(i + 3));
            }
        }
        if left > 2 {
            i += 3;
        } else {
            i = bytes.len();
        }
    }
    out
}

/// The value of a letter.
pub open spec fn letter_value(c: char) -> Option<int> {
    if 'A' <= c <= 'Z' {
        Some(c as u32 as int - 65)
    } else if 'a' <= c <= 'z' {
        Some(c as u32 as int - 97 + 26)
    } else if '0' <= c <= '9' {
        Some(c as u32 as int - 48 + 52)
    } else if c == '+' {
        Some(62)
    } else if c == '/' {
        Some(63)
    } else {
        None
    }
}

/// The bytes that a base64 text stands for.
pub open spec fn base64_bytes(text: Seq<char>) -> Option<Seq<u8>>
    decreases text.len(),
{
    if text.len() == 0 {
        Some(Seq::empty())
    } else if text.len() < 4 {
        None
    } else {
        match (letter_value(text[0]), letter_value(text[1])) {
            (Some(p), Some(q)) => {
                let first = (p * 4 + q / 16) as u8;
                match (letter_value(text[2]), letter_value(text[3])) {
                    (Some(r), Some(s)) => match base64_bytes(text.skip(4)) {
                        Some(rest) => Some(
                            seq![
                                first,
                                ((q % 16) * 16 + r / 4) as u8,
                                ((r % 4) * 64 + s) as u8,
                            ] + rest,
                        ),
                        None => None,
                    },
                    (Some(r), None) => if text.len() == 4 && text[3] == '=' {
                        Some(seq![first, ((q % 16) * 16 + r / 4) as u8])
                    } else {
                        None
                    },
                    (None, None) => if text.len() == 4 && text[2] == '=' && text[3] == '=' {
                        Some(seq![first])
                    } else {
                        None
                    },
                    _ => None,
                }
            },
            _ => None,
        }
    }
}

/// The bytes are read back from their base64 text.
#[verifier::spinoff_prover]
pub proof fn law_base64_is_reversible(bytes: Seq<u8>)
    ensures
        base64_bytes(base64_text(bytes)) == Some(bytes),
    decreases bytes.len(),
{
    if bytes.len() > 2 {
        assert(base64_text(bytes).skip(4) =~= base64_text(bytes.skip(3)));
        law_base64_is_reversible(bytes.skip(3));
    }
}

/// A base64 text has four characters for every three bytes, the last group
/// rounded up.
pub proof fn law_base64_length(bytes: Seq<u8>)
    ensures
        base64_text(bytes).len() == (bytes.len() + 2) / 3 * 4,
    decreases bytes.len(),
{
    if bytes.len() > 2 {
        law_base64_length(bytes.skip(3));
    }
}

/// The letters of base64 are the sixty-four of its standard alphabet, in their
/// order.
pub proof fn law_base64_alphabet(n: int)
    requires
        0 <= n < 64,
    ensures
        letter(n) == "ABCDEFGHIJKLMNOPQRSTUVWXYZabcdefghijklmnopqrstuvwxyz0123456789+/"@[n],
{
    reveal_strlit("ABCDEFGHIJKLMNOPQRSTUVWXYZabcdefghijklmnopqrstuvwxyz0123456789+/");
}

/// Three bytes, read as one number, are written as its four digits to the base
/// of 64, the highest first; a last group of one or two bytes is filled up with
/// zeros, and the digits that nothing of it reaches are `=`.
#[verifier::spinoff_prover]
pub proof fn law_base64_writes_six_bits_a_letter(a: u8, b: u8, c: u8, rest: Seq<u8>)
    ensures
        ({
            let n = a * 65536 + b * 256 + c;
            base64_text(seq![a, b, c] + rest) == seq![
                letter(n / 262144),
                letter(n / 4096 % 64),
                letter(n / 64 % 64),
                letter(n % 64),
            ] + base64_text(rest)
        }),
        base64_text(seq![a, b]) == seq![
            letter((a * 65536 + b * 256) / 262144),
            letter((a * 65536 + b * 256) / 4096 % 64),
            letter((a * 65536 + b * 256) / 64 % 64),
            '=',
        ],
        base64_text(seq![a]) == seq![
            letter((a * 65536) / 262144),
            letter((a * 65536) / 4096 % 64),
            '=',
            '=',
        ],
        base64_text(Seq::empty()) == Seq::<char>::empty(),
{
    let whole = seq![a, b, c] + rest;
    lemma_four_digits(a, b, c);
    lemma_four_digits(a, b, 0);
    lemma_four_digits(a, 0, 0);
    assert(whole.skip(3) =~= rest);
    assert(whole[0] == a && whole[1] == b && whole[2] == c);
    assert(base64_text(whole) == group(a, b, c) + base64_text(rest));
    let two = group(a, b, 0);
    assert(two.take(3) + seq!['='] =~= seq![two[0], two[1], two[2], '=']);
    assert(base64_text(seq![a, b]) == two.take(3) + seq!['=']);
    let one = group(a, 0, 0);
    assert(one.take(2) + seq!['=', '='] =~= seq![one[0], one[1], '=', '=']);
    assert(base64_text(seq![a]) == one.take(2) + seq!['=', '=']);
}

#[verifier::spinoff_prover]
proof fn lemma_four_digits(a: u8, b: u8, c: u8)
    ensures
        ({
            let n = a * 65536 + b * 256 + c;
            &&& n / 262144 == a as int / 4
            &&& n / 4096 % 64 == (a as int % 4) * 16 + b as int / 16
            &&& n / 64 % 64 == (b as int % 16) * 4 + c as int / 64
            &&& n % 64 == c as int % 64
        }),
{
    let n = a * 65536 + b * 256 + c;
    assert(n / 262144 == a as int / 4);
    assert(n / 4096 == a * 16 + b as int / 16);
    assert(n / 64 == a * 1024 + b * 4 + c as int / 64);
}

} // verus!
