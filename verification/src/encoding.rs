//! Base64, in which audio travels inside text messages.

use vstd::prelude::*;

verus! {

/// The character for six bits: the standard alphabet, with `+` and `/`.
pub open spec fn sextet_char(sextet: int) -> char {
    if sextet < 26 {
        (65 + sextet) as char
    } else if sextet < 52 {
        (71 + sextet) as char
    } else if sextet < 62 {
        (sextet - 4) as char
    } else if sextet == 62 {
        '+'
    } else {
        '/'
    }
}

/// Three bytes as four characters; missing bytes at the end are zero bits, and
/// padding stands for the characters that they alone would fill.
pub open spec fn quantum(group: Seq<u8>) -> Seq<char> {
    let a = group[0] as int;
    let b = if group.len() > 1 {
        group[1] as int
    } else {
        0
    };
    let c = if group.len() > 2 {
        group[2] as int
    } else {
        0
    };
    seq![
        sextet_char(a / 4),
        sextet_char(a % 4 * 16 + b / 16),
        if group.len() > 1 {
            sextet_char(b % 16 * 4 + c / 64)
        } else {
            '='
        },
        if group.len() > 2 {
            sextet_char(c % 64)
        } else {
            '='
        },
    ]
}

/// The padded base64 form of bytes: every three of them, and what is left over
/// at the end, as four characters.
pub open spec fn base64(bytes: Seq<u8>) -> Seq<char>
    decreases bytes.len(),
{
    if bytes.len() == 0 {
        Seq::empty()
    } else if bytes.len() <= 3 {
        quantum(bytes)
    } else {
        quantum(bytes.take(3)) + base64(bytes.skip(3))
    }
}

/// How many characters so many bytes come to.
pub open spec fn base64_len(count: nat) -> nat {
    (count + 2) / 3 * 4
}

/// `Engine::encode` of the `base64` crate's `STANDARD` engine: the standard
/// alphabet of RFC 4648, with padding. The call panics where the encoded text
/// would not fit in memory.
#[verifier::external_body]
pub(crate) fn encode(bytes: &[u8]) -> (res: String)
    requires
        base64_len(bytes@.len()) <= isize::MAX,
    ensures
        res@ == base64(bytes@),
{
    base64::Engine::encode(&base64::engine::general_purpose::STANDARD, bytes)
}

/// Whether a character occurs in base64 text.
pub open spec fn is_base64_char(c: char) -> bool {
    'A' <= c <= 'Z' || 'a' <= c <= 'z' || '0' <= c <= '9' || c == '+' || c == '/' || c == '='
}

proof fn lemma_quantum(group: Seq<u8>)
    requires
        1 <= group.len() <= 3,
    ensures
        quantum(group).len() == 4,
        forall|i: int| 0 <= i < 4 ==> is_base64_char(#[trigger] quantum(group)[i]),
{
}

/// Base64 text holds letters, digits, `+`, `/` and `=` only, so that it can stand
/// in a JSON string as it is, and has the promised length.
pub proof fn law_base64_needs_no_escaping(bytes: Seq<u8>)
    ensures
        base64(bytes).len() == base64_len(bytes.len()),
        forall|i: int|
            0 <= i < base64(bytes).len() ==> is_base64_char(#[trigger] base64(bytes)[i]),
    decreases bytes.len(),
{
    if bytes.len() > 3 {
        lemma_quantum(bytes.take(3));
        law_base64_needs_no_escaping(bytes.skip(3));
    } else if bytes.len() > 0 {
        lemma_quantum(bytes);
    }
}

/// The six bits that a character stands for.
pub open spec fn char_sextet(c: char) -> int {
    if 'A' <= c <= 'Z' {
        c as u32 - 65
    } else if 'a' <= c <= 'z' {
        c as u32 - 71
    } else if '0' <= c <= '9' {
        c as u32 + 4
    } else if c == '+' {
        62
    } else {
        63
    }
}

/// The bytes that four characters stand for.
pub open spec fn quantum_bytes(group: Seq<char>) -> Seq<u8> {
    let a = char_sextet(group[0]);
    let b = char_sextet(group[1]);
    let c = char_sextet(group[2]);
    let d = char_sextet(group[3]);
    let first = (a * 4 + b / 16) as u8;
    let second = (b % 16 * 16 + c / 4) as u8;
    let third = (c % 4 * 64 + d) as u8;
    if group[2] == '=' {
        seq![first]
    } else if group[3] == '=' {
        seq![first, second]
    } else {
        seq![first, second, third]
    }
}

/// The bytes that base64 text stands for.
pub open spec fn decoded(text: Seq<char>) -> Seq<u8>
    decreases text.len(),
{
    if text.len() < 4 {
        Seq::empty()
    } else {
        quantum_bytes(text.take(4)) + decoded(text.skip(4))
    }
}

proof fn lemma_sextet(sextet: int)
    requires
        0 <= sextet < 64,
    ensures
        char_sextet(sextet_char(sextet)) == sextet,
        sextet_char(sextet) != '=',
{
}

proof fn lemma_quantum_bytes(group: Seq<u8>)
    requires
        1 <= group.len() <= 3,
    ensures
        quantum_bytes(quantum(group)) == group,
{
    let a = group[0] as int;
    let b = if group.len() > 1 {
        group[1] as int
    } else {
        0
    };
    let c = if group.len() > 2 {
        group[2] as int
    } else {
        0
    };
    lemma_sextet(a / 4);
    lemma_sextet(a % 4 * 16 + b / 16);
    lemma_sextet(b % 16 * 4 + c / 64);
    lemma_sextet(c % 64);
    let bytes = quantum_bytes(quantum(group));
    assert(bytes.len() == group.len());
    assert(bytes[0] == group[0]);
    if group.len() > 1 {
        assert(bytes[1] == group[1]);
    }
    if group.len() > 2 {
        assert(bytes[2] == group[2]);
    }
}

/// Nothing is lost: the bytes can be read back from their base64 form.
pub proof fn law_base64_can_be_decoded(bytes: Seq<u8>)
    ensures
        decoded(base64(bytes)) == bytes,
    decreases bytes.len(),
{
    if bytes.len() > 3 {
        let first = bytes.take(3);
        let rest = bytes.skip(3);
        let text = base64(bytes);
        lemma_quantum(first);
        lemma_quantum_bytes(first);
        law_base64_can_be_decoded(rest);
        assert(text.take(4) == quantum(first));
        assert(text.skip(4) == base64(rest));
        assert(first + rest == bytes);
    } else if bytes.len() > 0 {
        let text = base64(bytes);
        lemma_quantum(bytes);
        lemma_quantum_bytes(bytes);
        assert(text.take(4) == text);
        assert(decoded(text.skip(4)) == Seq::<u8>::empty());
        assert(bytes + Seq::<u8>::empty() == bytes);
    }
}

} // verus!
