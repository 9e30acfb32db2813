//! Identifier, human-reference, short-name, registration-code and session-id
//! generation, and display-name validation.
//!
//! All randomness comes from the platform CSPRNG through `getrandom`.
use vstd::prelude::*;

use crate::error::{DomainError, DomainResult};
use crate::text::{
    chars_of, is_ascii_alphanumeric, is_ascii_lower, is_ascii_upper, lower, lower_all, is_ascii_alphanumeric_char, is_control, is_control_char, push_str,
    string_from_range, string_of, string_push, trim, trim_bounds, upper, upper_char,
};

verus! {

/// Unambiguous base32-style alphabet: no vowels and no look-alike characters
/// (0/O, 1/I/L, U).
pub const UNAMBIGUOUS_ALPHABET: [u8; 26] = [
    50u8, 51u8, 52u8, 53u8, 54u8, 55u8, 56u8, 57u8, 67u8, 68u8, 70u8, 71u8, 72u8,
    74u8, 75u8, 77u8, 78u8, 80u8, 81u8, 82u8, 83u8, 84u8, 86u8, 87u8, 88u8, 90u8,
];

/// The alphabet as characters: `23456789CDFGHJKMNPQRSTVWXZ`.
pub open spec fn alphabet() -> Seq<char> {
    seq!['2', '3', '4', '5', '6', '7', '8', '9', 'C', 'D', 'F', 'G', 'H', 'J', 'K', 'M', 'N',
    'P', 'Q', 'R', 'S', 'T', 'V', 'W', 'X', 'Z']
}

pub open spec fn in_alphabet(c: char) -> bool {
    alphabet().contains(c)
}

pub open spec fn all_in_alphabet(s: Seq<char>) -> bool {
    forall|i: int| 0 <= i < s.len() ==> in_alphabet(#[trigger] s[i])
}

proof fn lemma_alphabet_matches_bytes()
    ensures
        UNAMBIGUOUS_ALPHABET@.len() == 26,
        forall|i: int| 0 <= i < 26 ==> (#[trigger] UNAMBIGUOUS_ALPHABET@[i]) as char
            == alphabet()[i],
{
    assert(UNAMBIGUOUS_ALPHABET@.len() == 26);
}

/// Fill `buf` with cryptographically secure random bytes (`getrandom`).
/// Only the length of the buffer is claimed: its content depends on the CSPRNG.
/// Panics if the platform has no CSPRNG.
#[verifier::external_body]
pub fn random_bytes(buf: &mut [u8])
    ensures
        final(buf)@.len() == old(buf)@.len(),
{
    getrandom::getrandom(buf).expect("platform CSPRNG must be available");
}

/// A fresh UUIDv4 string (`uuid::Uuid::new_v4`, written hyphenated in lower
/// case). The bits are random but for the version (4) and the RFC variant
/// (`10`), so only the shape is claimed.
#[verifier::external_body]
pub fn new_uuid() -> (r: String)
    ensures
        r@.len() == 36,
        forall|i: int|
            0 <= i < 36 ==> if i == 8 || i == 13 || i == 18 || i == 23 {
                #[trigger] r@[i] == '-'
            } else {
                is_lower_hex(r@[i])
            },
        r@[14] == '4',
        r@[19] == '8' || r@[19] == '9' || r@[19] == 'a' || r@[19] == 'b',
{
    uuid::Uuid::new_v4().to_string()
}

/// Bytes at or above this bound are rejected when drawing symbols: 234 is the
/// largest multiple of 26 not above 256, so every symbol has as many accepted
/// bytes (nine) mapping to it.
pub const SYMBOL_BYTE_LIMIT: u8 = 234;

/// The drawn bytes that are kept, in order: those below 234.
pub open spec fn accepted_bytes(bs: Seq<u8>) -> Seq<u8>
    decreases bs.len(),
{
    if bs.len() == 0 {
        Seq::empty()
    } else if bs.last() < 234 {
        accepted_bytes(bs.drop_last()).push(bs.last())
    } else {
        accepted_bytes(bs.drop_last())
    }
}

/// The symbol a kept byte stands for: the alphabet at `b % 26`.
pub open spec fn symbol_of(b: u8) -> char {
    alphabet()[(b % 26) as int]
}

pub open spec fn symbols_of(bs: Seq<u8>) -> Seq<char> {
    bs.map_values(|b: u8| symbol_of(b))
}

/// The kept bytes of a prefix of `s` are a prefix of the kept bytes of `s`.
proof fn lemma_accepted_prefix(s: Seq<u8>, i: int)
    requires
        0 <= i <= s.len(),
    ensures
        accepted_bytes(s.take(i)).len() <= accepted_bytes(s).len(),
        accepted_bytes(s).take(accepted_bytes(s.take(i)).len() as int) == accepted_bytes(s.take(i)),
    decreases s.len() - i,
{
    if i == s.len() {
        assert(s.take(i) =~= s);
        assert(accepted_bytes(s).take(accepted_bytes(s).len() as int) =~= accepted_bytes(s));
    } else {
        lemma_accepted_prefix(s, i + 1);
        let a = accepted_bytes(s.take(i));
        let b = accepted_bytes(s.take(i + 1));
        let c = accepted_bytes(s);
        assert(s.take(i + 1).drop_last() =~= s.take(i));
        assert(b.take(a.len() as int) =~= a);
        assert(c.take(a.len() as int) =~= b.take(b.len() as int).take(a.len() as int));
    }
}

/// The kept byte in row `j` (of nine) for the symbol with index `k`.
pub open spec fn kept_byte(k: int, j: int) -> u8 {
    (k + 26 * j) as u8
}

/// Every symbol is drawn from exactly nine kept bytes: the pairs of a symbol
/// index `k < 26` and a row `j < 9` correspond one to one to the kept bytes
/// (those below 234), and the kept byte of `(k, j)` stands for symbol `k`.
pub proof fn law_symbols_are_balanced()
    ensures
        forall|k: int, j: int|
            0 <= k < 26 && 0 <= j < 9 ==> #[trigger] kept_byte(k, j) < 234 && symbol_of(
                kept_byte(k, j),
            ) == alphabet()[k],
        forall|b: u8|
            b < 234 ==> b / 26 < 9 && #[trigger] symbol_of(b) == alphabet()[(b % 26) as int] && b
                == kept_byte((b % 26) as int, (b / 26) as int),
        forall|k1: int, j1: int, k2: int, j2: int|
            0 <= k1 < 26 && 0 <= j1 < 9 && 0 <= k2 < 26 && 0 <= j2 < 9 && #[trigger] kept_byte(k1, j1)
                == #[trigger] kept_byte(k2, j2) ==> k1 == k2 && j1 == j2,
{
    assert forall|k: int, j: int| 0 <= k < 26 && 0 <= j < 9 implies #[trigger] kept_byte(k, j) < 234
        && symbol_of(kept_byte(k, j)) == alphabet()[k] by {
        assert(0 <= k + 26 * j < 234);
        assert(kept_byte(k, j) as int == k + 26 * j);
        assert((k + 26 * j) % 26 == k) by (nonlinear_arith)
            requires
                0 <= k < 26,
                0 <= j < 9,
        ;
    }
    assert forall|b: u8| b < 234 implies b / 26 < 9 && #[trigger] symbol_of(b) == alphabet()[(b % 26) as int]
        && b == kept_byte((b % 26) as int, (b / 26) as int) by {
        assert(b as int == (b % 26) as int + 26 * ((b / 26) as int));
    }
    assert forall|k1: int, j1: int, k2: int, j2: int|
        0 <= k1 < 26 && 0 <= j1 < 9 && 0 <= k2 < 26 && 0 <= j2 < 9 && #[trigger] kept_byte(k1, j1)
            == #[trigger] kept_byte(k2, j2) implies k1 == k2 && j1 == j2 by {
        assert(kept_byte(k1, j1) as int == k1 + 26 * j1);
        assert(kept_byte(k2, j2) as int == k2 + 26 * j2);
        assert(k1 == k2 && j1 == j2) by (nonlinear_arith)
            requires
                0 <= k1 < 26,
                0 <= j1 < 9,
                0 <= k2 < 26,
                0 <= j2 < 9,
                k1 + 26 * j1 == k2 + 26 * j2,
        ;
    }
}

/// The first `len` symbols of a sequence of drawn bytes: bytes at or above
/// 234 are skipped and each kept byte `b` gives the alphabet symbol at
/// `b % 26`, so that every symbol is equally likely. `None` when fewer than
/// `len` bytes are kept.
pub fn symbols_from_bytes(drawn: &[u8], len: usize) -> (r: Option<String>)
    ensures
        accepted_bytes(drawn@).len() >= len ==> (r matches Some(s) && s@ == symbols_of(
            accepted_bytes(drawn@).take(len as int),
        )),
        accepted_bytes(drawn@).len() < len ==> r is None,
{
    let n: u8 = 26;
    let mut out = String::new();
    let mut produced: usize = 0;
    let mut i: usize = 0;
    proof {
        lemma_alphabet_matches_bytes();
        assert(drawn@.take(0) =~= Seq::<u8>::empty());
        assert(out@ =~= symbols_of(accepted_bytes(drawn@.take(0))));
    }
    while i < drawn.len() && produced < len
        invariant
            i <= drawn@.len(),
            produced <= len,
            produced == accepted_bytes(drawn@.take(i as int)).len(),
            out@ == symbols_of(accepted_bytes(drawn@.take(i as int))),
            n == 26,
            UNAMBIGUOUS_ALPHABET@.len() == 26,
            forall|k: int| 0 <= k < 26 ==> (#[trigger] UNAMBIGUOUS_ALPHABET@[k]) as char
                == alphabet()[k],
        decreases drawn.len() - i,
    {
        let b = drawn[i];
        let ghost before = drawn@.take(i as int);
        assert(drawn@.take(i + 1).drop_last() =~= before);
        assert(drawn@.take(i + 1).last() == b);
        if b < SYMBOL_BYTE_LIMIT {
            let idx = (b % n) as usize;
            let c = UNAMBIGUOUS_ALPHABET[idx] as char;
            assert(c == symbol_of(b));
            string_push(&mut out, c);
            produced += 1;
            assert(out@ =~= symbols_of(accepted_bytes(drawn@.take(i + 1))));
        } else {
            assert(out@ =~= symbols_of(accepted_bytes(drawn@.take(i + 1))));
        }
        i += 1;
    }
    proof {
        lemma_accepted_prefix(drawn@, i as int);
        if produced < len {
            assert(drawn@.take(i as int) =~= drawn@);
        }
    }
    if produced == len {
        Some(out)
    } else {
        None
    }
}

/// One byte of the CSPRNG.
fn random_byte() -> (r: u8) {
    let mut byte: [u8; 1] = [0u8];
    random_bytes(&mut byte);
    byte[0]
}

/// `len` characters drawn uniformly from the alphabet, with the bytes drawn
/// for them: bytes are drawn one at a time until `len` of them fall below 234,
/// and `symbols_from_bytes` maps the drawn bytes to symbols. Every loop here
/// must end, so after `u64::MAX` rejected draws in one call (never reached in
/// practice) the first `len` drawn bytes are mapped without rejection.
fn encode_unambiguous(len: usize) -> (r: (String, Ghost<Seq<u8>>))
    ensures
        r.0@.len() == len,
        all_in_alphabet(r.0@),
        accepted_bytes(r.1@).len() >= len ==> r.0@ == symbols_of(accepted_bytes(r.1@).take(len as int)),
        accepted_bytes(r.1@).len() < len ==> r.1@.len() - accepted_bytes(r.1@).len() == u64::MAX
            && r.0@ == symbols_of(r.1@.take(len as int)),
{
    let mut drawn: Vec<u8> = Vec::new();
    let mut kept: usize = 0;
    let mut budget: u64 = u64::MAX;
    while kept < len && budget > 0
        invariant
            kept <= len,
            kept == accepted_bytes(drawn@).len(),
            drawn@.len() == kept + (u64::MAX - budget),
        decreases len - kept, budget,
    {
        let b = random_byte();
        let ghost before = drawn@;
        drawn.push(b);
        assert(drawn@.drop_last() =~= before);
        if b < SYMBOL_BYTE_LIMIT {
            kept += 1;
        } else {
            budget -= 1;
        }
    }
    proof {
        lemma_alphabet_matches_bytes();
    }
    match symbols_from_bytes(drawn.as_slice(), len) {
        Some(s) => {
            proof {
                lemma_symbols_in_alphabet(accepted_bytes(drawn@).take(len as int));
            }
            (s, Ghost(drawn@))
        },
        None => {
            // Only after `u64::MAX` rejections: take the bytes as drawn.
            let n: u8 = 26;
            let mut out = String::new();
            let mut i: usize = 0;
            while i < len
                invariant
                    i <= len,
                    len <= drawn@.len(),
                    out@ == symbols_of(drawn@.take(i as int)),
                    n == 26,
                    UNAMBIGUOUS_ALPHABET@.len() == 26,
                    forall|k: int| 0 <= k < 26 ==> (#[trigger] UNAMBIGUOUS_ALPHABET@[k]) as char
                        == alphabet()[k],
                decreases len - i,
            {
                let b = drawn[i];
                let idx = (b % n) as usize;
                let c = UNAMBIGUOUS_ALPHABET[idx] as char;
                assert(c == symbol_of(b));
                string_push(&mut out, c);
                i += 1;
                assert(out@ =~= symbols_of(drawn@.take(i as int)));
            }
            proof {
                lemma_symbols_in_alphabet(drawn@.take(len as int));
            }
            (out, Ghost(drawn@))
        },
    }
}

proof fn lemma_symbols_in_alphabet(bs: Seq<u8>)
    ensures
        all_in_alphabet(symbols_of(bs)),
{
    assert forall|i: int| 0 <= i < symbols_of(bs).len() implies in_alphabet(
        #[trigger] symbols_of(bs)[i],
    ) by {
        let k = (bs[i] % 26) as int;
        assert(0 <= k < 26);
        assert(alphabet().contains(alphabet()[k]));
    }
}

/// Entity kind that owns a human reference.
#[derive(Debug, Clone, Copy, PartialEq, Eq)]
pub enum RefKind {
    Group,
    Okr,
}

pub open spec fn spec_prefix(kind: RefKind) -> Seq<char> {
    match kind {
        RefKind::Group => "GRP"@,
        RefKind::Okr => "OKR"@,
    }
}

impl RefKind {
    fn prefix(self) -> (r: &'static str)
        ensures
            r@ == spec_prefix(self),
    {
        match self {
            RefKind::Group => "GRP",
            RefKind::Okr => "OKR",
        }
    }
}

/// Generate one candidate human ref, e.g. `OKR-7H2K`. Uniqueness is the
/// caller's job (atomic check-and-insert in storage).
pub fn gen_human_ref(kind: RefKind) -> (r: String)
    ensures
        r@.len() == spec_prefix(kind).len() + 5,
        r@.take(spec_prefix(kind).len() as int) == spec_prefix(kind),
        r@[spec_prefix(kind).len() as int] == '-',
        all_in_alphabet(r@.skip(spec_prefix(kind).len() as int + 1)),
{
    let mut s = string_of(kind.prefix());
    let ghost p = s@;
    string_push(&mut s, '-');
    let (body, _) = encode_unambiguous(4);
    push_str(&mut s, body.as_str());
    assert(s@ =~= p + seq!['-'] + body@);
    assert(s@.take(p.len() as int) =~= p);
    assert(s@.skip(p.len() as int + 1) =~= body@);
    s
}

/// A short, immutable per-user handle (the WebAuthn `user.name`): five
/// alphabet characters, the symbols `symbols_from_bytes` gives for freshly
/// drawn bytes. Uniqueness is enforced by storage.
pub fn gen_short_name() -> (r: String)
    ensures
        r@.len() == 5,
        all_in_alphabet(r@),
{
    let (name, _) = encode_unambiguous(5);
    name
}

/// Characters grouped in blocks of four separated by `-`.
pub open spec fn grouped(s: Seq<char>) -> Seq<char>
    decreases s.len(),
{
    if s.len() <= 4 {
        s
    } else {
        s.take(4) + seq!['-'] + grouped(s.skip(4))
    }
}

/// Normalised form of a user-entered code: ASCII letters and digits only,
/// upper-cased.
pub open spec fn normalised(s: Seq<char>) -> Seq<char>
    decreases s.len(),
{
    if s.len() == 0 {
        seq![]
    } else {
        normalised(s.drop_last()) + (if is_ascii_alphanumeric(s.last()) {
            seq![upper(s.last())]
        } else {
            seq![]
        })
    }
}

/// Normalising distributes over concatenation.
pub proof fn lemma_normalised_concat(a: Seq<char>, b: Seq<char>)
    ensures
        normalised(a + b) == normalised(a) + normalised(b),
    decreases b.len(),
{
    if b.len() == 0 {
        assert(a + b =~= a);
        assert(normalised(b) =~= seq![]);
        assert(normalised(a) + normalised(b) =~= normalised(a));
    } else {
        assert((a + b).drop_last() =~= a + b.drop_last());
        assert((a + b).last() == b.last());
        lemma_normalised_concat(a, b.drop_last());
        assert(normalised(a + b) =~= normalised(a) + normalised(b));
    }
}

proof fn lemma_normalised_alphabet(s: Seq<char>)
    requires
        all_in_alphabet(s),
    ensures
        normalised(s) == s,
    decreases s.len(),
{
    if s.len() > 0 {
        assert(in_alphabet(s[s.len() - 1]));
        let c = s.last();
        assert(is_ascii_alphanumeric(c) && upper(c) == c) by {
            let k = choose|k: int| 0 <= k < alphabet().len() && alphabet()[k] == c;
            assert(alphabet()[k] == c);
        }
        assert forall|i: int| 0 <= i < s.drop_last().len() implies in_alphabet(
            #[trigger] s.drop_last()[i],
        ) by {
            assert(s.drop_last()[i] == s[i]);
        }
        lemma_normalised_alphabet(s.drop_last());
        assert(s.drop_last() + seq![c] =~= s);
    }
}

proof fn lemma_normalised_grouped(s: Seq<char>)
    requires
        all_in_alphabet(s),
    ensures
        normalised(grouped(s)) == s,
    decreases s.len(),
{
    if s.len() <= 4 {
        lemma_normalised_alphabet(s);
    } else {
        assert forall|i: int| 0 <= i < s.take(4).len() implies in_alphabet(
            #[trigger] s.take(4)[i],
        ) by {
            assert(s.take(4)[i] == s[i]);
        }
        assert forall|i: int| 0 <= i < s.skip(4).len() implies in_alphabet(
            #[trigger] s.skip(4)[i],
        ) by {
            assert(s.skip(4)[i] == s[i + 4]);
        }
        lemma_normalised_alphabet(s.take(4));
        lemma_normalised_grouped(s.skip(4));
        lemma_normalised_concat(s.take(4) + seq!['-'], grouped(s.skip(4)));
        lemma_normalised_concat(s.take(4), seq!['-']);
        assert(normalised(seq!['-']) =~= seq![]) by {
            let d = seq!['-'];
            assert(d.drop_last() =~= Seq::<char>::empty());
            assert(normalised(Seq::<char>::empty()) =~= Seq::<char>::empty());
            assert(d.last() == '-');
            assert(!is_ascii_alphanumeric('-'));
        }
        assert(s.take(4) + s.skip(4) =~= s);
        assert(normalised(s.take(4)) + normalised(seq!['-']) =~= s.take(4));
    }
}

proof fn lemma_grouped_len(s: Seq<char>)
    requires
        s.len() == 28,
    ensures
        grouped(s).len() == 34,
{
    let s1 = s.skip(4);
    let s2 = s1.skip(4);
    let s3 = s2.skip(4);
    let s4 = s3.skip(4);
    let s5 = s4.skip(4);
    let s6 = s5.skip(4);
    assert(grouped(s6).len() == 4);
    assert(grouped(s5).len() == 9);
    assert(grouped(s4).len() == 14);
    assert(grouped(s3).len() == 19);
    assert(grouped(s2).len() == 24);
    assert(grouped(s1).len() == 29);
}

/// Push `raw[from..]` grouped in blocks of four onto `out`.
fn push_grouped(out: &mut String, raw: &Vec<char>, from: usize)
    requires
        from <= raw@.len(),
    ensures
        final(out)@ == old(out)@ + grouped(raw@.skip(from as int)),
    decreases raw@.len() - from,
{
    let rest = raw.len() - from;
    if rest <= 4 {
        let t = string_from_range(raw, from, raw.len());
        push_str(out, t.as_str());
        assert(raw@.subrange(from as int, raw@.len() as int) =~= raw@.skip(from as int));
    } else {
        let t = string_from_range(raw, from, from + 4);
        push_str(out, t.as_str());
        string_push(out, '-');
        push_grouped(out, raw, from + 4);
        assert(raw@.skip(from as int).take(4) =~= raw@.subrange(from as int, from + 4));
        assert(raw@.skip(from as int).skip(4) =~= raw@.skip(from + 4));
        assert(final(out)@ =~= old(out)@ + grouped(raw@.skip(from as int)));
    }
}

/// A single-use registration code: 28 alphabet characters (about 131 bits),
/// shown as seven blocks of four joined with `-`.
pub fn gen_registration_code() -> (r: String)
    ensures
        r@.len() == 34,
        exists|raw: Seq<char>|
            raw.len() == 28 && all_in_alphabet(raw) && r@ == grouped(raw) && normalised(r@)
                == raw,
{
    let (raw_s, _) = encode_unambiguous(28);
    let raw = chars_of(raw_s.as_str());
    let mut out = String::new();
    push_grouped(&mut out, &raw, 0);
    proof {
        assert(raw@.skip(0) =~= raw@);
        assert(out@ =~= grouped(raw@));
        lemma_grouped_len(raw@);
        lemma_normalised_grouped(raw@);
    }
    out
}

/// Normalise a user-entered registration code for comparison: keep ASCII
/// letters and digits, upper-cased. Returns the canonical (ungrouped) form.
pub fn normalise_code(input: &str) -> (r: String)
    ensures
        r@ == normalised(input@),
{
    let cs = chars_of(input);
    let mut out = String::new();
    let mut i: usize = 0;
    while i < cs.len()
        invariant
            i <= cs@.len(),
            cs@ == input@,
            out@ == normalised(cs@.take(i as int)),
        decreases cs.len() - i,
    {
        let c = cs[i];
        if is_ascii_alphanumeric_char(c) {
            string_push(&mut out, upper_char(c));
        }
        i += 1;
        assert(cs@.take(i as int).drop_last() =~= cs@.take(i - 1));
    }
    assert(cs@.take(cs@.len() as int) =~= cs@);
    out
}

/// Lower-case hexadecimal digit of a nibble.
pub open spec fn hex_digit(v: int) -> char {
    if v < 10 {
        (('0' as int) + v) as char
    } else {
        (('a' as int) + v - 10) as char
    }
}

/// Lower-case hexadecimal rendering, two characters per byte.
pub open spec fn hex_of(bytes: Seq<u8>) -> Seq<char> {
    Seq::new(
        2 * bytes.len(),
        |i: int|
            if i % 2 == 0 {
                hex_digit((bytes[i / 2] / 16) as int)
            } else {
                hex_digit((bytes[i / 2] % 16) as int)
            },
    )
}

pub open spec fn is_lower_hex(c: char) -> bool {
    ('0' <= c <= '9') || ('a' <= c <= 'f')
}

fn hex_char(v: u8) -> (r: char)
    requires
        v < 16,
    ensures
        r == hex_digit(v as int),
        is_lower_hex(r),
{
    if v < 10 {
        (48u8 + v) as char
    } else {
        (87u8 + v) as char
    }
}

/// Lower-case hexadecimal of `bytes`, two digits per byte.
pub fn hex_encode(bytes: &[u8]) -> (r: String)
    ensures
        r@ == hex_of(bytes@),
{
    let mut s = String::new();
    let mut i: usize = 0;
    while i < bytes.len()
        invariant
            i <= bytes@.len(),
            s@ =~= hex_of(bytes@.take(i as int)),
        decreases bytes.len() - i,
    {
        let b = bytes[i];
        string_push(&mut s, hex_char(b / 16));
        string_push(&mut s, hex_char(b % 16));
        i += 1;
        assert(s@ =~= hex_of(bytes@.take(i as int))) by {
            assert forall|k: int| 0 <= k < 2 * i implies #[trigger] s@[k] == hex_of(
                bytes@.take(i as int),
            )[k] by {
                if k < 2 * i - 2 {
                    assert(bytes@.take(i as int)[k / 2] == bytes@.take(i - 1)[k / 2]);
                }
            }
        }
    }
    assert(bytes@.take(bytes@.len() as int) =~= bytes@);
    s
}

/// Opaque 256-bit session id, hex-encoded: 64 lower-case hex characters.
pub fn gen_session_id() -> (r: String)
    ensures
        r@.len() == 64,
        forall|i: int| 0 <= i < 64 ==> is_lower_hex(#[trigger] r@[i]),
{
    let mut buf: [u8; 32] = [0u8; 32];
    random_bytes(&mut buf);
    let r = hex_encode(&buf);
    assert forall|i: int| 0 <= i < 64 implies is_lower_hex(#[trigger] r@[i]) by {
        let b = buf@[i / 2];
        assert(b / 16 < 16 && b % 16 < 16);
    }
    r
}

/// Stable per-user random WebAuthn handle (the `user.id`), 32 bytes.
pub fn gen_webauthn_user_handle() -> (r: [u8; 32]) {
    let mut buf: [u8; 32] = [0u8; 32];
    random_bytes(&mut buf);
    buf
}

/// Longest accepted display name, in characters.
pub const MAX_DISPLAY_NAME_CHARS: usize = 80;

pub open spec fn has_control(s: Seq<char>) -> bool {
    exists|i: int| 0 <= i < s.len() && is_control(#[trigger] s[i])
}

/// The outcome of display-name validation.
pub open spec fn display_name_result(name: Seq<char>, r: DomainResult<String>) -> bool {
    let t = trim(name);
    if t.len() == 0 {
        r matches Err(DomainError::Invalid(m)) && m@ == "name must not be empty"@
    } else if t.len() > 80 {
        r matches Err(DomainError::Invalid(m)) && m@ == "name must be ≤ 80 characters"@
    } else if has_control(t) {
        r matches Err(DomainError::Invalid(m)) && m@ == "name must not contain control characters"@
    } else {
        r matches Ok(v) && v@ == t
    }
}

/// Validate a human-supplied display name: non-empty after trimming, at most
/// 80 characters, no control characters. Returns the trimmed name.
pub fn validate_display_name(name: &str) -> (r: DomainResult<String>)
    ensures
        display_name_result(name@, r),
{
    let cs = chars_of(name);
    let (a, b) = trim_bounds(&cs);
    let ghost t = cs@.subrange(a as int, b as int);
    if a == b {
        return Err(DomainError::Invalid(string_of("name must not be empty")));
    }
    if b - a > MAX_DISPLAY_NAME_CHARS {
        return Err(DomainError::Invalid(string_of("name must be ≤ 80 characters")));
    }
    let mut i = a;
    while i < b
        invariant
            a <= i <= b <= cs@.len(),
            t == cs@.subrange(a as int, b as int),
            cs@ == name@,
            t == trim(name@),
            0 < t.len() <= 80,
            forall|k: int| a <= k < i ==> !is_control(#[trigger] cs@[k]),
        decreases b - i,
    {
        if is_control_char(cs[i]) {
            assert(t[i - a] == cs@[i as int]);
            assert(is_control(t[i - a]));
            return Err(DomainError::Invalid(string_of("name must not contain control characters")));
        }
        i += 1;
    }
    assert(!has_control(t)) by {
        assert forall|k: int| 0 <= k < t.len() implies !is_control(#[trigger] t[k]) by {
            assert(t[k] == cs@[a + k]);
        }
    }
    Ok(string_from_range(&cs, a, b))
}

proof fn lemma_normalised_single(c: char)
    ensures
        normalised(seq![c]) == (if is_ascii_alphanumeric(c) {
            seq![upper(c)]
        } else {
            Seq::<char>::empty()
        }),
{
    let s = seq![c];
    assert(s.drop_last() =~= Seq::<char>::empty());
    assert(s.last() == c);
    assert(normalised(Seq::<char>::empty()) =~= Seq::<char>::empty());
    assert(normalised(s) =~= normalised(s.drop_last()) + (if is_ascii_alphanumeric(c) {
        seq![upper(c)]
    } else {
        Seq::<char>::empty()
    }));
}

/// Normalising a registration code is idempotent: a code already in
/// canonical form is left as it is.
pub proof fn law_normalise_idempotent(s: Seq<char>)
    ensures
        normalised(normalised(s)) == normalised(s),
    decreases s.len(),
{
    if s.len() > 0 {
        let d = s.drop_last();
        let c = s.last();
        law_normalise_idempotent(d);
        if is_ascii_alphanumeric(c) {
            let u = upper(c);
            assert(is_ascii_alphanumeric(u) && upper(u) == u) by {
                if is_ascii_lower(c) {
                    assert((c as u32) - 32 >= 'A' as u32);
                }
            }
            lemma_normalised_concat(normalised(d), seq![u]);
            lemma_normalised_single(u);
        } else {
            assert(normalised(s) =~= normalised(d));
        }
    } else {
        assert(normalised(s) =~= Seq::<char>::empty());
    }
}

/// Normalising ignores ASCII case: a code typed in lower case normalises to
/// the same canonical form.
pub proof fn law_normalise_ignores_case(s: Seq<char>)
    ensures
        normalised(lower_all(s)) == normalised(s),
    decreases s.len(),
{
    if s.len() == 0 {
        assert(lower_all(s) =~= s);
    } else {
        law_normalise_ignores_case(s.drop_last());
        assert(lower_all(s).drop_last() =~= lower_all(s.drop_last()));
        let c = s.last();
        assert(lower_all(s).last() == lower(c));
        if is_ascii_upper(c) {
            assert((c as u32) + 32 <= 'z' as u32);
            assert(lower(c) as u32 == (c as u32) + 32);
            assert(is_ascii_lower(lower(c)));
            assert(upper(lower(c)) as u32 == c as u32);
        }
    }
}

/// The alphabet holds ASCII letters and digits only (so no `-`).
proof fn lemma_alphabet_alphanumeric(c: char)
    requires
        in_alphabet(c),
    ensures
        is_ascii_alphanumeric(c),
        c != '-',
{
    let k = choose|k: int| 0 <= k < alphabet().len() && alphabet()[k] == c;
    assert(alphabet()[k] == c);
}

/// The characters of `grouped(s)` for `s` made of whole blocks of four: a
/// dash at every fifth position, the characters of `s` in order elsewhere.
#[verifier::spinoff_prover]
#[verifier::rlimit(40)]
proof fn lemma_grouped_positions(s: Seq<char>, blocks: nat)
    requires
        blocks >= 1,
        s.len() == 4 * blocks,
    ensures
        grouped(s).len() == 5 * blocks - 1,
        forall|i: int|
            0 <= i < 5 * blocks - 1 ==> #[trigger] grouped(s)[i] == if i % 5 == 4 {
                '-'
            } else {
                s[i - i / 5]
            },
    decreases blocks,
{
    if blocks > 1 {
        let t = s.skip(4);
        lemma_grouped_positions(t, (blocks - 1) as nat);
        let g = grouped(s);
        assert(g == s.take(4) + seq!['-'] + grouped(t));
        assert forall|i: int| 0 <= i < 5 * blocks - 1 implies #[trigger] grouped(s)[i] == if i % 5
            == 4 {
            '-'
        } else {
            s[i - i / 5]
        } by {
            if i >= 5 {
                let j = i - 5;
                assert(grouped(s)[i] == grouped(t)[j]);
                assert(j % 5 == i % 5);
                assert(j / 5 == i / 5 - 1);
                if j % 5 != 4 {
                    assert(t[j - j / 5] == s[i - i / 5]);
                }
            }
        }
    }
}

/// A registration code as handed out is seven blocks of four alphabet
/// characters with a dash at every fifth position (34 characters), and it
/// normalises back to its canonical 28 characters whatever ASCII case it is
/// typed in.
pub proof fn law_registration_code_round_trip(raw: Seq<char>)
    requires
        raw.len() == 28,
        all_in_alphabet(raw),
    ensures
        grouped(raw).len() == 34,
        forall|i: int| 0 <= i < 34 ==> (#[trigger] grouped(raw)[i] == '-' <==> i % 5 == 4),
        forall|i: int| 0 <= i < 34 && i % 5 != 4 ==> in_alphabet(#[trigger] grouped(raw)[i]),
        normalised(grouped(raw)) == raw,
        normalised(lower_all(grouped(raw))) == raw,
{
    lemma_grouped_positions(raw, 7);
    assert forall|i: int| 0 <= i < 34 implies (#[trigger] grouped(raw)[i] == '-' <==> i % 5 == 4) && (i
        % 5 != 4 ==> in_alphabet(grouped(raw)[i])) by {
        if i % 5 != 4 {
            assert(0 <= i - i / 5 < 28);
            assert(in_alphabet(raw[i - i / 5]));
            lemma_alphabet_alphanumeric(raw[i - i / 5]);
        }
    }
    lemma_normalised_grouped(raw);
    law_normalise_ignores_case(grouped(raw));
}

/// `s` with every `-` removed.
pub open spec fn without_dashes(s: Seq<char>) -> Seq<char>
    decreases s.len(),
{
    if s.len() == 0 {
        s
    } else {
        without_dashes(s.drop_last()) + if s.last() == '-' {
            Seq::<char>::empty()
        } else {
            seq![s.last()]
        }
    }
}

proof fn lemma_without_dashes_concat(a: Seq<char>, b: Seq<char>)
    ensures
        without_dashes(a + b) == without_dashes(a) + without_dashes(b),
    decreases b.len(),
{
    if b.len() == 0 {
        assert(a + b =~= a);
        assert(without_dashes(a) + without_dashes(b) =~= without_dashes(a));
    } else {
        assert((a + b).drop_last() =~= a + b.drop_last());
        assert((a + b).last() == b.last());
        lemma_without_dashes_concat(a, b.drop_last());
        assert(without_dashes(a + b) =~= without_dashes(a) + without_dashes(b));
    }
}

proof fn lemma_without_dashes_alphabet(s: Seq<char>)
    requires
        all_in_alphabet(s),
    ensures
        without_dashes(s) == s,
    decreases s.len(),
{
    if s.len() > 0 {
        lemma_alphabet_alphanumeric(s[s.len() - 1]);
        assert forall|i: int| 0 <= i < s.drop_last().len() implies in_alphabet(
            #[trigger] s.drop_last()[i],
        ) by {
            assert(s.drop_last()[i] == s[i]);
        }
        lemma_without_dashes_alphabet(s.drop_last());
        assert(s.drop_last() + seq![s.last()] =~= s);
    } else {
        assert(without_dashes(s) =~= s);
    }
}

proof fn lemma_without_dashes_grouped(s: Seq<char>)
    requires
        all_in_alphabet(s),
    ensures
        without_dashes(grouped(s)) == s,
    decreases s.len(),
{
    if s.len() <= 4 {
        lemma_without_dashes_alphabet(s);
    } else {
        assert forall|i: int| 0 <= i < s.take(4).len() implies in_alphabet(#[trigger] s.take(4)[i]) by {
            assert(s.take(4)[i] == s[i]);
        }
        assert forall|i: int| 0 <= i < s.skip(4).len() implies in_alphabet(#[trigger] s.skip(4)[i]) by {
            assert(s.skip(4)[i] == s[i + 4]);
        }
        lemma_without_dashes_alphabet(s.take(4));
        lemma_without_dashes_grouped(s.skip(4));
        lemma_without_dashes_concat(s.take(4) + seq!['-'], grouped(s.skip(4)));
        lemma_without_dashes_concat(s.take(4), seq!['-']);
        assert(without_dashes(seq!['-']) =~= Seq::<char>::empty()) by {
            let d = seq!['-'];
            assert(d.drop_last() =~= Seq::<char>::empty());
            assert(without_dashes(Seq::<char>::empty()) =~= Seq::<char>::empty());
            assert(d.last() == '-');
        }
        assert(s.take(4) + s.skip(4) =~= s);
    }
}

/// Removing the dashes from a handed-out registration code gives its
/// canonical form, which is also what normalising it gives.
pub proof fn law_registration_code_without_dashes(raw: Seq<char>)
    requires
        raw.len() == 28,
        all_in_alphabet(raw),
    ensures
        without_dashes(grouped(raw)) == raw,
        without_dashes(grouped(raw)) == normalised(grouped(raw)),
{
    lemma_without_dashes_grouped(raw);
    lemma_normalised_grouped(raw);
}

} // verus!
