//! Record identifiers are the 128-bit values of UUIDs. Generating a fresh
//! one and parsing one out of user input go through the uuid crate.
use vstd::prelude::*;

verus! {

/// What `uuid::Uuid::parse_str` yields on a given text, as the parsed
/// UUID's 128-bit value: the result is a function of the input text alone.
pub uninterp spec fn parsed_uuid(s: Seq<char>) -> Option<u128>;

/// Relies on uuid::Uuid::parse_str: deterministic in the input text, it
/// accepts a UUID written as hexadecimal digits with optional hyphens (the
/// simple, hyphenated, urn and GUID forms) and rejects anything else; the
/// parsed UUID is returned as its 128-bit value (uuid::Uuid::as_u128).
#[verifier::external_body]
pub(crate) fn parse_id(s: &str) -> (r: Option<u128>)
    ensures
        r == parsed_uuid(s@),
{
    match uuid::Uuid::parse_str(s) {
        Ok(u) => Some(u.as_u128()),
        Err(_) => None,
    }
}

/// Relies on uuid::Uuid::new_v4: a freshly generated random version-4
/// UUID, returned as its 128-bit value. The value is random; nothing is
/// promised of it.
#[verifier::external_body]
pub(crate) fn fresh_id() -> u128 {
    uuid::Uuid::new_v4().as_u128()
}

/// Sixteen to the `k`.
pub open spec fn pow16(k: nat) -> int
    decreases k,
{
    if k == 0 {
        1
    } else {
        16 * pow16((k - 1) as nat)
    }
}

/// The lower-case hex digit character for a value below sixteen.
pub open spec fn hex_digit(d: int) -> char {
    if d == 0 {
        '0'
    } else if d == 1 {
        '1'
    } else if d == 2 {
        '2'
    } else if d == 3 {
        '3'
    } else if d == 4 {
        '4'
    } else if d == 5 {
        '5'
    } else if d == 6 {
        '6'
    } else if d == 7 {
        '7'
    } else if d == 8 {
        '8'
    } else if d == 9 {
        '9'
    } else if d == 10 {
        'a'
    } else if d == 11 {
        'b'
    } else if d == 12 {
        'c'
    } else if d == 13 {
        'd'
    } else if d == 14 {
        'e'
    } else {
        'f'
    }
}

/// The `k` low-order hex digits of `n`, most significant first.
pub open spec fn hex_of(n: int, k: nat) -> Seq<char>
    decreases k,
{
    if k == 0 {
        Seq::empty()
    } else {
        hex_of(n / 16, (k - 1) as nat).push(hex_digit(n % 16))
    }
}

/// The hyphenated lower-case text of an identifier: its thirty-two hex
/// digits in five groups of eight, four, four, four and twelve.
pub open spec fn uuid_text(n: u128) -> Seq<char> {
    let h = hex_of(n as int, 32);
    h.subrange(0, 8) + seq!['-'] + h.subrange(8, 12) + seq!['-'] + h.subrange(12, 16) + seq!['-']
        + h.subrange(16, 20) + seq!['-'] + h.subrange(20, 32)
}

proof fn lemma_pow16_pos(k: nat)
    ensures
        pow16(k) >= 1,
    decreases k,
{
    if k > 0 {
        lemma_pow16_pos((k - 1) as nat);
    }
}

proof fn lemma_hex_of_len(n: int, k: nat)
    ensures
        hex_of(n, k).len() == k,
    decreases k,
{
    if k > 0 {
        lemma_hex_of_len(n / 16, (k - 1) as nat);
    }
}

/// Digit `j` from the low end of `hex_of(n, k)` is `n / 16^j % 16`.
proof fn lemma_hex_of_digit(n: int, k: nat, j: nat)
    requires
        j < k,
        0 <= n,
    ensures
        hex_of(n, k).len() == k,
        hex_of(n, k)[k - 1 - j] == hex_digit(n / pow16(j) % 16),
    decreases k,
{
    lemma_hex_of_len(n, k);
    if j == 0 {
        vstd::arithmetic::div_mod::lemma_div_basics(n);
        assert(n / pow16(0) == n);
    } else {
        lemma_hex_of_len(n / 16, (k - 1) as nat);
        lemma_hex_of_digit(n / 16, (k - 1) as nat, (j - 1) as nat);
        lemma_pow16_pos((j - 1) as nat);
        vstd::arithmetic::div_mod::lemma_div_denominator(n, 16, pow16((j - 1) as nat));
        assert(n / 16 / pow16((j - 1) as nat) == n / (16 * pow16((j - 1) as nat)));
        assert(hex_of(n, k)[k - 1 - j] == hex_of(n / 16, (k - 1) as nat)[(k - 1) - 1 - (j - 1)]);
    }
}

/// The hex digit character, as a one-character string.
fn hex_str(d: u128) -> (s: &'static str)
    requires
        d < 16,
    ensures
        s@.len() == 1,
        s@[0] == hex_digit(d as int),
{
    proof {
        reveal_strlit("0");
        reveal_strlit("1");
        reveal_strlit("2");
        reveal_strlit("3");
        reveal_strlit("4");
        reveal_strlit("5");
        reveal_strlit("6");
        reveal_strlit("7");
        reveal_strlit("8");
        reveal_strlit("9");
        reveal_strlit("a");
        reveal_strlit("b");
        reveal_strlit("c");
        reveal_strlit("d");
        reveal_strlit("e");
        reveal_strlit("f");
    }
    match d {
        0 => "0",
        1 => "1",
        2 => "2",
        3 => "3",
        4 => "4",
        5 => "5",
        6 => "6",
        7 => "7",
        8 => "8",
        9 => "9",
        10 => "a",
        11 => "b",
        12 => "c",
        13 => "d",
        14 => "e",
        _ => "f",
    }
}

/// The hyphenated lower-case text of an identifier, as users see it and as
/// they may type it back in a `rm` or `done` command.
pub fn id_text(id: u128) -> (s: String)
    ensures
        s@ == uuid_text(id),
{
    let ghost n = id as int;
    let mut digits: Vec<&'static str> = Vec::new();
    let mut cur: u128 = id;
    let mut i: usize = 0;
    proof {
        vstd::arithmetic::div_mod::lemma_div_basics(n);
    }
    while i < 32
        invariant
            i <= 32,
            digits@.len() == i,
            n == id as int,
            cur as int == n / pow16(i as nat),
            forall|j: int|
                0 <= j < i ==> (#[trigger] digits@[j])@ == seq![
                    hex_digit(n / pow16(j as nat) % 16),
                ],
        decreases 32 - i,
    {
        let d = cur % 16;
        let piece = hex_str(d);
        proof {
            assert(piece@ =~= seq![hex_digit(n / pow16(i as nat) % 16)]);
            lemma_pow16_pos(i as nat);
            vstd::arithmetic::div_mod::lemma_div_denominator(n, pow16(i as nat), 16);
            assert(pow16((i + 1) as nat) == 16 * pow16(i as nat));
            assert(pow16(i as nat) * 16 == 16 * pow16(i as nat));
            assert((n / pow16(i as nat)) / 16 == n / pow16((i + 1) as nat));
        }
        digits.push(piece);
        cur = cur / 16;
        i = i + 1;
    }
    let ghost h = hex_of(n, 32);
    proof {
        lemma_hex_of_len(n, 32);
    }
    let mut hx = String::new();
    let mut p: usize = 0;
    while p < 32
        invariant
            p <= 32,
            digits@.len() == 32,
            n == id as int,
            0 <= n,
            h == hex_of(n, 32),
            h.len() == 32,
            forall|j: int|
                0 <= j < 32 ==> (#[trigger] digits@[j])@ == seq![
                    hex_digit(n / pow16(j as nat) % 16),
                ],
            hx@ == h.subrange(0, p as int),
        decreases 32 - p,
    {
        let piece = digits[31 - p];
        hx.append(piece);
        proof {
            lemma_hex_of_digit(n, 32, (31 - p) as nat);
            assert(h[p as int] == hex_digit(n / pow16((31 - p) as nat) % 16));
            assert(hx@ =~= h.subrange(0, p + 1));
        }
        p = p + 1;
    }
    proof {
        assert(hx@ =~= h);
    }
    let hs = hx.as_str();
    let g1 = hs.substring_char(0, 8);
    let g2 = hs.substring_char(8, 12);
    let g3 = hs.substring_char(12, 16);
    let g4 = hs.substring_char(16, 20);
    let g5 = hs.substring_char(20, 32);
    let mut out = String::new();
    out.append(g1);
    out.append("-");
    out.append(g2);
    out.append("-");
    out.append(g3);
    out.append("-");
    out.append(g4);
    out.append("-");
    out.append(g5);
    proof {
        reveal_strlit("-");
        assert("-"@ =~= seq!['-']);
        assert(out@ =~= uuid_text(id));
    }
    out
}

} // verus!
