//! Decimal rendering of counters, used for the ids the store assigns. The
//! representation is proved injective, so a fresh id can be shown distinct
//! from every id already given out.

use vstd::prelude::*;

verus! {

/// The character for one decimal digit.
pub open spec fn digit_char(d: int) -> char {
    seq!['0', '1', '2', '3', '4', '5', '6', '7', '8', '9'][d]
}

/// The decimal representation of `n`, most significant digit first.
pub open spec fn dec_digits(n: nat) -> Seq<char>
    decreases n,
{
    if n < 10 {
        seq![digit_char(n as int)]
    } else {
        dec_digits(n / 10).push(digit_char((n % 10) as int))
    }
}

/// The decimal representation is never empty.
pub proof fn lemma_dec_digits_len(n: nat)
    ensures
        1 <= dec_digits(n).len(),
        n < 10 <==> dec_digits(n).len() == 1,
    decreases n,
{
    if n >= 10 {
        lemma_dec_digits_len(n / 10);
    }
}

/// Digit characters identify digits.
pub proof fn lemma_digit_char_injective(a: int, b: int)
    requires
        0 <= a < 10,
        0 <= b < 10,
        a != b,
    ensures
        digit_char(a) != digit_char(b),
{
}

/// Distinct numbers have distinct decimal representations.
pub proof fn lemma_dec_digits_injective(m: nat, n: nat)
    requires
        m != n,
    ensures
        dec_digits(m) != dec_digits(n),
    decreases m + n,
{
    lemma_dec_digits_len(m);
    lemma_dec_digits_len(n);
    if m < 10 && n < 10 {
        lemma_digit_char_injective(m as int, n as int);
        assert(dec_digits(m)[0] != dec_digits(n)[0]);
    } else if m < 10 || n < 10 {
        assert(dec_digits(m).len() != dec_digits(n).len());
    } else {
        if m % 10 != n % 10 {
            lemma_digit_char_injective((m % 10) as int, (n % 10) as int);
            assert(dec_digits(m).last() != dec_digits(n).last());
        } else {
            assert(m / 10 != n / 10);
            lemma_dec_digits_injective(m / 10, n / 10);
            if dec_digits(m) == dec_digits(n) {
                assert(dec_digits(m).drop_last() =~= dec_digits(m / 10));
                assert(dec_digits(n).drop_last() =~= dec_digits(n / 10));
                assert(false);
            }
        }
    }
}

/// Relies on `String::from_utf8`: a buffer of bytes below 128 is valid UTF-8
/// and decodes to one character per byte.
#[verifier::external_body]
fn ascii_to_string(bytes: Vec<u8>) -> (r: String)
    requires
        forall|i: int| 0 <= i < bytes@.len() ==> bytes@[i] < 128,
    ensures
        r@.len() == bytes@.len(),
        forall|i: int| 0 <= i < bytes@.len() ==> r@[i] == bytes@[i] as char,
{
    String::from_utf8(bytes).unwrap_or_default()
}

/// The byte of one decimal digit, in ASCII.
pub open spec fn digit_byte(d: int) -> u8 {
    (48 + d) as u8
}

/// ASCII decimal digit bytes decode to the matching digit characters.
proof fn lemma_digit_byte_char(d: int)
    requires
        0 <= d < 10,
    ensures
        digit_byte(d) as char == digit_char(d),
        digit_byte(d) < 128,
{
    assert(digit_byte(d) as char == digit_char(d));
}

/// The characters of `bytes` read back to front.
pub open spec fn rev_chars(bytes: Seq<u8>) -> Seq<char> {
    Seq::new(bytes.len(), |j: int| bytes[bytes.len() - 1 - j] as char)
}

/// Renders `n` in decimal.
pub fn u64_to_string(n: u64) -> (r: String)
    ensures
        r@ == dec_digits(n as nat),
{
    let mut rev: Vec<u8> = Vec::new();
    let mut m: u64 = n;
    loop
        invariant_except_break
            rev@.len() == 0 ==> m == n,
            rev@.len() > 0 ==> m > 0 && dec_digits(n as nat) == dec_digits(m as nat) + rev_chars(
                rev@,
            ),
        invariant
            forall|i: int| 0 <= i < rev@.len() ==> 48 <= #[trigger] rev@[i] < 58,
        ensures
            rev@.len() > 0,
            dec_digits(n as nat) == rev_chars(rev@),
            forall|i: int| 0 <= i < rev@.len() ==> 48 <= #[trigger] rev@[i] < 58,
        decreases m,
    {
        let ghost m0 = m;
        let ghost rev0 = rev@;
        let d: u8 = (m % 10) as u8 + 48;
        rev.push(d);
        m = m / 10;
        proof {
            lemma_digit_byte_char((m0 % 10) as int);
            assert(d == digit_byte((m0 % 10) as int));
            assert(rev_chars(rev@) =~= seq![d as char] + rev_chars(rev0));
            if m0 >= 10 {
                assert(dec_digits(m0 as nat) == dec_digits(m as nat).push(
                    digit_char((m0 % 10) as int),
                ));
                assert(dec_digits(m as nat).push(digit_char((m0 % 10) as int)) =~= dec_digits(
                    m as nat,
                ) + seq![d as char]);
                assert(dec_digits(n as nat) =~= dec_digits(m as nat) + rev_chars(rev@));
            } else {
                assert(m == 0);
                assert(m0 % 10 == m0);
                assert(dec_digits(m0 as nat) == seq![d as char]);
                assert(dec_digits(n as nat) =~= rev_chars(rev@));
            }
        }
        if m == 0 {
            break;
        }
        proof {
            assert(m0 >= 10);
        }
    }
    let mut out: Vec<u8> = Vec::new();
    let mut i: usize = rev.len();
    while i > 0
        invariant
            i <= rev@.len(),
            out@.len() == rev@.len() - i,
            forall|j: int| 0 <= j < rev@.len() ==> 48 <= #[trigger] rev@[j] < 58,
            forall|j: int| 0 <= j < out@.len() ==> out@[j] == rev@[rev@.len() - 1 - j],
        decreases i,
    {
        i = i - 1;
        out.push(rev[i]);
    }
    let s = ascii_to_string(out);
    proof {
        assert(s@ =~= rev_chars(rev@));
    }
    s
}

} // verus!
