//! Removal of ECMA-48 CSI colour/cursor escape sequences from a byte stream.
//!
//! A removable sequence is: ESC `[`, then optionally a parameter of one to
//! three digits, optionally followed by `;` and one or two more digits, and
//! finally one of the bytes `m`, `G` or `K`.  The stream is scanned left to
//! right; each removable sequence is dropped whole, every other byte is kept,
//! and bytes of a malformed or partial sequence are kept untouched.

use vstd::prelude::*;

verus! {

/// The escape byte that introduces a control sequence.
pub const ESCAPE: u8 = 0x1b;

/// ASCII `[`.
pub const BRACKET: u8 = 0x5b;

/// ASCII `;`.
pub const SEMICOLON: u8 = 0x3b;

/// ASCII `0`.
pub const DIGIT_ZERO: u8 = 0x30;

/// ASCII `9`.
pub const DIGIT_NINE: u8 = 0x39;

/// ASCII `m`.
pub const FINAL_M: u8 = 0x6d;

/// ASCII `G`.
pub const FINAL_G: u8 = 0x47;

/// ASCII `K`.
pub const FINAL_K: u8 = 0x4b;

/// ASCII decimal digit.
pub open spec fn is_digit(b: u8) -> bool {
    DIGIT_ZERO <= b <= DIGIT_NINE
}

/// Final byte of a removable sequence: `m`, `G` or `K`.
pub open spec fn is_final(b: u8) -> bool {
    b == FINAL_M || b == FINAL_G || b == FINAL_K
}

/// Number of consecutive ASCII digits starting at position `j`.
pub open spec fn digit_run(s: Seq<u8>, j: int) -> int
    decreases s.len() - j when j <= s.len()
{
    if j < 0 || j >= s.len() || !is_digit(s[j]) {
        0
    } else {
        1 + digit_run(s, j + 1)
    }
}

/// Basic facts about a digit run: it is non-negative, stays inside the
/// sequence, consists of digits, and stops at the first non-digit.
pub proof fn lemma_digit_run(s: Seq<u8>, j: int)
    requires
        j <= s.len(),
    ensures
        0 <= digit_run(s, j),
        j >= 0 ==> j + digit_run(s, j) <= s.len(),
        forall|k: int| j <= k < j + digit_run(s, j) ==> is_digit(s[k]),
        j >= 0 && j + digit_run(s, j) < s.len() ==> !is_digit(s[j + digit_run(s, j)]),
    decreases s.len() - j,
{
    if j < 0 || j >= s.len() || !is_digit(s[j]) {
    } else {
        lemma_digit_run(s, j + 1);
    }
}

/// Length of the removable sequence that starts at position `i`, or 0 when
/// no removable sequence starts there.
///
/// After `ESC [`, a parameter of `d` digits is accepted only when the run of
/// digits is exactly `d` with `1 <= d <= 3` (a longer run leaves the next
/// byte a digit, which can close nothing), and likewise `;` must be followed
/// by a run of exactly one or two digits; the byte after the parameter must
/// be a final byte.
pub open spec fn match_len_at(s: Seq<u8>, i: int) -> int {
    if 0 <= i && i + 2 <= s.len() && s[i] == ESCAPE && s[i + 1] == BRACKET {
        let j = i + 2;
        let d = digit_run(s, j);
        if d == 0 {
            if j < s.len() && is_final(s[j]) {
                3
            } else {
                0
            }
        } else if d <= 3 {
            let k = j + d;
            if k < s.len() && is_final(s[k]) {
                d + 3
            } else if k < s.len() && s[k] == SEMICOLON {
                let e = digit_run(s, k + 1);
                if 1 <= e <= 2 && k + 1 + e < s.len() && is_final(s[k + 1 + e]) {
                    d + e + 4
                } else {
                    0
                }
            } else {
                0
            }
        } else {
            0
        }
    } else {
        0
    }
}

/// A removable sequence is 3 to 9 bytes long and lies inside the stream.
pub proof fn lemma_match_len_bounds(s: Seq<u8>, i: int)
    ensures
        match_len_at(s, i) == 0 || (3 <= match_len_at(s, i) <= 9 && i + match_len_at(s, i)
            <= s.len()),
{
    if 0 <= i && i + 2 <= s.len() && s[i] == ESCAPE && s[i + 1] == BRACKET {
        lemma_digit_run(s, i + 2);
        let d = digit_run(s, i + 2);
        if 1 <= d <= 3 && i + 2 + d < s.len() && s[i + 2 + d] == SEMICOLON {
            lemma_digit_run(s, i + 2 + d + 1);
        }
    }
}

/// The stream with every removable sequence dropped, scanning left to right
/// from position `i`: a removable sequence is skipped whole, any other byte
/// is kept.
pub open spec fn strip_from(s: Seq<u8>, i: int) -> Seq<u8>
    decreases s.len() - i when 0 <= i
{
    if i >= s.len() {
        Seq::empty()
    } else if match_len_at(s, i) > 0 {
        proof {
            lemma_match_len_bounds(s, i);
        }
        strip_from(s, i + match_len_at(s, i))
    } else {
        seq![s[i]] + strip_from(s, i + 1)
    }
}

/// The stream with every removable escape sequence removed.
pub open spec fn strip_spec(s: Seq<u8>) -> Seq<u8> {
    strip_from(s, 0)
}

/// No removable sequence starts anywhere in `s`.
pub open spec fn contains_no_escape(s: Seq<u8>) -> bool {
    forall|j: int| #[trigger] match_len_at(s, j) == 0
}

/// Stripping from `i` never grows the tail, and keeps its length exactly
/// when no removable sequence starts at or after `i`.
proof fn lemma_strip_from_len(s: Seq<u8>, i: int)
    requires
        0 <= i <= s.len(),
    ensures
        strip_from(s, i).len() <= s.len() - i,
        strip_from(s, i).len() == s.len() - i <==> (forall|j: int|
            i <= j < s.len() ==> match_len_at(s, j) == 0),
    decreases s.len() - i,
{
    lemma_match_len_bounds(s, i);
    if i >= s.len() {
    } else if match_len_at(s, i) > 0 {
        lemma_strip_from_len(s, i + match_len_at(s, i));
    } else {
        lemma_strip_from_len(s, i + 1);
    }
}

/// Where no removable sequence starts at or after `i`, stripping keeps the
/// tail exactly.
proof fn lemma_strip_from_identity(s: Seq<u8>, i: int)
    requires
        0 <= i <= s.len(),
        forall|j: int| i <= j < s.len() ==> match_len_at(s, j) == 0,
    ensures
        strip_from(s, i) == s.subrange(i, s.len() as int),
    decreases s.len() - i,
{
    if i >= s.len() {
        assert(strip_from(s, i) =~= s.subrange(i, s.len() as int));
    } else {
        lemma_strip_from_identity(s, i + 1);
        assert(strip_from(s, i) =~= s.subrange(i, s.len() as int));
    }
}

/// Stripping never lengthens the stream, and keeps its length exactly when
/// and only when the stream holds no removable sequence.
pub proof fn lemma_strip_len(s: Seq<u8>)
    ensures
        strip_spec(s).len() <= s.len(),
        strip_spec(s).len() == s.len() <==> contains_no_escape(s),
{
    lemma_strip_from_len(s, 0);
    if strip_spec(s).len() == s.len() {
        assert forall|j: int| #[trigger] match_len_at(s, j) == 0 by {
            lemma_match_len_bounds(s, j);
            if 0 <= j < s.len() {
            }
        }
    }
}

/// A stream that holds no removable sequence is kept exactly.
pub proof fn lemma_strip_no_escape_identity(s: Seq<u8>)
    requires
        contains_no_escape(s),
    ensures
        strip_spec(s) == s,
{
    lemma_strip_from_identity(s, 0);
    assert(s.subrange(0, s.len() as int) =~= s);
}

/// Position of the first non-digit byte at or after `j`, capped so that the
/// scan never walks past the end of a removable parameter: the cap is only
/// reached when the digit run is at least `cap` long.
fn scan_digits(s: &[u8], j: usize, cap: usize) -> (k: usize)
    requires
        j <= s@.len(),
    ensures
        j <= k,
        k - j <= cap,
        k - j < cap ==> k - j == digit_run(s@, j as int),
        k - j == cap ==> digit_run(s@, j as int) >= cap,
{
    let mut k: usize = j;
    while k < s.len() && k - j < cap && s[k] >= DIGIT_ZERO && s[k] <= DIGIT_NINE
        invariant
            j <= k <= s@.len(),
            k - j <= cap,
            digit_run(s@, j as int) == (k - j) + digit_run(s@, k as int),
        decreases s@.len() - k,
    {
        assert(digit_run(s@, k as int) == 1 + digit_run(s@, k + 1));
        k = k + 1;
    }
    proof {
        lemma_digit_run(s@, k as int);
        if k >= s@.len() || !is_digit(s@[k as int]) {
            assert(digit_run(s@, k as int) == 0);
        }
    }
    k
}

/// Length of the removable sequence starting at position `i`, or 0 when no
/// removable sequence starts there.
pub fn match_len(s: &[u8], i: usize) -> (n: usize)
    requires
        i <= s@.len(),
    ensures
        n as int == match_len_at(s@, i as int),
{
    if s.len() - i < 2 || s[i] != ESCAPE || s[i + 1] != BRACKET {
        return 0;
    }
    let j = i + 2;
    let kd = scan_digits(s, j, 4);
    let d = kd - j;
    if d == 0 {
        if j < s.len() && (s[j] == FINAL_M || s[j] == FINAL_G || s[j] == FINAL_K) {
            3
        } else {
            0
        }
    } else if d <= 3 {
        let k = j + d;
        if k < s.len() && (s[k] == FINAL_M || s[k] == FINAL_G || s[k] == FINAL_K) {
            d + 3
        } else if k < s.len() && s[k] == SEMICOLON {
            let ke = scan_digits(s, k + 1, 3);
            let e = ke - (k + 1);
            if 1 <= e && e <= 2 && k + 1 + e < s.len() && (s[k + 1 + e] == FINAL_M || s[k + 1 + e]
                == FINAL_G || s[k + 1 + e] == FINAL_K) {
                d + e + 4
            } else {
                0
            }
        } else {
            0
        }
    } else {
        0
    }
}

/// Copy of the input with every removable escape sequence removed; every
/// byte outside a removable sequence is kept, in order.
pub fn strip_escapes(s: &[u8]) -> (r: Vec<u8>)
    ensures
        r@ == strip_spec(s@),
{
    let mut out: Vec<u8> = Vec::new();
    let mut i: usize = 0;
    while i < s.len()
        invariant
            i <= s@.len(),
            strip_spec(s@) == out@ + strip_from(s@, i as int),
        decreases s@.len() - i,
    {
        let n = match_len(s, i);
        if n > 0 {
            proof {
                lemma_match_len_bounds(s@, i as int);
            }
            i = i + n;
        } else {
            let ghost prev = out@;
            out.push(s[i]);
            assert(out@ =~= prev + seq![s@[i as int]]);
            assert(prev + (seq![s@[i as int]] + strip_from(s@, i + 1)) =~= (prev + seq![
                s@[i as int],
            ]) + strip_from(s@, i + 1));
            i = i + 1;
        }
    }
    assert(strip_spec(s@) =~= out@);
    out
}

/// A stream without the escape byte holds no removable sequence at all, so
/// stripping keeps it exactly.
pub proof fn lemma_no_escape_byte_no_sequence(s: Seq<u8>)
    requires
        forall|i: int| 0 <= i < s.len() ==> s[i] != ESCAPE,
    ensures
        contains_no_escape(s),
        strip_spec(s) == s,
{
    assert forall|j: int| #[trigger] match_len_at(s, j) == 0 by {
        if 0 <= j && j + 2 <= s.len() {
            assert(s[j] != ESCAPE);
        }
    }
    lemma_strip_no_escape_identity(s);
}

/// Stripping twice is the same as stripping once, on every stream whose
/// stripped form holds no removable sequence.  (Dropping a sequence can
/// splice a new removable sequence together out of the kept bytes on either
/// side of it; on such a stream a second pass still finds work, so the
/// hypothesis leaves exactly those streams out.)
pub proof fn lemma_strip_idempotent(s: Seq<u8>)
    requires
        contains_no_escape(strip_spec(s)),
    ensures
        strip_spec(strip_spec(s)) == strip_spec(s),
{
    lemma_strip_no_escape_identity(strip_spec(s));
}

} // verus!
