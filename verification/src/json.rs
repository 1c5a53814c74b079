//! Byte-level primitives of the feed's JSON wire format.
//!
//! The inbound envelopes and the outbound subscribe requests are JSON
//! text; this module defines, as spec functions over byte sequences, the
//! exact grammar the monitor speaks, together with verified executable
//! scanners and builders for it.  Frames that do not fit the grammar are
//! never an error for a caller: the scanners return `None` and the frame
//! is ignored upstream.

use vstd::prelude::*;

verus! {

// --- byte classes ---------------------------------------------------------

/// JSON insignificant whitespace: space, tab, line feed, carriage return.
pub open spec fn is_ws_byte(b: u8) -> bool {
    b == 32 || b == 9 || b == 10 || b == 13
}

/// ASCII decimal digit.
pub open spec fn is_digit(b: u8) -> bool {
    48 <= b && b <= 57
}

/// Matches a spec-level `Option<int>` position against an executable
/// `Option<usize>` one.
pub open spec fn pos_matches(r: Option<usize>, s: Option<int>) -> bool {
    match r {
        Some(p) => s is Some && p as int == s.unwrap(),
        None => s is None,
    }
}

// --- whitespace -----------------------------------------------------------

/// First position at or after `i` that does not hold whitespace.
pub open spec fn spec_skip_ws(s: Seq<u8>, i: int) -> int
    decreases s.len() - i,
{
    if 0 <= i && i < s.len() && is_ws_byte(s[i]) {
        spec_skip_ws(s, i + 1)
    } else {
        i
    }
}

pub fn skip_ws(s: &Vec<u8>, i: usize) -> (r: usize)
    requires
        i <= s.len(),
    ensures
        r as int == spec_skip_ws(s@, i as int),
        i <= r <= s.len(),
        r < s.len() ==> !is_ws_byte(s@[r as int]),
    decreases s.len() - i,
{
    if i < s.len() && (s[i] == 32 || s[i] == 9 || s[i] == 10 || s[i] == 13) {
        skip_ws(s, i + 1)
    } else {
        i
    }
}

// --- digit runs and number tokens -----------------------------------------

/// First position at or after `i` that does not hold a digit.
pub open spec fn spec_scan_digits(s: Seq<u8>, i: int) -> int
    decreases s.len() - i,
{
    if 0 <= i && i < s.len() && is_digit(s[i]) {
        spec_scan_digits(s, i + 1)
    } else {
        i
    }
}

pub fn scan_digits(s: &Vec<u8>, i: usize) -> (r: usize)
    requires
        i <= s.len(),
    ensures
        r as int == spec_scan_digits(s@, i as int),
        i <= r <= s.len(),
        i < s.len() && is_digit(s@[i as int]) ==> r >= i + 1,
    decreases s.len() - i,
{
    if i < s.len() && 48 <= s[i] && s[i] <= 57 {
        scan_digits(s, i + 1)
    } else {
        i
    }
}

/// End of an optional fraction part starting at `k`: either no `.` is
/// present, or the dot is followed by at least one digit.
pub open spec fn spec_frac_end(s: Seq<u8>, k: int) -> Option<int> {
    if 0 <= k && k < s.len() && s[k] == 46 {
        if k + 1 < s.len() && is_digit(s[k + 1]) {
            Some(spec_scan_digits(s, k + 1))
        } else {
            None
        }
    } else {
        Some(k)
    }
}

/// End of an optional exponent part starting at `k`.
pub open spec fn spec_exp_end(s: Seq<u8>, k: int) -> Option<int> {
    if 0 <= k && k < s.len() && (s[k] == 101 || s[k] == 69) {
        let m = if k + 1 < s.len() && (s[k + 1] == 43 || s[k + 1] == 45) {
            k + 2
        } else {
            k + 1
        };
        if m < s.len() && is_digit(s[m]) {
            Some(spec_scan_digits(s, m))
        } else {
            None
        }
    } else {
        Some(k)
    }
}

/// End of a JSON number token starting exactly at `i`:
/// `-? (0 | [1-9][0-9]*) (. [0-9]+)? ([eE][+-]?[0-9]+)?`.
pub open spec fn spec_number_end(s: Seq<u8>, i: int) -> Option<int> {
    let j = if 0 <= i && i < s.len() && s[i] == 45 {
        i + 1
    } else {
        i
    };
    if 0 <= j && j < s.len() && is_digit(s[j]) {
        let k = if s[j] == 48 {
            j + 1
        } else {
            spec_scan_digits(s, j)
        };
        match spec_frac_end(s, k) {
            Some(k2) => spec_exp_end(s, k2),
            None => None,
        }
    } else {
        None
    }
}

pub fn number_end(s: &Vec<u8>, i: usize) -> (r: Option<usize>)
    requires
        i <= s.len(),
    ensures
        pos_matches(r, spec_number_end(s@, i as int)),
        r is Some ==> i < r.unwrap() <= s.len(),
{
    let j = if i < s.len() && s[i] == 45 {
        i + 1
    } else {
        i
    };
    if j < s.len() && 48 <= s[j] && s[j] <= 57 {
        let k = if s[j] == 48 {
            j + 1
        } else {
            scan_digits(s, j)
        };
        // optional fraction
        let k2 = if k < s.len() && s[k] == 46 {
            if k + 1 < s.len() && 48 <= s[k + 1] && s[k + 1] <= 57 {
                scan_digits(s, k + 1)
            } else {
                return None;
            }
        } else {
            k
        };
        // optional exponent
        if k2 < s.len() && (s[k2] == 101 || s[k2] == 69) {
            let m = if k2 + 1 < s.len() && (s[k2 + 1] == 43 || s[k2 + 1] == 45) {
                k2 + 2
            } else {
                k2 + 1
            };
            if m < s.len() && 48 <= s[m] && s[m] <= 57 {
                Some(scan_digits(s, m))
            } else {
                None
            }
        } else {
            Some(k2)
        }
    } else {
        None
    }
}

// --- integer value of a number token --------------------------------------

/// Value of a sequence of decimal digit bytes.
pub open spec fn spec_digits_val(s: Seq<u8>) -> int
    decreases s.len(),
{
    if s.len() == 0 {
        0
    } else {
        spec_digits_val(s.drop_last()) * 10 + (s.last() - 48)
    }
}

pub open spec fn all_digits(s: Seq<u8>) -> bool {
    forall|i: int| 0 <= i < s.len() ==> is_digit(s[i])
}

/// Integer value of a token, if the token is a plain decimal integer of
/// at most eighteen digits (so the value always fits a machine word);
/// fractional, exponent-bearing, longer or malformed tokens have none.
pub open spec fn spec_token_int(tok: Seq<u8>) -> Option<int> {
    let ds = if tok.len() > 0 && tok[0] == 45 {
        tok.subrange(1, tok.len() as int)
    } else {
        tok
    };
    if 1 <= ds.len() <= 18 && all_digits(ds) {
        if tok.len() > 0 && tok[0] == 45 {
            Some(-spec_digits_val(ds))
        } else {
            Some(spec_digits_val(ds))
        }
    } else {
        None
    }
}

/// The value of at most seventeen digits stays well inside a machine word.
proof fn lemma_digits_val_small(s: Seq<u8>)
    requires
        all_digits(s),
        s.len() <= 17,
    ensures
        0 <= spec_digits_val(s) < 100000000000000000,
{
    lemma_digits_val_pow(s, 17);
    assert(pow10(17) == 100000000000000000) by {
        reveal_with_fuel(pow10, 19);
    }
}

/// General bound: `n` digits are worth less than ten to the `n`.
proof fn lemma_digits_val_pow(s: Seq<u8>, n: nat)
    requires
        all_digits(s),
        s.len() <= n,
    ensures
        0 <= spec_digits_val(s) < pow10(n),
    decreases n,
{
    if s.len() == 0 {
        lemma_pow10_pos(n);
    } else {
        assert(all_digits(s.drop_last())) by {
            assert(forall|i: int| 0 <= i < s.len() - 1 ==> s.drop_last()[i] == s[i]);
        }
        lemma_digits_val_pow(s.drop_last(), (n - 1) as nat);
        assert(pow10(n) == 10 * pow10((n - 1) as nat));
    }
}

pub open spec fn pow10(n: nat) -> int
    decreases n,
{
    if n == 0 {
        1
    } else {
        10 * pow10((n - 1) as nat)
    }
}

proof fn lemma_pow10_pos(n: nat)
    ensures
        pow10(n) >= 1,
    decreases n,
{
    if n > 0 {
        lemma_pow10_pos((n - 1) as nat);
    }
}

/// Integer value of a number token, exactly as `spec_token_int` gives it.
pub fn token_int(tok: &Vec<u8>) -> (r: Option<i64>)
    ensures
        match r {
            Some(v) => spec_token_int(tok@) == Some(v as int),
            None => spec_token_int(tok@) is None,
        },
{
    let neg = tok.len() > 0 && tok[0] == 45;
    let start: usize = if neg {
        1
    } else {
        0
    };
    let n = tok.len();
    let ghost ds = if neg {
        tok@.subrange(1, tok@.len() as int)
    } else {
        tok@
    };
    proof {
        assert(ds.len() == n - start);
        assert(forall|k: int| 0 <= k < ds.len() ==> ds[k] == tok@[start + k]);
    }
    if n - start < 1 || n - start > 18 {
        return None;
    }
    let mut acc: i64 = 0;
    let mut i: usize = start;
    while i < n
        invariant
            start <= i <= n,
            n == tok@.len(),
            neg == (tok@.len() > 0 && tok@[0] == 45),
            start == if neg { 1int } else { 0int },
            1 <= n - start <= 18,
            ds == if neg { tok@.subrange(1, tok@.len() as int) } else { tok@ },
            ds.len() == n - start,
            forall|k: int| 0 <= k < ds.len() ==> ds[k] == tok@[start + k],
            all_digits(ds.subrange(0, i - start)),
            acc == spec_digits_val(ds.subrange(0, i - start)),
            0 <= acc < 1000000000000000000,
        decreases n - i,
    {
        let b = tok[i];
        if b < 48 || b > 57 {
            proof {
                assert(ds[i - start] == tok@[i as int]);
                assert(!is_digit(ds[i - start]));
                assert(!all_digits(ds));
            }
            return None;
        }
        proof {
            lemma_digits_val_small(ds.subrange(0, i - start));
        }
        acc = acc * 10 + ((b - 48) as i64);
        i = i + 1;
        proof {
            let pre = ds.subrange(0, i - 1 - start as int);
            let cur = ds.subrange(0, i - start);
            assert(cur.drop_last() =~= pre);
            assert(cur.last() == tok@[i - 1]);
        }
    }
    proof {
        assert(ds.subrange(0, n - start) =~= ds);
    }
    if neg {
        Some(-acc)
    } else {
        Some(acc)
    }
}

// --- escaping for outbound frames -----------------------------------------

/// Lower-case hex digit of a value below sixteen.
pub open spec fn spec_hex_digit(n: u8) -> u8 {
    if n < 10 {
        (48 + n) as u8
    } else {
        (87 + n) as u8
    }
}

/// How one content byte is written inside a JSON string literal.
pub open spec fn spec_escape_byte(b: u8) -> Seq<u8> {
    if b == 34 {
        seq![92u8, 34u8]
    } else if b == 92 {
        seq![92u8, 92u8]
    } else if b < 32 {
        seq![92u8, 117u8, 48u8, 48u8, spec_hex_digit((b / 16) as u8), spec_hex_digit((b % 16) as u8)]
    } else {
        seq![b]
    }
}

/// JSON string-literal encoding of a byte sequence.
pub open spec fn spec_json_escape(s: Seq<u8>) -> Seq<u8>
    decreases s.len(),
{
    if s.len() == 0 {
        Seq::empty()
    } else {
        spec_json_escape(s.drop_last()) + spec_escape_byte(s.last())
    }
}

/// Appends a run of bytes to `out` unchanged.
pub fn append_slice(out: &mut Vec<u8>, src: &[u8])
    ensures
        final(out)@ == old(out)@ + src@,
{
    let n = src.len();
    let mut i: usize = 0;
    proof {
        assert(out@ =~= old(out)@ + src@.subrange(0, 0));
    }
    while i < n
        invariant
            i <= n,
            n == src@.len(),
            out@ == old(out)@ + src@.subrange(0, i as int),
        decreases n - i,
    {
        out.push(src[i]);
        i = i + 1;
        proof {
            assert(src@.subrange(0, i as int) =~= src@.subrange(0, i - 1) + seq![src@[i - 1]]);
        }
    }
    proof {
        assert(src@.subrange(0, n as int) =~= src@);
    }
}

/// Appends the JSON string-literal encoding of `src` to `out`.
pub fn append_escaped(out: &mut Vec<u8>, src: &[u8])
    ensures
        final(out)@ == old(out)@ + spec_json_escape(src@),
{
    let n = src.len();
    let mut i: usize = 0;
    while i < n
        invariant
            i <= n,
            n == src@.len(),
            out@ == old(out)@ + spec_json_escape(src@.subrange(0, i as int)),
        decreases n - i,
    {
        let b = src[i];
        if b == 34 {
            out.push(92);
            out.push(34);
        } else if b == 92 {
            out.push(92);
            out.push(92);
        } else if b < 32 {
            out.push(92);
            out.push(117);
            out.push(48);
            out.push(48);
            let hi = b / 16;
            let lo = b % 16;
            out.push(if hi < 10 { 48 + hi } else { 87 + hi });
            out.push(if lo < 10 { 48 + lo } else { 87 + lo });
        } else {
            out.push(b);
        }
        i = i + 1;
        proof {
            let cur = src@.subrange(0, i as int);
            assert(cur.drop_last() =~= src@.subrange(0, i - 1));
            assert(cur.last() == src@[i - 1]);
            assert(out@ =~= old(out)@ + spec_json_escape(cur));
        }
    }
    proof {
        assert(src@.subrange(0, n as int) =~= src@);
    }
}

// --- string literals: decode direction ------------------------------------

/// Byte stood for by a single-character escape, if the character is one.
pub open spec fn spec_unescape(e: u8) -> Option<u8> {
    if e == 34 {
        Some(34u8)
    } else if e == 92 {
        Some(92u8)
    } else if e == 47 {
        Some(47u8)
    } else if e == 98 {
        Some(8u8)
    } else if e == 102 {
        Some(12u8)
    } else if e == 110 {
        Some(10u8)
    } else if e == 114 {
        Some(13u8)
    } else if e == 116 {
        Some(9u8)
    } else {
        None
    }
}

/// Value of one hexadecimal digit byte.
pub open spec fn spec_hex_val(b: u8) -> Option<u8> {
    if 48 <= b && b <= 57 {
        Some((b - 48) as u8)
    } else if 97 <= b && b <= 102 {
        Some((b - 87) as u8)
    } else if 65 <= b && b <= 70 {
        Some((b - 55) as u8)
    } else {
        None
    }
}

/// Code point of the four hex digits at `i`, if all four are hex digits.
pub open spec fn spec_cp4(s: Seq<u8>, i: int) -> Option<int> {
    if 0 <= i && i + 4 <= s.len() {
        match (spec_hex_val(s[i]), spec_hex_val(s[i + 1]), spec_hex_val(s[i + 2]), spec_hex_val(
            s[i + 3],
        )) {
            (Some(a), Some(b), Some(c), Some(d)) => Some(
                (a as int) * 4096 + (b as int) * 256 + (c as int) * 16 + (d as int),
            ),
            _ => None,
        }
    } else {
        None
    }
}

/// UTF-8 bytes of a code point below `0x10000`.
pub open spec fn spec_utf8_enc(cp: int) -> Seq<u8> {
    if cp < 0x80 {
        seq![cp as u8]
    } else if cp < 0x800 {
        seq![(192 + cp / 64) as u8, (128 + cp % 64) as u8]
    } else {
        seq![(224 + cp / 4096) as u8, (128 + (cp / 64) % 64) as u8, (128 + cp % 64) as u8]
    }
}

/// Content and end position of a JSON string literal whose opening quote
/// stands just before `i`: decoded bytes, and the position after the
/// closing quote.  Unescaped control bytes, broken escapes, lone
/// surrogate code points and a missing closing quote have no parse.
pub open spec fn spec_string_body(s: Seq<u8>, i: int) -> Option<(Seq<u8>, int)>
    decreases s.len() - i,
{
    if !(0 <= i && i < s.len()) {
        None
    } else {
        let b = s[i];
        if b == 34 {
            Some((Seq::empty(), i + 1))
        } else if b == 92 {
            if i + 1 < s.len() {
                let e = s[i + 1];
                if e == 117 {
                    if i + 6 <= s.len() {
                        match spec_cp4(s, i + 2) {
                            Some(cp) => if 0xD800 <= cp && cp < 0xE000 {
                                None
                            } else {
                                match spec_string_body(s, i + 6) {
                                    Some(p) => Some((spec_utf8_enc(cp) + p.0, p.1)),
                                    None => None,
                                }
                            },
                            None => None,
                        }
                    } else {
                        None
                    }
                } else {
                    match spec_unescape(e) {
                        Some(d) => match spec_string_body(s, i + 2) {
                            Some(p) => Some((seq![d] + p.0, p.1)),
                            None => None,
                        },
                        None => None,
                    }
                }
            } else {
                None
            }
        } else if b < 32 {
            None
        } else {
            match spec_string_body(s, i + 1) {
                Some(p) => Some((seq![b] + p.0, p.1)),
                None => None,
            }
        }
    }
}

fn hex_val(b: u8) -> (r: Option<u8>)
    ensures
        r == spec_hex_val(b),
{
    if 48 <= b && b <= 57 {
        Some(b - 48)
    } else if 97 <= b && b <= 102 {
        Some(b - 87)
    } else if 65 <= b && b <= 70 {
        Some(b - 55)
    } else {
        None
    }
}

fn utf8_enc(cp: u32) -> (r: Vec<u8>)
    requires
        cp < 0x10000,
    ensures
        r@ == spec_utf8_enc(cp as int),
{
    let mut v: Vec<u8> = Vec::new();
    if cp < 0x80 {
        v.push(cp as u8);
    } else if cp < 0x800 {
        v.push((192 + cp / 64) as u8);
        v.push((128 + cp % 64) as u8);
    } else {
        v.push((224 + cp / 4096) as u8);
        v.push((128 + (cp / 64) % 64) as u8);
        v.push((128 + cp % 64) as u8);
    }
    proof {
        assert(v@ =~= spec_utf8_enc(cp as int));
    }
    v
}

/// Decodes the string literal whose opening quote stands just before
/// `i`, exactly as `spec_string_body` describes it.
#[verifier::rlimit(60)]
pub fn parse_string_body(s: &Vec<u8>, i: usize) -> (r: Option<(Vec<u8>, usize)>)
    requires
        i <= s.len(),
    ensures
        ({
            let sp = spec_string_body(s@, i as int);
            match r {
                Some(p) => sp is Some && p.0@ == sp.unwrap().0 && p.1 as int == sp.unwrap().1 && i
                    < p.1 <= s.len(),
                None => sp is None,
            }
        }),
    decreases s.len() - i,
{
    if i >= s.len() {
        return None;
    }
    let b = s[i];
    if b == 34 {
        Some((Vec::new(), i + 1))
    } else if b == 92 {
        if i + 1 >= s.len() {
            return None;
        }
        let e = s[i + 1];
        if e == 117 {
            if s.len() - i < 6 {
                return None;
            }
            let h0 = hex_val(s[i + 2]);
            let h1 = hex_val(s[i + 3]);
            let h2 = hex_val(s[i + 4]);
            let h3 = hex_val(s[i + 5]);
            match (h0, h1, h2, h3) {
                (Some(a), Some(bb), Some(c), Some(d)) => {
                    let cp: u32 = (a as u32) * 4096 + (bb as u32) * 256 + (c as u32) * 16 + (
                    d as u32);
                    if 0xD800 <= cp && cp < 0xE000 {
                        return None;
                    }
                    match parse_string_body(s, i + 6) {
                        Some((rest, end)) => {
                            let mut head = utf8_enc(cp);
                            let mut tail = rest;
                            head.append(&mut tail);
                            proof {
                                assert(head@ =~= spec_utf8_enc(cp as int)
                                    + spec_string_body(s@, i + 6).unwrap().0);
                            }
                            Some((head, end))
                        },
                        None => None,
                    }
                },
                _ => None,
            }
        } else {
            match unescape(e) {
                Some(d) => match parse_string_body(s, i + 2) {
                    Some((rest, end)) => {
                        let mut head: Vec<u8> = Vec::new();
                        head.push(d);
                        let mut tail = rest;
                        head.append(&mut tail);
                        proof {
                            assert(head@ =~= seq![d] + spec_string_body(s@, i + 2).unwrap().0);
                        }
                        Some((head, end))
                    },
                    None => None,
                },
                None => None,
            }
        }
    } else if b < 32 {
        None
    } else {
        match parse_string_body(s, i + 1) {
            Some((rest, end)) => {
                let mut head: Vec<u8> = Vec::new();
                head.push(b);
                let mut tail = rest;
                head.append(&mut tail);
                proof {
                    assert(head@ =~= seq![b] + spec_string_body(s@, i + 1).unwrap().0);
                }
                Some((head, end))
            },
            None => None,
        }
    }
}

// --- skipping a value of any shape ----------------------------------------
//
// Unknown members of an envelope carry arbitrary JSON; the monitor steps
// over them without keeping anything.  Nesting depth is bounded by the
// fuel argument, which callers set above the frame length, a bound no
// nested value can reach.

/// End position of the JSON value starting exactly at `i`.
pub open spec fn spec_skip_value(s: Seq<u8>, i: int, fuel: nat) -> Option<int>
    decreases fuel,
{
    if fuel == 0 || !(0 <= i && i < s.len()) {
        None
    } else {
        let b = s[i];
        if b == 34 {
            match spec_string_body(s, i + 1) {
                Some(p) => Some(p.1),
                None => None,
            }
        } else if b == 123 {
            spec_skip_members(s, spec_skip_ws(s, i + 1), true, (fuel - 1) as nat)
        } else if b == 91 {
            spec_skip_elems(s, spec_skip_ws(s, i + 1), true, (fuel - 1) as nat)
        } else if b == 116 {
            if i + 4 <= s.len() && s[i + 1] == 114 && s[i + 2] == 117 && s[i + 3] == 101 {
                Some(i + 4)
            } else {
                None
            }
        } else if b == 102 {
            if i + 5 <= s.len() && s[i + 1] == 97 && s[i + 2] == 108 && s[i + 3] == 115 && s[i + 4]
                == 101 {
                Some(i + 5)
            } else {
                None
            }
        } else if b == 110 {
            if i + 4 <= s.len() && s[i + 1] == 117 && s[i + 2] == 108 && s[i + 3] == 108 {
                Some(i + 4)
            } else {
                None
            }
        } else if b == 45 || is_digit(b) {
            spec_number_end(s, i)
        } else {
            None
        }
    }
}

/// End position of an array body, `i` standing at an element, at the
/// closing bracket of an empty array (`first`), or past the end.
pub open spec fn spec_skip_elems(s: Seq<u8>, i: int, first: bool, fuel: nat) -> Option<int>
    decreases fuel,
{
    if fuel == 0 || !(0 <= i && i < s.len()) {
        None
    } else if first && s[i] == 93 {
        Some(i + 1)
    } else {
        match spec_skip_value(s, i, (fuel - 1) as nat) {
            Some(e) => {
                let j = spec_skip_ws(s, e);
                if 0 <= j && j < s.len() && s[j] == 44 {
                    spec_skip_elems(s, spec_skip_ws(s, j + 1), false, (fuel - 1) as nat)
                } else if 0 <= j && j < s.len() && s[j] == 93 {
                    Some(j + 1)
                } else {
                    None
                }
            },
            None => None,
        }
    }
}

/// End position of an object body, `i` standing at a member's key, at
/// the closing brace of an empty object (`first`), or past the end.
pub open spec fn spec_skip_members(s: Seq<u8>, i: int, first: bool, fuel: nat) -> Option<int>
    decreases fuel,
{
    if fuel == 0 || !(0 <= i && i < s.len()) {
        None
    } else if first && s[i] == 125 {
        Some(i + 1)
    } else if s[i] == 34 {
        match spec_string_body(s, i + 1) {
            Some(k) => {
                let c = spec_skip_ws(s, k.1);
                if 0 <= c && c < s.len() && s[c] == 58 {
                    match spec_skip_value(s, spec_skip_ws(s, c + 1), (fuel - 1) as nat) {
                        Some(e) => {
                            let j = spec_skip_ws(s, e);
                            if 0 <= j && j < s.len() && s[j] == 44 {
                                spec_skip_members(s, spec_skip_ws(s, j + 1), false, (fuel - 1) as nat)
                            } else if 0 <= j && j < s.len() && s[j] == 125 {
                                Some(j + 1)
                            } else {
                                None
                            }
                        },
                        None => None,
                    }
                } else {
                    None
                }
            },
            None => None,
        }
    } else {
        None
    }
}

/// Steps over the value starting at `i`, exactly as `spec_skip_value`
/// describes it.
#[verifier::rlimit(60)]
pub fn skip_value(s: &Vec<u8>, i: usize, fuel: usize) -> (r: Option<usize>)
    requires
        i <= s.len(),
    ensures
        pos_matches(r, spec_skip_value(s@, i as int, fuel as nat)),
        r is Some ==> i < r.unwrap() <= s.len(),
    decreases fuel,
{
    if fuel == 0 || i >= s.len() {
        return None;
    }
    let b = s[i];
    if b == 34 {
        match parse_string_body(s, i + 1) {
            Some((_, e)) => Some(e),
            None => None,
        }
    } else if b == 123 {
        let j = skip_ws(s, i + 1);
        skip_members(s, j, true, fuel - 1)
    } else if b == 91 {
        let j = skip_ws(s, i + 1);
        skip_elems(s, j, true, fuel - 1)
    } else if b == 116 {
        if s.len() - i >= 4 && s[i + 1] == 114 && s[i + 2] == 117 && s[i + 3] == 101 {
            Some(i + 4)
        } else {
            None
        }
    } else if b == 102 {
        if s.len() - i >= 5 && s[i + 1] == 97 && s[i + 2] == 108 && s[i + 3] == 115 && s[i + 4]
            == 101 {
            Some(i + 5)
        } else {
            None
        }
    } else if b == 110 {
        if s.len() - i >= 4 && s[i + 1] == 117 && s[i + 2] == 108 && s[i + 3] == 108 {
            Some(i + 4)
        } else {
            None
        }
    } else if b == 45 || (48 <= b && b <= 57) {
        number_end(s, i)
    } else {
        None
    }
}

#[verifier::rlimit(60)]
fn skip_elems(s: &Vec<u8>, i: usize, first: bool, fuel: usize) -> (r: Option<usize>)
    requires
        i <= s.len(),
    ensures
        pos_matches(r, spec_skip_elems(s@, i as int, first, fuel as nat)),
        r is Some ==> i < r.unwrap() <= s.len(),
    decreases fuel,
{
    if fuel == 0 || i >= s.len() {
        return None;
    }
    if first && s[i] == 93 {
        return Some(i + 1);
    }
    match skip_value(s, i, fuel - 1) {
        Some(e) => {
            let j = skip_ws(s, e);
            if j < s.len() && s[j] == 44 {
                let k = skip_ws(s, j + 1);
                skip_elems(s, k, false, fuel - 1)
            } else if j < s.len() && s[j] == 93 {
                Some(j + 1)
            } else {
                None
            }
        },
        None => None,
    }
}

#[verifier::rlimit(60)]
fn skip_members(s: &Vec<u8>, i: usize, first: bool, fuel: usize) -> (r: Option<usize>)
    requires
        i <= s.len(),
    ensures
        pos_matches(r, spec_skip_members(s@, i as int, first, fuel as nat)),
        r is Some ==> i < r.unwrap() <= s.len(),
    decreases fuel,
{
    if fuel == 0 || i >= s.len() {
        return None;
    }
    if first && s[i] == 125 {
        return Some(i + 1);
    }
    if s[i] != 34 {
        return None;
    }
    match parse_string_body(s, i + 1) {
        Some((_, kend)) => {
            let c = skip_ws(s, kend);
            if c < s.len() && s[c] == 58 {
                let v = skip_ws(s, c + 1);
                match skip_value(s, v, fuel - 1) {
                    Some(e) => {
                        let j = skip_ws(s, e);
                        if j < s.len() && s[j] == 44 {
                            let k = skip_ws(s, j + 1);
                            skip_members(s, k, false, fuel - 1)
                        } else if j < s.len() && s[j] == 125 {
                            Some(j + 1)
                        } else {
                            None
                        }
                    },
                    None => None,
                }
            } else {
                None
            }
        },
        None => None,
    }
}

fn unescape(e: u8) -> (r: Option<u8>)
    ensures
        r == spec_unescape(e),
{
    if e == 34 {
        Some(34)
    } else if e == 92 {
        Some(92)
    } else if e == 47 {
        Some(47)
    } else if e == 98 {
        Some(8)
    } else if e == 102 {
        Some(12)
    } else if e == 110 {
        Some(10)
    } else if e == 114 {
        Some(13)
    } else if e == 116 {
        Some(9)
    } else {
        None
    }
}

} // verus!
