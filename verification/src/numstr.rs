use vstd::prelude::*;
use vstd::string::{StrSliceExecFns, StringExecFns};

verus! {

/// The character for the decimal digit d.
pub open spec fn dec_digit(d: nat) -> char {
    if d == 0 {
        '0'
    } else if d == 1 {
        '1'
    } else if d == 2 {
        '2'
    } else if d == 3 {
        '3'
    } else if d == 4 {
        '4'
    } else if d == 5 {
        '5'
    } else if d == 6 {
        '6'
    } else if d == 7 {
        '7'
    } else if d == 8 {
        '8'
    } else {
        '9'
    }
}

/// The decimal text of n: most significant digit first, no sign, no
/// leading zero except for n == 0 itself.
pub open spec fn dec_str(n: nat) -> Seq<char>
    decreases n,
{
    if n < 10 {
        seq![dec_digit(n)]
    } else {
        dec_str(n / 10).push(dec_digit(n % 10))
    }
}

fn digit_str(d: u64) -> (r: &'static str)
    requires
        d < 10,
    ensures
        r@ == seq![dec_digit(d as nat)],
{
    let r: &'static str = if d == 0 {
        "0"
    } else if d == 1 {
        "1"
    } else if d == 2 {
        "2"
    } else if d == 3 {
        "3"
    } else if d == 4 {
        "4"
    } else if d == 5 {
        "5"
    } else if d == 6 {
        "6"
    } else if d == 7 {
        "7"
    } else if d == 8 {
        "8"
    } else {
        "9"
    };
    proof {
        reveal_strlit("0");
        reveal_strlit("1");
        reveal_strlit("2");
        reveal_strlit("3");
        reveal_strlit("4");
        reveal_strlit("5");
        reveal_strlit("6");
        reveal_strlit("7");
        reveal_strlit("8");
        reveal_strlit("9");
        assert(r@ =~= seq![dec_digit(d as nat)]);
    }
    r
}

/// Formats n as decimal text.
pub fn u64_to_string(n: u64) -> (s: String)
    ensures
        s@ == dec_str(n as nat),
    decreases n,
{
    if n < 10 {
        String::from_str(digit_str(n))
    } else {
        let mut s = u64_to_string(n / 10);
        s.append(digit_str(n % 10));
        proof {
            assert(s@ =~= dec_str(n as nat));
        }
        s
    }
}

/// A count of milliseconds rendered as seconds: the whole seconds in
/// decimal, a dot, then exactly three fractional digits.
pub open spec fn seconds_str(ms: nat) -> Seq<char> {
    dec_str(ms / 1000) + seq![
        '.',
        dec_digit((ms / 100) % 10),
        dec_digit((ms / 10) % 10),
        dec_digit(ms % 10),
    ]
}

/// Formats a millisecond count as a seconds string, e.g. 1500 as "1.500".
pub fn millis_to_seconds_string(ms: u64) -> (s: String)
    ensures
        s@ == seconds_str(ms as nat),
{
    let mut s = u64_to_string(ms / 1000);
    s.append(".");
    s.append(digit_str((ms / 100) % 10));
    s.append(digit_str((ms / 10) % 10));
    s.append(digit_str(ms % 10));
    proof {
        reveal_strlit(".");
        assert(s@ =~= seconds_str(ms as nat));
    }
    s
}

pub open spec fn is_dec_digit(c: char) -> bool {
    '0' <= c && c <= '9'
}

pub open spec fn digit_val(c: char) -> nat {
    (c as nat - '0' as nat) as nat
}

pub open spec fn all_digits(s: Seq<char>) -> bool {
    forall|i: int| 0 <= i < s.len() ==> is_dec_digit(s[i])
}

/// The value of a string of decimal digits, most significant first.
pub open spec fn dec_val(s: Seq<char>) -> nat
    decreases s.len(),
{
    if s.len() == 0 {
        0
    } else {
        dec_val(s.drop_last()) * 10 + digit_val(s.last())
    }
}

/// Parses unsigned decimal text. Returns the value exactly when the
/// text is one or more decimal digits and the value fits in u64.
pub fn parse_u64(s: &str) -> (r: Option<u64>)
    ensures
        match r {
            Some(v) => s@.len() > 0 && all_digits(s@) && v == dec_val(s@),
            None => !(s@.len() > 0 && all_digits(s@) && dec_val(s@) <= u64::MAX),
        },
{
    let n = s.unicode_len();
    if n == 0 {
        return None;
    }
    let mut acc: u64 = 0;
    let mut i: usize = 0;
    while i < n
        invariant
            0 < n == s@.len(),
            0 <= i <= n,
            all_digits(s@.subrange(0, i as int)),
            acc == dec_val(s@.subrange(0, i as int)),
        decreases n - i,
    {
        let c = s.get_char(i);
        if !('0' <= c && c <= '9') {
            assert(!is_dec_digit(s@[i as int]));
            return None;
        }
        let d: u64 = (c as u32 as u64) - 48;
        assert(d == digit_val(s@[i as int]) && d < 10);
        if acc > (u64::MAX - d) / 10 {
            proof {
                let p = s@.subrange(0, i as int + 1);
                assert(p.drop_last() =~= s@.subrange(0, i as int));
                assert(dec_val(p) == acc * 10 + d);
                assert(acc * 10 + d > u64::MAX) by (nonlinear_arith)
                    requires
                        acc > (u64::MAX - d) / 10,
                        d < 10,
                ;
                lemma_dec_val_prefix_le(s@, i as int + 1);
            }
            return None;
        }
        proof {
            assert(acc * 10 + d <= u64::MAX) by (nonlinear_arith)
                requires
                    acc <= (u64::MAX - d) / 10,
                    d < 10,
            ;
        }
        acc = acc * 10 + d;
        i = i + 1;
        proof {
            let p = s@.subrange(0, i as int);
            assert(p.drop_last() =~= s@.subrange(0, i as int - 1));
            assert(all_digits(p));
        }
    }
    proof {
        assert(s@.subrange(0, n as int) =~= s@);
    }
    Some(acc)
}

/// The position of the first dot at or after i, if any.
pub open spec fn find_dot(s: Seq<char>, i: nat) -> Option<nat>
    decreases s.len() - i,
    when i <= s.len()
{
    if i >= s.len() {
        None
    } else if s[i as int] == '.' {
        Some(i)
    } else {
        find_dot(s, i + 1)
    }
}

pub open spec fn pow10(n: nat) -> nat
    decreases n,
{
    if n == 0 {
        1
    } else {
        10 * pow10((n - 1) as nat)
    }
}

/// The millisecond value of decimal-seconds text: one or more digits,
/// optionally followed by a dot and one to three fractional digits.
pub open spec fn millis_of_decimal(s: Seq<char>) -> Option<nat> {
    match find_dot(s, 0) {
        None => if s.len() > 0 && all_digits(s) {
            Some(dec_val(s) * 1000)
        } else {
            None
        },
        Some(i) => {
            let ip = s.subrange(0, i as int);
            let fp = s.subrange(i as int + 1, s.len() as int);
            if ip.len() > 0 && all_digits(ip) && 1 <= fp.len() <= 3 && all_digits(fp) {
                Some(dec_val(ip) * 1000 + dec_val(fp) * pow10((3 - fp.len()) as nat))
            } else {
                None
            }
        },
    }
}

fn find_dot_exec(s: &str) -> (r: Option<usize>)
    ensures
        match r {
            Some(i) => find_dot(s@, 0) == Some(i as nat) && i < s@.len() && s@[i as int] == '.',
            None => find_dot(s@, 0) is None,
        },
{
    let n = s.unicode_len();
    let mut i: usize = 0;
    while i < n
        invariant
            i <= n == s@.len(),
            find_dot(s@, 0) == find_dot(s@, i as nat),
        decreases n - i,
    {
        if s.get_char(i) == '.' {
            assert(find_dot(s@, i as nat) == Some(i as nat));
            return Some(i);
        }
        assert(find_dot(s@, i as nat) == find_dot(s@, (i + 1) as nat));
        i = i + 1;
    }
    assert(find_dot(s@, i as nat) is None);
    None
}

/// The value of a digit string is under ten to its length.
proof fn lemma_dec_val_upper(s: Seq<char>)
    requires
        all_digits(s),
    ensures
        dec_val(s) < pow10(s.len()),
    decreases s.len(),
{
    if s.len() == 0 {
    } else {
        lemma_dec_val_upper(s.drop_last());
        assert(is_dec_digit(s.last()));
        assert(digit_val(s.last()) <= 9);
        assert(dec_val(s.drop_last()) * 10 <= (pow10((s.len() - 1) as nat) - 1) * 10)
            by (nonlinear_arith)
            requires
                dec_val(s.drop_last()) <= pow10((s.len() - 1) as nat) - 1,
        ;
    }
}

/// Parses decimal-seconds text (as the isolation backend and the
/// manifest write it, e.g. "1.5") into milliseconds. Returns the value
/// exactly when the text is well formed and the value fits in u64.
pub fn parse_seconds_to_millis(s: &str) -> (r: Option<u64>)
    ensures
        match millis_of_decimal(s@) {
            Some(v) => if v <= u64::MAX {
                r == Some(v as u64)
            } else {
                r is None
            },
            None => r is None,
        },
{
    let n = s.unicode_len();
    match find_dot_exec(s) {
        None => {
            match parse_u64(s) {
                None => {
                    proof {
                        assert(dec_val(s@) * 1000 >= dec_val(s@)) by (nonlinear_arith);
                    }
                    None
                },
                Some(ipv) => {
                    if ipv > u64::MAX / 1000 {
                        proof {
                            assert(ipv * 1000 > u64::MAX) by (nonlinear_arith)
                                requires
                                    ipv > u64::MAX / 1000,
                            ;
                        }
                        None
                    } else {
                        proof {
                            assert(ipv * 1000 <= u64::MAX) by (nonlinear_arith)
                                requires
                                    ipv <= u64::MAX / 1000,
                            ;
                        }
                        Some(ipv * 1000)
                    }
                },
            }
        },
        Some(dot) => {
            let ip = s.substring_char(0, dot);
            let fp = s.substring_char(dot + 1, n);
            let flen = n - (dot + 1);
            assert(fp@.len() == flen);
            if flen < 1 || flen > 3 {
                return None;
            }
            match (parse_u64(ip), parse_u64(fp)) {
                (Some(ipv), Some(fpv)) => {
                    let scale: u64 = if flen == 1 {
                        100
                    } else if flen == 2 {
                        10
                    } else {
                        1
                    };
                    proof {
                        lemma_dec_val_upper(fp@);
                        reveal_with_fuel(pow10, 5);
                        assert(pow10(1) == 10 && pow10(2) == 100 && pow10(3) == 1000);
                        assert(scale == pow10((3 - fp@.len()) as nat));
                        assert(fpv * scale <= 999) by (nonlinear_arith)
                            requires
                                flen == 1 ==> fpv <= 9 && scale == 100,
                                flen == 2 ==> fpv <= 99 && scale == 10,
                                flen == 3 ==> fpv <= 999 && scale == 1,
                                1 <= flen <= 3,
                                scale >= 1,
                        ;
                    }
                    let extra: u64 = fpv * scale;
                    if ipv > (u64::MAX - extra) / 1000 {
                        proof {
                            assert(ipv * 1000 + extra > u64::MAX) by (nonlinear_arith)
                                requires
                                    ipv > (u64::MAX - extra) / 1000,
                                    extra <= 999,
                            ;
                        }
                        None
                    } else {
                        proof {
                            assert(ipv * 1000 + extra <= u64::MAX) by (nonlinear_arith)
                                requires
                                    ipv <= (u64::MAX - extra) / 1000,
                                    extra <= 999,
                            ;
                        }
                        Some(ipv * 1000 + extra)
                    }
                },
                _ => {
                    proof {
                        if millis_of_decimal(s@) is Some {
                            lemma_dec_val_upper(fp@);
                            reveal_with_fuel(pow10, 5);
                            assert(pow10(1) == 10 && pow10(2) == 100 && pow10(3) == 1000);
                            assert(dec_val(ip@) * 1000 >= dec_val(ip@)) by (nonlinear_arith);
                        }
                    }
                    None
                },
            }
        },
    }
}

/// A digit prefix never exceeds the value of the digit string it
/// begins: used to show that overflow in a prefix dooms the whole.
proof fn lemma_dec_val_prefix_le(s: Seq<char>, i: int)
    requires
        0 <= i <= s.len(),
    ensures
        dec_val(s.subrange(0, i)) <= dec_val(s),
    decreases s.len() - i,
{
    if i == s.len() {
        assert(s.subrange(0, i) =~= s);
    } else {
        lemma_dec_val_prefix_le(s, i + 1);
        let p = s.subrange(0, i + 1);
        assert(p.drop_last() =~= s.subrange(0, i));
        assert(dec_val(p) == dec_val(s.subrange(0, i)) * 10 + digit_val(p.last()));
        assert(dec_val(s.subrange(0, i)) <= dec_val(s.subrange(0, i)) * 10) by (nonlinear_arith);
    }
}

} // verus!
