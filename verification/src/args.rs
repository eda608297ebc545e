//! Command-line argument handling: picks the ROM path and the cycle pace
//! out of the argument list.  The pace is a decimal number; anything that
//! is not one falls back to a default, as a lenient launcher should.
use vstd::prelude::*;

verus! {

/// The pace used when the argument is not a decimal number.
pub const DEFAULT_CYCLE_MILLIS: u128 = 4;

/// The digits of a number argument: one optional leading plus sign is
/// accepted and skipped.
pub open spec fn digit_seq(s: Seq<char>) -> Seq<char> {
    if s.len() > 0 && s[0] == '+' {
        s.skip(1)
    } else {
        s
    }
}

/// Whether every character is a decimal digit.
pub open spec fn all_digits(s: Seq<char>) -> bool {
    forall|i: int| 0 <= i < s.len() ==> 48 <= #[trigger] s[i] as int <= 57
}

/// The value of a digit string read in base ten.
pub open spec fn dec_val(s: Seq<char>) -> int
    decreases s.len(),
{
    if s.len() == 0 {
        0
    } else {
        dec_val(s.drop_last()) * 10 + (s.last() as int - 48)
    }
}

/// What the cycle-pace argument means: its decimal value when it is one
/// or more digits, after an optional plus sign, and fits the register;
/// the default otherwise.
pub open spec fn parsed_cycles(s: Seq<char>) -> u128 {
    let d = digit_seq(s);
    if d.len() > 0 && all_digits(d) && dec_val(d) <= u128::MAX {
        dec_val(d) as u128
    } else {
        DEFAULT_CYCLE_MILLIS
    }
}

/// A digit string's value is never negative.
proof fn lemma_dec_val_nonneg(s: Seq<char>)
    requires
        all_digits(s),
    ensures
        dec_val(s) >= 0,
    decreases s.len(),
{
    if s.len() > 0 {
        assert(all_digits(s.drop_last()));
        lemma_dec_val_nonneg(s.drop_last());
    }
}

/// A digit string is worth at least any of its prefixes.
proof fn lemma_dec_val_prefix(s: Seq<char>, k: int)
    requires
        all_digits(s),
        0 <= k <= s.len(),
    ensures
        dec_val(s.take(k)) <= dec_val(s),
    decreases s.len() - k,
{
    assert(all_digits(s.take(k)));
    if k == s.len() {
        assert(s.take(k) =~= s);
    } else {
        lemma_dec_val_nonneg(s.take(k));
        assert(s.take(k + 1).drop_last() =~= s.take(k));
        assert(s.take(k + 1).last() == s[k]);
        lemma_dec_val_prefix(s, k + 1);
    }
}

/// Read the cycle-pace argument; `parsed_cycles` says exactly what comes
/// back for every string.
fn parse_cycles(s: &String) -> (r: u128)
    ensures
        r == parsed_cycles(s@),
{
    let text = s.as_str();
    let n = text.unicode_len();
    let start: usize = if n > 0 && text.get_char(0) as u32 == 43 {
        1
    } else {
        0
    };
    let ghost d = digit_seq(s@);
    proof {
        assert(d =~= s@.subrange(start as int, n as int));
    }
    if start >= n {
        return DEFAULT_CYCLE_MILLIS;
    }
    let mut val: u128 = 0;
    let mut i: usize = start;
    while i < n
        invariant
            text@ == s@,
            start <= i <= n,
            n == s@.len(),
            start <= 1,
            d == digit_seq(s@),
            d =~= s@.subrange(start as int, n as int),
            forall|j: int| start <= j < i ==> 48 <= #[trigger] s@[j] as int <= 57,
            val == dec_val(s@.subrange(start as int, i as int)),
        decreases n - i,
    {
        let c = text.get_char(i);
        let cv = c as u32;
        if cv < 48 || cv > 57 {
            proof {
                assert(48 <= d[i - start] as int <= 57 ==> false);
                assert(!all_digits(d));
            }
            return DEFAULT_CYCLE_MILLIS;
        }
        let digit = (cv - 48) as u128;
        proof {
            assert(s@.subrange(start as int, i + 1).drop_last() =~= s@.subrange(
                start as int,
                i as int,
            ));
            assert(s@.subrange(start as int, i + 1).last() == s@[i as int]);
        }
        if val > (u128::MAX - digit) / 10 {
            proof {
                let pre = s@.subrange(start as int, i + 1);
                assert(pre =~= d.take(i + 1 - start));
                assert(dec_val(pre) == val * 10 + digit);
                assert(dec_val(pre) > u128::MAX);
                if all_digits(d) {
                    lemma_dec_val_prefix(d, i + 1 - start);
                }
            }
            return DEFAULT_CYCLE_MILLIS;
        }
        val = val * 10 + digit;
        i = i + 1;
    }
    proof {
        assert(s@.subrange(start as int, n as int) =~= d);
        assert(val == dec_val(d));
        assert(all_digits(d));
    }
    val
}

/// Pick the ROM path and the cycle pace out of the argument list: the
/// program name first, then the path, then the pace in milliseconds.
pub fn handle_input(args: Vec<String>) -> (r: (String, u128))
    requires
        args@.len() == 3,
    ensures
        r.0@ == args@[1]@,
        r.1 == parsed_cycles(args@[2]@),
{
    let cycles = parse_cycles(&args[2]);
    let filename = args[1].clone();
    (filename, cycles)
}

} // verus!
