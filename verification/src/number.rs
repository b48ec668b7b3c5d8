//! Numbers written out as text, read and printed.

use vstd::prelude::*;

verus! {

/// The value of one digit in a radix of at most 16.
pub open spec fn digit(c: char, radix: int) -> Option<int> {
    let value = if '0' <= c <= '9' {
        c as int - '0' as int
    } else if 'a' <= c <= 'f' {
        c as int - 'a' as int + 10
    } else if 'A' <= c <= 'F' {
        c as int - 'A' as int + 10
    } else {
        radix
    };
    if value < radix {
        Some(value)
    } else {
        None
    }
}

/// The value of a run of digits, most significant first.
pub open spec fn digits(s: Seq<char>, radix: int) -> Option<int>
    decreases s.len(),
{
    if s.len() == 0 {
        Some(0)
    } else {
        match (digits(s.drop_last(), radix), digit(s.last(), radix)) {
            (Some(high), Some(low)) => Some(high * radix + low),
            _ => None,
        }
    }
}

/// What an unsigned number reads as: an optional `+`, then at least one digit,
/// of a value that does not pass `max`.
pub open spec fn unsigned(s: Seq<char>, radix: int, max: int) -> Option<int> {
    let run = if s.len() > 0 && s[0] == '+' {
        s.skip(1)
    } else {
        s
    };
    match digits(run, radix) {
        Some(value) => if run.len() > 0 && value <= max {
            Some(value)
        } else {
            None
        },
        None => None,
    }
}

/// Longer runs of digits are worth at least as much, if they are worth anything.
pub proof fn lemma_digits_grow(s: Seq<char>, k: int, radix: int)
    requires
        0 <= k <= s.len(),
        radix >= 1,
    ensures
        digits(s, radix) is Some ==> digits(s.take(k), radix) is Some && 0 <= digits(
            s.take(k),
            radix,
        )->0 <= digits(s, radix)->0,
    decreases s.len(),
{
    if k == s.len() {
        assert(s.take(k) == s);
        if k > 0 {
            lemma_digits_grow(s.drop_last(), k - 1, radix);
            assert(s.drop_last().take(k - 1) == s.drop_last());
            if digits(s, radix) is Some {
                let high = digits(s.drop_last(), radix)->0;
                assert(0 <= high * radix) by (nonlinear_arith)
                    requires
                        0 <= high,
                        radix >= 1,
                ;
            }
        }
    } else {
        lemma_digits_grow(s.drop_last(), k, radix);
        assert(s.drop_last().take(k) == s.take(k));
        if digits(s, radix) is Some {
            let high = digits(s.drop_last(), radix)->0;
            assert(high <= high * radix) by (nonlinear_arith)
                requires
                    0 <= high,
                    radix >= 1,
            ;
        }
    }
}

/// Reads one digit.
pub fn read_digit(c: char, radix: u64) -> (r: Option<u64>)
    requires
        2 <= radix <= 16,
    ensures
        r is Some <==> digit(c, radix as int) is Some,
        r matches Some(d) ==> digit(c, radix as int) == Some(d as int),
        r matches Some(d) ==> d < radix,
{
    let value: u64 = if '0' <= c && c <= '9' {
        (c as u32 - '0' as u32) as u64
    } else if 'a' <= c && c <= 'f' {
        (c as u32 - 'a' as u32) as u64 + 10
    } else if 'A' <= c && c <= 'F' {
        (c as u32 - 'A' as u32) as u64 + 10
    } else {
        radix
    };
    if value < radix {
        Some(value)
    } else {
        None
    }
}

/// Reads an unsigned number of at most `max`; see [`unsigned`].
pub fn read_unsigned(v: &Vec<char>, from: usize, radix: u64, max: u64) -> (r: Option<u64>)
    requires
        from <= v@.len(),
        2 <= radix <= 16,
    ensures
        r is Some <==> unsigned(v@.skip(from as int), radix as int, max as int) is Some,
        r matches Some(n) ==> unsigned(v@.skip(from as int), radix as int, max as int) == Some(
            n as int,
        ),
{
    let start: usize = if from < v.len() && v[from] == '+' {
        from + 1
    } else {
        from
    };
    let ghost run = v@.skip(start as int);
    assert(from < start ==> v@.skip(from as int).skip(1) == run);
    if start == v.len() {
        return None;
    }
    let mut value: u64 = 0;
    let mut i: usize = start;
    assert(run.take(0) == Seq::<char>::empty());
    while i < v.len()
        invariant
            from <= start <= i <= v@.len(),
            start < v@.len(),
            run == v@.skip(start as int),
            run == (if from < v@.len() && v@[from as int] == '+' {
                v@.skip(from as int).skip(1)
            } else {
                v@.skip(from as int)
            }),
            2 <= radix <= 16,
            value <= max,
            digits(run.take(i - start), radix as int) == Some(value as int),
        decreases v@.len() - i,
    {
        proof {
            assert(run.take(i - start + 1).drop_last() == run.take(i - start));
            assert(run.take(i - start + 1).last() == v@[i as int]);
            lemma_digits_grow(run, i - start + 1, radix as int);
            lemma_digits_grow(run, i - start, radix as int);
        }
        let d: u64 = match read_digit(v[i], radix) {
            Some(d) => d,
            None => {
                return None;
            },
        };
        proof {
            assert(value * radix <= u64::MAX * 16) by (nonlinear_arith)
                requires
                    value <= u64::MAX,
                    radix <= 16,
            ;
        }
        let next: u128 = (value as u128) * (radix as u128) + (d as u128);
        if next > max as u128 {
            return None;
        }
        value = next as u64;
        i = i + 1;
    }
    assert(run.take(i - start) == run);
    Some(value)
}

/// The character of a digit in a radix of at most 16.
pub open spec fn digit_char(d: int) -> char {
    if d < 10 {
        (d + '0' as int) as char
    } else {
        (d - 10 + 'a' as int) as char
    }
}

/// A number written out in a radix, without leading zeros.
pub open spec fn written(n: int, radix: int) -> Seq<char>
    decreases n,
{
    if n < radix || radix < 2 {
        seq![digit_char(n)]
    } else {
        proof {
            assert(0 <= n / radix < n) by (nonlinear_arith)
                requires
                    n >= radix,
                    radix >= 2,
            ;
        }
        written(n / radix, radix).push(digit_char(n % radix))
    }
}

/// Writes one digit.
fn write_digit(d: u128) -> (r: char)
    requires
        d < 16,
    ensures
        r == digit_char(d as int),
{
    if d < 10 {
        ((d as u8) + 48) as char
    } else {
        ((d as u8) - 10 + 97) as char
    }
}

/// Writes a number out in a radix; see [`written`].
pub fn write_number(n: u128, radix: u128) -> (r: String)
    requires
        2 <= radix <= 16,
    ensures
        r@ == written(n as int, radix as int),
    decreases n,
{
    if n < radix {
        let mut out = String::new();
        out.push(write_digit(n));
        assert(out@ =~= seq![digit_char(n as int)]);
        out
    } else {
        proof {
            assert(n / radix < n) by (nonlinear_arith)
                requires
                    n >= radix,
                    radix >= 2,
            ;
        }
        let mut out = write_number(n / radix, radix);
        out.push(write_digit(n % radix));
        out
    }
}

/// Writes a number out in decimal.
pub fn decimal(n: u64) -> (r: String)
    ensures
        r@ == written(n as int, 10),
{
    write_number(n as u128, 10)
}

/// A written digit reads as itself.
proof fn lemma_digit_reads_back(d: int, radix: int)
    requires
        0 <= d < radix <= 16,
    ensures
        digit(digit_char(d), radix) == Some(d),
{
}

/// A number that is written out reads back as itself.
pub proof fn law_written_reads_back(n: int, radix: int)
    requires
        0 <= n,
        2 <= radix <= 16,
    ensures
        written(n, radix).len() > 0,
        digits(written(n, radix), radix) == Some(n),
    decreases n,
{
    if n < radix {
        lemma_digit_reads_back(n, radix);
        let s = seq![digit_char(n)];
        assert(s.drop_last() =~= Seq::<char>::empty());
        assert(s.last() == digit_char(n));
        assert(digits(s.drop_last(), radix) == Some(0int));
        assert(0 * radix == 0) by (nonlinear_arith);
        assert(digits(s, radix) == Some(0 * radix + n));
    } else {
        assert(0 <= n / radix < n && n == (n / radix) * radix + n % radix && 0 <= n % radix
            < radix) by (nonlinear_arith)
            requires
                n >= radix,
                radix >= 2,
        ;
        law_written_reads_back(n / radix, radix);
        lemma_digit_reads_back(n % radix, radix);
        let s = written(n, radix);
        assert(s.drop_last() =~= written(n / radix, radix));
        assert(s.last() == digit_char(n % radix));
        assert(digits(s, radix) == Some((n / radix) * radix + n % radix));
    }
}

/// Different numbers are written differently.
pub proof fn law_written_tells_apart(a: int, b: int, radix: int)
    requires
        0 <= a,
        0 <= b,
        2 <= radix <= 16,
        written(a, radix) == written(b, radix),
    ensures
        a == b,
{
    law_written_reads_back(a, radix);
    law_written_reads_back(b, radix);
}

/// What a signed decimal number reads as: as an unsigned one, or with a `-` in
/// front of its digits, as long as it fits into 64 bits.
pub open spec fn signed(s: Seq<char>) -> Option<int> {
    if s.len() > 0 && s[0] == '-' {
        match digits(s.skip(1), 10) {
            Some(value) => if s.len() > 1 && value <= 0x8000_0000_0000_0000 {
                Some(-value)
            } else {
                None
            },
            None => None,
        }
    } else {
        unsigned(s, 10, i64::MAX as int)
    }
}

/// Reads a signed decimal number, as its magnitude and whether it is negative;
/// see [`signed`].
pub fn read_signed(v: &Vec<char>) -> (r: Option<(u64, bool)>)
    ensures
        match r {
            Some((magnitude, negative)) => signed(v@) == Some(
                if negative {
                    -(magnitude as int)
                } else {
                    magnitude as int
                },
            ),
            None => signed(v@) is None,
        },
        r matches Some((magnitude, negative)) ==> magnitude <= (if negative {
            0x8000_0000_0000_0000u64
        } else {
            0x7fff_ffff_ffff_ffffu64
        }),
{
    if v.len() > 0 && v[0] == '-' {
        if v.len() > 1 && v[1] == '+' {
            proof {
                lemma_digits_grow(v@.skip(1), 1, 10);
                assert(v@.skip(1).take(1).last() == '+');
                assert(digit('+', 10) is None);
                assert(digits(v@.skip(1).take(1), 10) is None);
            }
            return None;
        }
        match read_unsigned(v, 1, 10, 0x8000_0000_0000_0000) {
            Some(magnitude) => Some((magnitude, true)),
            None => None,
        }
    } else {
        assert(v@.skip(0) =~= v@);
        match read_unsigned(v, 0, 10, 0x7fff_ffff_ffff_ffff) {
            Some(magnitude) => Some((magnitude, false)),
            None => None,
        }
    }
}

/// A power of ten.
pub open spec fn ten(n: int) -> int
    decreases n,
{
    if n <= 0 {
        1
    } else {
        10 * ten(n - 1)
    }
}

/// A power of ten is at least one.
pub proof fn lemma_ten_positive(a: int)
    ensures
        ten(a) >= 1,
    decreases a,
{
    if a > 0 {
        lemma_ten_positive(a - 1);
    }
}

/// Powers of ten grow.
pub proof fn lemma_ten_grows(a: int, b: int)
    requires
        a <= b,
    ensures
        1 <= ten(a) <= ten(b),
    decreases b - a,
{
    lemma_ten_positive(a);
    if a < b {
        lemma_ten_grows(a, b - 1);
        lemma_ten_positive(b - 1);
    }
}

/// A decimal number is less than ten to the number of its digits.
pub proof fn lemma_digits_bound(s: Seq<char>)
    ensures
        digits(s, 10) matches Some(value) ==> 0 <= value < ten(s.len() as int),
    decreases s.len(),
{
    if s.len() > 0 {
        lemma_digits_bound(s.drop_last());
    }
}

/// The digits are those of every writing: `0` to `9`, then the letters from `a` to `f`, large
/// or small, and each is written as the small one.
pub proof fn law_digits_are_the_usual_ones(d: int, radix: int)
    requires
        0 <= d < radix <= 16,
    ensures
        d < 10 ==> digit_char(d) as int == 48 + d && digit((48 + d) as char, radix) == Some(d),
        d >= 10 ==> digit_char(d) as int == 87 + d && digit((87 + d) as char, radix) == Some(d)
            && digit((55 + d) as char, radix) == Some(d),
{
}

/// Characters that are no digits of a radix are not read as any.
pub proof fn law_other_characters_are_no_digits(c: char, radix: int)
    requires
        2 <= radix <= 16,
    ensures
        digit(c, radix) matches Some(d) ==> 0 <= d < radix && (c == digit_char(d) || (d >= 10
            && c as int == 55 + d)),
{
}

/// A number is read by its digits, each worth as much as all behind it and one more: one more
/// digit at the end makes it so many times larger, and adds its own value.
pub proof fn law_digits_are_worth_their_place(s: Seq<char>, c: char, radix: int)
    requires
        2 <= radix <= 16,
        digits(s, radix) is Some,
        digit(c, radix) is Some,
    ensures
        digits(s.push(c), radix) == Some(digits(s, radix)->0 * radix + digit(c, radix)->0),
        digits(Seq::empty(), radix) == Some(0int),
{
    assert(s.push(c).drop_last() =~= s);
}

/// What is written for a number of the largest size or less is read back as it, with a sign in
/// front of it or without; what is larger is refused.
pub proof fn law_numbers_up_to_the_largest_are_read(n: int, radix: int, max: int)
    requires
        0 <= n,
        2 <= radix <= 16,
    ensures
        unsigned(written(n, radix), radix, max) == (if n <= max {
            Some(n)
        } else {
            None
        }),
        unsigned(seq!['+'] + written(n, radix), radix, max) == (if n <= max {
            Some(n)
        } else {
            None
        }),
        unsigned(Seq::empty(), radix, max) is None,
{
    law_written_reads_back(n, radix);
    let w = written(n, radix);
    assert((seq!['+'] + w).skip(1) =~= w);
    lemma_written_first(n, radix);
}

proof fn lemma_written_first(n: int, radix: int)
    requires
        0 <= n,
        2 <= radix <= 16,
    ensures
        written(n, radix).len() > 0,
        written(n, radix)[0] != '+',
        written(n, radix)[0] != '-',
    decreases n,
{
    if n >= radix {
        assert(0 <= n / radix < n) by (nonlinear_arith)
            requires
                n >= radix,
                radix >= 2,
        ;
        lemma_written_first(n / radix, radix);
    }
}

/// A number with a minus in front of it is the negative of what it is without, down to the
/// smallest there is.
pub proof fn law_a_minus_negates(n: int)
    requires
        0 <= n,
    ensures
        signed(seq!['-'] + written(n, 10)) == (if n <= 0x8000_0000_0000_0000 {
            Some(-n)
        } else {
            None
        }),
        signed(written(n, 10)) == (if n <= 0x7fff_ffff_ffff_ffff {
            Some(n)
        } else {
            None
        }),
{
    law_written_reads_back(n, 10);
    let w = written(n, 10);
    assert((seq!['-'] + w).skip(1) =~= w);
    lemma_written_first(n, 10);
}

/// A power of ten is ten times the one before it.
pub proof fn law_powers_of_ten(n: int)
    requires
        n >= 0,
    ensures
        ten(0) == 1,
        ten(n + 1) == 10 * ten(n),
{
}

} // verus!
